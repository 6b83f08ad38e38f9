use vstd::prelude::*;
use vstd::string::StringExecFns;

verus! {

/// The number of columns of the sticker grid.
pub const GRID_COLUMNS: usize = 3;

/// The grid cell (column, row) of the sticker at `index` of a result page
/// whose first row is `first_row`, as the program computes it: the row of
/// the index is cast to `i32` first.
pub open spec fn grid_cell(index: usize, first_row: i32) -> (int, int) {
    ((index % 3) as int, ((index / 3) as i32) as int + first_row)
}

/// Where the sticker at `index` of a result page goes: three stickers a
/// row, rows counted from `first_row`.
pub fn grid_position(index: usize, first_row: i32) -> (r: (i32, i32))
    requires
        i32::MIN <= ((index / 3) as i32) as int + first_row <= i32::MAX,
    ensures
        (r.0 as int, r.1 as int) == grid_cell(index, first_row),
        r.0 as int == index as int % 3,
{
    let column: i32 = (index % 3) as i32;
    let row: i32 = (index / 3) as i32;
    (column, row + first_row)
}

/// The layout law of the grid: every sticker lands in one of the three
/// columns, three consecutive stickers share a row, and two stickers of a
/// page never share a cell (for pages of fewer than `3 * 2^31` stickers).
pub proof fn lemma_grid_cells_distinct(i: usize, j: usize, first_row: i32)
    requires
        i != j,
        i / 3 <= i32::MAX,
        j / 3 <= i32::MAX,
    ensures
        0 <= grid_cell(i, first_row).0 < 3,
        grid_cell(i, first_row).1 == (i / 3) as int + first_row,
        grid_cell(i, first_row) != grid_cell(j, first_row),
{
}

/// Reading-order law of the grid: the stickers fill the grid left to right,
/// three to a row, row after row from the first row. The sticker at index
/// `i` sits in column `i % 3`; the first sticker sits at the left of the
/// first row; the next sticker sits one column to the right in the same row,
/// or, after the third column, at the left of the next row.
pub proof fn lemma_grid_reading_order(i: usize, first_row: i32)
    requires
        i < usize::MAX,
        (i + 1) / 3 <= i32::MAX,
    ensures
        grid_cell(i, first_row).0 == i % 3,
        grid_cell(0, first_row) == (0int, first_row as int),
        grid_cell(i, first_row).0 < 2 ==> grid_cell((i + 1) as usize, first_row) == (
            grid_cell(i, first_row).0 + 1,
            grid_cell(i, first_row).1,
        ),
        grid_cell(i, first_row).0 == 2 ==> grid_cell((i + 1) as usize, first_row) == (
            0int,
            grid_cell(i, first_row).1 + 1,
        ),
{
}

/// The stickers that loaded, in the order they were asked for, each with its
/// URL; the others are dropped.
pub open spec fn loaded<T>(results: Seq<(String, Option<T>)>) -> Seq<(String, T)>
    decreases results.len(),
{
    if results.len() == 0 {
        Seq::<(String, T)>::empty()
    } else {
        let rest = loaded(results.drop_first());
        match results[0].1 {
            Some(t) => seq![(results[0].0, t)] + rest,
            None => rest,
        }
    }
}

/// Whether a load result holds a sticker.
pub open spec fn did_load<T>(entry: (String, Option<T>)) -> bool {
    entry.1 is Some
}

/// The loaded sticker of a result that holds one, with its URL.
pub open spec fn loaded_entry<T>(entry: (String, Option<T>)) -> (String, T) {
    (entry.0, entry.1->0)
}

proof fn lemma_loaded_single<T>(x: (String, Option<T>))
    ensures
        loaded(seq![x]) == (if x.1 is Some {
            seq![(x.0, x.1->0)]
        } else {
            Seq::<(String, T)>::empty()
        }),
{
    assert(seq![x].drop_first() =~= Seq::<(String, Option<T>)>::empty());
    assert(loaded(Seq::<(String, Option<T>)>::empty()) == Seq::<(String, T)>::empty());
    assert(seq![x][0] == x);
    if x.1 is Some {
        assert(seq![(x.0, x.1->0)] + Seq::<(String, T)>::empty() =~= seq![(x.0, x.1->0)]);
    }
}

/// Keeping-law of the loads, over all result lists: keeping the loaded
/// stickers of two lists one after the other gives the loaded stickers of
/// the two lists joined; a single result is kept exactly when it holds a
/// sticker; nothing is kept of no results. So every loaded sticker is kept,
/// once, in the order asked for, and no other is.
pub proof fn lemma_loaded_keeps_every_load<T>(a: Seq<(String, Option<T>)>, b: Seq<(String, Option<T>)>, x: (String, Option<T>))
    ensures
        loaded(a + b) == loaded(a) + loaded(b),
        loaded(seq![x]) == (if x.1 is Some {
            seq![(x.0, x.1->0)]
        } else {
            Seq::<(String, T)>::empty()
        }),
        loaded(Seq::<(String, Option<T>)>::empty()) == Seq::<(String, T)>::empty(),
        loaded(a) == a.filter(|e: (String, Option<T>)| did_load(e)).map_values(
            |e: (String, Option<T>)| loaded_entry(e),
        ),
{
    lemma_loaded_single(x);
    lemma_loaded_concat(a, b);
    lemma_loaded_filter(a);
    assert(loaded(Seq::<(String, Option<T>)>::empty()) == Seq::<(String, T)>::empty());
}

proof fn lemma_loaded_filter<T>(a: Seq<(String, Option<T>)>)
    ensures
        loaded(a) == a.filter(|e: (String, Option<T>)| did_load(e)).map_values(
            |e: (String, Option<T>)| loaded_entry(e),
        ),
    decreases a.len(),
{
    let f = |e: (String, Option<T>)| did_load(e);
    let g = |e: (String, Option<T>)| loaded_entry(e);
    if a.len() == 0 {
        a.lemma_filter_len(f);
        assert(a.filter(f) =~= Seq::<(String, Option<T>)>::empty());
        assert(a.filter(f).map_values(g) =~= loaded(a));
    } else {
        let front = a.drop_last();
        let last = a.last();
        lemma_loaded_filter(front);
        assert(a =~= front + seq![last]);
        lemma_loaded_concat(front, seq![last]);
        lemma_loaded_single(last);
        front.lemma_filter_push(last, f);
        assert(front.push(last) =~= a);
        if did_load(last) {
            assert(front.filter(f).push(last).map_values(g) =~= front.filter(f).map_values(g).push(g(last)));
            assert(loaded(front) + seq![(last.0, last.1->0)] =~= loaded(front).push((last.0, last.1->0)));
        } else {
            assert(loaded(front) + Seq::<(String, T)>::empty() =~= loaded(front));
        }
    }
}

proof fn lemma_loaded_concat<T>(a: Seq<(String, Option<T>)>, b: Seq<(String, Option<T>)>)
    ensures
        loaded(a + b) == loaded(a) + loaded(b),
    decreases a.len(),
{
    if a.len() == 0 {
        assert(a + b =~= b);
        assert(loaded(a) + loaded(b) =~= loaded(b));
    } else {
        lemma_loaded_concat(a.drop_first(), b);
        assert((a + b).drop_first() =~= a.drop_first() + b);
        assert((a + b)[0] == a[0]);
        if a[0].1 is Some {
            assert(seq![(a[0].0, a[0].1->0)] + loaded(a.drop_first()) + loaded(b) =~= seq![(a[0].0, a[0].1->0)] + (loaded(a.drop_first()) + loaded(b)));
        } else {
        }
    }
}

/// Keeps the stickers that loaded, in order, with their URLs.
pub fn successful_loads<T>(results: Vec<(String, Option<T>)>) -> (r: Vec<(String, T)>)
    ensures
        r@ == loaded(results@),
        r@ == results@.filter(|e: (String, Option<T>)| did_load(e)).map_values(
            |e: (String, Option<T>)| loaded_entry(e),
        ),
{
    let ghost all = results@;
    proof {
        lemma_loaded_filter(all);
    }
    let mut rest = results;
    let mut kept: Vec<(String, T)> = Vec::new();
    while rest.len() > 0
        invariant
            kept@ + loaded(rest@) == loaded(all),
        decreases rest@.len(),
    {
        let ghost before = rest@;
        let (url, result) = rest.remove(0);
        assert(rest@ =~= before.drop_first());
        match result {
            Some(t) => {
                let ghost kept_before = kept@;
                kept.push((url, t));
                assert(kept@ + loaded(rest@) =~= kept_before + loaded(before));
            },
            None => {},
        }
    }
    assert(kept@ + loaded(rest@) =~= kept@);
    kept
}

/// The size in bytes of the clipboard payload that lists one file: the
/// `DROPFILES` header, the path in UTF-16 code units, the path's terminating
/// null code unit and the null code unit that ends the list (two bytes each).
pub fn drop_files_size(header_size: usize, path_units: usize) -> (r: usize)
    requires
        header_size + path_units * 2 + 4 <= usize::MAX,
    ensures
        r == header_size + path_units * 2 + 4,
{
    header_size + path_units * 2 + 4
}

/// Lines joined by `\n`, with no newline at the end.
pub open spec fn join_lines(lines: Seq<Seq<char>>) -> Seq<char>
    decreases lines.len(),
{
    if lines.len() == 0 {
        Seq::<char>::empty()
    } else if lines.len() == 1 {
        lines[0]
    } else {
        join_lines(lines.drop_last()) + seq!['\n'] + lines.last()
    }
}

/// Whether a text has the shape of a `file` URL on one line: it starts with
/// `file://` and holds no newline.
pub open spec fn file_url_line(u: Seq<char>) -> bool {
    &&& u.len() >= 7
    &&& u.subrange(0, 7) == "file://"@
    &&& !u.contains('\n')
}

/// `reqwest::Url::from_file_path(path)` written as text (`to_string`): a
/// `file://` URL whose path components are percent-encoded, so that it holds
/// no newline; `None` when `url` refuses the path (it refuses a path that is
/// not absolute, and what that means depends on the operating system, so the
/// contract does not say when it succeeds).
#[verifier::external_body]
fn file_url(path: &str) -> (r: Option<String>)
    ensures
        r matches Some(u) ==> file_url_line(u@),
{
    reqwest::Url::from_file_path(path).ok().map(|u| u.to_string())
}

/// The `text/uri-list` payload of a list of file URLs: the URLs joined by
/// newlines.
pub fn uri_list(file_urls: &Vec<String>) -> (r: String)
    requires
        file_urls@.len() > 0,
    ensures
        r@ == join_lines(file_urls@.map_values(|u: String| u@)),
{
    let ghost lines = file_urls@.map_values(|u: String| u@);
    let mut text = file_urls[0].clone();
    let mut i: usize = 1;
    assert(lines.take(1).drop_last() =~= Seq::<Seq<char>>::empty());
    while i < file_urls.len()
        invariant
            1 <= i <= file_urls@.len(),
            lines == file_urls@.map_values(|u: String| u@),
            text@ == join_lines(lines.take(i as int)),
        decreases file_urls@.len() - i,
    {
        crate::text::push_char(&mut text, '\n');
        text.append(file_urls[i].as_str());
        assert(lines.take(i + 1).drop_last() =~= lines.take(i as int));
        i = i + 1;
    }
    assert(lines.take(i as int) =~= lines);
    text
}

/// The `text/uri-list` payload for a list of (canonical) file paths: each
/// path as a `file` URL, joined by newlines. `None` where the program has no
/// payload to give: for an empty list, or when a path cannot be made a URL.
pub fn generate_uri_list(paths: &Vec<String>) -> (r: Option<String>)
    ensures
        paths@.len() == 0 ==> r is None,
        r matches Some(t) ==> exists|urls: Seq<Seq<char>>|
            {
                &&& urls.len() == paths@.len()
                &&& forall|i: int| 0 <= i < urls.len() ==> file_url_line(#[trigger] urls[i])
                &&& t@ == join_lines(urls)
            },
{
    if paths.len() == 0 {
        return None;
    }
    let mut urls: Vec<String> = Vec::new();
    let mut i: usize = 0;
    while i < paths.len()
        invariant
            i <= paths@.len(),
            urls@.len() == i,
            forall|k: int| 0 <= k < i ==> file_url_line(#[trigger] urls@[k]@),
        decreases paths@.len() - i,
    {
        match file_url(paths[i].as_str()) {
            Some(u) => urls.push(u),
            None => return None,
        }
        i = i + 1;
    }
    let text = uri_list(&urls);
    let ghost lines = urls@.map_values(|u: String| u@);
    assert forall|k: int| 0 <= k < lines.len() implies file_url_line(#[trigger] lines[k]) by {
        assert(lines[k] == urls@[k]@);
    }
    Some(text)
}

} // verus!
