# emotions

A desktop sticker (animated GIF) picker: type keywords, get a grid of
stickers from an image search service, click one to put it on the clipboard.

- `src/` is the verified library (Verus): the search query and its paging
  (`query`), the search URL, the size check before a download and the
  reading of the search answer (`finder`), the JSON document model (`json`),
  decimal and percent-encoded text (`text`), the error values (`error`), the
  shared-value helper and small demo types (`shared`), and the grid layout
  of the results (`ui`).
- `app/` is the program around it: HTTP requests with `reqwest`, the GTK 4
  window, files under `emo_res/`, and the Windows clipboard.
- `tests/` runs the library on concrete values.
