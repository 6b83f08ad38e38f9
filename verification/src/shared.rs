use vstd::prelude::*;

use std::rc::Rc;
use std::sync::Arc;

use crate::error::{CommonError, ErrorType};

verus! {

/// Something that can hand out a copy of itself.
pub trait ELearnTrait: Sized {
    fn clone_me(&self) -> Self;
}

/// A learner without state.
#[derive(Clone, Copy)]
pub struct ELearner {}

/// A value shared either within one thread (`Rc`) or across threads (`Arc`).
pub enum CommonRc<T> {
    RustRc(Rc<T>),
    RustArc(Arc<T>),
}

/// std's `Rc::clone`: a new handle to the same value.
#[verifier::external_body]
fn rc_clone<T>(rc: &Rc<T>) -> (r: Rc<T>)
    ensures
        r == *rc,
{
    Rc::clone(rc)
}

/// std's `Arc::clone`: a new handle to the same value.
#[verifier::external_body]
fn arc_clone<T>(arc: &Arc<T>) -> (r: Arc<T>)
    ensures
        r == *arc,
{
    Arc::clone(arc)
}

impl<T> CommonRc<T> {
    /// Whether the value is shared across threads.
    pub open spec fn is_atomic(&self) -> bool {
        *self is RustArc
    }

    /// The shared value.
    pub open spec fn target(&self) -> T {
        match *self {
            CommonRc::RustRc(v) => *v,
            CommonRc::RustArc(v) => *v,
        }
    }

    /// Shares `value` within one thread.
    pub fn new_rc(value: T) -> (r: CommonRc<T>)
        ensures
            !r.is_atomic(),
            r.target() == value,
    {
        CommonRc::RustRc(Rc::new(value))
    }

    /// Shares `value` across threads.
    pub fn new_arc(value: T) -> (r: CommonRc<T>)
        ensures
            r.is_atomic(),
            r.target() == value,
    {
        CommonRc::RustArc(Arc::new(value))
    }

    /// Shares `value` across threads when `atomic` holds, within one thread
    /// otherwise.
    pub fn new_shared(value: T, atomic: bool) -> (r: CommonRc<T>)
        ensures
            r.is_atomic() == atomic,
            r.target() == value,
    {
        if atomic {
            CommonRc::new_arc(value)
        } else {
            CommonRc::new_rc(value)
        }
    }

    /// The `Arc` of a value shared across threads; a value shared within one
    /// thread gives a parsing error without message or cause.
    pub fn require_arc(self) -> (r: Result<Arc<T>, CommonError>)
        ensures
            self.is_atomic() ==> (r matches Ok(a) && *a == self.target()),
            !self.is_atomic() ==> (r matches Err(e) && e.kind() == ErrorType::ParingError
                && e.message() == Seq::<char>::empty() && e.origin() is None),
    {
        match self {
            CommonRc::RustArc(e) => Ok(e),
            CommonRc::RustRc(_) => Err(CommonError::new(ErrorType::ParingError, None, None)),
        }
    }

    /// The shared value (what `Deref` gives).
    pub fn get(&self) -> (r: &T)
        ensures
            *r == self.target(),
    {
        match self {
            CommonRc::RustRc(value) => &**value,
            CommonRc::RustArc(value) => &**value,
        }
    }
}

impl<T> Clone for CommonRc<T> {
    /// Another handle of the same kind to the same value.
    fn clone(&self) -> (r: Self)
        ensures
            r.is_atomic() == self.is_atomic(),
            r.target() == self.target(),
    {
        match self {
            CommonRc::RustRc(value) => CommonRc::RustRc(rc_clone(value)),
            CommonRc::RustArc(value) => CommonRc::RustArc(arc_clone(value)),
        }
    }
}

impl<T> std::ops::Deref for CommonRc<T> {
    type Target = T;

    fn deref(&self) -> (r: &T)
        ensures
            *r == self.target(),
    {
        self.get()
    }
}

/// The state that a demo shares with its workers.
pub struct DemoInner {
    value: String,
}

impl DemoInner {
    /// The text the state holds.
    pub closed spec fn text(&self) -> Seq<char> {
        self.value@
    }

    pub fn new(value: String) -> (r: DemoInner)
        ensures
            r.text() == value@,
    {
        DemoInner { value }
    }
}

/// A value that a demo worker prints.
#[derive(Clone)]
pub struct ABC {
    value: String,
}

impl ABC {
    /// The text the value holds.
    pub closed spec fn text(&self) -> Seq<char> {
        self.value@
    }

    pub fn new(str: String) -> (r: Self)
        ensures
            r.text() == str@,
    {
        ABC { value: str }
    }

    /// The text that `print` writes.
    pub fn value(&self) -> (r: &String)
        ensures
            r@ == self.text(),
    {
        &self.value
    }
}

/// Loads resources from the network (see the program's `test_load`).
pub struct ResLoader {}

} // verus!
