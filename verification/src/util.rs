//! Utility layer: name-keyed storage, logging, conversions, timing and
//! directory bookkeeping shared by the rest of the runtime.

use vstd::prelude::*;

pub mod convert;
pub mod dir;
pub mod fps;
pub mod io;
pub mod logging;
pub mod math;
pub mod storage;
pub mod xml;

verus! {

/// Relies on std::rc::Rc::clone: a clone of a shared handle refers to the
/// same value. vstd specifies Rc::new and dereferencing but not clone.
#[verifier::external_body]
pub(crate) fn rc_clone<T>(v: &std::rc::Rc<T>) -> (r: std::rc::Rc<T>)
    ensures
        r == *v,
{
    std::rc::Rc::clone(v)
}

/// Error type surfaced by the runtime where an operation cannot be
/// completed; carries a plain message.
#[derive(Debug)]
pub enum GameError {
    Simple(String),
}

impl GameError {
    /// The human-readable message carried by this error.
    pub fn message(&self) -> (r: &String)
        ensures
            r@ == self.spec_message(),
    {
        match self {
            GameError::Simple(msg) => msg,
        }
    }

    pub open spec fn spec_message(&self) -> Seq<char> {
        match self {
            GameError::Simple(msg) => msg@,
        }
    }
}

} // verus!
