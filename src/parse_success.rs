//! Data carried by a successful parsing state.
use vstd::prelude::*;

verus! {

/// A successful parse: the position reached in the input and the value produced.
pub struct ParseSuccess<S, T> {
    pub stream: S,
    pub data: T,
}

impl<S, T> ParseSuccess<S, T> {
    pub fn new(stream: S, data: T) -> (r: ParseSuccess<S, T>)
        ensures
            r.stream == stream,
            r.data == data,
    {
        ParseSuccess { stream, data }
    }

    /// Maps `op` over the carried value while keeping the position unchanged.
    pub fn map<U, F: FnOnce(T) -> U>(self, op: F) -> (r: ParseSuccess<S, U>)
        requires
            op.requires((self.data,)),
        ensures
            r.stream == self.stream,
            op.ensures((self.data,), r.data),
    {
        ParseSuccess { stream: self.stream, data: op(self.data) }
    }
}

impl<S> ParseSuccess<S, ()> {
    /// A success that carries no value.
    pub fn stateless(stream: S) -> (r: ParseSuccess<S, ()>)
        ensures
            r.stream == stream,
            r.data == (),
    {
        ParseSuccess::new(stream, ())
    }
}

} // verus!
