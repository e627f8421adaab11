use vstd::prelude::*;

verus! {

/// A constant-pool entry: an opaque scalar carried by its textual rendering.
/// The core stores values and prints them; it never computes with them, so
/// the rendering is all it needs to hold. Identity is by pool index, not by
/// value equality, and duplicates are permitted.
#[derive(Debug)]
pub struct Value {
    pub text: String,
}

impl View for Value {
    type V = Seq<char>;

    open spec fn view(&self) -> Seq<char> {
        self.text@
    }
}

impl Clone for Value {
    fn clone(&self) -> (r: Value)
        ensures
            r == *self,
    {
        Value { text: self.text.clone() }
    }
}

/// The renderings of a sequence of values, element by element.
pub open spec fn views_of(s: Seq<Value>) -> Seq<Seq<char>> {
    s.map(|i: int, v: Value| v@)
}

} // verus!
