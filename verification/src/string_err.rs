use vstd::prelude::*;

verus! {

/// An error that carries nothing but its message.
#[derive(Debug)]
pub struct StringErr(String);

impl View for StringErr {
    type V = Seq<char>;

    /// The message.
    closed spec fn view(&self) -> Seq<char> {
        self.0@
    }
}

impl StringErr {
    /// An error with the given message.
    pub fn new(s: String) -> (e: Self)
        ensures
            e@ == s@,
    {
        Self(s)
    }

    /// The message, as the error displays it.
    pub fn message(&self) -> (s: String)
        ensures
            s@ == self@,
    {
        self.0.clone()
    }
}

impl Clone for StringErr {
    fn clone(&self) -> (e: Self)
        ensures
            e@ == self@,
    {
        Self(self.0.clone())
    }
}

}
