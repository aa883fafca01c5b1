use vstd::prelude::*;

verus! {

/// Any append-only text sink that JSON may be written into.
///
/// The serializer never reads a buffer back: every contract of this crate
/// speaks of `text`, the characters appended so far.
pub trait JsonBuffer {
    /// The characters that the buffer holds, in the order they were appended.
    spec fn text(&self) -> Seq<char>;

    /// Appends one character.
    fn push(&mut self, c: char)
        ensures
            final(self).text() == old(self).text().push(c),
    ;

    /// Appends a run of text.
    fn push_str(&mut self, s: &str)
        ensures
            final(self).text() == old(self).text() + s@,
    ;

    /// Hints that about `l` more characters are coming. The contents do not change.
    fn reserve(&mut self, l: usize)
        ensures
            final(self).text() == old(self).text(),
    ;
}

/// `String::push`: the string afterwards is the string before with `c` at its end.
#[verifier::external_body]
fn string_push(s: &mut String, c: char)
    ensures
        final(s)@ == old(s)@.push(c),
{
    s.push(c)
}

/// `String::push_str`: the string afterwards is the string before followed by `t`.
#[verifier::external_body]
fn string_push_str(s: &mut String, t: &str)
    ensures
        final(s)@ == old(s)@ + t@,
{
    s.push_str(t)
}

/// `String::try_reserve`: whether or not room could be made, the contents stay
/// as they were. The outcome is dropped, since reserving is only a hint.
#[verifier::external_body]
fn string_try_reserve(s: &mut String, l: usize)
    ensures
        final(s)@ == old(s)@,
{
    let _ = s.try_reserve(l);
}

impl JsonBuffer for String {
    open spec fn text(&self) -> Seq<char> {
        self@
    }

    #[inline(always)]
    fn push(&mut self, c: char) {
        string_push(self, c)
    }

    #[inline(always)]
    fn push_str(&mut self, s: &str) {
        string_push_str(self, s)
    }

    #[inline(always)]
    fn reserve(&mut self, l: usize) {
        string_try_reserve(self, l)
    }
}

} // verus!
