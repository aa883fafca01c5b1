use crate::buffer::JsonBuffer;
use crate::decimal::{format_signed, format_unsigned, int_text};
use crate::escape::{char_needs_escape, escape_free, escape_str, lemma_escape_free_unchanged, quoted};
use vstd::prelude::*;
use vstd::std_specs::iter::IteratorSpec;

verus! {

/// The text of the JSON literal `null`.
pub open spec fn null_text() -> Seq<char> {
    seq!['n', 'u', 'l', 'l']
}

/// The text of the JSON literals `true` and `false`.
pub open spec fn bool_text(b: bool) -> Seq<char> {
    if b {
        seq!['t', 'r', 'u', 'e']
    } else {
        seq!['f', 'a', 'l', 's', 'e']
    }
}

/// A value that is able to be written directly into JSON.
pub trait WriteToJson<S: JsonBuffer>: Sized {
    /// The JSON token of the value.
    spec fn json_text(&self) -> Seq<char>;

    /// Appends the value's token to `out`, and nothing else.
    fn write_to_json(self, out: &mut S)
        ensures
            final(out).text() == old(out).text() + self.json_text(),
    ;
}

impl<S: JsonBuffer> WriteToJson<S> for u8 {
    open spec fn json_text(&self) -> Seq<char> {
        int_text(*self as int)
    }

    #[inline(always)]
    fn write_to_json(self, out: &mut S) {
        let mut int_buf = itoa::Buffer::new();
        out.push_str(format_unsigned(&mut int_buf, self as u64));
    }
}

impl<S: JsonBuffer> WriteToJson<S> for u16 {
    open spec fn json_text(&self) -> Seq<char> {
        int_text(*self as int)
    }

    #[inline(always)]
    fn write_to_json(self, out: &mut S) {
        let mut int_buf = itoa::Buffer::new();
        out.push_str(format_unsigned(&mut int_buf, self as u64));
    }
}

impl<S: JsonBuffer> WriteToJson<S> for u32 {
    open spec fn json_text(&self) -> Seq<char> {
        int_text(*self as int)
    }

    #[inline(always)]
    fn write_to_json(self, out: &mut S) {
        let mut int_buf = itoa::Buffer::new();
        out.push_str(format_unsigned(&mut int_buf, self as u64));
    }
}

impl<S: JsonBuffer> WriteToJson<S> for u64 {
    open spec fn json_text(&self) -> Seq<char> {
        int_text(*self as int)
    }

    #[inline(always)]
    fn write_to_json(self, out: &mut S) {
        let mut int_buf = itoa::Buffer::new();
        out.push_str(format_unsigned(&mut int_buf, self));
    }
}

impl<S: JsonBuffer> WriteToJson<S> for i8 {
    open spec fn json_text(&self) -> Seq<char> {
        int_text(*self as int)
    }

    #[inline(always)]
    fn write_to_json(self, out: &mut S) {
        let mut int_buf = itoa::Buffer::new();
        out.push_str(format_signed(&mut int_buf, self as i64));
    }
}

impl<S: JsonBuffer> WriteToJson<S> for i16 {
    open spec fn json_text(&self) -> Seq<char> {
        int_text(*self as int)
    }

    #[inline(always)]
    fn write_to_json(self, out: &mut S) {
        let mut int_buf = itoa::Buffer::new();
        out.push_str(format_signed(&mut int_buf, self as i64));
    }
}

impl<S: JsonBuffer> WriteToJson<S> for i32 {
    open spec fn json_text(&self) -> Seq<char> {
        int_text(*self as int)
    }

    #[inline(always)]
    fn write_to_json(self, out: &mut S) {
        let mut int_buf = itoa::Buffer::new();
        out.push_str(format_signed(&mut int_buf, self as i64));
    }
}

impl<S: JsonBuffer> WriteToJson<S> for i64 {
    open spec fn json_text(&self) -> Seq<char> {
        int_text(*self as int)
    }

    #[inline(always)]
    fn write_to_json(self, out: &mut S) {
        let mut int_buf = itoa::Buffer::new();
        out.push_str(format_signed(&mut int_buf, self));
    }
}

impl<S: JsonBuffer> WriteToJson<S> for &str {
    open spec fn json_text(&self) -> Seq<char> {
        quoted(self@)
    }

    #[inline(always)]
    fn write_to_json(self, out: &mut S) {
        out.push('"');
        escape_str(self, out);
        out.push('"');
        assert(out.text() =~= old(out).text() + quoted(self@));
    }
}

impl<S: JsonBuffer> WriteToJson<S> for bool {
    open spec fn json_text(&self) -> Seq<char> {
        bool_text(*self)
    }

    #[inline(always)]
    fn write_to_json(self, out: &mut S) {
        proof {
            reveal_strlit("true");
            reveal_strlit("false");
            assert("true"@ =~= bool_text(true));
            assert("false"@ =~= bool_text(false));
        }
        match self {
            true => out.push_str("true"),
            false => out.push_str("false"),
        }
    }
}

/// The JSON null value!
pub struct Null;

impl<S: JsonBuffer> WriteToJson<S> for () {
    open spec fn json_text(&self) -> Seq<char> {
        null_text()
    }

    #[inline(always)]
    fn write_to_json(self, out: &mut S) {
        proof {
            reveal_strlit("null");
            assert("null"@ =~= null_text());
        }
        out.push_str("null")
    }
}

impl<S: JsonBuffer> WriteToJson<S> for Null {
    open spec fn json_text(&self) -> Seq<char> {
        null_text()
    }

    #[inline(always)]
    fn write_to_json(self, out: &mut S) {
        proof {
            reveal_strlit("null");
            assert("null"@ =~= null_text());
        }
        out.push_str("null")
    }
}

impl<S: JsonBuffer, T: Copy + WriteToJson<S>> WriteToJson<S> for &T {
    open spec fn json_text(&self) -> Seq<char> {
        (**self).json_text()
    }

    fn write_to_json(self, out: &mut S) {
        (*self).write_to_json(out)
    }
}

/// The text of a JSON value that was formatted elsewhere, such as a number
/// with a fraction. It is written as it is, without quotes: that it is one
/// JSON value is up to whoever made it.
pub struct Preformatted<'a>(&'a str);

impl<'a> View for Preformatted<'a> {
    type V = Seq<char>;

    closed spec fn view(&self) -> Seq<char> {
        self.0@
    }
}

impl<'a> Preformatted<'a> {
    /// Wraps the text of one JSON value.
    #[inline(always)]
    pub fn create(val: &'a str) -> (r: Preformatted<'a>)
        ensures
            r@ == val@,
    {
        Preformatted(val)
    }
}

impl<'a, S: JsonBuffer> WriteToJson<S> for Preformatted<'a> {
    open spec fn json_text(&self) -> Seq<char> {
        self@
    }

    #[inline(always)]
    fn write_to_json(self, out: &mut S) {
        out.push_str(self.0);
    }
}

/// A string that will *not* have escapes applied to it. It can only be made
/// from text in which nothing needs escaping.
pub struct UnescapedStr<'a>(&'a str);

impl<'a> View for UnescapedStr<'a> {
    type V = Seq<char>;

    closed spec fn view(&self) -> Seq<char> {
        self.0@
    }
}

impl<'a> UnescapedStr<'a> {
    #[verifier::type_invariant]
    spec fn holds_nothing_to_escape(self) -> bool {
        escape_free(self.0@)
    }

    /// Whether `val` can be wrapped: whether none of its characters needs escaping.
    pub fn accepts(val: &str) -> (ok: bool)
        ensures
            ok == escape_free(val@),
    {
        broadcast use vstd::string::group_string_axioms;

        let ghost mut done: Seq<char> = Seq::empty();
        let mut it = val.chars();
        loop
            invariant
                it.obeys_prophetic_iter_laws(),
                done + it.remaining() == val@,
                escape_free(done),
                it.decrease() is Some,
            decreases it.decrease()->0,
        {
            let ghost rest = it.remaining();
            match it.next() {
                Some(c) => {
                    proof {
                        assert(done.push(c) + rest.drop_first() =~= done + rest);
                    }
                    if char_needs_escape(c) {
                        assert(val@[done.len() as int] == c);
                        return false;
                    }
                    proof {
                        done = done.push(c);
                    }
                },
                None => {
                    assert(done + rest =~= done);
                    return true;
                },
            }
        }
    }

    /// Wraps text that is known to need no escaping.
    #[inline(always)]
    pub fn create(val: &'a str) -> (r: UnescapedStr<'a>)
        requires
            escape_free(val@),
        ensures
            r@ == val@,
    {
        UnescapedStr(val)
    }

}

/// Text in which nothing needs escaping, put between quotes as it is, is the
/// JSON string literal of that text: skipping the escaping changes nothing.
pub proof fn lemma_unescaped_is_string_literal(s: Seq<char>)
    requires
        escape_free(s),
    ensures
        seq!['"'] + s + seq!['"'] == quoted(s),
{
    lemma_escape_free_unchanged(s);
}

impl<'a, S: JsonBuffer> WriteToJson<S> for UnescapedStr<'a> {
    open spec fn json_text(&self) -> Seq<char> {
        seq!['"'] + self@ + seq!['"']
    }

    #[inline(always)]
    fn write_to_json(self, out: &mut S) {
        out.push('"');
        out.push_str(self.0);
        out.push('"');
        assert(out.text() =~= old(out).text() + (seq!['"'] + self@ + seq!['"']));
    }
}

} // verus!
