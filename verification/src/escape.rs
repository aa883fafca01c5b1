use crate::buffer::JsonBuffer;
use vstd::prelude::*;
use vstd::std_specs::iter::IteratorSpec;

verus! {

/// The lower-case hexadecimal digit for `n`, where `0 <= n < 16`.
pub open spec fn hex_digit(n: int) -> char {
    if n == 0 {
        '0'
    } else if n == 1 {
        '1'
    } else if n == 2 {
        '2'
    } else if n == 3 {
        '3'
    } else if n == 4 {
        '4'
    } else if n == 5 {
        '5'
    } else if n == 6 {
        '6'
    } else if n == 7 {
        '7'
    } else if n == 8 {
        '8'
    } else if n == 9 {
        '9'
    } else if n == 10 {
        'a'
    } else if n == 11 {
        'b'
    } else if n == 12 {
        'c'
    } else if n == 13 {
        'd'
    } else if n == 14 {
        'e'
    } else {
        'f'
    }
}

/// Whether `c` may not stand as it is inside a JSON string: the quote, the
/// backslash and the control characters.
pub open spec fn needs_escape(c: char) -> bool {
    c == '"' || c == '\\' || (c as u32) < 0x20
}

/// Whether no character of `s` needs escaping.
pub open spec fn escape_free(s: Seq<char>) -> bool {
    forall|i: int| 0 <= i < s.len() ==> !needs_escape(#[trigger] s[i])
}

/// What stands for `c` inside a JSON string: a two-character escape where JSON
/// has one, `\u00XX` for the other control characters, and `c` itself otherwise.
pub open spec fn escape_char(c: char) -> Seq<char> {
    if c == '"' {
        seq!['\\', '"']
    } else if c == '\\' {
        seq!['\\', '\\']
    } else if c == '\u{08}' {
        seq!['\\', 'b']
    } else if c == '\t' {
        seq!['\\', 't']
    } else if c == '\n' {
        seq!['\\', 'n']
    } else if c == '\u{0c}' {
        seq!['\\', 'f']
    } else if c == '\r' {
        seq!['\\', 'r']
    } else if (c as u32) < 0x20 {
        seq!['\\', 'u', '0', '0', hex_digit((c as u32 / 16) as int), hex_digit((c as u32 % 16) as int)]
    } else {
        seq![c]
    }
}

/// The body of the JSON string literal for `s`: each character replaced by
/// what stands for it, in order.
pub open spec fn escaped(s: Seq<char>) -> Seq<char>
    decreases s.len(),
{
    if s.len() == 0 {
        Seq::empty()
    } else {
        escape_char(s[0]) + escaped(s.drop_first())
    }
}

/// The JSON string literal for `s`: its escaped body between two quotes.
pub open spec fn quoted(s: Seq<char>) -> Seq<char> {
    seq!['"'] + escaped(s) + seq!['"']
}

/// Escaping distributes over concatenation.
pub proof fn lemma_escaped_concat(a: Seq<char>, b: Seq<char>)
    ensures
        escaped(a + b) == escaped(a) + escaped(b),
    decreases a.len(),
{
    if a.len() == 0 {
        assert(a + b =~= b);
        assert(escaped(a) + escaped(b) =~= escaped(b));
    } else {
        lemma_escaped_concat(a.drop_first(), b);
        assert((a + b).drop_first() =~= a.drop_first() + b);
        assert(escape_char(a[0]) + (escaped(a.drop_first()) + escaped(b)) =~= (escape_char(a[0])
            + escaped(a.drop_first())) + escaped(b));
    }
}

/// Escaping one more character at the end appends what stands for it.
pub proof fn lemma_escaped_push(s: Seq<char>, c: char)
    ensures
        escaped(s.push(c)) == escaped(s) + escape_char(c),
{
    lemma_escaped_concat(s, seq![c]);
    assert(s.push(c) =~= s + seq![c]);
    assert(seq![c].drop_first() =~= Seq::<char>::empty());
    assert(escaped(seq![c]) =~= escape_char(c)) by {
        reveal_with_fuel(escaped, 2);
    }
}

/// Text in which nothing needs escaping is its own escaped form.
pub proof fn lemma_escape_free_unchanged(s: Seq<char>)
    requires
        escape_free(s),
    ensures
        escaped(s) == s,
    decreases s.len(),
{
    if s.len() > 0 {
        assert(!needs_escape(s[0]));
        assert forall|i: int| 0 <= i < s.drop_first().len() implies !needs_escape(
            #[trigger] s.drop_first()[i],
        ) by {
            assert(s.drop_first()[i] == s[i + 1]);
        }
        lemma_escape_free_unchanged(s.drop_first());
        assert(seq![s[0]] + s.drop_first() =~= s);
    } else {
        assert(s =~= Seq::<char>::empty());
    }
}

/// The number that a hexadecimal digit stands for, in either case, if `c` is one.
pub open spec fn hex_value(c: char) -> Option<int> {
    if c == '0' {
        Some(0)
    } else if c == '1' {
        Some(1)
    } else if c == '2' {
        Some(2)
    } else if c == '3' {
        Some(3)
    } else if c == '4' {
        Some(4)
    } else if c == '5' {
        Some(5)
    } else if c == '6' {
        Some(6)
    } else if c == '7' {
        Some(7)
    } else if c == '8' {
        Some(8)
    } else if c == '9' {
        Some(9)
    } else if c == 'a' || c == 'A' {
        Some(10)
    } else if c == 'b' || c == 'B' {
        Some(11)
    } else if c == 'c' || c == 'C' {
        Some(12)
    } else if c == 'd' || c == 'D' {
        Some(13)
    } else if c == 'e' || c == 'E' {
        Some(14)
    } else if c == 'f' || c == 'F' {
        Some(15)
    } else {
        None
    }
}

/// The character that the two-character escape `\c` stands for in JSON, if it is one.
pub open spec fn short_escape(c: char) -> Option<char> {
    if c == '"' {
        Some('"')
    } else if c == '\\' {
        Some('\\')
    } else if c == '/' {
        Some('/')
    } else if c == 'b' {
        Some('\u{08}')
    } else if c == 't' {
        Some('\t')
    } else if c == 'n' {
        Some('\n')
    } else if c == 'f' {
        Some('\u{0c}')
    } else if c == 'r' {
        Some('\r')
    } else {
        None
    }
}

/// The character with the code `code`, for a code outside the surrogate range.
pub open spec fn char_of_code(code: int) -> char {
    code as char
}

/// `c` in front of `rest`, where there is a rest.
pub open spec fn prepended(c: char, rest: Option<Seq<char>>) -> Option<Seq<char>> {
    match rest {
        Some(r) => Some(seq![c] + r),
        None => None,
    }
}

/// The text that the body of a JSON string literal stands for, read as the
/// JSON grammar reads it: a backslash begins an escape, `\uXXXX` names a
/// character by its code, and a bare quote or control character is an error.
/// An escape that names half of a surrogate pair is taken as an error too.
pub open spec fn unescaped(t: Seq<char>) -> Option<Seq<char>>
    decreases t.len(),
{
    if t.len() == 0 {
        Some(Seq::empty())
    } else if t[0] == '\\' {
        if t.len() >= 2 && t[1] == 'u' {
            if t.len() >= 6 && hex_value(t[2]) is Some && hex_value(t[3]) is Some && hex_value(
                t[4],
            ) is Some && hex_value(t[5]) is Some {
                let code = ((hex_value(t[2])->0 * 16 + hex_value(t[3])->0) * 16 + hex_value(
                    t[4],
                )->0) * 16 + hex_value(t[5])->0;
                if 0xD800 <= code <= 0xDFFF {
                    None
                } else {
                    prepended(char_of_code(code), unescaped(t.skip(6)))
                }
            } else {
                None
            }
        } else if t.len() >= 2 && short_escape(t[1]) is Some {
            prepended(short_escape(t[1])->0, unescaped(t.skip(2)))
        } else {
            None
        }
    } else if needs_escape(t[0]) {
        None
    } else {
        prepended(t[0], unescaped(t.skip(1)))
    }
}

/// The text that a JSON string literal stands for: what its body stands for,
/// where `t` is a body between two quotes.
pub open spec fn string_literal_value(t: Seq<char>) -> Option<Seq<char>> {
    if t.len() >= 2 && t.first() == '"' && t.last() == '"' {
        unescaped(t.subrange(1, t.len() - 1))
    } else {
        None
    }
}

/// A hexadecimal digit reads back as its number.
pub proof fn lemma_hex_digit_value(n: int)
    requires
        0 <= n < 16,
    ensures
        hex_value(hex_digit(n)) == Some(n),
{
}

/// What stands for one character, followed by any text, reads back as that
/// character followed by what the text reads back as.
pub proof fn lemma_unescaped_one(c: char, rest: Seq<char>)
    ensures
        unescaped(escape_char(c) + rest) == prepended(c, unescaped(rest)),
{
    let e = escape_char(c);
    let t = e + rest;
    if c == '"' || c == '\\' || c == '\u{08}' || c == '\t' || c == '\n' || c == '\u{0c}' || c
        == '\r' {
        assert(e.len() == 2);
        assert(t[0] == '\\');
        assert(t[1] == e[1]);
        assert(short_escape(t[1]) == Some(c));
        assert(t.skip(2) =~= rest);
    } else if (c as u32) < 0x20 {
        let high = (c as u32 / 16) as int;
        let low = (c as u32 % 16) as int;
        assert(e.len() == 6);
        assert(t[0] == '\\' && t[1] == 'u' && t[2] == '0' && t[3] == '0');
        assert(t[4] == hex_digit(high) && t[5] == hex_digit(low));
        lemma_hex_digit_value(high);
        lemma_hex_digit_value(low);
        let code = ((0 * 16 + 0) * 16 + high) * 16 + low;
        assert(code == c as u32);
        assert(char_of_code(code) == c);
        assert(t.skip(6) =~= rest);
    } else {
        assert(t[0] == c);
        assert(t.skip(1) =~= rest);
    }
}

/// Escaped text reads back as the text it was made from.
pub proof fn lemma_unescaped_escaped(s: Seq<char>)
    ensures
        unescaped(escaped(s)) == Some(s),
    decreases s.len(),
{
    if s.len() > 0 {
        lemma_unescaped_escaped(s.drop_first());
        lemma_unescaped_one(s[0], escaped(s.drop_first()));
        assert(seq![s[0]] + s.drop_first() =~= s);
    }
}

/// Round trip: the JSON string literal written for any text stands for
/// exactly that text.
pub proof fn lemma_string_literal_round_trip(s: Seq<char>)
    ensures
        string_literal_value(quoted(s)) == Some(s),
{
    let t = quoted(s);
    lemma_unescaped_escaped(s);
    assert(t.subrange(1, t.len() - 1) =~= escaped(s));
}

fn hex_digit_of(n: u32) -> (c: char)
    requires
        n < 16,
    ensures
        c == hex_digit(n as int),
{
    if n == 0 {
        '0'
    } else if n == 1 {
        '1'
    } else if n == 2 {
        '2'
    } else if n == 3 {
        '3'
    } else if n == 4 {
        '4'
    } else if n == 5 {
        '5'
    } else if n == 6 {
        '6'
    } else if n == 7 {
        '7'
    } else if n == 8 {
        '8'
    } else if n == 9 {
        '9'
    } else if n == 10 {
        'a'
    } else if n == 11 {
        'b'
    } else if n == 12 {
        'c'
    } else if n == 13 {
        'd'
    } else if n == 14 {
        'e'
    } else {
        'f'
    }
}

/// Whether `c` has to be replaced inside a JSON string.
pub fn char_needs_escape(c: char) -> (b: bool)
    ensures
        b == needs_escape(c),
{
    c == '"' || c == '\\' || (c as u32) < 0x20
}

/// Appends to `out` what stands for `c` inside a JSON string.
pub fn escape_char_into<S: JsonBuffer>(c: char, out: &mut S)
    ensures
        final(out).text() == old(out).text() + escape_char(c),
{
    let ghost before = out.text();
    if !char_needs_escape(c) {
        out.push(c);
        assert(before.push(c) =~= before + escape_char(c));
    } else {
        out.push('\\');
        if c == '"' {
            out.push('"');
        } else if c == '\\' {
            out.push('\\');
        } else if c == '\u{08}' {
            out.push('b');
        } else if c == '\t' {
            out.push('t');
        } else if c == '\n' {
            out.push('n');
        } else if c == '\u{0c}' {
            out.push('f');
        } else if c == '\r' {
            out.push('r');
        } else {
            let code: u32 = c as u32;
            out.push('u');
            out.push('0');
            out.push('0');
            out.push(hex_digit_of(code / 16));
            out.push(hex_digit_of(code % 16));
        }
        assert(out.text() =~= before + escape_char(c));
    }
}

/// Appends the escaped form of `s` to `out`, without the surrounding quotes.
pub fn escape_str<S: JsonBuffer>(s: &str, out: &mut S)
    ensures
        final(out).text() == old(out).text() + escaped(s@),
{
    broadcast use vstd::string::group_string_axioms;

    out.reserve(s.len());
    let ghost before = out.text();
    let ghost mut done: Seq<char> = Seq::empty();
    let mut it = s.chars();
    assert(before + escaped(done) =~= before);
    loop
        invariant
            it.obeys_prophetic_iter_laws(),
            done + it.remaining() == s@,
            out.text() == before + escaped(done),
            before == old(out).text(),
            it.decrease() is Some,
        decreases it.decrease()->0,
    {
        let ghost rest = it.remaining();
        match it.next() {
            Some(c) => {
                proof {
                    lemma_escaped_push(done, c);
                    assert(done.push(c) + rest.drop_first() =~= done + rest);
                }
                escape_char_into(c, out);
                proof {
                    assert(before + escaped(done) + escape_char(c) =~= before + escaped(
                        done.push(c),
                    ));
                    done = done.push(c);
                }
            },
            None => {
                assert(done + rest =~= done);
                return ;
            },
        }
    }
}

} // verus!
