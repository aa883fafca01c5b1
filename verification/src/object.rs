use crate::array::ArrayWriter;
use crate::buffer::JsonBuffer;
use crate::escape::quoted;
use crate::grammar::{field_text, separator};
use crate::seal::Sealed;
use crate::serializer::SingleValueSerializer;
use crate::write_to_json::{UnescapedStr, WriteToJson};
use vstd::prelude::*;

verus! {

/// A key for a JSON object's field: text, or text that is known to need no
/// escaping. No other type can be a key.
pub trait Key: Sized + Sealed {
    /// The text written for the key: a JSON string literal.
    spec fn key_text(&self) -> Seq<char>;

    /// Appends the key's text to `out`, and nothing else.
    fn write<S: JsonBuffer>(self, out: &mut S)
        ensures
            final(out).text() == old(out).text() + self.key_text(),
    ;
}

impl Key for UnescapedStr<'_> {
    open spec fn key_text(&self) -> Seq<char> {
        seq!['"'] + self@ + seq!['"']
    }

    fn write<S: JsonBuffer>(self, out: &mut S) {
        self.write_to_json(out)
    }
}

impl Key for &str {
    open spec fn key_text(&self) -> Seq<char> {
        quoted(self@)
    }

    fn write<S: JsonBuffer>(self, out: &mut S) {
        self.write_to_json(out)
    }
}

impl Key for String {
    open spec fn key_text(&self) -> Seq<char> {
        quoted(self@)
    }

    fn write<S: JsonBuffer>(self, out: &mut S) {
        self.as_str().write_to_json(out)
    }
}

impl Key for &String {
    open spec fn key_text(&self) -> Seq<char> {
        quoted(self@)
    }

    fn write<S: JsonBuffer>(self, out: &mut S) {
        self.as_str().write_to_json(out)
    }
}

/// A serializer for a JSON object.
///
/// The scope holds the buffer from the opening brace on; `end` writes the
/// closing brace and gives the buffer back.
pub struct ObjectWriter<'a, S: JsonBuffer> {
    buf: &'a mut S,
    first_element: bool,
}

impl<'a, S: JsonBuffer> ObjectWriter<'a, S> {
    /// What the buffer holds now.
    pub open spec fn text(&self) -> Seq<char> {
        (*self).sink().text()
    }

    /// Whether no field was added to this scope yet.
    pub closed spec fn is_first(&self) -> bool {
        self.first_element
    }

    /// The buffer that the scope writes into.
    pub closed spec fn sink(self) -> &'a mut S {
        self.buf
    }

    /// Opens an object scope on `buf`: writes the opening brace.
    pub(crate) fn start(buf: &'a mut S) -> (w: ObjectWriter<'a, S>)
        ensures
            w.text() == old(buf).text().push('{'),
            w.is_first(),
            *final(w.sink()) == *final(buf),
    {
        buf.push('{');
        ObjectWriter { buf, first_element: true }
    }

    /// Writes what has to stand before the next field.
    fn comma(&mut self)
        ensures
            final(self).text() == old(self).text() + separator(old(self).is_first()),
            !final(self).is_first(),
            *final(final(self).sink()) == *final(old(self).sink()),
    {
        match self.first_element {
            true => {
                self.first_element = false;
                assert(self.text() =~= old(self).text() + separator(true));
            },
            false => {
                self.buf.push(',');
                assert(self.text() =~= old(self).text() + separator(false));
            },
        }
    }

    /// Writes the separator if one is due, the key and the colon.
    fn key<K: Key>(&mut self, key: K)
        ensures
            final(self).text() == old(self).text() + separator(old(self).is_first())
                + key.key_text() + seq![':'],
            !final(self).is_first(),
            *final(final(self).sink()) == *final(old(self).sink()),
    {
        self.comma();
        key.write(&mut *self.buf);
        self.buf.push(':');
        assert(self.text() =~= old(self).text() + separator(old(self).is_first()) + key.key_text()
            + seq![':']);
    }

    /// Adds a field to this object.
    pub fn field<K: Key, V: WriteToJson<S>>(&mut self, key: K, val: V)
        ensures
            final(self).text() == old(self).text() + field_text(
                old(self).is_first(),
                key.key_text(),
                val.json_text(),
            ),
            !final(self).is_first(),
            *final(final(self).sink()) == *final(old(self).sink()),
    {
        self.key(key);
        val.write_to_json(&mut *self.buf);
        assert(self.text() =~= old(self).text() + field_text(
            old(self).is_first(),
            key.key_text(),
            val.json_text(),
        ));
    }

    /// Adds a field with an arbitrary JSON value to this object.
    ///
    /// The separator is written if one is due, then the key and the colon;
    /// `encode` is handed an unwritten slot for the value, and the slot is
    /// released when it returns: if it left the slot unwritten, the value is
    /// `null`.
    pub fn complex_field<K, F, O>(&mut self, key: K, encode: F) -> (o: O) where
        K: Key,
        F: FnOnce(&mut SingleValueSerializer<'_, S>) -> O,

        requires
            forall|slot: &mut SingleValueSerializer<'_, S>|
                slot.text() == old(self).text() + separator(old(self).is_first())
                    + key.key_text() + seq![':'] && !slot.is_written() ==> encode.requires(
                    (slot,),
                ),
        ensures
            exists|slot: &mut SingleValueSerializer<'_, S>|
                {
                    &&& slot.text() == old(self).text() + separator(old(self).is_first())
                        + key.key_text() + seq![':']
                    &&& !slot.is_written()
                    &&& #[trigger] encode.ensures((slot,), o)
                    &&& *final(final(slot).sink()) == *final(slot.sink()) ==> final(self).text()
                        == final(slot).released_text()
                },
            !final(self).is_first(),
            *final(final(self).sink()) == *final(old(self).sink()),
    {
        self.key(key);
        let mut slot = SingleValueSerializer::new(&mut *self.buf);
        let o = encode(&mut slot);
        slot.end();
        o
    }

    /// Adds a JSON object field to this object.
    pub fn object_field<K: Key>(&mut self, key: K) -> (w: ObjectWriter<'_, S>)
        ensures
            w.text() == old(self).text() + separator(old(self).is_first()) + key.key_text()
                + seq![':', '{'],
            w.is_first(),
            *final(self).sink() == *final(w.sink()),
            !final(self).is_first(),
            *final(final(self).sink()) == *final(old(self).sink()),
    {
        self.key(key);
        let w = ObjectWriter::start(&mut *self.buf);
        assert(w.text() =~= old(self).text() + separator(old(self).is_first()) + key.key_text()
            + seq![':', '{']);
        w
    }

    /// Adds a JSON array field to this object.
    pub fn array_field<K: Key>(&mut self, key: K) -> (w: ArrayWriter<'_, S>)
        ensures
            w.text() == old(self).text() + separator(old(self).is_first()) + key.key_text()
                + seq![':', '['],
            w.is_first(),
            *final(self).sink() == *final(w.sink()),
            !final(self).is_first(),
            *final(final(self).sink()) == *final(old(self).sink()),
    {
        self.key(key);
        let w = ArrayWriter::start(&mut *self.buf);
        assert(w.text() =~= old(self).text() + separator(old(self).is_first()) + key.key_text()
            + seq![':', '[']);
        w
    }

    /// Finishes out the object: writes the closing brace and releases the buffer.
    pub fn end(self)
        ensures
            final(self.sink()).text() == self.text().push('}'),
    {
        self.buf.push('}');
    }
}

} // verus!
