use crate::array::ArrayWriter;
use crate::buffer::JsonBuffer;
use crate::object::ObjectWriter;
use crate::write_to_json::{null_text, WriteToJson};
use vstd::prelude::*;

verus! {

/// A general JSON serializer, over a mutable buffer of some sort.
///
/// It writes no delimiter and no separator of its own: a document is the one
/// value written through it.
pub struct Serializer<'a, S: JsonBuffer> {
    buf: &'a mut S,
}

impl<'a, S: JsonBuffer> Serializer<'a, S> {
    /// What the buffer holds now.
    pub open spec fn text(&self) -> Seq<char> {
        (*self).sink().text()
    }

    /// The buffer that the serializer writes into.
    pub closed spec fn sink(self) -> &'a mut S {
        self.buf
    }

    /// Creates a new serializer over a JSON output buffer. Nothing is written.
    pub fn new(buf: &'a mut S) -> (ser: Serializer<'a, S>)
        ensures
            ser.text() == old(buf).text(),
            *final(ser.sink()) == *final(buf),
    {
        Serializer { buf }
    }

    /// Writes out a single primitive JSON value.
    pub fn write<V: WriteToJson<S>>(&mut self, val: V)
        ensures
            final(self).text() == old(self).text() + val.json_text(),
            *final(final(self).sink()) == *final(old(self).sink()),
    {
        val.write_to_json(&mut *self.buf)
    }

    /// Starts serialization of an array.
    pub fn array(&mut self) -> (w: ArrayWriter<'_, S>)
        ensures
            w.text() == old(self).text().push('['),
            w.is_first(),
            *final(self).sink() == *final(w.sink()),
            *final(final(self).sink()) == *final(old(self).sink()),
    {
        ArrayWriter::start(&mut *self.buf)
    }

    /// Starts serialization of an object.
    pub fn object(&mut self) -> (w: ObjectWriter<'_, S>)
        ensures
            w.text() == old(self).text().push('{'),
            w.is_first(),
            *final(self).sink() == *final(w.sink()),
            *final(final(self).sink()) == *final(old(self).sink()),
    {
        ObjectWriter::start(&mut *self.buf)
    }

    /// Ends the serializer. The buffer is left as it is.
    pub fn end(self)
        ensures
            *final(self.sink()) == *self.sink(),
    {
    }
}

/// A serializer that is only able to serialize a single value: the slot of
/// one array element or of one field's value.
///
/// The slot is unwritten until it is filled by `write`, `array` or `object`,
/// and it can be filled once. Releasing it by `end` while it is still
/// unwritten leaves `null` in it, so that a slot always holds one value.
pub struct SingleValueSerializer<'a, S: JsonBuffer> {
    guard: &'a mut S,
    written: bool,
}

impl<'a, S: JsonBuffer> SingleValueSerializer<'a, S> {
    /// What the buffer holds now.
    pub open spec fn text(&self) -> Seq<char> {
        (*self).sink().text()
    }

    /// The buffer that the slot writes into.
    pub closed spec fn sink(self) -> &'a mut S {
        self.guard
    }

    /// Whether the slot was filled.
    pub closed spec fn is_written(&self) -> bool {
        self.written
    }

    /// What the buffer holds once the slot is released as it is now.
    pub open spec fn released_text(&self) -> Seq<char> {
        if self.is_written() {
            self.text()
        } else {
            self.text() + null_text()
        }
    }

    /// An unwritten slot at the end of `val`. Nothing is written.
    pub fn new(val: &'a mut S) -> (slot: SingleValueSerializer<'a, S>)
        ensures
            slot.text() == old(val).text(),
            !slot.is_written(),
            *final(slot.sink()) == *final(val),
    {
        SingleValueSerializer { guard: val, written: false }
    }

    /// Whether the slot was filled.
    pub fn written(&self) -> (b: bool)
        ensures
            b == self.is_written(),
    {
        self.written
    }

    /// Fills the slot with a primitive value: exactly its token is written.
    pub fn write<V: WriteToJson<S>>(&mut self, val: V)
        requires
            !old(self).is_written(),
        ensures
            final(self).text() == old(self).text() + val.json_text(),
            final(self).is_written(),
            *final(final(self).sink()) == *final(old(self).sink()),
    {
        self.written = true;
        val.write_to_json(&mut *self.guard);
    }

    /// Fills the slot with an array, which is handed out open.
    pub fn array(&mut self) -> (w: ArrayWriter<'_, S>)
        requires
            !old(self).is_written(),
        ensures
            w.text() == old(self).text().push('['),
            w.is_first(),
            *final(self).sink() == *final(w.sink()),
            final(self).is_written(),
            *final(final(self).sink()) == *final(old(self).sink()),
    {
        self.written = true;
        ArrayWriter::start(&mut *self.guard)
    }

    /// Fills the slot with an object, which is handed out open.
    pub fn object(&mut self) -> (w: ObjectWriter<'_, S>)
        requires
            !old(self).is_written(),
        ensures
            w.text() == old(self).text().push('{'),
            w.is_first(),
            *final(self).sink() == *final(w.sink()),
            final(self).is_written(),
            *final(final(self).sink()) == *final(old(self).sink()),
    {
        self.written = true;
        ObjectWriter::start(&mut *self.guard)
    }

    /// Releases the slot. An unwritten slot gets exactly `null`; a written
    /// one is left as it is.
    pub fn end(self)
        ensures
            final(self.sink()).text() == self.released_text(),
    {
        if !self.written {
            ().write_to_json(self.guard);
        }
    }
}

} // verus!
