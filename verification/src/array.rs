use crate::buffer::JsonBuffer;
use crate::grammar::{elements_text, separator};
use crate::object::ObjectWriter;
use crate::serializer::SingleValueSerializer;
use crate::write_to_json::WriteToJson;
use vstd::prelude::*;

verus! {

/// The tokens of a run of values.
pub open spec fn json_texts<S: JsonBuffer, V: WriteToJson<S>>(vals: Seq<V>) -> Seq<Seq<char>> {
    vals.map_values(|v: V| v.json_text())
}

/// Serializer for a JSON array.
///
/// The scope holds the buffer from the opening bracket on; `end` writes the
/// closing bracket and gives the buffer back.
pub struct ArrayWriter<'a, S: JsonBuffer> {
    buf: &'a mut S,
    first_element: bool,
}

impl<'a, S: JsonBuffer> ArrayWriter<'a, S> {
    /// What the buffer holds now.
    pub open spec fn text(&self) -> Seq<char> {
        (*self).sink().text()
    }

    /// Whether nothing was added to this scope yet.
    pub closed spec fn is_first(&self) -> bool {
        self.first_element
    }

    /// The buffer that the scope writes into.
    pub closed spec fn sink(self) -> &'a mut S {
        self.buf
    }

    /// Opens an array scope on `buf`: writes the opening bracket.
    pub(crate) fn start(buf: &'a mut S) -> (w: ArrayWriter<'a, S>)
        ensures
            w.text() == old(buf).text().push('['),
            w.is_first(),
            *final(w.sink()) == *final(buf),
    {
        buf.push('[');
        ArrayWriter { buf, first_element: true }
    }

    /// Writes what has to stand before the next element.
    fn comma(&mut self)
        ensures
            final(self).text() == old(self).text() + separator(old(self).is_first()),
            !final(self).is_first(),
            *final(final(self).sink()) == *final(old(self).sink()),
    {
        match self.first_element {
            true => {
                self.first_element = false;
                assert(self.text() =~= old(self).text() + separator(true));
            },
            false => {
                self.buf.push(',');
                assert(self.text() =~= old(self).text() + separator(false));
            },
        }
    }

    /// Adds a single primitive JSON value to this array.
    pub fn add<V: WriteToJson<S>>(&mut self, val: V)
        ensures
            final(self).text() == old(self).text() + separator(old(self).is_first())
                + val.json_text(),
            !final(self).is_first(),
            *final(final(self).sink()) == *final(old(self).sink()),
    {
        self.comma();
        val.write_to_json(&mut *self.buf)
    }

    /// Adds a slice of a JSON primitive to this array, in the slice's order.
    pub fn extend<V: WriteToJson<S> + Copy>(&mut self, vals: &[V])
        ensures
            final(self).text() == old(self).text() + elements_text(
                old(self).is_first(),
                json_texts::<S, V>(vals@),
            ),
            final(self).is_first() == (old(self).is_first() && vals@.len() == 0),
            *final(final(self).sink()) == *final(old(self).sink()),
    {
        let mut i: usize = 0;
        assert(old(self).text() + elements_text(
            old(self).is_first(),
            json_texts::<S, V>(vals@.take(0)),
        ) =~= old(self).text());
        while i < vals.len()
            invariant
                i <= vals.len(),
                self.text() == old(self).text() + elements_text(
                    old(self).is_first(),
                    json_texts::<S, V>(vals@.take(i as int)),
                ),
                self.is_first() == (old(self).is_first() && i == 0),
                *final(self.sink()) == *final(old(self).sink()),
            decreases vals.len() - i,
        {
            let ghost before = json_texts::<S, V>(vals@.take(i as int));
            let ghost after = json_texts::<S, V>(vals@.take(i + 1));
            let ghost first = self.is_first();
            let ghost so_far = self.text();
            let val: V = vals[i];
            self.add(val);
            proof {
                assert(after.drop_last() =~= before);
                assert(after.last() == val.json_text());
                assert(first == (old(self).is_first() && after.len() == 1));
                assert(self.text() =~= old(self).text() + elements_text(
                    old(self).is_first(),
                    after,
                ));
            }
            i += 1;
        }
        assert(vals@.take(i as int) =~= vals@);
    }

    /// Adds an arbitrary JSON value to this array.
    ///
    /// The separator is written if one is due, `encoder` is handed an
    /// unwritten slot for the value, and the slot is released when it
    /// returns: if it left the slot unwritten, the element is `null`.
    pub fn add_complex<F, O>(&mut self, encoder: F) -> (o: O) where
        F: FnOnce(&mut SingleValueSerializer<'_, S>) -> O,

        requires
            forall|slot: &mut SingleValueSerializer<'_, S>|
                slot.text() == old(self).text() + separator(old(self).is_first())
                    && !slot.is_written() ==> encoder.requires((slot,)),
        ensures
            exists|slot: &mut SingleValueSerializer<'_, S>|
                {
                    &&& slot.text() == old(self).text() + separator(old(self).is_first())
                    &&& !slot.is_written()
                    &&& #[trigger] encoder.ensures((slot,), o)
                    &&& *final(final(slot).sink()) == *final(slot.sink()) ==> final(self).text()
                        == final(slot).released_text()
                },
            !final(self).is_first(),
            *final(final(self).sink()) == *final(old(self).sink()),
    {
        self.comma();
        let mut slot = SingleValueSerializer::new(&mut *self.buf);
        let o = encoder(&mut slot);
        slot.end();
        o
    }

    /// Adds a JSON object to this array.
    pub fn add_object(&mut self) -> (w: ObjectWriter<'_, S>)
        ensures
            w.text() == old(self).text() + separator(old(self).is_first()) + seq!['{'],
            w.is_first(),
            *final(self).sink() == *final(w.sink()),
            !final(self).is_first(),
            *final(final(self).sink()) == *final(old(self).sink()),
    {
        self.comma();
        ObjectWriter::start(&mut *self.buf)
    }

    /// Adds a JSON array.. to this array.
    pub fn add_array(&mut self) -> (w: ArrayWriter<'_, S>)
        ensures
            w.text() == old(self).text() + separator(old(self).is_first()) + seq!['['],
            w.is_first(),
            *final(self).sink() == *final(w.sink()),
            !final(self).is_first(),
            *final(final(self).sink()) == *final(old(self).sink()),
    {
        self.comma();
        ArrayWriter::start(&mut *self.buf)
    }

    /// Finishes out the array: writes the closing bracket and releases the buffer.
    pub fn end(self)
        ensures
            final(self.sink()).text() == self.text().push(']'),
    {
        self.buf.push(']');
    }
}

} // verus!
