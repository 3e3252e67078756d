//! Borrowed views of records: a byte range that was checked for length,
//! address and acceptance, read and written as the record it holds.
use vstd::prelude::*;
use core::marker::PhantomData;
use vstd::slice::slice_subrange;
use crate::utils::{element, element_bytes, lemma_element_in_range, AsBytes, Record};

verus! {

/// A read-only view of one record.
pub struct RecordRef<'a, T> {
    /// The bytes that hold the record.
    pub bytes: &'a [u8],
    pub marker: PhantomData<T>,
}

/// A read-only view of an array of records.
pub struct RecordsRef<'a, T> {
    /// The bytes that hold the records, one after the other.
    pub bytes: &'a [u8],
    /// The number of records.
    pub count: usize,
    pub marker: PhantomData<T>,
}

/// A view of one record that can replace it in place.
pub struct RecordMut<'a, T> {
    /// The bytes that hold the record.
    pub bytes: &'a mut [u8],
    pub marker: PhantomData<T>,
}

/// A view of an array of records that can replace each in place.
pub struct RecordsMut<'a, T> {
    /// The bytes that hold the records, one after the other.
    pub bytes: &'a mut [u8],
    /// The number of records.
    pub count: usize,
    pub marker: PhantomData<T>,
}

/// Copies `src` over the bytes of `dst` from `at` on.
pub fn write_at(dst: &mut [u8], at: usize, src: &[u8])
    requires
        at + src@.len() <= old(dst)@.len(),
    ensures
        final(dst)@ == crate::bytes::overwrite(old(dst)@, at as int, src@),
{
    let mut i: usize = 0;
    while i < src.len()
        invariant
            i <= src@.len(),
            at + src@.len() <= dst.len(),
            dst@.len() == old(dst)@.len(),
            forall|j: int| 0 <= j < dst@.len() ==> dst@[j] == (if at <= j < at + i {
                src@[j - at]
            } else {
                old(dst)@[j]
            }),
        decreases src@.len() - i,
    {
        dst[at + i] = src[i];
        i += 1;
    }
    assert(dst@ =~= crate::bytes::overwrite(old(dst)@, at as int, src@));
}

/// The bytes of a record, for writing: what is written to them changes the
/// record.
pub struct RawMut<'a, T> {
    /// The record whose bytes these are.
    pub record: &'a mut T,
    /// The bytes that hold the record.
    pub bytes: Vec<u8>,
}

impl<'a, T> RawMut<'a, T> {
    /// The bytes as they are now.
    pub open spec fn raw(&self) -> Seq<u8> {
        self.bytes@
    }

    /// The record as it is now.
    pub open spec fn value(&self) -> T {
        *self.record
    }
}

impl<'a, T: Record> RawMut<'a, T> {
    /// The bytes are as many as the record has.
    pub open spec fn wf(&self) -> bool {
        self.bytes@.len() == T::size_spec()
    }

    /// The bytes of the record.
    pub fn as_slice(&self) -> (bytes: &[u8])
        ensures
            bytes@ == self.raw(),
    {
        self.bytes.as_slice()
    }

    /// Copies `src` over the bytes from `at` on. The record becomes the one
    /// that the bytes then hold.
    pub fn write(&mut self, at: usize, src: &[u8])
        requires
            old(self).wf(),
            at + src@.len() <= T::size_spec(),
        ensures
            final(self).raw() == crate::bytes::overwrite(old(self).raw(), at as int, src@),
            final(self).value() == T::decode_spec(final(self).raw()),
            final(self).wf(),
            *final(final(self).record) == *final(old(self).record),
    {
        write_at(self.bytes.as_mut_slice(), at, src);
        *self.record = T::decode(self.bytes.as_slice());
    }
}

impl<'a, T: Record> RecordRef<'a, T> {
    /// The view covers exactly one record.
    pub open spec fn wf(&self) -> bool {
        self.bytes@.len() == T::size_spec()
    }

    /// The record that the view shows.
    pub open spec fn value(&self) -> T {
        T::decode_spec(self.bytes@)
    }

    /// Reads the record.
    pub fn get(&self) -> (rec: T)
        requires
            self.wf(),
        ensures
            rec == self.value(),
    {
        T::decode(self.bytes)
    }

    /// The bytes under the view.
    pub fn as_bytes(&self) -> (bytes: &'a [u8])
        ensures
            bytes@ == self.bytes@,
    {
        self.bytes
    }
}

impl<'a, T: Record> RecordsRef<'a, T> {
    /// The view covers exactly `count` records.
    pub open spec fn wf(&self) -> bool {
        self.bytes@.len() == T::size_spec() * self.count
    }

    /// The bytes under the view.
    pub fn as_bytes(&self) -> (bytes: &'a [u8])
        ensures
            bytes@ == self.bytes@,
    {
        self.bytes
    }

    /// Record `i` of the view.
    pub open spec fn value(&self, i: int) -> T {
        element::<T>(self.bytes@, i)
    }

    pub fn len(&self) -> (n: usize)
        ensures
            n == self.count,
    {
        self.count
    }

    /// Reads record `i`.
    pub fn get(&self, i: usize) -> (rec: T)
        requires
            self.wf(),
            i < self.count,
        ensures
            rec == self.value(i as int),
    {
        let size = T::size();
        proof {
            lemma_element_in_range(size as int, i as int, self.count as int);
        }
        assert(size * self.count == self.bytes.len());
        let item = slice_subrange(self.bytes, i * size, (i + 1) * size);
        assert(item@ =~= element_bytes::<T>(self.bytes@, i as int));
        T::decode(item)
    }
}

impl<'a, T: Record + AsBytes> RecordMut<'a, T> {
    /// The view covers exactly one record.
    pub open spec fn wf(&self) -> bool {
        self.bytes@.len() == T::size_spec()
    }

    /// The bytes under the view.
    pub open spec fn raw(&self) -> Seq<u8> {
        self.bytes@
    }

    /// The bytes under the view.
    pub fn as_bytes(&self) -> (bytes: &[u8])
        ensures
            bytes@ == self.raw(),
    {
        self.bytes
    }

    /// The bytes under the view, for writing. What is written changes the
    /// record that the view shows.
    pub fn as_mut_bytes(&mut self) -> (bytes: &mut [u8])
        ensures
            bytes@ == old(self).bytes@,
            final(self).bytes@ == final(bytes)@,
            final(final(self).bytes)@ == final(old(self).bytes)@,
    {
        self.bytes
    }

    /// The record that the view shows.
    pub open spec fn value(&self) -> T {
        T::decode_spec(self.bytes@)
    }

    /// Reads the record.
    pub fn get(&self) -> (rec: T)
        requires
            self.wf(),
        ensures
            rec == self.value(),
    {
        T::decode(self.bytes)
    }

    /// Replaces the record under the view by `rec`.
    pub fn set(&mut self, rec: &T)
        requires
            old(self).wf(),
            rec.bytes_spec().len() == T::size_spec(),
        ensures
            final(self).bytes@ == rec.bytes_spec(),
            final(self).wf(),
            final(final(self).bytes)@ == final(old(self).bytes)@,
    {
        let image = rec.as_bytes();
        write_at(self.bytes, 0, image.as_slice());
        assert(self.bytes@ =~= rec.bytes_spec());
    }
}

impl<'a, T: Record + AsBytes> RecordsMut<'a, T> {
    /// The view covers exactly `count` records.
    pub open spec fn wf(&self) -> bool {
        self.bytes@.len() == T::size_spec() * self.count
    }

    /// The bytes under the view.
    pub open spec fn raw(&self) -> Seq<u8> {
        self.bytes@
    }

    /// The bytes under the view.
    pub fn as_bytes(&self) -> (bytes: &[u8])
        ensures
            bytes@ == self.raw(),
    {
        self.bytes
    }

    /// The bytes under the view, for writing. What is written changes the
    /// record that the view shows.
    pub fn as_mut_bytes(&mut self) -> (bytes: &mut [u8])
        ensures
            bytes@ == old(self).bytes@,
            final(self).bytes@ == final(bytes)@,
            final(final(self).bytes)@ == final(old(self).bytes)@,
            final(self).count == old(self).count,
    {
        self.bytes
    }

    /// Record `i` of the view.
    pub open spec fn value(&self, i: int) -> T {
        element::<T>(self.bytes@, i)
    }

    pub fn len(&self) -> (n: usize)
        ensures
            n == self.count,
    {
        self.count
    }

    /// Reads record `i`.
    pub fn get(&self, i: usize) -> (rec: T)
        requires
            self.wf(),
            i < self.count,
        ensures
            rec == self.value(i as int),
    {
        let size = T::size();
        proof {
            lemma_element_in_range(size as int, i as int, self.count as int);
        }
        assert(size * self.count == self.bytes.len());
        let item = slice_subrange(self.bytes, i * size, (i + 1) * size);
        assert(item@ =~= element_bytes::<T>(self.bytes@, i as int));
        T::decode(item)
    }

    /// Replaces record `i` under the view by `rec`. The other records stay.
    pub fn set(&mut self, i: usize, rec: &T)
        requires
            old(self).wf(),
            i < old(self).count,
            rec.bytes_spec().len() == T::size_spec(),
        ensures
            final(self).bytes@ == crate::bytes::overwrite(
                old(self).bytes@,
                i * T::size_spec(),
                rec.bytes_spec(),
            ),
            final(self).count == old(self).count,
            final(self).wf(),
            final(final(self).bytes)@ == final(old(self).bytes)@,
    {
        let size = T::size();
        proof {
            lemma_element_in_range(size as int, i as int, self.count as int);
        }
        assert(size * self.count == self.bytes.len());
        let image = rec.as_bytes();
        write_at(self.bytes, i * size, image.as_slice());
    }
}

} // verus!
