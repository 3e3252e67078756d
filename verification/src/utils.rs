//! Laying fixed-layout records over byte ranges.
//!
//! A [`Record`] says how many bytes one value occupies, how it is read from
//! them and which values it accepts. [`TryFromBytes`] builds on that: owned
//! copies, borrowed views and mutable views, each of one record or of an
//! array, each after a check of the length (and, for the views, of the
//! address). [`AsBytes`] is the other direction.
use vstd::prelude::*;
use core::marker::PhantomData;
use vstd::slice::slice_subrange;
use crate::error::Error;
use crate::view::{RawMut, RecordMut, RecordRef, RecordsMut, RecordsRef};

verus! {

/// A value with a fixed little-endian layout.
pub trait Record: Sized {
    /// The number of bytes that one record occupies.
    spec fn size_spec() -> nat;

    /// The alignment that a borrowed view of the record asks of its address.
    spec fn align_spec() -> nat;

    /// The record that `bytes` hold. Only the first `size_spec()` bytes count.
    spec fn decode_spec(bytes: Seq<u8>) -> Self;

    /// The error that refuses this record, if it is refused.
    spec fn rejection(&self) -> Option<Error>;

    fn size() -> (n: usize)
        ensures
            n == Self::size_spec(),
            n > 0,
    ;

    fn align() -> (n: usize)
        ensures
            n == Self::align_spec(),
            n > 0,
    ;

    /// Reads the record from the head of `src`.
    fn decode(src: &[u8]) -> (rec: Self)
        requires
            src@.len() >= Self::size_spec(),
        ensures
            rec == Self::decode_spec(src@),
    ;
}

/// The size-mismatch error for a range of `input_len` bytes of which
/// `expected_len` were asked.
pub open spec fn short_input(input_len: nat, expected_len: nat) -> Error {
    Error::FromBytes {
        input_len: input_len as usize,
        expected_len: if expected_len <= usize::MAX {
            Some(expected_len as usize)
        } else {
            None
        },
    }
}

/// The bytes of `src` that one record at its head occupies.
pub open spec fn head_of<T: Record>(src: Seq<u8>) -> Seq<u8> {
    src.subrange(0, T::size_spec() as int)
}

/// The bytes that element `i` of an array of records laid over `src` occupies.
pub open spec fn element_bytes<T: Record>(src: Seq<u8>, i: int) -> Seq<u8> {
    src.subrange(i * T::size_spec(), (i + 1) * T::size_spec())
}

/// Element `i` of an array of records laid over `src`.
pub open spec fn element<T: Record>(src: Seq<u8>, i: int) -> T {
    T::decode_spec(element_bytes::<T>(src, i))
}

/// The error of the first refused element among elements `from..count`.
pub open spec fn first_rejection<T: Record>(src: Seq<u8>, from: int, count: int) -> Option<Error>
    decreases count - from,
{
    if from >= count {
        None
    } else if element::<T>(src, from).rejection() is Some {
        element::<T>(src, from).rejection()
    } else {
        first_rejection::<T>(src, from + 1, count)
    }
}

/// What an owned copy of one record at the head of `src` gives.
pub open spec fn owned_copy<T: Record>(src: Seq<u8>) -> Result<T, Error> {
    if src.len() < T::size_spec() {
        Err(short_input(src.len(), T::size_spec()))
    } else {
        match T::decode_spec(head_of::<T>(src)).rejection() {
            Some(e) => Err(e),
            None => Ok(T::decode_spec(head_of::<T>(src))),
        }
    }
}

/// What an owned copy of `count` records at the head of `src` gives.
pub open spec fn owned_array<T: Record>(src: Seq<u8>, count: nat) -> Result<Seq<T>, Error> {
    if src.len() < T::size_spec() * count {
        Err(short_input(src.len(), T::size_spec() * count))
    } else {
        match first_rejection::<T>(src, 0, count as int) {
            Some(e) => Err(e),
            None => Ok(Seq::new(count, |i: int| element::<T>(src, i))),
        }
    }
}

/// What a borrowed view of one record gives when `src` starts at address
/// `addr`: the bytes viewed, or the error.
pub open spec fn borrowed<T: Record>(src: Seq<u8>, addr: usize) -> Result<Seq<u8>, Error> {
    if src.len() < T::size_spec() {
        Err(short_input(src.len(), T::size_spec()))
    } else if addr as int % T::align_spec() as int != 0 {
        Err(Error::Alignment { align: T::align_spec() as usize, addr })
    } else {
        match T::decode_spec(head_of::<T>(src)).rejection() {
            Some(e) => Err(e),
            None => Ok(head_of::<T>(src)),
        }
    }
}

/// What a borrowed view of `count` records gives when `src` starts at
/// address `addr`: the bytes viewed, or the error.
pub open spec fn borrowed_array<T: Record>(src: Seq<u8>, count: nat, addr: usize) -> Result<
    Seq<u8>,
    Error,
> {
    if src.len() < T::size_spec() * count {
        Err(short_input(src.len(), T::size_spec() * count))
    } else if addr as int % T::align_spec() as int != 0 {
        Err(Error::Alignment { align: T::align_spec() as usize, addr })
    } else {
        match first_rejection::<T>(src, 0, count as int) {
            Some(e) => Err(e),
            None => Ok(src.subrange(0, (T::size_spec() * count) as int)),
        }
    }
}

/// Splits `bytes` after `expected_byte_len` bytes, or reports how long the
/// range is and how long it should have been.
pub fn split_bytes(bytes: &[u8], expected_byte_len: usize) -> (res: Result<(&[u8], &[u8]), Error>)
    ensures
        bytes@.len() < expected_byte_len ==> res == Err::<(&[u8], &[u8]), Error>(
            short_input(bytes@.len(), expected_byte_len as nat),
        ),
        bytes@.len() >= expected_byte_len ==> res is Ok,
        res matches Ok((head, rest)) ==> head@ == bytes@.subrange(0, expected_byte_len as int)
            && rest@ == bytes@.subrange(expected_byte_len as int, bytes@.len() as int),
{
    if bytes.len() < expected_byte_len {
        Err(Error::FromBytes { input_len: bytes.len(), expected_len: Some(expected_byte_len) })
    } else {
        Ok(bytes.split_at(expected_byte_len))
    }
}

/// Splits `bytes` after `expected_byte_len` bytes for writing, or reports
/// how long the range is and how long it should have been.
pub fn split_mut_bytes(bytes: &mut [u8], expected_byte_len: usize) -> (res: Result<
    (&mut [u8], &mut [u8]),
    Error,
>)
    ensures
        old(bytes)@.len() < expected_byte_len ==> res == Err::<(&mut [u8], &mut [u8]), Error>(
            short_input(old(bytes)@.len(), expected_byte_len as nat),
        ) && final(bytes)@ == old(bytes)@,
        old(bytes)@.len() >= expected_byte_len ==> res is Ok,
        res matches Ok((head, rest)) ==> head@ == old(bytes)@.subrange(
            0,
            expected_byte_len as int,
        ) && rest@ == old(bytes)@.subrange(expected_byte_len as int, old(bytes)@.len() as int)
            && final(bytes)@ == final(head)@ + final(rest)@,
{
    let len = bytes.len();
    if len < expected_byte_len {
        Err(Error::FromBytes { input_len: len, expected_len: Some(expected_byte_len) })
    } else {
        Ok(bytes.split_at_mut(expected_byte_len))
    }
}

/// The address at which `bytes` starts in memory, as `<[u8]>::as_ptr` gives
/// it. Nothing is claimed of it: it differs from run to run.
#[verifier::external_body]
pub(crate) fn address_of(bytes: &[u8]) -> usize {
    bytes.as_ptr() as usize
}

/// The room that is set aside for the compressed form of `len_src` bytes:
/// 18 bytes of frame, 6 bytes for each block of 16 KiB begun, and 6 more.
pub open spec fn gzip_bound(len_src: nat) -> nat {
    let blocks = (len_src + 16383) / 16384;
    blocks + 6 + blocks * 5 + 18
}

/// A guess at the largest size that `len_src` bytes can have when they
/// are compressed.
pub fn gzip_max_compressed_size(len_src: usize) -> (bound: usize)
    ensures
        bound == gzip_bound(len_src as nat),
{
    let whole: usize = len_src / 16384;
    let num_16k_block: usize = if len_src % 16384 == 0 {
        whole
    } else {
        whole + 1
    };
    num_16k_block + 6 + (num_16k_block * 5) + 18
}

/// Reading records out of byte ranges.
///
/// An implementor says in `validate` which records it accepts; the rest is
/// provided.
pub trait TryFromBytes: Record {
    fn validate(src: &Self) -> (res: Result<&Self, Error>)
        ensures
            match src.rejection() {
                Some(e) => res == Err::<&Self, Error>(e),
                None => res == Ok::<&Self, Error>(src),
            },
    ;

    /// An owned copy of the record at the head of `src`.
    fn from_bytes(src: &[u8]) -> (res: Result<Self, Error>)
        ensures
            res == owned_copy::<Self>(src@),
    {
        let size = Self::size();
        match split_bytes(src, size) {
            Err(e) => Err(e),
            Ok((head, _rest)) => {
                let rec = Self::decode(head);
                match Self::validate(&rec) {
                    Err(e) => Err(e),
                    Ok(_) => Ok(rec),
                }
            },
        }
    }

    /// Owned copies of the `count` records at the head of `src`, in order.
    fn from_bytes_with_elems(src: &[u8], count: usize) -> (res: Result<Vec<Self>, Error>)
        ensures
            match res {
                Ok(v) => owned_array::<Self>(src@, count as nat) == Ok::<Seq<Self>, Error>(v@),
                Err(e) => owned_array::<Self>(src@, count as nat) == Err::<Seq<Self>, Error>(e),
            },
    {
        let size = Self::size();
        let expected_len = match size.checked_mul(count) {
            Some(n) => n,
            None => {
                return Err(Error::FromBytes { input_len: src.len(), expected_len: None });
            },
        };
        let head = match split_bytes(src, expected_len) {
            Err(e) => {
                return Err(e);
            },
            Ok((head, _rest)) => head,
        };
        let mut vec: Vec<Self> = Vec::with_capacity(count);
        let mut i: usize = 0;
        while i < count
            invariant
                i <= count,
                size == Self::size_spec(),
                expected_len == size * count,
                src@.len() >= expected_len,
                head@ == src@.subrange(0, expected_len as int),
                vec@.len() == i,
                forall|j: int| 0 <= j < i ==> vec@[j] == element::<Self>(src@, j),
                first_rejection::<Self>(src@, 0, count as int) == first_rejection::<Self>(
                    src@,
                    i as int,
                    count as int,
                ),
            decreases count - i,
        {
            proof {
                lemma_element_in_range(size as int, i as int, count as int);
            }
            let item_bytes = vstd::slice::slice_subrange(head, i * size, (i + 1) * size);
            assert(item_bytes@ =~= element_bytes::<Self>(src@, i as int));
            let item = Self::decode(item_bytes);
            match Self::validate(&item) {
                Err(e) => {
                    return Err(e);
                },
                Ok(_) => {},
            }
            vec.push(item);
            i += 1;
        }
        assert(vec@ =~= Seq::new(count as nat, |i: int| element::<Self>(src@, i)));
        Ok(vec)
    }

    /// Checks the first `count` records of `src` in their order.
    fn validate_elems(src: &[u8], count: usize) -> (res: Result<(), Error>)
        requires
            src@.len() >= Self::size_spec() * count,
        ensures
            match first_rejection::<Self>(src@, 0, count as int) {
                Some(e) => res == Err::<(), Error>(e),
                None => res == Ok::<(), Error>(()),
            },
    {
        let size = Self::size();
        let mut i: usize = 0;
        while i < count
            invariant
                i <= count,
                size == Self::size_spec(),
                src.len() >= size * count,
                first_rejection::<Self>(src@, 0, count as int) == first_rejection::<Self>(
                    src@,
                    i as int,
                    count as int,
                ),
            decreases count - i,
        {
            proof {
                lemma_element_in_range(size as int, i as int, count as int);
            }
            let item_bytes = slice_subrange(src, i * size, (i + 1) * size);
            assert(item_bytes@ =~= element_bytes::<Self>(src@, i as int));
            let item = Self::decode(item_bytes);
            match Self::validate(&item) {
                Err(e) => {
                    return Err(e);
                },
                Ok(_) => {},
            }
            i += 1;
        }
        Ok(())
    }

    /// A read-only view of the record at the head of `src`, where `src`
    /// starts at address `addr`.
    fn ref_from_bytes_at<'a>(src: &'a [u8], addr: usize) -> (res: Result<RecordRef<'a, Self>, Error>)
        ensures
            match res {
                Ok(view) => borrowed::<Self>(src@, addr) == Ok::<Seq<u8>, Error>(view.bytes@),
                Err(e) => borrowed::<Self>(src@, addr) == Err::<Seq<u8>, Error>(e),
            },
    {
        let size = Self::size();
        match split_bytes(src, size) {
            Err(e) => Err(e),
            Ok((head, _rest)) => {
                let align = Self::align();
                if addr % align != 0 {
                    return Err(Error::Alignment { align, addr });
                }
                let rec = Self::decode(head);
                match Self::validate(&rec) {
                    Err(e) => Err(e),
                    Ok(_) => Ok(RecordRef { bytes: head, marker: PhantomData }),
                }
            },
        }
    }

    /// A read-only view of the record at the head of `src`.
    fn ref_from_bytes<'a>(src: &'a [u8]) -> (res: Result<RecordRef<'a, Self>, Error>)
        ensures
            exists|addr: usize| #[trigger]
                borrowed::<Self>(src@, addr) == (match res {
                    Ok(view) => Ok::<Seq<u8>, Error>(view.bytes@),
                    Err(e) => Err::<Seq<u8>, Error>(e),
                }),
    {
        let addr = address_of(src);
        let res = Self::ref_from_bytes_at(src, addr);
        assert(borrowed::<Self>(src@, addr) == (match res {
            Ok(view) => Ok::<Seq<u8>, Error>(view.bytes@),
            Err(e) => Err::<Seq<u8>, Error>(e),
        }));
        res
    }

    /// A read-only view of the `count` records at the head of `src`, where
    /// `src` starts at address `addr`.
    fn ref_from_bytes_with_elems_at<'a>(src: &'a [u8], count: usize, addr: usize) -> (res: Result<
        RecordsRef<'a, Self>,
        Error,
    >)
        ensures
            match res {
                Ok(view) => borrowed_array::<Self>(src@, count as nat, addr) == Ok::<
                    Seq<u8>,
                    Error,
                >(view.bytes@) && view.count == count,
                Err(e) => borrowed_array::<Self>(src@, count as nat, addr) == Err::<
                    Seq<u8>,
                    Error,
                >(e),
            },
    {
        let size = Self::size();
        let expected_len = match size.checked_mul(count) {
            Some(n) => n,
            None => {
                return Err(Error::FromBytes { input_len: src.len(), expected_len: None });
            },
        };
        match split_bytes(src, expected_len) {
            Err(e) => Err(e),
            Ok((head, _rest)) => {
                let align = Self::align();
                if addr % align != 0 {
                    return Err(Error::Alignment { align, addr });
                }
                match Self::validate_elems(src, count) {
                    Err(e) => Err(e),
                    Ok(_) => Ok(RecordsRef { bytes: head, count, marker: PhantomData }),
                }
            },
        }
    }

    /// A read-only view of the `count` records at the head of `src`.
    fn ref_from_bytes_with_elems<'a>(src: &'a [u8], count: usize) -> (res: Result<
        RecordsRef<'a, Self>,
        Error,
    >)
        ensures
            exists|addr: usize| #[trigger]
                borrowed_array::<Self>(src@, count as nat, addr) == (match res {
                    Ok(view) => Ok::<Seq<u8>, Error>(view.bytes@),
                    Err(e) => Err::<Seq<u8>, Error>(e),
                }),
            res matches Ok(view) ==> view.count == count,
    {
        let addr = address_of(src);
        let res = Self::ref_from_bytes_with_elems_at(src, count, addr);
        assert(borrowed_array::<Self>(src@, count as nat, addr) == (match res {
            Ok(view) => Ok::<Seq<u8>, Error>(view.bytes@),
            Err(e) => Err::<Seq<u8>, Error>(e),
        }));
        res
    }

    /// A view for writing of the record at the head of `src`, where `src`
    /// starts at address `addr`. What is written through the view changes
    /// the head of `src`; the rest of `src` stays.
    fn mut_from_bytes_at<'a>(src: &'a mut [u8], addr: usize) -> (res: Result<
        RecordMut<'a, Self>,
        Error,
    >)
        ensures
            match res {
                Ok(view) => borrowed::<Self>(old(src)@, addr) == Ok::<Seq<u8>, Error>(view.bytes@)
                    && final(src)@ == final(view.bytes)@ + old(src)@.subrange(
                    Self::size_spec() as int,
                    old(src)@.len() as int,
                ),
                Err(e) => borrowed::<Self>(old(src)@, addr) == Err::<Seq<u8>, Error>(e)
                    && final(src)@ == old(src)@,
            },
    {
        let size = Self::size();
        let len = src.len();
        if len < size {
            return Err(Error::FromBytes { input_len: len, expected_len: Some(size) });
        }
        let align = Self::align();
        if addr % align != 0 {
            return Err(Error::Alignment { align, addr });
        }
        let (head, _rest) = src.split_at_mut(size);
        let rec = Self::decode(head);
        match Self::validate(&rec) {
            Err(e) => Err(e),
            Ok(_) => Ok(RecordMut { bytes: head, marker: PhantomData }),
        }
    }

    /// A view for writing of the record at the head of `src`.
    fn mut_from_bytes<'a>(src: &'a mut [u8]) -> (res: Result<RecordMut<'a, Self>, Error>)
        ensures
            exists|addr: usize| #[trigger]
                borrowed::<Self>(old(src)@, addr) == (match res {
                    Ok(view) => Ok::<Seq<u8>, Error>(view.bytes@),
                    Err(e) => Err::<Seq<u8>, Error>(e),
                }),
            match res {
                Ok(view) => final(src)@ == final(view.bytes)@ + old(src)@.subrange(
                    Self::size_spec() as int,
                    old(src)@.len() as int,
                ),
                Err(e) => final(src)@ == old(src)@,
            },
    {
        let addr = address_of(src);
        let res = Self::mut_from_bytes_at(src, addr);
        assert(borrowed::<Self>(old(src)@, addr) == (match res {
            Ok(view) => Ok::<Seq<u8>, Error>(view.bytes@),
            Err(e) => Err::<Seq<u8>, Error>(e),
        }));
        res
    }

    /// A view for writing of the `count` records at the head of `src`,
    /// where `src` starts at address `addr`. What is written through the
    /// view changes the head of `src`; the rest of `src` stays.
    fn mut_from_bytes_with_elems_at<'a>(src: &'a mut [u8], count: usize, addr: usize) -> (res:
        Result<RecordsMut<'a, Self>, Error>)
        ensures
            match res {
                Ok(view) => borrowed_array::<Self>(old(src)@, count as nat, addr) == Ok::<
                    Seq<u8>,
                    Error,
                >(view.bytes@) && view.count == count && final(src)@ == final(view.bytes)@
                    + old(src)@.subrange(Self::size_spec() * count, old(src)@.len() as int),
                Err(e) => borrowed_array::<Self>(old(src)@, count as nat, addr) == Err::<
                    Seq<u8>,
                    Error,
                >(e) && final(src)@ == old(src)@,
            },
    {
        let size = Self::size();
        let len = src.len();
        let expected_len = match size.checked_mul(count) {
            Some(n) => n,
            None => {
                return Err(Error::FromBytes { input_len: len, expected_len: None });
            },
        };
        if len < expected_len {
            return Err(Error::FromBytes { input_len: len, expected_len: Some(expected_len) });
        }
        let align = Self::align();
        if addr % align != 0 {
            return Err(Error::Alignment { align, addr });
        }
        match Self::validate_elems(src, count) {
            Err(e) => {
                return Err(e);
            },
            Ok(_) => {},
        }
        let (head, _rest) = src.split_at_mut(expected_len);
        Ok(RecordsMut { bytes: head, count, marker: PhantomData })
    }

    /// A view for writing of the `count` records at the head of `src`.
    fn mut_from_bytes_with_elems<'a>(src: &'a mut [u8], count: usize) -> (res: Result<
        RecordsMut<'a, Self>,
        Error,
    >)
        ensures
            exists|addr: usize| #[trigger]
                borrowed_array::<Self>(old(src)@, count as nat, addr) == (match res {
                    Ok(view) => Ok::<Seq<u8>, Error>(view.bytes@),
                    Err(e) => Err::<Seq<u8>, Error>(e),
                }),
            match res {
                Ok(view) => view.count == count && final(src)@ == final(view.bytes)@
                    + old(src)@.subrange(Self::size_spec() * count, old(src)@.len() as int),
                Err(e) => final(src)@ == old(src)@,
            },
    {
        let addr = address_of(src);
        let res = Self::mut_from_bytes_with_elems_at(src, count, addr);
        assert(borrowed_array::<Self>(old(src)@, count as nat, addr) == (match res {
            Ok(view) => Ok::<Seq<u8>, Error>(view.bytes@),
            Err(e) => Err::<Seq<u8>, Error>(e),
        }));
        res
    }
}

/// Element `i` of `count` elements of `size` bytes lies within the
/// `size * count` bytes of the array.
pub proof fn lemma_element_in_range(size: int, i: int, count: int)
    requires
        0 <= size,
        0 <= i < count,
    ensures
        0 <= i * size,
        i * size + size == (i + 1) * size,
        (i + 1) * size <= size * count,
{
    assert(0 <= i * size) by (nonlinear_arith)
        requires
            0 <= size,
            0 <= i,
    ;
    assert(i * size + size == (i + 1) * size) by (nonlinear_arith);
    assert((i + 1) * size <= size * count) by (nonlinear_arith)
        requires
            0 <= size,
            i + 1 <= count,
    ;
}

/// The byte image of a record.
pub trait AsBytes: Sized {
    /// The bytes that hold the record, field after field, little-endian.
    spec fn bytes_spec(&self) -> Seq<u8>;

    fn as_bytes(&self) -> (out: Vec<u8>)
        ensures
            out@ == self.bytes_spec(),
    ;

    /// The bytes of the record, for writing. What is written to them
    /// changes the record.
    fn as_mut_bytes(&mut self) -> (raw: RawMut<'_, Self>) where Self: Record
        ensures
            raw.raw() == old(self).bytes_spec(),
            raw.value() == *old(self),
            *final(self) == *final(raw.record),
    {
        let bytes = self.as_bytes();
        RawMut { record: self, bytes }
    }
}

/// `rapidhash::RapidRng`, carried as a value of which nothing is known.
#[verifier::external_type_specification]
#[verifier::external_body]
pub struct ExRapidRng(rapidhash::RapidRng);

/// A hasher state with keys that the process drew at random, from
/// `std::hash::RandomState::new`.
#[verifier::external_body]
fn random_state() -> std::hash::RandomState {
    std::hash::RandomState::new()
}

/// The hash of `text` under `state`, from `std::hash::BuildHasher::hash_one`.
/// Nothing is claimed of it: the keys of the state are not known.
#[verifier::external_body]
fn hash_one(state: &std::hash::RandomState, text: &str) -> u64 {
    std::hash::BuildHasher::hash_one(state, text)
}

/// The generator that `RapidRng`'s `rand::SeedableRng::from_seed` makes of
/// `seed`.
#[verifier::external_body]
fn rng_from_seed(seed: [u8; 24]) -> rapidhash::RapidRng {
    rand::SeedableRng::from_seed(seed)
}

/// The seed that is made of a hash: its eight bytes, low byte first, and
/// then the bytes 0 to 15.
pub open spec fn seed_of(hash: u64) -> Seq<u8> {
    crate::bytes::u64_le(hash) + Seq::new(16, |i: int| i as u8)
}

/// Spreads a hash over the 24 bytes of a seed.
pub fn seed_from_hash(hash: u64) -> (seed: [u8; 24])
    ensures
        seed@ == seed_of(hash),
{
    let mut bytes: Vec<u8> = Vec::with_capacity(24);
    crate::bytes::put_u64(&mut bytes, hash);
    let mut seed = [0u8; 24];
    let mut i: usize = 0;
    while i < 24
        invariant
            i <= 24,
            bytes@ == crate::bytes::u64_le(hash),
            forall|j: int| 0 <= j < i ==> seed@[j] == seed_of(hash)[j],
        decreases 24 - i,
    {
        seed[i] = if i < 8 {
            bytes[i]
        } else {
            (i - 8) as u8
        };
        i += 1;
    }
    assert(seed@ =~= seed_of(hash));
    seed
}

/// A pseudo-random generator, seeded with the hash of a fixed text under a
/// hasher state that the process draws at random.
pub fn rand() -> rapidhash::RapidRng {
    let state = random_state();
    let hc64 = hash_one(&state, "psp_packer::utils::rand");
    rng_from_seed(seed_from_hash(hc64))
}

} // verus!
