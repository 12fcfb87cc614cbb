//! Byte-level writer and reader of bridge payloads.
//!
//! Every integer on the wire is big-endian. A byte string is written as its
//! length in 32 bits followed by its bytes.

use vstd::prelude::*;
use vstd::string::StringSliceAdditionalSpecFns;
use crate::error::BridgeError;

verus! {

/// The two bytes of `v`, most significant first.
pub open spec fn spec_u16_be(v: u16) -> Seq<u8> {
    seq![(v / 256) as u8, (v % 256) as u8]
}

/// The four bytes of `v`, most significant first.
pub open spec fn spec_u32_be(v: u32) -> Seq<u8> {
    seq![
        (v / 16777216) as u8,
        ((v / 65536) % 256) as u8,
        ((v / 256) % 256) as u8,
        (v % 256) as u8,
    ]
}

/// The number whose big-endian bytes are `b0`, `b1`.
pub open spec fn spec_u16_from_be(b0: u8, b1: u8) -> u16 {
    (b0 as int * 256 + b1 as int) as u16
}

/// The number whose big-endian bytes are `b0` to `b3`.
pub open spec fn spec_u32_from_be(b0: u8, b1: u8, b2: u8, b3: u8) -> u32 {
    (b0 as int * 16777216 + b1 as int * 65536 + b2 as int * 256 + b3 as int) as u32
}

/// A byte string as it stands on the wire: 32-bit length, then the bytes.
pub open spec fn spec_bytes_field(bytes: Seq<u8>) -> Seq<u8>
    recommends
        bytes.len() <= u32::MAX,
{
    spec_u32_be(bytes.len() as u32) + bytes
}

/// `base` with the four bytes from `pos` on replaced by `value`, big-endian.
pub open spec fn spec_patch_u32(base: Seq<u8>, pos: int, value: u32) -> Seq<u8>
    recommends
        0 <= pos,
        pos + 4 <= base.len(),
{
    base.subrange(0, pos) + spec_u32_be(value) + base.subrange(pos + 4, base.len() as int)
}

/// Reading back what `spec_u16_be` wrote gives the number written.
pub proof fn lemma_u16_be_round_trip(v: u16)
    ensures
        spec_u16_be(v).len() == 2,
        spec_u16_from_be(spec_u16_be(v)[0], spec_u16_be(v)[1]) == v,
{
}

/// Reading back what `spec_u32_be` wrote gives the number written.
pub proof fn lemma_u32_be_round_trip(v: u32)
    ensures
        spec_u32_be(v).len() == 4,
        spec_u32_from_be(
            spec_u32_be(v)[0],
            spec_u32_be(v)[1],
            spec_u32_be(v)[2],
            spec_u32_be(v)[3],
        ) == v,
{
}

/// Growable buffer that bridge payloads are written into.
pub struct BridgeByteWriter {
    bytes: Vec<u8>,
}

impl View for BridgeByteWriter {
    type V = Seq<u8>;

    closed spec fn view(&self) -> Seq<u8> {
        self.bytes@
    }
}

impl BridgeByteWriter {
    /// An empty writer.
    pub fn new() -> (writer: Self)
        ensures
            writer@ == Seq::<u8>::empty(),
    {
        Self { bytes: Vec::new() }
    }

    /// Makes room for `additional` more bytes; what was written stays as it is.
    pub fn reserve(&mut self, additional: usize)
        ensures
            final(self)@ == old(self)@,
    {
        self.bytes.reserve(additional);
    }

    /// Writes four zero bytes to be patched later and returns where they stand.
    pub fn reserve_u32(&mut self) -> (pos: usize)
        ensures
            pos == old(self)@.len(),
            final(self)@ == old(self)@ + spec_u32_be(0),
    {
        let pos = self.bytes.len();
        self.put_u32(0);
        pos
    }

    /// Overwrites the four bytes at `pos` with `value`.
    pub fn patch_u32(&mut self, pos: usize, value: u32)
        requires
            pos + 4 <= old(self)@.len(),
        ensures
            final(self)@ == spec_patch_u32(old(self)@, pos as int, value),
    {
        let total = self.bytes.len();
        assert(pos + 4 <= total);
        self.bytes[pos] = (value / 16777216) as u8;
        self.bytes[pos + 1] = ((value / 65536) % 256) as u8;
        self.bytes[pos + 2] = ((value / 256) % 256) as u8;
        self.bytes[pos + 3] = (value % 256) as u8;
        assert(self.bytes@ =~= spec_patch_u32(old(self)@, pos as int, value));
    }

    /// Gives up the bytes written so far.
    pub fn into_inner(self) -> (bytes: Vec<u8>)
        ensures
            bytes@ == self@,
    {
        self.bytes
    }

    /// Appends one byte.
    pub fn put_u8(&mut self, value: u8)
        ensures
            final(self)@ == old(self)@.push(value),
    {
        self.bytes.push(value);
    }

    /// Appends `value` in two bytes.
    pub fn put_u16(&mut self, value: u16)
        ensures
            final(self)@ == old(self)@ + spec_u16_be(value),
    {
        self.bytes.push((value / 256) as u8);
        self.bytes.push((value % 256) as u8);
        assert(self.bytes@ =~= old(self)@ + spec_u16_be(value));
    }

    /// Appends `value` in four bytes.
    pub fn put_u32(&mut self, value: u32)
        ensures
            final(self)@ == old(self)@ + spec_u32_be(value),
    {
        self.bytes.push((value / 16777216) as u8);
        self.bytes.push(((value / 65536) % 256) as u8);
        self.bytes.push(((value / 256) % 256) as u8);
        self.bytes.push((value % 256) as u8);
        assert(self.bytes@ =~= old(self)@ + spec_u32_be(value));
    }

    /// Appends the UTF-8 bytes of `value` as a length-prefixed field.
    pub fn put_string(&mut self, value: &str) -> (result: Result<(), BridgeError>)
        ensures
            value.spec_bytes().len() <= u32::MAX ==> result is Ok && final(self)@ == old(self)@
                + spec_bytes_field(value.spec_bytes()),
            value.spec_bytes().len() > u32::MAX ==> result == Err::<(), BridgeError>(
                BridgeError::FieldTooLong,
            ) && final(self)@ == old(self)@,
    {
        self.put_bytes(value.as_bytes())
    }

    /// Appends `bytes` as a length-prefixed field.
    pub fn put_bytes(&mut self, bytes: &[u8]) -> (result: Result<(), BridgeError>)
        ensures
            bytes@.len() <= u32::MAX ==> result is Ok && final(self)@ == old(self)@
                + spec_bytes_field(bytes@),
            bytes@.len() > u32::MAX ==> result == Err::<(), BridgeError>(
                BridgeError::FieldTooLong,
            ) && final(self)@ == old(self)@,
    {
        if bytes.len() > 4294967295 {
            return Err(BridgeError::FieldTooLong);
        }
        self.put_u32(bytes.len() as u32);
        self.put_raw(bytes);
        assert(self.bytes@ =~= old(self)@ + spec_bytes_field(bytes@));
        Ok(())
    }

    /// Appends `bytes` as they are, with no length in front.
    pub fn put_raw(&mut self, bytes: &[u8])
        ensures
            final(self)@ == old(self)@ + bytes@,
    {
        self.bytes.extend_from_slice(bytes);
        assert(self.bytes@ =~= old(self)@ + bytes@);
    }
}

/// Cursor over one bridge payload.
pub struct BridgeByteReader<'a> {
    bytes: &'a [u8],
    offset: usize,
}

impl<'a> BridgeByteReader<'a> {
    #[verifier::type_invariant]
    spec fn well_formed(&self) -> bool {
        self.offset <= self.bytes@.len()
    }

    /// The whole payload this reader walks over.
    pub closed spec fn source(&self) -> Seq<u8> {
        self.bytes@
    }

    /// Number of bytes already consumed.
    pub closed spec fn position(&self) -> int {
        self.offset as int
    }

    /// The bytes not yet consumed.
    pub open spec fn remaining(&self) -> Seq<u8> {
        self.source().subrange(self.position(), self.source().len() as int)
    }

    /// A reader at the start of `bytes`.
    pub fn new(bytes: &'a [u8]) -> (reader: Self)
        ensures
            reader.source() == bytes@,
            reader.position() == 0,
    {
        Self { bytes, offset: 0 }
    }

    /// Consumes exactly `len` bytes, or fails and consumes nothing.
    pub fn get_exact(&mut self, len: usize) -> (result: Result<&'a [u8], BridgeError>)
        ensures
            final(self).source() == old(self).source(),
            0 <= old(self).position() <= old(self).source().len(),
            match result {
                Ok(slice) => {
                    &&& old(self).position() + len <= old(self).source().len()
                    &&& slice@ == old(self).source().subrange(
                        old(self).position(),
                        old(self).position() + len,
                    )
                    &&& final(self).position() == old(self).position() + len
                },
                Err(error) => {
                    &&& error == BridgeError::TruncatedPayload
                    &&& old(self).position() + len > old(self).source().len()
                    &&& final(self).position() == old(self).position()
                },
            },
    {
        proof {
            use_type_invariant(&*self);
        }
        if len > self.bytes.len() - self.offset {
            return Err(BridgeError::TruncatedPayload);
        }
        let start = self.offset;
        self.offset = start + len;
        Ok(vstd::slice::slice_subrange(self.bytes, start, start + len))
    }

    /// Consumes one byte.
    pub fn get_u8(&mut self) -> (result: Result<u8, BridgeError>)
        ensures
            final(self).source() == old(self).source(),
            0 <= old(self).position() <= old(self).source().len(),
            match result {
                Ok(value) => {
                    &&& old(self).position() + 1 <= old(self).source().len()
                    &&& value == old(self).source()[old(self).position()]
                    &&& final(self).position() == old(self).position() + 1
                },
                Err(error) => {
                    &&& error == BridgeError::TruncatedPayload
                    &&& old(self).position() + 1 > old(self).source().len()
                    &&& final(self).position() == old(self).position()
                },
            },
    {
        let bytes = self.get_exact(1)?;
        Ok(bytes[0])
    }

    /// Consumes a 16-bit number.
    pub fn get_u16(&mut self) -> (result: Result<u16, BridgeError>)
        ensures
            final(self).source() == old(self).source(),
            0 <= old(self).position() <= old(self).source().len(),
            match result {
                Ok(value) => {
                    &&& old(self).position() + 2 <= old(self).source().len()
                    &&& value == spec_u16_from_be(
                        old(self).source()[old(self).position()],
                        old(self).source()[old(self).position() + 1],
                    )
                    &&& final(self).position() == old(self).position() + 2
                },
                Err(error) => {
                    &&& error == BridgeError::TruncatedPayload
                    &&& old(self).position() + 2 > old(self).source().len()
                    &&& final(self).position() == old(self).position()
                },
            },
    {
        let bytes = self.get_exact(2)?;
        let high: u16 = bytes[0] as u16;
        let low: u16 = bytes[1] as u16;
        Ok(high * 256 + low)
    }

    /// Consumes a 32-bit number.
    pub fn get_u32(&mut self) -> (result: Result<u32, BridgeError>)
        ensures
            final(self).source() == old(self).source(),
            0 <= old(self).position() <= old(self).source().len(),
            match result {
                Ok(value) => {
                    &&& old(self).position() + 4 <= old(self).source().len()
                    &&& value == spec_u32_from_be(
                        old(self).source()[old(self).position()],
                        old(self).source()[old(self).position() + 1],
                        old(self).source()[old(self).position() + 2],
                        old(self).source()[old(self).position() + 3],
                    )
                    &&& final(self).position() == old(self).position() + 4
                },
                Err(error) => {
                    &&& error == BridgeError::TruncatedPayload
                    &&& old(self).position() + 4 > old(self).source().len()
                    &&& final(self).position() == old(self).position()
                },
            },
    {
        let bytes = self.get_exact(4)?;
        let b0: u32 = bytes[0] as u32;
        let b1: u32 = bytes[1] as u32;
        let b2: u32 = bytes[2] as u32;
        let b3: u32 = bytes[3] as u32;
        Ok(b0 * 16777216 + b1 * 65536 + b2 * 256 + b3)
    }

    /// Consumes a length-prefixed field and returns where its bytes start and
    /// how many they are.
    pub fn get_bytes_range(&mut self) -> (result: Result<(usize, usize), BridgeError>)
        ensures
            final(self).source() == old(self).source(),
            0 <= old(self).position() <= old(self).source().len(),
            match result {
                Ok((start, length)) => {
                    &&& spec_field_range(old(self).source(), old(self).position()) == Ok::<
                        (int, int),
                        BridgeError,
                    >((start as int, length as int))
                    &&& final(self).position() == start + length
                },
                Err(error) => spec_field_range(old(self).source(), old(self).position()) == Err::<
                    (int, int),
                    BridgeError,
                >(error),
            },
    {
        proof {
            use_type_invariant(&*self);
        }
        let length = self.get_u32()? as usize;
        proof {
            use_type_invariant(&*self);
        }
        if length > self.bytes.len() - self.offset {
            return Err(BridgeError::TruncatedPayload);
        }
        let start = self.offset;
        self.offset = start + length;
        Ok((start, length))
    }

    /// Consumes a length-prefixed field and returns its bytes.
    pub fn get_bytes(&mut self) -> (result: Result<&'a [u8], BridgeError>)
        ensures
            final(self).source() == old(self).source(),
            0 <= old(self).position() <= old(self).source().len(),
            match result {
                Ok(field) => {
                    &&& spec_field_range(old(self).source(), old(self).position()) matches Ok(
                        (start, length),
                    )
                    &&& field@ == old(self).source().subrange(start, start + length)
                    &&& final(self).position() == start + length
                },
                Err(error) => {
                    &&& error == BridgeError::TruncatedPayload
                    &&& spec_field_range(old(self).source(), old(self).position()) is Err
                },
            },
    {
        proof {
            use_type_invariant(&*self);
        }
        let (start, length) = self.get_bytes_range()?;
        Ok(vstd::slice::slice_subrange(self.bytes, start, start + length))
    }

    /// Succeeds when the whole payload was consumed, and otherwise says how
    /// many bytes are left over.
    pub fn ensure_done(&self) -> (result: Result<(), BridgeError>)
        ensures
            0 <= self.position() <= self.source().len(),
            self.position() == self.source().len() ==> result == Ok::<(), BridgeError>(()),
            self.position() < self.source().len() ==> result == Err::<(), BridgeError>(
                BridgeError::TrailingBytes((self.source().len() - self.position()) as usize),
            ),
    {
        proof {
            use_type_invariant(self);
        }
        if self.offset == self.bytes.len() {
            return Ok(());
        }
        Err(BridgeError::TrailingBytes(self.bytes.len() - self.offset))
    }
}

/// Where the length-prefixed field that starts at `pos` keeps its bytes:
/// the index of the first one and their number. The field is truncated when
/// its length or its bytes run past the end of `source`.
pub open spec fn spec_field_range(source: Seq<u8>, pos: int) -> Result<(int, int), BridgeError> {
    if 0 <= pos && pos + 4 <= source.len() {
        let length = spec_u32_from_be(
            source[pos],
            source[pos + 1],
            source[pos + 2],
            source[pos + 3],
        );
        if pos + 4 + length <= source.len() {
            Ok((pos + 4, length as int))
        } else {
            Err(BridgeError::TruncatedPayload)
        }
    } else {
        Err(BridgeError::TruncatedPayload)
    }
}

} // verus!
