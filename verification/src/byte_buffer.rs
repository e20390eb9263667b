//! A cursor over a byte slice that decodes big-endian values.
use vstd::prelude::*;
use vstd::slice::slice_subrange;
use crate::class_file_error::ClassFileError;
use cesu8::Cesu8DecodingError;

verus! {

/// The 16-bit value whose big-endian bytes stand at `at` and `at + 1`.
pub open spec fn be_u16(s: Seq<u8>, at: int) -> u16 {
    (s[at] as int * 0x100 + s[at + 1] as int) as u16
}

/// The 32-bit value whose big-endian bytes stand at `at .. at + 4`.
pub open spec fn be_u32(s: Seq<u8>, at: int) -> u32 {
    (s[at] as int * 0x100_0000 + s[at + 1] as int * 0x1_0000 + s[at + 2] as int * 0x100 + s[at
        + 3] as int) as u32
}

/// The 64-bit value whose big-endian bytes stand at `at .. at + 8`.
pub open spec fn be_u64(s: Seq<u8>, at: int) -> u64 {
    (be_u32(s, at) as int * 0x1_0000_0000 + be_u32(s, at + 4) as int) as u64
}

/// What `from_java_cesu8` of the cesu8 crate makes of a byte string: the
/// decoded text, or `None` where the bytes are not modified UTF-8.
pub uninterp spec fn java_cesu8_text(bytes: Seq<u8>) -> Option<Seq<char>>;

#[verifier::external_type_specification]
#[verifier::external_body]
pub struct ExCesu8DecodingError(Cesu8DecodingError);

/// Calls `cesu8::from_java_cesu8` and copies the decoded text into a `String`.
/// The call succeeds exactly on the byte strings that `java_cesu8_text`
/// decodes, and then returns that text.
#[verifier::external_body]
pub(crate) fn decode_java_cesu8(bytes: &[u8]) -> (r: Result<String, Cesu8DecodingError>)
    ensures
        r is Ok <==> java_cesu8_text(bytes@) is Some,
        r is Ok ==> r->Ok_0@ == java_cesu8_text(bytes@)->0,
{
    cesu8::from_java_cesu8(bytes).map(|text| text.into_owned())
}

/// Decoding one byte at `pos`: the byte and the position after it.
pub open spec fn parse_u8(bytes: Seq<u8>, pos: int) -> Result<(u8, int), ClassFileError> {
    if pos + 1 <= bytes.len() {
        Ok((bytes[pos], pos + 1))
    } else {
        Err(ClassFileError::UnexpectedEndOfData)
    }
}

/// Decoding a big-endian 16-bit value at `pos`.
pub open spec fn parse_u16(bytes: Seq<u8>, pos: int) -> Result<(u16, int), ClassFileError> {
    if pos + 2 <= bytes.len() {
        Ok((be_u16(bytes, pos), pos + 2))
    } else {
        Err(ClassFileError::UnexpectedEndOfData)
    }
}

/// Decoding a big-endian 32-bit value at `pos`.
pub open spec fn parse_u32(bytes: Seq<u8>, pos: int) -> Result<(u32, int), ClassFileError> {
    if pos + 4 <= bytes.len() {
        Ok((be_u32(bytes, pos), pos + 4))
    } else {
        Err(ClassFileError::UnexpectedEndOfData)
    }
}

/// Decoding a big-endian 64-bit value at `pos`.
pub open spec fn parse_u64(bytes: Seq<u8>, pos: int) -> Result<(u64, int), ClassFileError> {
    if pos + 8 <= bytes.len() {
        Ok((be_u64(bytes, pos), pos + 8))
    } else {
        Err(ClassFileError::UnexpectedEndOfData)
    }
}

/// Taking `len` raw bytes at `pos`.
pub open spec fn parse_bytes(bytes: Seq<u8>, pos: int, len: int) -> Result<
    (Seq<u8>, int),
    ClassFileError,
> {
    if pos + len <= bytes.len() {
        Ok((bytes.subrange(pos, pos + len), pos + len))
    } else {
        Err(ClassFileError::UnexpectedEndOfData)
    }
}

/// Decoding `len` bytes of modified UTF-8 at `pos`.
pub open spec fn parse_utf8(bytes: Seq<u8>, pos: int, len: int) -> Result<
    (Seq<char>, int),
    ClassFileError,
> {
    if pos + len <= bytes.len() {
        match java_cesu8_text(bytes.subrange(pos, pos + len)) {
            Some(text) => Ok((text, pos + len)),
            None => Err(ClassFileError::InvalidCesu8String),
        }
    } else {
        Err(ClassFileError::UnexpectedEndOfData)
    }
}

/// That a read through the cursor did what `expected` says of the bytes at
/// the cursor: on success the result has the expected view and the cursor
/// stands behind what was read; on failure the same error comes back. The
/// bytes under the cursor never change.
pub open spec fn decodes<T: View>(
    before: ByteBuffer,
    after: ByteBuffer,
    r: Result<T, ClassFileError>,
    expected: Result<(T::V, int), ClassFileError>,
) -> bool {
    &&& after.bytes() == before.bytes()
    &&& match expected {
        Ok((v, p)) => r is Ok && r->Ok_0@ == v && after.pos() == p,
        Err(e) => r == Err::<T, _>(e),
    }
}

pub struct ByteBuffer<'a> {
    buffer: &'a [u8],
    position: usize,
}

impl<'a> ByteBuffer<'a> {
    #[verifier::type_invariant]
    spec fn in_range(self) -> bool {
        self.position <= self.buffer@.len()
    }

    /// All the bytes under the cursor, read or not.
    pub closed spec fn bytes(self) -> Seq<u8> {
        self.buffer@
    }

    /// How many bytes have been read.
    pub closed spec fn pos(self) -> int {
        self.position as int
    }

    /// What a read of `size` bytes does: it moves the cursor forward by
    /// `size`, or fails and leaves it where it was.
    pub open spec fn advanced(self, after: Self, size: int) -> bool {
        &&& after.bytes() == self.bytes()
        &&& after.pos() == self.pos() + size
    }

    pub open spec fn fits(self, size: int) -> bool {
        self.pos() + size <= self.bytes().len()
    }

    pub fn new(data: &'a [u8]) -> (r: Self)
        ensures
            r.bytes() == data@,
            r.pos() == 0,
    {
        ByteBuffer { buffer: data, position: 0 }
    }

    pub fn position(&self) -> (r: usize)
        ensures
            r == self.pos(),
            r <= self.bytes().len(),
    {
        proof {
            use_type_invariant(self);
        }
        self.position
    }

    fn advance(&mut self, size: usize) -> (r: Result<&'a [u8], ClassFileError>)
        ensures
            old(self).fits(size as int) ==> r is Ok && old(self).advanced(*final(self), size as int)
                && r->Ok_0@ == old(self).bytes().subrange(
                old(self).pos(),
                old(self).pos() + size,
            ),
            !old(self).fits(size as int) ==> r == Err::<&[u8], _>(
                ClassFileError::UnexpectedEndOfData,
            ) && *final(self) == *old(self),
    {
        proof {
            use_type_invariant(&*self);
        }
        if size > self.buffer.len() - self.position {
            Err(ClassFileError::UnexpectedEndOfData)
        } else {
            let slice = slice_subrange(self.buffer, self.position, self.position + size);
            self.position += size;
            Ok(slice)
        }
    }

    pub fn read_u8(&mut self) -> (r: Result<u8, ClassFileError>)
        ensures
            old(self).fits(1) ==> r == Ok::<u8, ClassFileError>(old(self).bytes()[old(self).pos()])
                && old(self).advanced(*final(self), 1),
            !old(self).fits(1) ==> r == Err::<u8, _>(ClassFileError::UnexpectedEndOfData)
                && *final(self) == *old(self),
    {
        match self.advance(1) {
            Ok(bytes) => Ok(bytes[0]),
            Err(e) => Err(e),
        }
    }

    pub fn read_i8(&mut self) -> (r: Result<i8, ClassFileError>)
        ensures
            old(self).fits(1) ==> r == Ok::<i8, ClassFileError>(
                old(self).bytes()[old(self).pos()] as i8,
            ) && old(self).advanced(*final(self), 1),
            !old(self).fits(1) ==> r == Err::<i8, _>(ClassFileError::UnexpectedEndOfData)
                && *final(self) == *old(self),
    {
        match self.advance(1) {
            Ok(bytes) => Ok(#[verifier::truncate] (bytes[0] as i8)),
            Err(e) => Err(e),
        }
    }

    pub fn read_u16(&mut self) -> (r: Result<u16, ClassFileError>)
        ensures
            old(self).fits(2) ==> r == Ok::<u16, ClassFileError>(
                be_u16(old(self).bytes(), old(self).pos()),
            ) && old(self).advanced(*final(self), 2),
            !old(self).fits(2) ==> r == Err::<u16, _>(ClassFileError::UnexpectedEndOfData)
                && *final(self) == *old(self),
    {
        match self.advance(2) {
            Ok(bytes) => Ok((bytes[0] as u16) * 0x100 + (bytes[1] as u16)),
            Err(e) => Err(e),
        }
    }

    pub fn read_i16(&mut self) -> (r: Result<i16, ClassFileError>)
        ensures
            old(self).fits(2) ==> r == Ok::<i16, ClassFileError>(
                be_u16(old(self).bytes(), old(self).pos()) as i16,
            ) && old(self).advanced(*final(self), 2),
            !old(self).fits(2) ==> r == Err::<i16, _>(ClassFileError::UnexpectedEndOfData)
                && *final(self) == *old(self),
    {
        match self.read_u16() {
            Ok(v) => Ok(#[verifier::truncate] (v as i16)),
            Err(e) => Err(e),
        }
    }

    pub fn read_2_u16(&mut self) -> (r: Result<(u16, u16), ClassFileError>)
        ensures
            old(self).fits(4) ==> r == Ok::<(u16, u16), ClassFileError>(
                (
                    be_u16(old(self).bytes(), old(self).pos()),
                    be_u16(old(self).bytes(), old(self).pos() + 2),
                ),
            ) && old(self).advanced(*final(self), 4),
            !old(self).fits(4) ==> r == Err::<(u16, u16), _>(ClassFileError::UnexpectedEndOfData)
                && final(self).bytes() == old(self).bytes(),
    {
        let first = self.read_u16()?;
        let second = self.read_u16()?;
        Ok((first, second))
    }

    pub fn read_u8_u16(&mut self) -> (r: Result<(u8, u16), ClassFileError>)
        ensures
            old(self).fits(3) ==> r == Ok::<(u8, u16), ClassFileError>(
                (old(self).bytes()[old(self).pos()], be_u16(old(self).bytes(), old(self).pos() + 1)),
            ) && old(self).advanced(*final(self), 3),
            !old(self).fits(3) ==> r == Err::<(u8, u16), _>(ClassFileError::UnexpectedEndOfData)
                && final(self).bytes() == old(self).bytes(),
    {
        let first = self.read_u8()?;
        let second = self.read_u16()?;
        Ok((first, second))
    }

    pub fn read_u32(&mut self) -> (r: Result<u32, ClassFileError>)
        ensures
            old(self).fits(4) ==> r == Ok::<u32, ClassFileError>(
                be_u32(old(self).bytes(), old(self).pos()),
            ) && old(self).advanced(*final(self), 4),
            !old(self).fits(4) ==> r == Err::<u32, _>(ClassFileError::UnexpectedEndOfData)
                && *final(self) == *old(self),
    {
        match self.advance(4) {
            Ok(bytes) => Ok(
                (bytes[0] as u32) * 0x100_0000 + (bytes[1] as u32) * 0x1_0000 + (bytes[2] as u32)
                    * 0x100 + (bytes[3] as u32),
            ),
            Err(e) => Err(e),
        }
    }

    pub fn read_i32(&mut self) -> (r: Result<i32, ClassFileError>)
        ensures
            old(self).fits(4) ==> r == Ok::<i32, ClassFileError>(
                be_u32(old(self).bytes(), old(self).pos()) as i32,
            ) && old(self).advanced(*final(self), 4),
            !old(self).fits(4) ==> r == Err::<i32, _>(ClassFileError::UnexpectedEndOfData)
                && *final(self) == *old(self),
    {
        match self.read_u32() {
            Ok(v) => Ok(#[verifier::truncate] (v as i32)),
            Err(e) => Err(e),
        }
    }

    /// Reads eight bytes as one unsigned value.
    pub fn read_u64(&mut self) -> (r: Result<u64, ClassFileError>)
        ensures
            old(self).fits(8) ==> r == Ok::<u64, ClassFileError>(
                be_u64(old(self).bytes(), old(self).pos()),
            ) && old(self).advanced(*final(self), 8),
            !old(self).fits(8) ==> r == Err::<u64, _>(ClassFileError::UnexpectedEndOfData)
                && *final(self) == *old(self),
    {
        proof {
            use_type_invariant(&*self);
        }
        if 8 > self.buffer.len() - self.position {
            return Err(ClassFileError::UnexpectedEndOfData);
        }
        let high = self.read_u32();
        let low = self.read_u32();
        match (high, low) {
            (Ok(h), Ok(l)) => Ok((h as u64) * 0x1_0000_0000 + (l as u64)),
            _ => Err(ClassFileError::UnexpectedEndOfData),
        }
    }

    pub fn read_i64(&mut self) -> (r: Result<i64, ClassFileError>)
        ensures
            old(self).fits(8) ==> r == Ok::<i64, ClassFileError>(
                be_u64(old(self).bytes(), old(self).pos()) as i64,
            ) && old(self).advanced(*final(self), 8),
            !old(self).fits(8) ==> r == Err::<i64, _>(ClassFileError::UnexpectedEndOfData)
                && *final(self) == *old(self),
    {
        match self.read_u64() {
            Ok(v) => Ok(#[verifier::truncate] (v as i64)),
            Err(e) => Err(e),
        }
    }

    /// Reads `len` bytes of modified UTF-8 and decodes them.
    pub fn read_utf8(&mut self, len: usize) -> (r: Result<String, ClassFileError>)
        ensures
            !old(self).fits(len as int) ==> r == Err::<String, _>(
                ClassFileError::UnexpectedEndOfData,
            ) && *final(self) == *old(self),
            old(self).fits(len as int) ==> old(self).advanced(*final(self), len as int) && ({
                let text = java_cesu8_text(
                    old(self).bytes().subrange(old(self).pos(), old(self).pos() + len),
                );
                match text {
                    Some(t) => r is Ok && r->Ok_0@ == t,
                    None => r == Err::<String, _>(ClassFileError::InvalidCesu8String),
                }
            }),
    {
        let bytes = self.advance(len)?;
        match decode_java_cesu8(bytes) {
            Ok(text) => Ok(text),
            Err(_) => Err(ClassFileError::InvalidCesu8String),
        }
    }

    pub fn read_bytes(&mut self, len: usize) -> (r: Result<&'a [u8], ClassFileError>)
        ensures
            old(self).fits(len as int) ==> r is Ok && old(self).advanced(*final(self), len as int)
                && r->Ok_0@ == old(self).bytes().subrange(old(self).pos(), old(self).pos() + len),
            !old(self).fits(len as int) ==> r == Err::<&[u8], _>(
                ClassFileError::UnexpectedEndOfData,
            ) && *final(self) == *old(self),
    {
        self.advance(len)
    }

    /// Moves the cursor over `len` bytes without looking at them.
    pub fn skip(&mut self, len: u64) -> (r: Result<(), ClassFileError>)
        ensures
            old(self).fits(len as int) ==> r is Ok && old(self).advanced(*final(self), len as int),
            !old(self).fits(len as int) ==> r == Err::<(), _>(ClassFileError::UnexpectedEndOfData)
                && *final(self) == *old(self),
    {
        proof {
            use_type_invariant(&*self);
        }
        if len > (self.buffer.len() - self.position) as u64 {
            Err(ClassFileError::UnexpectedEndOfData)
        } else {
            self.position += len as usize;
            Ok(())
        }
    }

    pub fn has_more_data(&self) -> (r: bool)
        ensures
            r == (self.pos() < self.bytes().len()),
    {
        self.position < self.buffer.len()
    }

    pub fn jump_to(&mut self, position: usize)
        requires
            position <= old(self).bytes().len(),
        ensures
            final(self).bytes() == old(self).bytes(),
            final(self).pos() == position,
    {
        self.position = position;
    }
}

} // verus!
