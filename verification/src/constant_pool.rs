//! The constant pool of a class file, as decoded.
use vstd::prelude::*;
use crate::byte_buffer::{
    be_u16, be_u32, be_u64, decodes, java_cesu8_text, parse_u16, parse_u32, parse_u64, parse_u8,
    parse_utf8, ByteBuffer,
};
use crate::class_file_error::{ClassDataFault, ClassFileError};

verus! {

pub type ConstantPoolIndex = u16;

/// One constant. Floating-point constants are held as their IEEE-754 bit
/// patterns.
#[derive(Debug, PartialEq)]
pub enum ConstantPoolEntry {
    Utf8(String),
    Integer(i32),
    Float(u32),
    Long(i64),
    Double(u64),
    ClassReference(ConstantPoolIndex),
    StringReference(ConstantPoolIndex),
    FieldReference(ConstantPoolIndex, ConstantPoolIndex),
    MethodReference(ConstantPoolIndex, ConstantPoolIndex),
    InterfaceMethodReference(ConstantPoolIndex, ConstantPoolIndex),
    NameAndTypeDescriptor(ConstantPoolIndex, ConstantPoolIndex),
    MethodHandler(u8, ConstantPoolIndex),
    MethodType(ConstantPoolIndex),
    Dynamic(u16, ConstantPoolIndex),
    InvokeDynamic(u16, ConstantPoolIndex),
    Module(ConstantPoolIndex),
    Package(ConstantPoolIndex),
}

/// A constant as a mathematical value.
pub enum ConstantView {
    Utf8(Seq<char>),
    Integer(i32),
    Float(u32),
    Long(i64),
    Double(u64),
    ClassReference(u16),
    StringReference(u16),
    FieldReference(u16, u16),
    MethodReference(u16, u16),
    InterfaceMethodReference(u16, u16),
    NameAndTypeDescriptor(u16, u16),
    MethodHandler(u8, u16),
    MethodType(u16),
    Dynamic(u16, u16),
    InvokeDynamic(u16, u16),
    Module(u16),
    Package(u16),
}

impl ConstantView {
    /// Whether the constant takes two slots of the pool.
    pub open spec fn is_wide(self) -> bool {
        self is Long || self is Double
    }
}

impl View for ConstantPoolEntry {
    type V = ConstantView;

    open spec fn view(&self) -> ConstantView {
        match self {
            ConstantPoolEntry::Utf8(s) => ConstantView::Utf8(s@),
            ConstantPoolEntry::Integer(v) => ConstantView::Integer(*v),
            ConstantPoolEntry::Float(v) => ConstantView::Float(*v),
            ConstantPoolEntry::Long(v) => ConstantView::Long(*v),
            ConstantPoolEntry::Double(v) => ConstantView::Double(*v),
            ConstantPoolEntry::ClassReference(a) => ConstantView::ClassReference(*a),
            ConstantPoolEntry::StringReference(a) => ConstantView::StringReference(*a),
            ConstantPoolEntry::FieldReference(a, b) => ConstantView::FieldReference(*a, *b),
            ConstantPoolEntry::MethodReference(a, b) => ConstantView::MethodReference(*a, *b),
            ConstantPoolEntry::InterfaceMethodReference(a, b) => {
                ConstantView::InterfaceMethodReference(*a, *b)
            },
            ConstantPoolEntry::NameAndTypeDescriptor(a, b) => {
                ConstantView::NameAndTypeDescriptor(*a, *b)
            },
            ConstantPoolEntry::MethodHandler(a, b) => ConstantView::MethodHandler(*a, *b),
            ConstantPoolEntry::MethodType(a) => ConstantView::MethodType(*a),
            ConstantPoolEntry::Dynamic(a, b) => ConstantView::Dynamic(*a, *b),
            ConstantPoolEntry::InvokeDynamic(a, b) => ConstantView::InvokeDynamic(*a, *b),
            ConstantPoolEntry::Module(a) => ConstantView::Module(*a),
            ConstantPoolEntry::Package(a) => ConstantView::Package(*a),
        }
    }
}

/// The constant whose tag byte is `tag` and whose one 16-bit operand is `a`.
pub open spec fn single_index_constant(tag: u8, a: u16) -> ConstantView {
    if tag == 7 {
        ConstantView::ClassReference(a)
    } else if tag == 8 {
        ConstantView::StringReference(a)
    } else if tag == 16 {
        ConstantView::MethodType(a)
    } else if tag == 19 {
        ConstantView::Module(a)
    } else {
        ConstantView::Package(a)
    }
}

/// The constant whose tag byte is `tag` and whose two 16-bit operands are
/// `a` and `b`.
pub open spec fn double_index_constant(tag: u8, a: u16, b: u16) -> ConstantView {
    if tag == 9 {
        ConstantView::FieldReference(a, b)
    } else if tag == 10 {
        ConstantView::MethodReference(a, b)
    } else if tag == 11 {
        ConstantView::InterfaceMethodReference(a, b)
    } else if tag == 12 {
        ConstantView::NameAndTypeDescriptor(a, b)
    } else if tag == 17 {
        ConstantView::Dynamic(a, b)
    } else {
        ConstantView::InvokeDynamic(a, b)
    }
}

/// The constant that starts at `pos`: a tag byte, then what the tag calls for.
pub open spec fn parse_entry(bytes: Seq<u8>, pos: int) -> Result<
    (ConstantView, int),
    ClassFileError,
> {
    match parse_u8(bytes, pos) {
        Err(e) => Err(e),
        Ok((tag, p)) => {
            if tag == 1 {
                match parse_u16(bytes, p) {
                    Err(e) => Err(e),
                    Ok((len, q)) => match parse_utf8(bytes, q, len as int) {
                        Err(e) => Err(e),
                        Ok((text, end)) => Ok((ConstantView::Utf8(text), end)),
                    },
                }
            } else if tag == 3 {
                match parse_u32(bytes, p) {
                    Err(e) => Err(e),
                    Ok((v, end)) => Ok((ConstantView::Integer(v as i32), end)),
                }
            } else if tag == 4 {
                match parse_u32(bytes, p) {
                    Err(e) => Err(e),
                    Ok((v, end)) => Ok((ConstantView::Float(v), end)),
                }
            } else if tag == 5 {
                match parse_u64(bytes, p) {
                    Err(e) => Err(e),
                    Ok((v, end)) => Ok((ConstantView::Long(v as i64), end)),
                }
            } else if tag == 6 {
                match parse_u64(bytes, p) {
                    Err(e) => Err(e),
                    Ok((v, end)) => Ok((ConstantView::Double(v), end)),
                }
            } else if tag == 7 || tag == 8 || tag == 16 || tag == 19 || tag == 20 {
                match parse_u16(bytes, p) {
                    Err(e) => Err(e),
                    Ok((a, end)) => Ok((single_index_constant(tag, a), end)),
                }
            } else if tag == 9 || tag == 10 || tag == 11 || tag == 12 || tag == 17 || tag == 18 {
                match parse_u16(bytes, p) {
                    Err(e) => Err(e),
                    Ok((a, q)) => match parse_u16(bytes, q) {
                        Err(e) => Err(e),
                        Ok((b, end)) => Ok((double_index_constant(tag, a, b), end)),
                    },
                }
            } else if tag == 15 {
                match parse_u8(bytes, p) {
                    Err(e) => Err(e),
                    Ok((kind, q)) => match parse_u16(bytes, q) {
                        Err(e) => Err(e),
                        Ok((b, end)) => Ok((ConstantView::MethodHandler(kind, b), end)),
                    },
                }
            } else {
                Err(ClassFileError::ConstantPoolTagNotSupport(tag))
            }
        },
    }
}

impl ConstantPoolEntry {
    /// Decodes the constant at the cursor.
    pub fn read_from_bytes(buffer: &mut ByteBuffer) -> (r: Result<
        ConstantPoolEntry,
        ClassFileError,
    >)
        ensures
            decodes(
                *old(buffer),
                *final(buffer),
                r,
                parse_entry(old(buffer).bytes(), old(buffer).pos()),
            ),
    {
        let tag = buffer.read_u8()?;
        match tag {
            1 => ConstantPoolEntry::read_utf8(buffer),
            3 => {
                let v = buffer.read_i32()?;
                Ok(ConstantPoolEntry::Integer(v))
            },
            4 => {
                let v = buffer.read_u32()?;
                Ok(ConstantPoolEntry::Float(v))
            },
            5 => {
                let v = buffer.read_i64()?;
                Ok(ConstantPoolEntry::Long(v))
            },
            6 => {
                let v = buffer.read_u64()?;
                Ok(ConstantPoolEntry::Double(v))
            },
            7 | 8 | 16 | 19 | 20 => {
                let a = buffer.read_u16()?;
                Ok(
                    if tag == 7 {
                        ConstantPoolEntry::ClassReference(a)
                    } else if tag == 8 {
                        ConstantPoolEntry::StringReference(a)
                    } else if tag == 16 {
                        ConstantPoolEntry::MethodType(a)
                    } else if tag == 19 {
                        ConstantPoolEntry::Module(a)
                    } else {
                        ConstantPoolEntry::Package(a)
                    },
                )
            },
            9 | 10 | 11 | 12 | 17 | 18 => {
                let a = buffer.read_u16()?;
                let b = buffer.read_u16()?;
                Ok(
                    if tag == 9 {
                        ConstantPoolEntry::FieldReference(a, b)
                    } else if tag == 10 {
                        ConstantPoolEntry::MethodReference(a, b)
                    } else if tag == 11 {
                        ConstantPoolEntry::InterfaceMethodReference(a, b)
                    } else if tag == 12 {
                        ConstantPoolEntry::NameAndTypeDescriptor(a, b)
                    } else if tag == 17 {
                        ConstantPoolEntry::Dynamic(a, b)
                    } else {
                        ConstantPoolEntry::InvokeDynamic(a, b)
                    },
                )
            },
            15 => {
                let kind = buffer.read_u8()?;
                let b = buffer.read_u16()?;
                Ok(ConstantPoolEntry::MethodHandler(kind, b))
            },
            t => Err(ClassFileError::ConstantPoolTagNotSupport(t)),
        }
    }

    fn read_utf8(buffer: &mut ByteBuffer) -> (r: Result<ConstantPoolEntry, ClassFileError>)
        ensures
            final(buffer).bytes() == old(buffer).bytes(),
            match parse_u16(old(buffer).bytes(), old(buffer).pos()) {
                Err(e) => r == Err::<ConstantPoolEntry, _>(e),
                Ok((len, q)) => match parse_utf8(old(buffer).bytes(), q, len as int) {
                    Err(e) => r == Err::<ConstantPoolEntry, _>(e),
                    Ok((text, end)) => r is Ok && r->Ok_0@ == ConstantView::Utf8(text)
                        && final(buffer).pos() == end,
                },
            },
    {
        let len = buffer.read_u16()?;
        let text = buffer.read_utf8(len as usize)?;
        Ok(ConstantPoolEntry::Utf8(text))
    }
}

/// What `to_java_cesu8` of the cesu8 crate makes of a text: its bytes in
/// modified UTF-8.
pub uninterp spec fn java_cesu8_bytes(text: Seq<char>) -> Seq<u8>;

/// Calls `cesu8::to_java_cesu8` and copies the bytes.
#[verifier::external_body]
fn encode_java_cesu8(text: &str) -> (r: Vec<u8>)
    ensures
        r@ == java_cesu8_bytes(text@),
{
    cesu8::to_java_cesu8(text).into_owned()
}

/// The two bytes of a 16-bit value, the high byte first.
pub open spec fn be_bytes_u16(v: u16) -> Seq<u8> {
    seq![(v / 0x100) as u8, (v % 0x100) as u8]
}

/// The four bytes of a 32-bit value, the highest byte first.
pub open spec fn be_bytes_u32(v: u32) -> Seq<u8> {
    seq![
        (v / 0x100_0000) as u8,
        ((v / 0x1_0000) % 0x100) as u8,
        ((v / 0x100) % 0x100) as u8,
        (v % 0x100) as u8,
    ]
}

/// The eight bytes of a 64-bit value, the highest byte first.
pub open spec fn be_bytes_u64(v: u64) -> Seq<u8> {
    be_bytes_u32((v / 0x1_0000_0000) as u32) + be_bytes_u32((v % 0x1_0000_0000) as u32)
}

/// The bytes of a constant in a class file: its tag, then its operands.
/// A Utf8 constant holds the length of its modified UTF-8 bytes and
/// these bytes.
pub open spec fn encoded_entry(entry: ConstantView) -> Seq<u8> {
    match entry {
        ConstantView::Utf8(text) => seq![1u8] + be_bytes_u16(
            java_cesu8_bytes(text).len() as u16,
        ) + java_cesu8_bytes(text),
        ConstantView::Integer(v) => seq![3u8] + be_bytes_u32(v as u32),
        ConstantView::Float(v) => seq![4u8] + be_bytes_u32(v),
        ConstantView::Long(v) => seq![5u8] + be_bytes_u64(v as u64),
        ConstantView::Double(v) => seq![6u8] + be_bytes_u64(v),
        ConstantView::ClassReference(a) => seq![7u8] + be_bytes_u16(a),
        ConstantView::StringReference(a) => seq![8u8] + be_bytes_u16(a),
        ConstantView::FieldReference(a, b) => seq![9u8] + be_bytes_u16(a) + be_bytes_u16(b),
        ConstantView::MethodReference(a, b) => seq![10u8] + be_bytes_u16(a) + be_bytes_u16(b),
        ConstantView::InterfaceMethodReference(a, b) => seq![11u8] + be_bytes_u16(a)
            + be_bytes_u16(b),
        ConstantView::NameAndTypeDescriptor(a, b) => seq![12u8] + be_bytes_u16(a) + be_bytes_u16(
            b,
        ),
        ConstantView::MethodHandler(a, b) => seq![15u8, a] + be_bytes_u16(b),
        ConstantView::MethodType(a) => seq![16u8] + be_bytes_u16(a),
        ConstantView::Dynamic(a, b) => seq![17u8] + be_bytes_u16(a) + be_bytes_u16(b),
        ConstantView::InvokeDynamic(a, b) => seq![18u8] + be_bytes_u16(a) + be_bytes_u16(b),
        ConstantView::Module(a) => seq![19u8] + be_bytes_u16(a),
        ConstantView::Package(a) => seq![20u8] + be_bytes_u16(a),
    }
}

/// The bytes of the constants in the slots `pool[from..]`, one after the
/// other; placeholders have no bytes.
pub open spec fn encoded_pool(pool: Seq<Option<ConstantView>>, from: int) -> Seq<u8>
    decreases pool.len() - from,
{
    if from < 0 || from >= pool.len() {
        Seq::empty()
    } else {
        match pool[from] {
            Some(entry) => encoded_entry(entry) + encoded_pool(pool, from + 1),
            None => encoded_pool(pool, from + 1),
        }
    }
}

fn push_u16(out: &mut Vec<u8>, v: u16)
    ensures
        final(out)@ == old(out)@ + be_bytes_u16(v),
{
    out.push((v / 0x100) as u8);
    out.push((v % 0x100) as u8);
    assert(out@ =~= old(out)@ + be_bytes_u16(v));
}

fn push_u32(out: &mut Vec<u8>, v: u32)
    ensures
        final(out)@ == old(out)@ + be_bytes_u32(v),
{
    out.push((v / 0x100_0000) as u8);
    out.push(((v / 0x1_0000) % 0x100) as u8);
    out.push(((v / 0x100) % 0x100) as u8);
    out.push((v % 0x100) as u8);
    assert(out@ =~= old(out)@ + be_bytes_u32(v));
}

fn push_u64(out: &mut Vec<u8>, v: u64)
    ensures
        final(out)@ == old(out)@ + be_bytes_u64(v),
{
    push_u32(out, (v / 0x1_0000_0000) as u32);
    push_u32(out, (v % 0x1_0000_0000) as u32);
    assert(out@ =~= old(out)@ + be_bytes_u64(v));
}

/// Whether a constant can be written: the bytes of a Utf8 constant are
/// no more than a 16-bit length can count.
pub open spec fn writable(entry: ConstantView) -> bool {
    !(entry matches ConstantView::Utf8(text) && java_cesu8_bytes(text).len() > 0xFFFF)
}

impl ConstantPoolEntry {
    /// Writes the constant as it stands in a class file behind `out`.
    /// A Utf8 constant whose bytes are more than a 16-bit length can
    /// count is not written, and the result is `false`.
    pub fn write_to(&self, out: &mut Vec<u8>) -> (r: bool)
        ensures
            r == writable(self@),
            r ==> final(out)@ == old(out)@ + encoded_entry(self@),
            !r ==> final(out)@ == old(out)@,
    {
        match self {
            ConstantPoolEntry::Utf8(text) => {
                let bytes = encode_java_cesu8(text.as_str());
                if bytes.len() > 0xFFFF {
                    return false;
                }
                out.push(1);
                push_u16(out, bytes.len() as u16);
                let ghost before = out@;
                let mut i: usize = 0;
                while i < bytes.len()
                    invariant
                        i <= bytes.len(),
                        out@ == before + bytes@.subrange(0, i as int),
                    decreases bytes.len() - i,
                {
                    out.push(bytes[i]);
                    assert(out@ =~= before + bytes@.subrange(0, i + 1));
                    i += 1;
                }
                assert(bytes@.subrange(0, bytes@.len() as int) =~= bytes@);
                assert(out@ =~= old(out)@ + encoded_entry(self@));
            },
            ConstantPoolEntry::Integer(v) => {
                out.push(3);
                push_u32(out, #[verifier::truncate] (*v as u32));
                assert(out@ =~= old(out)@ + encoded_entry(self@));
            },
            ConstantPoolEntry::Float(v) => {
                out.push(4);
                push_u32(out, *v);
                assert(out@ =~= old(out)@ + encoded_entry(self@));
            },
            ConstantPoolEntry::Long(v) => {
                out.push(5);
                push_u64(out, #[verifier::truncate] (*v as u64));
                assert(out@ =~= old(out)@ + encoded_entry(self@));
            },
            ConstantPoolEntry::Double(v) => {
                out.push(6);
                push_u64(out, *v);
                assert(out@ =~= old(out)@ + encoded_entry(self@));
            },
            ConstantPoolEntry::ClassReference(a) => {
                out.push(7);
                push_u16(out, *a);
                assert(out@ =~= old(out)@ + encoded_entry(self@));
            },
            ConstantPoolEntry::StringReference(a) => {
                out.push(8);
                push_u16(out, *a);
                assert(out@ =~= old(out)@ + encoded_entry(self@));
            },
            ConstantPoolEntry::FieldReference(a, b) => {
                out.push(9);
                push_u16(out, *a);
                push_u16(out, *b);
                assert(out@ =~= old(out)@ + encoded_entry(self@));
            },
            ConstantPoolEntry::MethodReference(a, b) => {
                out.push(10);
                push_u16(out, *a);
                push_u16(out, *b);
                assert(out@ =~= old(out)@ + encoded_entry(self@));
            },
            ConstantPoolEntry::InterfaceMethodReference(a, b) => {
                out.push(11);
                push_u16(out, *a);
                push_u16(out, *b);
                assert(out@ =~= old(out)@ + encoded_entry(self@));
            },
            ConstantPoolEntry::NameAndTypeDescriptor(a, b) => {
                out.push(12);
                push_u16(out, *a);
                push_u16(out, *b);
                assert(out@ =~= old(out)@ + encoded_entry(self@));
            },
            ConstantPoolEntry::MethodHandler(a, b) => {
                out.push(15);
                out.push(*a);
                push_u16(out, *b);
                assert(out@ =~= old(out)@ + encoded_entry(self@));
            },
            ConstantPoolEntry::MethodType(a) => {
                out.push(16);
                push_u16(out, *a);
                assert(out@ =~= old(out)@ + encoded_entry(self@));
            },
            ConstantPoolEntry::Dynamic(a, b) => {
                out.push(17);
                push_u16(out, *a);
                push_u16(out, *b);
                assert(out@ =~= old(out)@ + encoded_entry(self@));
            },
            ConstantPoolEntry::InvokeDynamic(a, b) => {
                out.push(18);
                push_u16(out, *a);
                push_u16(out, *b);
                assert(out@ =~= old(out)@ + encoded_entry(self@));
            },
            ConstantPoolEntry::Module(a) => {
                out.push(19);
                push_u16(out, *a);
                assert(out@ =~= old(out)@ + encoded_entry(self@));
            },
            ConstantPoolEntry::Package(a) => {
                out.push(20);
                push_u16(out, *a);
                assert(out@ =~= old(out)@ + encoded_entry(self@));
            },
        }
        true
    }
}

/// Whether the modified UTF-8 bytes `bytes` are the bytes that their
/// own text is encoded to.
pub open spec fn canonical_text(bytes: Seq<u8>) -> bool {
    java_cesu8_text(bytes) matches Some(text) && java_cesu8_bytes(text) == bytes
}

/// Whether the constant that starts at `pos` is written as the encoder
/// writes it: every constant but a Utf8 constant is, and a Utf8 constant
/// is where its bytes are canonical.
pub open spec fn canonical_entry(bytes: Seq<u8>, pos: int) -> bool {
    0 <= pos && pos + 3 <= bytes.len() && bytes[pos] == 1 ==> canonical_text(
        bytes.subrange(pos + 3, pos + 3 + be_u16(bytes, pos + 1)),
    )
}

/// The two bytes of the value that two bytes stand for are these bytes.
pub proof fn lemma_u16_bytes(s: Seq<u8>, at: int)
    requires
        0 <= at,
        at + 2 <= s.len(),
    ensures
        be_bytes_u16(be_u16(s, at)) == s.subrange(at, at + 2),
{
    assert(be_bytes_u16(be_u16(s, at)) =~= s.subrange(at, at + 2));
}

/// The four bytes of the value that four bytes stand for are these
/// bytes.
pub proof fn lemma_u32_bytes(s: Seq<u8>, at: int)
    requires
        0 <= at,
        at + 4 <= s.len(),
    ensures
        be_bytes_u32(be_u32(s, at)) == s.subrange(at, at + 4),
{
    let v = be_u32(s, at);
    let a = s[at] as int;
    let b = s[at + 1] as int;
    let c = s[at + 2] as int;
    let d = s[at + 3] as int;
    assert(v == a * 0x100_0000 + b * 0x1_0000 + c * 0x100 + d);
    assert(v / 0x100_0000 == a);
    assert((v / 0x1_0000) % 0x100 == b);
    assert((v / 0x100) % 0x100 == c);
    assert(v % 0x100 == d);
    assert(be_bytes_u32(v) =~= s.subrange(at, at + 4));
}

/// The eight bytes of the value that eight bytes stand for are these
/// bytes.
pub proof fn lemma_u64_bytes(s: Seq<u8>, at: int)
    requires
        0 <= at,
        at + 8 <= s.len(),
    ensures
        be_bytes_u64(be_u64(s, at)) == s.subrange(at, at + 8),
{
    let v = be_u64(s, at);
    let high = be_u32(s, at);
    let low = be_u32(s, at + 4);
    assert(v == high * 0x1_0000_0000 + low);
    assert(v / 0x1_0000_0000 == high);
    assert(v % 0x1_0000_0000 == low);
    lemma_u32_bytes(s, at);
    lemma_u32_bytes(s, at + 4);
    assert(be_bytes_u64(v) =~= s.subrange(at, at + 8));
}

/// Decoding a constant and encoding it again gives the bytes that were
/// decoded, where the constant is written as the encoder writes it.
pub proof fn lemma_entry_round_trip(bytes: Seq<u8>, pos: int)
    requires
        0 <= pos,
        parse_entry(bytes, pos) is Ok,
        canonical_entry(bytes, pos),
    ensures
        encoded_entry(parse_entry(bytes, pos)->Ok_0.0) == bytes.subrange(
            pos,
            parse_entry(bytes, pos)->Ok_0.1,
        ),
        pos < parse_entry(bytes, pos)->Ok_0.1 <= bytes.len(),
{
    let tag = bytes[pos];
    let entry = parse_entry(bytes, pos)->Ok_0.0;
    let end = parse_entry(bytes, pos)->Ok_0.1;
    if tag == 1 {
        lemma_u16_bytes(bytes, pos + 1);
        let len = be_u16(bytes, pos + 1);
        let text_bytes = bytes.subrange(pos + 3, pos + 3 + len);
        assert(java_cesu8_bytes(entry->Utf8_0) == text_bytes);
        assert(encoded_entry(entry) =~= bytes.subrange(pos, end));
    } else if tag == 3 || tag == 4 {
        lemma_u32_bytes(bytes, pos + 1);
        let v = be_u32(bytes, pos + 1);
        assert((v as i32) as u32 == v) by (bit_vector);
        assert(encoded_entry(entry) =~= bytes.subrange(pos, end));
    } else if tag == 5 || tag == 6 {
        lemma_u64_bytes(bytes, pos + 1);
        let v = be_u64(bytes, pos + 1);
        assert((v as i64) as u64 == v) by (bit_vector);
        assert(encoded_entry(entry) =~= bytes.subrange(pos, end));
    } else if tag == 7 || tag == 8 || tag == 16 || tag == 19 || tag == 20 {
        lemma_u16_bytes(bytes, pos + 1);
        assert(encoded_entry(entry) =~= bytes.subrange(pos, end));
    } else if tag == 15 {
        lemma_u16_bytes(bytes, pos + 2);
        assert(encoded_entry(entry) =~= bytes.subrange(pos, end));
    } else {
        lemma_u16_bytes(bytes, pos + 1);
        lemma_u16_bytes(bytes, pos + 3);
        assert(encoded_entry(entry) =~= bytes.subrange(pos, end));
    }
}

/// A slot of the pool: a constant, or the unusable second slot of a wide one.
#[derive(Debug)]
pub enum ConstantPoolPhysicalEntry {
    Entry(ConstantPoolEntry),
    PlaceHolder,
}

impl View for ConstantPoolPhysicalEntry {
    type V = Option<ConstantView>;

    open spec fn view(&self) -> Option<ConstantView> {
        match self {
            ConstantPoolPhysicalEntry::Entry(e) => Some(e@),
            ConstantPoolPhysicalEntry::PlaceHolder => None,
        }
    }
}

/// The pool after `entry` was added to `pool`: one slot more, or two for a
/// wide constant.
pub open spec fn pool_with(pool: Seq<Option<ConstantView>>, entry: ConstantView) -> Seq<
    Option<ConstantView>,
> {
    if entry.is_wide() {
        pool.push(Some(entry)).push(None)
    } else {
        pool.push(Some(entry))
    }
}

/// Adding a constant makes the pool longer by one slot or two.
pub proof fn lemma_pool_with_len(pool: Seq<Option<ConstantView>>, entry: ConstantView)
    ensures
        pool_with(pool, entry).len() == pool.len() + (if entry.is_wide() {
            2int
        } else {
            1int
        }),
{
}

/// The constant at the 1-based `index`, where there is one: index 0, an
/// index past the end and the second slot of a wide constant have none.
pub open spec fn constant_at(pool: Seq<Option<ConstantView>>, index: int) -> Option<
    ConstantView,
> {
    if 1 <= index <= pool.len() {
        pool[index - 1]
    } else {
        None
    }
}

/// The text of the Utf8 constant at `index`, where there is one.
pub open spec fn utf8_at(pool: Seq<Option<ConstantView>>, index: int) -> Option<Seq<char>> {
    match constant_at(pool, index) {
        Some(ConstantView::Utf8(text)) => Some(text),
        _ => None,
    }
}

/// The name of the class that the class reference at `index` refers to.
pub open spec fn class_name_at(pool: Seq<Option<ConstantView>>, index: int) -> Option<
    Seq<char>,
> {
    match constant_at(pool, index) {
        Some(ConstantView::ClassReference(name_index)) => utf8_at(pool, name_index as int),
        _ => None,
    }
}

/// What `get_string` returns for `index`.
pub open spec fn string_lookup(pool: Seq<Option<ConstantView>>, index: u16) -> Result<
    Seq<char>,
    ClassFileError,
> {
    match constant_at(pool, index as int) {
        None => Err(ClassFileError::InvalidConstantPoolIndexError(index)),
        Some(ConstantView::Utf8(text)) => Ok(text),
        Some(_) => Err(ClassFileError::InvalidClassData(ClassDataFault::NotUtf8(index))),
    }
}

/// What `get_class_name` returns for `index`.
pub open spec fn class_name_lookup(pool: Seq<Option<ConstantView>>, index: u16) -> Result<
    Seq<char>,
    ClassFileError,
> {
    match constant_at(pool, index as int) {
        None => Err(ClassFileError::InvalidConstantPoolIndexError(index)),
        Some(ConstantView::ClassReference(name_index)) => string_lookup(pool, name_index),
        Some(_) => Err(ClassFileError::InvalidClassData(ClassDataFault::NotClassReference(index))),
    }
}

/// The constant pool of a class. Constants are numbered from 1.
#[derive(Debug)]
pub struct ConstantPool {
    pub entries: Vec<ConstantPoolPhysicalEntry>,
}

impl View for ConstantPool {
    type V = Seq<Option<ConstantView>>;

    open spec fn view(&self) -> Seq<Option<ConstantView>> {
        Seq::new(self.entries@.len(), |i: int| self.entries@[i]@)
    }
}

impl ConstantPool {
    pub fn len(&self) -> (r: usize)
        ensures
            r == self@.len(),
    {
        self.entries.len()
    }

    pub fn new() -> (r: ConstantPool)
        ensures
            r@ == Seq::<Option<ConstantView>>::empty(),
    {
        let r = ConstantPool { entries: Vec::new() };
        assert(r@ =~= Seq::<Option<ConstantView>>::empty());
        r
    }

    pub fn add(&mut self, entry: ConstantPoolEntry)
        ensures
            final(self)@ == pool_with(old(self)@, entry@),
    {
        let take_two_words = match &entry {
            ConstantPoolEntry::Long(_) => true,
            ConstantPoolEntry::Double(_) => true,
            _ => false,
        };
        self.entries.push(ConstantPoolPhysicalEntry::Entry(entry));
        if take_two_words {
            self.entries.push(ConstantPoolPhysicalEntry::PlaceHolder);
        }
        assert(self@ =~= pool_with(old(self)@, entry@));
    }

    pub fn try_get_string(&self, offset: &ConstantPoolIndex) -> (r: Option<String>)
        ensures
            r is Some <==> utf8_at(self@, *offset as int) is Some,
            r is Some ==> r->0@ == utf8_at(self@, *offset as int)->0,
    {
        match self.try_get(offset) {
            Some(ConstantPoolEntry::Utf8(value)) => Some(value.clone()),
            _ => None,
        }
    }

    pub fn get_string(&self, offset: &ConstantPoolIndex) -> (r: Result<String, ClassFileError>)
        ensures
            match string_lookup(self@, *offset) {
                Ok(text) => r is Ok && r->Ok_0@ == text,
                Err(e) => r == Err::<String, _>(e),
            },
    {
        match self.get(offset) {
            Ok(ConstantPoolEntry::Utf8(value)) => Ok(value.clone()),
            Ok(_) => Err(ClassFileError::InvalidClassData(ClassDataFault::NotUtf8(*offset))),
            Err(e) => Err(e),
        }
    }

    pub fn try_get_class_name(&self, offset: &ConstantPoolIndex) -> (r: Option<String>)
        ensures
            r is Some <==> class_name_at(self@, *offset as int) is Some,
            r is Some ==> r->0@ == class_name_at(self@, *offset as int)->0,
    {
        match self.try_get(offset) {
            Some(ConstantPoolEntry::ClassReference(value)) => self.try_get_string(value),
            _ => None,
        }
    }

    pub fn get_class_name(&self, offset: &ConstantPoolIndex) -> (r: Result<
        String,
        ClassFileError,
    >)
        ensures
            match class_name_lookup(self@, *offset) {
                Ok(text) => r is Ok && r->Ok_0@ == text,
                Err(e) => r == Err::<String, _>(e),
            },
    {
        match self.get(offset) {
            Ok(ConstantPoolEntry::ClassReference(value)) => self.get_string(value),
            Ok(_) => Err(
                ClassFileError::InvalidClassData(ClassDataFault::NotClassReference(*offset)),
            ),
            Err(e) => Err(e),
        }
    }

    pub fn get(&self, offset: &ConstantPoolIndex) -> (r: Result<
        &ConstantPoolEntry,
        ClassFileError,
    >)
        ensures
            match constant_at(self@, *offset as int) {
                Some(c) => r is Ok && r->Ok_0@ == c,
                None => r == Err::<&ConstantPoolEntry, _>(
                    ClassFileError::InvalidConstantPoolIndexError(*offset),
                ),
            },
    {
        match self.try_get(offset) {
            Some(e) => Ok(e),
            None => Err(ClassFileError::InvalidConstantPoolIndexError(*offset)),
        }
    }

    pub fn try_get(&self, offset: &ConstantPoolIndex) -> (r: Option<&ConstantPoolEntry>)
        ensures
            match constant_at(self@, *offset as int) {
                Some(c) => r is Some && r->0@ == c,
                None => r is None,
            },
    {
        if *offset == 0 {
            return None;
        }
        let index = (*offset - 1) as usize;
        if index < self.entries.len() {
            match &self.entries[index] {
                ConstantPoolPhysicalEntry::Entry(e) => Some(e),
                ConstantPoolPhysicalEntry::PlaceHolder => None,
            }
        } else {
            None
        }
    }
}

impl ConstantPool {
    /// The constants as they stand in a class file, one after the other.
    /// `None` where a Utf8 constant is too long to be written.
    pub fn to_bytes(&self) -> (r: Option<Vec<u8>>)
        ensures
            r matches Some(bytes) ==> bytes@ == encoded_pool(self@, 0),
            r is Some <==> forall|k: int|
                0 <= k < self@.len() ==> ((#[trigger] self@[k]) matches Some(c) ==> writable(c)),
    {
        let mut out: Vec<u8> = Vec::new();
        let mut i: usize = 0;
        while i < self.entries.len()
            invariant
                i <= self.entries.len(),
                self@.len() == self.entries.len(),
                out@ + encoded_pool(self@, i as int) == encoded_pool(self@, 0),
                forall|k: int|
                    0 <= k < i ==> ((#[trigger] self@[k]) matches Some(c) ==> writable(c)),
            decreases self.entries.len() - i,
        {
            let ghost before = out@;
            let ghost rest = encoded_pool(self@, i + 1);
            match &self.entries[i] {
                ConstantPoolPhysicalEntry::Entry(entry) => {
                    assert(self@[i as int] == Some(entry@));
                    if !entry.write_to(&mut out) {
                        return None;
                    }
                    assert(out@ + rest =~= before + (encoded_entry(entry@) + rest));
                },
                ConstantPoolPhysicalEntry::PlaceHolder => {
                    assert(self@[i as int] is None);
                },
            }
            i += 1;
        }
        assert(out@ =~= encoded_pool(self@, 0));
        Some(out)
    }
}

impl Default for ConstantPool {
    fn default() -> (r: ConstantPool)
        ensures
            r@ == Seq::<Option<ConstantView>>::empty(),
    {
        ConstantPool::new()
    }
}

/// A lookup one past a constant fails exactly when that constant is wide,
/// as long as the pool was built by adding constants and the next index is
/// still inside it.
pub open spec fn well_paired(pool: Seq<Option<ConstantView>>) -> bool {
    &&& forall|i: int|
        0 <= i < pool.len() && (#[trigger] pool[i]) is Some && pool[i]->0.is_wide() ==> i + 1
            < pool.len() && pool[i + 1] is None
    &&& forall|i: int|
        0 <= i < pool.len() && (#[trigger] pool[i]) is None ==> i > 0 && pool[i - 1] is Some
            && pool[i - 1]->0.is_wide()
}

/// Adding a constant keeps the pairing of wide constants and placeholders.
pub proof fn lemma_add_keeps_pairing(pool: Seq<Option<ConstantView>>, entry: ConstantView)
    requires
        well_paired(pool),
    ensures
        well_paired(pool_with(pool, entry)),
{
    let next = pool_with(pool, entry);
    assert forall|i: int|
        0 <= i < next.len() && (#[trigger] next[i]) is Some && next[i]->0.is_wide() implies i + 1
        < next.len() && next[i + 1] is None by {
        if i < pool.len() {
            assert(pool[i] == next[i]);
            assert(next[i + 1] == pool[i + 1]);
        }
    }
    assert forall|i: int| 0 <= i < next.len() && (#[trigger] next[i]) is None implies i > 0
        && next[i - 1] is Some && next[i - 1]->0.is_wide() by {
        if i < pool.len() {
            assert(pool[i] == next[i]);
            assert(next[i - 1] == pool[i - 1]);
        }
    }
}

/// In a pool built by adding constants: where index `i` holds a constant
/// and `i + 1` is still inside the pool, the lookup of `i + 1` fails
/// exactly when the constant at `i` is a Long or a Double.
pub proof fn lemma_next_index_fails_iff_wide(pool: Seq<Option<ConstantView>>, i: int)
    requires
        well_paired(pool),
        constant_at(pool, i) is Some,
        i + 1 <= pool.len(),
    ensures
        constant_at(pool, i + 1) is None <==> constant_at(pool, i)->0.is_wide(),
{
    assert(pool[i - 1] is Some);
    if pool[i] is None {
        assert(pool[i - 1]->0.is_wide());
    }
}

} // verus!
