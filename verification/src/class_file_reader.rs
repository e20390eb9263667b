//! Decoding a class file from its bytes.
//!
//! The format is stated as spec functions on the byte sequence
//! (`parse_class_file` and the functions it is made of); each reader is
//! proved to return what they say.
use vstd::prelude::*;
use vstd::slice::slice_to_vec;
use crate::access_flags::{
    within, ClassAccessFlags, FieldAccessFlags, MethodAccessFlags, CLASS_FLAGS, FIELD_FLAGS,
    METHOD_FLAGS,
};
use crate::attribute_info::{attribute_kind, AttributeInfo, AttributeInfoView, AttributeType};
use crate::byte_buffer::{be_u16, decodes, parse_bytes, parse_u16, parse_u32, ByteBuffer};
use crate::class_file::{ClassFile, ClassFileView};
use crate::class_file_error::{ClassDataFault, ClassFileError};
use crate::class_file_version::{version_for, ClassFileVersion};
use crate::constant_pool::{
    canonical_entry, class_name_at, class_name_lookup, encoded_entry, encoded_pool,
    lemma_add_keeps_pairing, lemma_entry_round_trip, lemma_pool_with_len, parse_entry, pool_with,
    string_lookup, well_paired, ConstantPool, ConstantPoolEntry, ConstantView,
};
use crate::field_info::{FieldInfo, MemberView};
use crate::method_info::MethodInfo;
use crate::seq_view::{lemma_views_empty, lemma_views_push, views};

verus! {

/// The magic number that opens every class file.
pub const MAGIC: u32 = 0xCAFEBABE;

pub open spec fn parse_magic(bytes: Seq<u8>, pos: int) -> Result<((), int), ClassFileError> {
    match parse_u32(bytes, pos) {
        Err(e) => Err(e),
        Ok((magic, p)) => if magic == MAGIC {
            Ok(((), p))
        } else {
            Err(ClassFileError::InvalidClassData(ClassDataFault::BadMagicNumber(magic)))
        },
    }
}

/// The version: the minor number, then the major one.
pub open spec fn parse_version(bytes: Seq<u8>, pos: int) -> Result<
    (ClassFileVersion, int),
    ClassFileError,
> {
    match parse_u16(bytes, pos) {
        Err(e) => Err(e),
        Ok((minor, p)) => match parse_u16(bytes, p) {
            Err(e) => Err(e),
            Ok((major, q)) => match version_for(major, minor) {
                Err(e) => Err(e),
                Ok(version) => Ok((version, q)),
            },
        },
    }
}

/// Constants are read at `pos` and added to `acc` until it has `limit` slots.
pub open spec fn parse_pool_from(
    bytes: Seq<u8>,
    pos: int,
    limit: int,
    acc: Seq<Option<ConstantView>>,
) -> Result<(Seq<Option<ConstantView>>, int), ClassFileError>
    decreases limit + 1 - acc.len(),
{
    if acc.len() >= limit {
        Ok((acc, pos))
    } else {
        match parse_entry(bytes, pos) {
            Err(e) => Err(e),
            Ok((entry, p)) => {
                proof {
                    lemma_pool_with_len(acc, entry);
                }
                parse_pool_from(bytes, p, limit, pool_with(acc, entry))
            },
        }
    }
}

/// The constant pool: a count, then constants until the pool has one slot
/// less than the count. A count of zero is refused.
pub open spec fn parse_pool(bytes: Seq<u8>, pos: int) -> Result<
    (Seq<Option<ConstantView>>, int),
    ClassFileError,
> {
    match parse_u16(bytes, pos) {
        Err(e) => Err(e),
        Ok((count, p)) => if count == 0 {
            Err(ClassFileError::InvalidClassData(ClassDataFault::EmptyConstantPoolCount))
        } else {
            parse_pool_from(bytes, p, count - 1, Seq::empty())
        },
    }
}

/// Whether every constant that is read at `pos` to fill a pool of
/// `filled` slots up to `limit` slots is written as the encoder writes
/// it.
pub open spec fn canonical_pool_from(bytes: Seq<u8>, pos: int, limit: int, filled: int) -> bool
    decreases limit + 1 - filled,
{
    if filled >= limit {
        true
    } else {
        match parse_entry(bytes, pos) {
            Err(_) => true,
            Ok((entry, p)) => canonical_entry(bytes, pos) && canonical_pool_from(
                bytes,
                p,
                limit,
                filled + (if entry.is_wide() {
                    2int
                } else {
                    1int
                }),
            ),
        }
    }
}

/// The pool that is read on top of `acc` keeps `acc` as its first slots,
/// and encoding what was added gives the bytes that were read.
pub proof fn lemma_pool_round_trip(
    bytes: Seq<u8>,
    pos: int,
    limit: int,
    acc: Seq<Option<ConstantView>>,
)
    requires
        0 <= pos <= bytes.len(),
        parse_pool_from(bytes, pos, limit, acc) is Ok,
        canonical_pool_from(bytes, pos, limit, acc.len() as int),
    ensures
        ({
            let pool = parse_pool_from(bytes, pos, limit, acc)->Ok_0.0;
            let end = parse_pool_from(bytes, pos, limit, acc)->Ok_0.1;
            &&& acc.len() <= pool.len()
            &&& forall|i: int| 0 <= i < acc.len() ==> pool[i] == acc[i]
            &&& pos <= end <= bytes.len()
            &&& encoded_pool(pool, acc.len() as int) == bytes.subrange(pos, end)
        }),
    decreases limit + 1 - acc.len(),
{
    let pool = parse_pool_from(bytes, pos, limit, acc)->Ok_0.0;
    let end = parse_pool_from(bytes, pos, limit, acc)->Ok_0.1;
    if acc.len() >= limit {
        assert(encoded_pool(pool, acc.len() as int) =~= bytes.subrange(pos, end));
    } else {
        let entry = parse_entry(bytes, pos)->Ok_0.0;
        let p = parse_entry(bytes, pos)->Ok_0.1;
        let next = pool_with(acc, entry);
        lemma_pool_with_len(acc, entry);
        lemma_entry_round_trip(bytes, pos);
        lemma_pool_round_trip(bytes, p, limit, next);
        let k = acc.len() as int;
        assert(pool[k] == next[k]);
        assert(next[k] == Some(entry));
        assert forall|i: int| 0 <= i < acc.len() implies pool[i] == acc[i] by {
            assert(pool[i] == next[i]);
        }
        if entry.is_wide() {
            assert(pool[k + 1] == next[k + 1]);
            assert(encoded_pool(pool, k + 1) == encoded_pool(pool, k + 2));
        }
        assert(encoded_pool(pool, k) == encoded_entry(entry) + encoded_pool(
            pool,
            next.len() as int,
        ));
        assert(bytes.subrange(pos, p) + bytes.subrange(p, end) =~= bytes.subrange(pos, end));
    }
}

/// Decoding the constant pool of a class file and encoding it again, in
/// the same order, gives the bytes that were decoded: those between the
/// count of the pool and the end of its last constant. This holds of
/// pools whose Utf8 constants are written as the encoder writes them.
pub proof fn lemma_constant_pool_round_trip(bytes: Seq<u8>, pos: int)
    requires
        0 <= pos,
        parse_pool(bytes, pos) is Ok,
        canonical_pool_from(bytes, pos + 2, be_u16(bytes, pos) - 1, 0),
    ensures
        encoded_pool(parse_pool(bytes, pos)->Ok_0.0, 0) == bytes.subrange(
            pos + 2,
            parse_pool(bytes, pos)->Ok_0.1,
        ),
{
    lemma_pool_round_trip(bytes, pos + 2, be_u16(bytes, pos) - 1, Seq::empty());
}

/// The pool that is read on top of a pool in which wide constants and
/// placeholders come in pairs has them in pairs too.
pub proof fn lemma_parsed_pool_is_paired(
    bytes: Seq<u8>,
    pos: int,
    limit: int,
    acc: Seq<Option<ConstantView>>,
)
    requires
        well_paired(acc),
        parse_pool_from(bytes, pos, limit, acc) is Ok,
    ensures
        well_paired(parse_pool_from(bytes, pos, limit, acc)->Ok_0.0),
    decreases limit + 1 - acc.len(),
{
    if acc.len() < limit {
        let entry = parse_entry(bytes, pos)->Ok_0.0;
        let p = parse_entry(bytes, pos)->Ok_0.1;
        lemma_pool_with_len(acc, entry);
        lemma_add_keeps_pairing(acc, entry);
        lemma_parsed_pool_is_paired(bytes, p, limit, pool_with(acc, entry));
    }
}

/// In the constant pool of a decoded class file, the lookup of the
/// index behind a constant fails exactly where that constant is a Long
/// or a Double, as long as that index is still inside the pool.
pub proof fn lemma_wide_constants_take_two_slots(bytes: Seq<u8>, i: int)
    requires
        parse_class_file(bytes) is Ok,
        crate::constant_pool::constant_at(parse_class_file(bytes)->Ok_0.constant_pool, i) is Some,
        i + 1 <= parse_class_file(bytes)->Ok_0.constant_pool.len(),
    ensures
        crate::constant_pool::constant_at(parse_class_file(bytes)->Ok_0.constant_pool, i + 1)
            is None <==> crate::constant_pool::constant_at(
            parse_class_file(bytes)->Ok_0.constant_pool,
            i,
        )->0.is_wide(),
{
    let pos1 = parse_magic(bytes, 0)->Ok_0.1;
    let pos2 = parse_version(bytes, pos1)->Ok_0.1;
    let count = be_u16(bytes, pos2);
    lemma_parsed_pool_is_paired(bytes, pos2 + 2, count - 1, Seq::empty());
    let pool = parse_pool(bytes, pos2)->Ok_0.0;
    assert(parse_class_file(bytes)->Ok_0.constant_pool == pool);
    crate::constant_pool::lemma_next_index_fails_iff_wide(pool, i);
}

pub open spec fn parse_class_flags(bytes: Seq<u8>, pos: int) -> Result<(u16, int), ClassFileError> {
    match parse_u16(bytes, pos) {
        Err(e) => Err(e),
        Ok((flags, p)) => if within(flags, CLASS_FLAGS) {
            Ok((flags, p))
        } else {
            Err(ClassFileError::InvalidClassData(ClassDataFault::BadClassFlags(flags)))
        },
    }
}

pub open spec fn parse_interfaces_from(
    bytes: Seq<u8>,
    pos: int,
    remaining: nat,
    acc: Seq<Seq<char>>,
    pool: Seq<Option<ConstantView>>,
) -> Result<(Seq<Seq<char>>, int), ClassFileError>
    decreases remaining,
{
    if remaining == 0 {
        Ok((acc, pos))
    } else {
        match parse_u16(bytes, pos) {
            Err(e) => Err(e),
            Ok((index, p)) => match class_name_lookup(pool, index) {
                Err(e) => Err(e),
                Ok(name) => parse_interfaces_from(
                    bytes,
                    p,
                    (remaining - 1) as nat,
                    acc.push(name),
                    pool,
                ),
            },
        }
    }
}

pub open spec fn parse_interfaces(
    bytes: Seq<u8>,
    pos: int,
    pool: Seq<Option<ConstantView>>,
) -> Result<(Seq<Seq<char>>, int), ClassFileError> {
    match parse_u16(bytes, pos) {
        Err(e) => Err(e),
        Ok((count, p)) => parse_interfaces_from(bytes, p, count as nat, Seq::empty(), pool),
    }
}

/// One attribute: the index of its name, its length, and that many bytes.
pub open spec fn parse_attribute(
    bytes: Seq<u8>,
    pos: int,
    pool: Seq<Option<ConstantView>>,
) -> Result<(AttributeInfoView, int), ClassFileError> {
    match parse_u16(bytes, pos) {
        Err(e) => Err(e),
        Ok((name_index, p)) => match string_lookup(pool, name_index) {
            Err(e) => Err(e),
            Ok(name) => match parse_u32(bytes, p) {
                Err(e) => Err(e),
                Ok((len, q)) => match parse_bytes(bytes, q, len as int) {
                    Err(e) => Err(e),
                    Ok((info, end)) => Ok(
                        (AttributeInfoView { name: attribute_kind(name), info }, end),
                    ),
                },
            },
        },
    }
}

pub open spec fn parse_attributes_from(
    bytes: Seq<u8>,
    pos: int,
    remaining: nat,
    acc: Seq<AttributeInfoView>,
    pool: Seq<Option<ConstantView>>,
) -> Result<(Seq<AttributeInfoView>, int), ClassFileError>
    decreases remaining,
{
    if remaining == 0 {
        Ok((acc, pos))
    } else {
        match parse_attribute(bytes, pos, pool) {
            Err(e) => Err(e),
            Ok((attribute, p)) => parse_attributes_from(
                bytes,
                p,
                (remaining - 1) as nat,
                acc.push(attribute),
                pool,
            ),
        }
    }
}

/// A list of attributes: a count, then that many attributes.
pub open spec fn parse_attributes(
    bytes: Seq<u8>,
    pos: int,
    pool: Seq<Option<ConstantView>>,
) -> Result<(Seq<AttributeInfoView>, int), ClassFileError> {
    match parse_u16(bytes, pos) {
        Err(e) => Err(e),
        Ok((count, p)) => parse_attributes_from(bytes, p, count as nat, Seq::empty(), pool),
    }
}

/// What follows the access mask and the name index of a field or method:
/// the name is looked up, then the descriptor is read and looked up, then
/// the attributes are read.
pub open spec fn parse_member_rest(
    bytes: Seq<u8>,
    pos: int,
    pool: Seq<Option<ConstantView>>,
    access_flags: u16,
    name_index: u16,
) -> Result<(MemberView, int), ClassFileError> {
    match string_lookup(pool, name_index) {
        Err(e) => Err(e),
        Ok(name) => match parse_u16(bytes, pos) {
            Err(e) => Err(e),
            Ok((descriptor_index, q)) => match string_lookup(pool, descriptor_index) {
                Err(e) => Err(e),
                Ok(descriptor) => match parse_attributes(bytes, q, pool) {
                    Err(e) => Err(e),
                    Ok((attributes, end)) => Ok(
                        (MemberView { access_flags, name, descriptor, attributes }, end),
                    ),
                },
            },
        },
    }
}

/// One field. The access mask is judged after the name index was read.
pub open spec fn parse_field(bytes: Seq<u8>, pos: int, pool: Seq<Option<ConstantView>>) -> Result<
    (MemberView, int),
    ClassFileError,
> {
    match parse_u16(bytes, pos) {
        Err(e) => Err(e),
        Ok((access_flags, p)) => match parse_u16(bytes, p) {
            Err(e) => Err(e),
            Ok((name_index, q)) => if !within(access_flags, FIELD_FLAGS) {
                Err(ClassFileError::InvalidClassData(ClassDataFault::BadFieldFlags(access_flags)))
            } else {
                parse_member_rest(bytes, q, pool, access_flags, name_index)
            },
        },
    }
}

/// One method. The access mask is judged as soon as it was read.
pub open spec fn parse_method(bytes: Seq<u8>, pos: int, pool: Seq<Option<ConstantView>>) -> Result<
    (MemberView, int),
    ClassFileError,
> {
    match parse_u16(bytes, pos) {
        Err(e) => Err(e),
        Ok((access_flags, p)) => if !within(access_flags, METHOD_FLAGS) {
            Err(ClassFileError::InvalidClassData(ClassDataFault::BadMethodFlags(access_flags)))
        } else {
            match parse_u16(bytes, p) {
                Err(e) => Err(e),
                Ok((name_index, q)) => parse_member_rest(bytes, q, pool, access_flags, name_index),
            }
        },
    }
}

pub open spec fn parse_fields_from(
    bytes: Seq<u8>,
    pos: int,
    remaining: nat,
    acc: Seq<MemberView>,
    pool: Seq<Option<ConstantView>>,
) -> Result<(Seq<MemberView>, int), ClassFileError>
    decreases remaining,
{
    if remaining == 0 {
        Ok((acc, pos))
    } else {
        match parse_field(bytes, pos, pool) {
            Err(e) => Err(e),
            Ok((field, p)) => parse_fields_from(
                bytes,
                p,
                (remaining - 1) as nat,
                acc.push(field),
                pool,
            ),
        }
    }
}

pub open spec fn parse_fields(bytes: Seq<u8>, pos: int, pool: Seq<Option<ConstantView>>) -> Result<
    (Seq<MemberView>, int),
    ClassFileError,
> {
    match parse_u16(bytes, pos) {
        Err(e) => Err(e),
        Ok((count, p)) => parse_fields_from(bytes, p, count as nat, Seq::empty(), pool),
    }
}

pub open spec fn parse_methods_from(
    bytes: Seq<u8>,
    pos: int,
    remaining: nat,
    acc: Seq<MemberView>,
    pool: Seq<Option<ConstantView>>,
) -> Result<(Seq<MemberView>, int), ClassFileError>
    decreases remaining,
{
    if remaining == 0 {
        Ok((acc, pos))
    } else {
        match parse_method(bytes, pos, pool) {
            Err(e) => Err(e),
            Ok((method, p)) => parse_methods_from(
                bytes,
                p,
                (remaining - 1) as nat,
                acc.push(method),
                pool,
            ),
        }
    }
}

pub open spec fn parse_methods(
    bytes: Seq<u8>,
    pos: int,
    pool: Seq<Option<ConstantView>>,
) -> Result<(Seq<MemberView>, int), ClassFileError> {
    match parse_u16(bytes, pos) {
        Err(e) => Err(e),
        Ok((count, p)) => parse_methods_from(bytes, p, count as nat, Seq::empty(), pool),
    }
}

/// The members of a class file that follow its access mask.
pub open spec fn parse_class_body(
    bytes: Seq<u8>,
    pos: int,
    version: ClassFileVersion,
    pool: Seq<Option<ConstantView>>,
    access_flags: u16,
) -> Result<ClassFileView, ClassFileError> {
    match parse_u16(bytes, pos) {
        Err(e) => Err(e),
        Ok((this_class, pos1)) => match class_name_lookup(pool, this_class) {
            Err(e) => Err(e),
            Ok(this_class_name) => match parse_u16(bytes, pos1) {
                Err(e) => Err(e),
                Ok((super_class, pos2)) => match parse_interfaces(bytes, pos2, pool) {
                    Err(e) => Err(e),
                    Ok((interface_names, pos3)) => match parse_fields(bytes, pos3, pool) {
                        Err(e) => Err(e),
                        Ok((field_info, pos4)) => match parse_methods(bytes, pos4, pool) {
                            Err(e) => Err(e),
                            Ok((method_info, pos5)) => match parse_attributes(bytes, pos5, pool) {
                                Err(e) => Err(e),
                                Ok((attribute_info, end)) => if end < bytes.len() {
                                    Err(
                                        ClassFileError::InvalidClassData(
                                            ClassDataFault::TrailingBytes,
                                        ),
                                    )
                                } else {
                                    Ok(
                                        ClassFileView {
                                            version,
                                            constant_pool: pool,
                                            access_flags,
                                            this_class_name,
                                            super_class_name: class_name_at(
                                                pool,
                                                super_class as int,
                                            ),
                                            interface_names,
                                            field_info,
                                            method_info,
                                            attribute_info,
                                        },
                                    )
                                },
                            },
                        },
                    },
                },
            },
        },
    }
}

/// The class file that `bytes` hold, or the first fault met while reading
/// them front to back.
pub open spec fn parse_class_file(bytes: Seq<u8>) -> Result<ClassFileView, ClassFileError> {
    match parse_magic(bytes, 0) {
        Err(e) => Err(e),
        Ok((_, pos1)) => match parse_version(bytes, pos1) {
            Err(e) => Err(e),
            Ok((version, pos2)) => match parse_pool(bytes, pos2) {
                Err(e) => Err(e),
                Ok((pool, pos3)) => match parse_class_flags(bytes, pos3) {
                    Err(e) => Err(e),
                    Ok((access_flags, pos4)) => parse_class_body(
                        bytes,
                        pos4,
                        version,
                        pool,
                        access_flags,
                    ),
                },
            },
        },
    }
}

/// Decodes a class file. Returns the whole file or the first fault, never
/// a part of a file.
pub fn read_buffer(buf: &[u8]) -> (r: Result<ClassFile, ClassFileError>)
    ensures
        match parse_class_file(buf@) {
            Ok(class) => r is Ok && r->Ok_0@ == class,
            Err(e) => r == Err::<ClassFile, _>(e),
        },
{
    let mut buffer = ByteBuffer::new(buf);
    check_magic_number(&mut buffer)?;
    let version = read_version(&mut buffer)?;
    let constant_pool = read_const_pool(&mut buffer)?;
    let access_flags = read_access_flag(&mut buffer)?;
    let this_class = buffer.read_u16()?;
    let this_class_name = constant_pool.get_class_name(&this_class)?;
    let super_class = buffer.read_u16()?;
    let super_class_name = constant_pool.try_get_class_name(&super_class);
    let interface_names = read_interfaces(&mut buffer, &constant_pool)?;
    let field_info = read_field_info(&mut buffer, &constant_pool)?;
    let method_info = read_method_info(&mut buffer, &constant_pool)?;
    let attribute_info = read_attribute_info(&mut buffer, &constant_pool)?;
    if buffer.has_more_data() {
        return Err(ClassFileError::InvalidClassData(ClassDataFault::TrailingBytes));
    }
    Ok(
        ClassFile {
            version,
            constant_pool,
            access_flags,
            this_class_name,
            super_class_name,
            interface_names,
            field_info,
            method_info,
            attribute_info,
        },
    )
}

pub fn check_magic_number(buffer: &mut ByteBuffer) -> (r: Result<(), ClassFileError>)
    ensures
        decodes(
            *old(buffer),
            *final(buffer),
            r,
            parse_magic(old(buffer).bytes(), old(buffer).pos()),
        ),
{
    match buffer.read_u32() {
        Ok(n) => if n == MAGIC {
            Ok(())
        } else {
            Err(ClassFileError::InvalidClassData(ClassDataFault::BadMagicNumber(n)))
        },
        Err(err) => Err(err),
    }
}

pub fn read_version(buffer: &mut ByteBuffer) -> (r: Result<ClassFileVersion, ClassFileError>)
    ensures
        final(buffer).bytes() == old(buffer).bytes(),
        match parse_version(old(buffer).bytes(), old(buffer).pos()) {
            Ok((v, p)) => r == Ok::<_, ClassFileError>(v) && final(buffer).pos() == p,
            Err(e) => r == Err::<ClassFileVersion, _>(e),
        },
{
    let minor_version = buffer.read_u16()?;
    let major_version = buffer.read_u16()?;
    ClassFileVersion::new(major_version, minor_version)
}

fn read_const_pool(buffer: &mut ByteBuffer) -> (r: Result<ConstantPool, ClassFileError>)
    ensures
        decodes(
            *old(buffer),
            *final(buffer),
            r,
            parse_pool(old(buffer).bytes(), old(buffer).pos()),
        ),
{
    let mut constant_pool = ConstantPool::new();
    let count = buffer.read_u16()?;
    if count == 0 {
        return Err(ClassFileError::InvalidClassData(ClassDataFault::EmptyConstantPoolCount));
    }
    let limit: usize = (count - 1) as usize;
    let ghost start = buffer.pos();
    while constant_pool.len() < limit
        invariant
            buffer.bytes() == old(buffer).bytes(),
            parse_pool(old(buffer).bytes(), old(buffer).pos()) == parse_pool_from(
                buffer.bytes(),
                start,
                limit as int,
                Seq::empty(),
            ),
            parse_pool_from(buffer.bytes(), start, limit as int, Seq::empty()) == parse_pool_from(
                buffer.bytes(),
                buffer.pos(),
                limit as int,
                constant_pool@,
            ),
        decreases limit + 1 - constant_pool@.len(),
    {
        let entry = ConstantPoolEntry::read_from_bytes(buffer)?;
        proof {
            lemma_pool_with_len(constant_pool@, entry@);
        }
        constant_pool.add(entry);
    }
    Ok(constant_pool)
}

pub fn read_access_flag(buffer: &mut ByteBuffer) -> (r: Result<ClassAccessFlags, ClassFileError>)
    ensures
        decodes(
            *old(buffer),
            *final(buffer),
            r,
            parse_class_flags(old(buffer).bytes(), old(buffer).pos()),
        ),
{
    let access_flag = buffer.read_u16()?;
    match ClassAccessFlags::from_bits(access_flag) {
        Some(flags) => Ok(flags),
        None => Err(ClassFileError::InvalidClassData(ClassDataFault::BadClassFlags(access_flag))),
    }
}

fn read_interfaces(buffer: &mut ByteBuffer, cp: &ConstantPool) -> (r: Result<
    Vec<String>,
    ClassFileError,
>)
    ensures
        final(buffer).bytes() == old(buffer).bytes(),
        match parse_interfaces(old(buffer).bytes(), old(buffer).pos(), cp@) {
            Ok((names, p)) => r is Ok && views(r->Ok_0@) == names && final(buffer).pos() == p,
            Err(e) => r == Err::<Vec<String>, _>(e),
        },
{
    let interfaces_count = buffer.read_u16()?;
    let mut result: Vec<String> = Vec::new();
    let ghost start = buffer.pos();
    proof {
        lemma_views_empty::<String>();
    }
    let mut i: u16 = 0;
    while i < interfaces_count
        invariant
            i <= interfaces_count,
            buffer.bytes() == old(buffer).bytes(),
            parse_interfaces(old(buffer).bytes(), old(buffer).pos(), cp@) == parse_interfaces_from(
                buffer.bytes(),
                start,
                interfaces_count as nat,
                Seq::empty(),
                cp@,
            ),
            parse_interfaces_from(
                buffer.bytes(),
                start,
                interfaces_count as nat,
                Seq::empty(),
                cp@,
            ) == parse_interfaces_from(
                buffer.bytes(),
                buffer.pos(),
                (interfaces_count - i) as nat,
                views(result@),
                cp@,
            ),
        decreases interfaces_count - i,
    {
        let offset = buffer.read_u16()?;
        let name = cp.get_class_name(&offset)?;
        proof {
            lemma_views_push(result@, name);
        }
        result.push(name);
        i += 1;
    }
    Ok(result)
}

fn read_field_info(buffer: &mut ByteBuffer, cp: &ConstantPool) -> (r: Result<
    Vec<FieldInfo>,
    ClassFileError,
>)
    ensures
        final(buffer).bytes() == old(buffer).bytes(),
        match parse_fields(old(buffer).bytes(), old(buffer).pos(), cp@) {
            Ok((fields, p)) => r is Ok && views(r->Ok_0@) == fields && final(buffer).pos() == p,
            Err(e) => r == Err::<Vec<FieldInfo>, _>(e),
        },
{
    let field_count = buffer.read_u16()?;
    let mut result: Vec<FieldInfo> = Vec::new();
    let ghost start = buffer.pos();
    proof {
        lemma_views_empty::<FieldInfo>();
    }
    let mut i: u16 = 0;
    while i < field_count
        invariant
            i <= field_count,
            buffer.bytes() == old(buffer).bytes(),
            parse_fields(old(buffer).bytes(), old(buffer).pos(), cp@) == parse_fields_from(
                buffer.bytes(),
                start,
                field_count as nat,
                Seq::empty(),
                cp@,
            ),
            parse_fields_from(buffer.bytes(), start, field_count as nat, Seq::empty(), cp@)
                == parse_fields_from(
                buffer.bytes(),
                buffer.pos(),
                (field_count - i) as nat,
                views(result@),
                cp@,
            ),
        decreases field_count - i,
    {
        let field = read_one_field(buffer, cp)?;
        proof {
            lemma_views_push(result@, field);
        }
        result.push(field);
        i += 1;
    }
    Ok(result)
}

fn read_one_field(buffer: &mut ByteBuffer, cp: &ConstantPool) -> (r: Result<
    FieldInfo,
    ClassFileError,
>)
    ensures
        decodes(
            *old(buffer),
            *final(buffer),
            r,
            parse_field(old(buffer).bytes(), old(buffer).pos(), cp@),
        ),
{
    let access_flag = buffer.read_u16()?;
    let name_index = buffer.read_u16()?;
    let access_flags = match FieldAccessFlags::from_bits(access_flag) {
        Some(flags) => flags,
        None => {
            return Err(
                ClassFileError::InvalidClassData(ClassDataFault::BadFieldFlags(access_flag)),
            );
        },
    };
    let name = cp.get_string(&name_index)?;
    let descriptor_index = buffer.read_u16()?;
    let descriptor = cp.get_string(&descriptor_index)?;
    let attributes = read_attribute_info(buffer, cp)?;
    Ok(FieldInfo { access_flags, name, descriptor, attributes })
}

fn read_method_info(buffer: &mut ByteBuffer, cp: &ConstantPool) -> (r: Result<
    Vec<MethodInfo>,
    ClassFileError,
>)
    ensures
        final(buffer).bytes() == old(buffer).bytes(),
        match parse_methods(old(buffer).bytes(), old(buffer).pos(), cp@) {
            Ok((methods, p)) => r is Ok && views(r->Ok_0@) == methods && final(buffer).pos() == p,
            Err(e) => r == Err::<Vec<MethodInfo>, _>(e),
        },
{
    let methods_count = buffer.read_u16()?;
    let mut result: Vec<MethodInfo> = Vec::new();
    let ghost start = buffer.pos();
    proof {
        lemma_views_empty::<MethodInfo>();
    }
    let mut i: u16 = 0;
    while i < methods_count
        invariant
            i <= methods_count,
            buffer.bytes() == old(buffer).bytes(),
            parse_methods(old(buffer).bytes(), old(buffer).pos(), cp@) == parse_methods_from(
                buffer.bytes(),
                start,
                methods_count as nat,
                Seq::empty(),
                cp@,
            ),
            parse_methods_from(buffer.bytes(), start, methods_count as nat, Seq::empty(), cp@)
                == parse_methods_from(
                buffer.bytes(),
                buffer.pos(),
                (methods_count - i) as nat,
                views(result@),
                cp@,
            ),
        decreases methods_count - i,
    {
        let method = read_one_method(buffer, cp)?;
        proof {
            lemma_views_push(result@, method);
        }
        result.push(method);
        i += 1;
    }
    Ok(result)
}

fn read_one_method(buffer: &mut ByteBuffer, cp: &ConstantPool) -> (r: Result<
    MethodInfo,
    ClassFileError,
>)
    ensures
        decodes(
            *old(buffer),
            *final(buffer),
            r,
            parse_method(old(buffer).bytes(), old(buffer).pos(), cp@),
        ),
{
    let access_flag = buffer.read_u16()?;
    let access_flags = match MethodAccessFlags::from_bits(access_flag) {
        Some(flags) => flags,
        None => {
            return Err(
                ClassFileError::InvalidClassData(ClassDataFault::BadMethodFlags(access_flag)),
            );
        },
    };
    let name_index = buffer.read_u16()?;
    let name = cp.get_string(&name_index)?;
    let descriptor_index = buffer.read_u16()?;
    let descriptor = cp.get_string(&descriptor_index)?;
    let attributes = read_attribute_info(buffer, cp)?;
    Ok(MethodInfo { access_flags, name, descriptor, attributes })
}

fn read_attribute_info(buffer: &mut ByteBuffer, cp: &ConstantPool) -> (r: Result<
    Vec<AttributeInfo>,
    ClassFileError,
>)
    ensures
        final(buffer).bytes() == old(buffer).bytes(),
        match parse_attributes(old(buffer).bytes(), old(buffer).pos(), cp@) {
            Ok((attributes, p)) => r is Ok && views(r->Ok_0@) == attributes && final(buffer).pos()
                == p,
            Err(e) => r == Err::<Vec<AttributeInfo>, _>(e),
        },
{
    let attribute_count = buffer.read_u16()?;
    let mut result: Vec<AttributeInfo> = Vec::new();
    let ghost start = buffer.pos();
    proof {
        lemma_views_empty::<AttributeInfo>();
    }
    let mut i: u16 = 0;
    while i < attribute_count
        invariant
            i <= attribute_count,
            buffer.bytes() == old(buffer).bytes(),
            parse_attributes(old(buffer).bytes(), old(buffer).pos(), cp@) == parse_attributes_from(
                buffer.bytes(),
                start,
                attribute_count as nat,
                Seq::empty(),
                cp@,
            ),
            parse_attributes_from(
                buffer.bytes(),
                start,
                attribute_count as nat,
                Seq::empty(),
                cp@,
            ) == parse_attributes_from(
                buffer.bytes(),
                buffer.pos(),
                (attribute_count - i) as nat,
                views(result@),
                cp@,
            ),
        decreases attribute_count - i,
    {
        let attribute = read_one_attribute(buffer, cp)?;
        proof {
            lemma_views_push(result@, attribute);
        }
        result.push(attribute);
        i += 1;
    }
    Ok(result)
}

fn read_one_attribute(buffer: &mut ByteBuffer, cp: &ConstantPool) -> (r: Result<
    AttributeInfo,
    ClassFileError,
>)
    ensures
        decodes(
            *old(buffer),
            *final(buffer),
            r,
            parse_attribute(old(buffer).bytes(), old(buffer).pos(), cp@),
        ),
{
    let attribute_name_index = buffer.read_u16()?;
    let name_text = cp.get_string(&attribute_name_index)?;
    let name = AttributeType::by_name(name_text.as_str());
    let attribute_length = buffer.read_u32()? as usize;
    let bytes = buffer.read_bytes(attribute_length)?;
    Ok(AttributeInfo { name, info: slice_to_vec(bytes) })
}

} // verus!
