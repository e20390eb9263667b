//! The attributes that the machine reads: constant values, code with its
//! tables, and declared exceptions.
use vstd::prelude::*;
use vstd::slice::slice_to_vec;
use indexmap::IndexMap;
use crate::byte_buffer::{be_u16, parse_bytes, parse_u16, parse_u32, ByteBuffer};
use crate::class_file_error::ClassFileError;
use crate::jvm_error::{VmError, VmExecResult};
use crate::runtime_constant_pool::{
    runtime_class_name, runtime_constant_at, runtime_utf8, RuntimeConstantPool,
    RuntimeConstantPoolEntry, RuntimeConstantView,
};
use crate::seq_view::{lemma_views_empty, lemma_views_push, views};
use crate::text::str_eq;

verus! {

#[verifier::external_type_specification]
#[verifier::external_body]
#[verifier::reject_recursive_types(K)]
#[verifier::reject_recursive_types(V)]
#[verifier::reject_recursive_types(S)]
pub struct ExIndexMap<K, V, S>(IndexMap<K, V, S>);

/// The pairs of a line-number table, a start position and a source line
/// each, in the order in which their start positions were first inserted.
pub uninterp spec fn line_entries(table: IndexMap<u16, u16>) -> Seq<(u16, u16)>;

/// The position of the first pair of `entries[from..]` whose start
/// position is `start_pc`.
pub open spec fn line_position(entries: Seq<(u16, u16)>, start_pc: u16, from: int) -> Option<int>
    decreases entries.len() - from,
{
    if from < 0 || from >= entries.len() {
        None
    } else if entries[from].0 == start_pc {
        Some(from)
    } else {
        line_position(entries, start_pc, from + 1)
    }
}

/// The table after a line was recorded for `start_pc`: the pair with that
/// start position gets the new line and keeps its place; where there is
/// none, the new pair comes last.
pub open spec fn with_line(entries: Seq<(u16, u16)>, start_pc: u16, line: u16) -> Seq<(u16, u16)> {
    match line_position(entries, start_pc, 0) {
        Some(i) => entries.update(i, (start_pc, line)),
        None => entries.push((start_pc, line)),
    }
}

/// `IndexMap::new`: a map without pairs.
#[verifier::external_body]
fn line_table_new() -> (table: IndexMap<u16, u16>)
    ensures
        line_entries(table) == Seq::<(u16, u16)>::empty(),
{
    IndexMap::new()
}

/// `IndexMap::insert`: the value of a key that the map holds is replaced
/// where it stands; a new key comes last.
#[verifier::external_body]
fn line_table_insert(table: &mut IndexMap<u16, u16>, start_pc: u16, line: u16)
    ensures
        line_entries(*final(table)) == with_line(line_entries(*old(table)), start_pc, line),
{
    table.insert(start_pc, line);
}

/// `IndexMap::len`: the number of pairs.
#[verifier::external_body]
fn line_table_len(table: &IndexMap<u16, u16>) -> (n: usize)
    ensures
        n == line_entries(*table).len(),
{
    table.len()
}

/// `IndexMap::get_index`: the pair at a position in insertion order, and
/// `None` from the length on.
#[verifier::external_body]
fn line_table_get_index(table: &IndexMap<u16, u16>, index: usize) -> (r: Option<(u16, u16)>)
    ensures
        index < line_entries(*table).len() ==> r == Some(line_entries(*table)[index as int]),
        index >= line_entries(*table).len() ==> r is None,
{
    table.get_index(index).map(|(start_pc, line)| (*start_pc, *line))
}

/// The constant that initialises a static field.
pub enum ConstantValueAttribute {
    Int(i32),
    Float(u32),
    Long(i64),
    Double(u64),
    String(String),
}

pub enum ConstantValueView {
    Int(i32),
    Float(u32),
    Long(i64),
    Double(u64),
    String(Seq<char>),
}

impl View for ConstantValueAttribute {
    type V = ConstantValueView;

    open spec fn view(&self) -> ConstantValueView {
        match self {
            ConstantValueAttribute::Int(v) => ConstantValueView::Int(*v),
            ConstantValueAttribute::Float(v) => ConstantValueView::Float(*v),
            ConstantValueAttribute::Long(v) => ConstantValueView::Long(*v),
            ConstantValueAttribute::Double(v) => ConstantValueView::Double(*v),
            ConstantValueAttribute::String(s) => ConstantValueView::String(s@),
        }
    }
}

/// The value of a `ConstantValue` attribute: its two bytes are the index
/// of an Integer, Float, Long, Double or String constant. `None` where
/// the attribute is not two bytes long or leads to no such constant.
pub open spec fn constant_value_of(info: Seq<u8>, pool: Seq<Option<RuntimeConstantView>>) -> Option<
    ConstantValueView,
> {
    if info.len() != 2 {
        None
    } else {
        match runtime_constant_at(pool, be_u16(info, 0) as int) {
            Some(RuntimeConstantView::Integer(v)) => Some(ConstantValueView::Int(v)),
            Some(RuntimeConstantView::Float(v)) => Some(ConstantValueView::Float(v)),
            Some(RuntimeConstantView::Long(v)) => Some(ConstantValueView::Long(v)),
            Some(RuntimeConstantView::Double(v)) => Some(ConstantValueView::Double(v)),
            Some(RuntimeConstantView::StringReference(s)) => Some(ConstantValueView::String(s)),
            _ => None,
        }
    }
}

/// Reads a `ConstantValue` attribute. An attribute that gives no value is
/// refused with `InvalidAttribute`.
pub fn get_attr_as_constant_value(value: &Vec<u8>, cp: &RuntimeConstantPool) -> (r: VmExecResult<
    ConstantValueAttribute,
>)
    ensures
        match constant_value_of(value@, cp@) {
            Some(v) => r is Ok && r->Ok_0@ == v,
            None => r matches Err(VmError::InvalidAttribute(name)) && name@ == "ConstantValue"@,
        },
{
    if value.len() != 2 {
        return Err(VmError::InvalidAttribute("ConstantValue".to_owned()));
    }
    let const_pool_index: u16 = (value[0] as u16) * 0x100 + (value[1] as u16);
    match cp.get(const_pool_index) {
        Ok(RuntimeConstantPoolEntry::Integer(v)) => Ok(ConstantValueAttribute::Int(*v)),
        Ok(RuntimeConstantPoolEntry::Float(v)) => Ok(ConstantValueAttribute::Float(*v)),
        Ok(RuntimeConstantPoolEntry::Long(v)) => Ok(ConstantValueAttribute::Long(*v)),
        Ok(RuntimeConstantPoolEntry::Double(v)) => Ok(ConstantValueAttribute::Double(*v)),
        Ok(RuntimeConstantPoolEntry::StringReference(v)) => Ok(
            ConstantValueAttribute::String(v.clone()),
        ),
        _ => Err(VmError::InvalidAttribute("ConstantValue".to_owned())),
    }
}

/// The code of a method.
pub struct CodeAttribute {
    pub max_stack: u16,
    pub max_locals: u16,
    pub code: Vec<u8>,
    pub exception_table: Vec<ExceptionTable>,
    /// Start position to source line.
    pub line_number_table: IndexMap<u16, u16>,
    pub local_variable_table: Vec<LocalVariableTable>,
    pub local_variable_type_table: Vec<LocalVariableTypeTable>,
}

/// One row of an exception table: the handler at `handler_pc` covers the
/// positions from `start_pc` up to, but not including, `end_pc`, for
/// exceptions of class `catch_type`, or for all where that is `None`.
pub struct ExceptionTable {
    pub start_pc: u16,
    pub end_pc: u16,
    pub handler_pc: u16,
    pub catch_type: Option<String>,
}

pub struct ExceptionTableView {
    pub start_pc: u16,
    pub end_pc: u16,
    pub handler_pc: u16,
    pub catch_type: Option<Seq<char>>,
}

impl View for ExceptionTable {
    type V = ExceptionTableView;

    open spec fn view(&self) -> ExceptionTableView {
        ExceptionTableView {
            start_pc: self.start_pc,
            end_pc: self.end_pc,
            handler_pc: self.handler_pc,
            catch_type: match self.catch_type {
                Some(s) => Some(s@),
                None => None,
            },
        }
    }
}

pub struct LocalVariableTable {
    pub start_pc: u16,
    pub length: u16,
    pub name: String,
    pub descriptor: String,
    /// The local variable slot that the row describes.
    pub index: u16,
}

pub struct LocalVariableTypeTable {
    pub start_pc: u16,
    pub length: u16,
    pub name: String,
    pub signature: String,
    /// The local variable slot that the row describes.
    pub index: u16,
}

/// A row of a local variable table or of a local variable type table.
pub struct LocalVariableView {
    pub start_pc: u16,
    pub length: u16,
    pub name: Seq<char>,
    pub descriptor: Seq<char>,
    pub index: u16,
}

impl View for LocalVariableTable {
    type V = LocalVariableView;

    open spec fn view(&self) -> LocalVariableView {
        LocalVariableView {
            start_pc: self.start_pc,
            length: self.length,
            name: self.name@,
            descriptor: self.descriptor@,
            index: self.index,
        }
    }
}

impl View for LocalVariableTypeTable {
    type V = LocalVariableView;

    open spec fn view(&self) -> LocalVariableView {
        LocalVariableView {
            start_pc: self.start_pc,
            length: self.length,
            name: self.name@,
            descriptor: self.signature@,
            index: self.index,
        }
    }
}

/// Not yet interpreted.
pub struct StackMapTable {}

pub struct CodeView {
    pub max_stack: u16,
    pub max_locals: u16,
    pub code: Seq<u8>,
    pub exception_table: Seq<ExceptionTableView>,
    pub line_numbers: Seq<(u16, u16)>,
    pub local_variables: Seq<LocalVariableView>,
    pub local_variable_types: Seq<LocalVariableView>,
}

impl View for CodeAttribute {
    type V = CodeView;

    open spec fn view(&self) -> CodeView {
        CodeView {
            max_stack: self.max_stack,
            max_locals: self.max_locals,
            code: self.code@,
            exception_table: views(self.exception_table@),
            line_numbers: line_entries(self.line_number_table),
            local_variables: views(self.local_variable_table@),
            local_variable_types: views(self.local_variable_type_table@),
        }
    }
}

/// The source line for a position: the line of the last pair, in table
/// order, before the first pair that starts behind `pc`; `current` where
/// the very first pair of `entries[from..]` starts behind `pc`.
pub open spec fn line_for(entries: Seq<(u16, u16)>, pc: u16, from: int, current: u16) -> u16
    decreases entries.len() - from,
{
    if from < 0 || from >= entries.len() {
        current
    } else if entries[from].0 <= pc {
        line_for(entries, pc, from + 1, entries[from].1)
    } else {
        current
    }
}

impl CodeAttribute {
    /// The source line of the instruction at `pc`, and 0 where the table
    /// has no line for it.
    pub fn line_number_at(&self, pc: u16) -> (r: u16)
        ensures
            r == line_for(self@.line_numbers, pc, 0, 0),
    {
        let n = line_table_len(&self.line_number_table);
        let mut current: u16 = 0;
        let mut i: usize = 0;
        while i < n
            invariant
                i <= n,
                n == self@.line_numbers.len(),
                line_for(self@.line_numbers, pc, 0, 0) == line_for(
                    self@.line_numbers,
                    pc,
                    i as int,
                    current,
                ),
            decreases n - i,
        {
            match line_table_get_index(&self.line_number_table, i) {
                Some((start, line)) => {
                    if start <= pc {
                        current = line;
                    } else {
                        return current;
                    }
                },
                None => {
                    return current;
                },
            }
            i += 1;
        }
        current
    }
}

pub open spec fn parse_exception_row(
    bytes: Seq<u8>,
    pos: int,
    pool: Seq<Option<RuntimeConstantView>>,
) -> Result<(ExceptionTableView, int), ClassFileError> {
    match parse_u16(bytes, pos) {
        Err(e) => Err(e),
        Ok((start_pc, pos1)) => match parse_u16(bytes, pos1) {
            Err(e) => Err(e),
            Ok((end_pc, pos2)) => match parse_u16(bytes, pos2) {
                Err(e) => Err(e),
                Ok((handler_pc, pos3)) => match parse_u16(bytes, pos3) {
                    Err(e) => Err(e),
                    Ok((catch_index, end)) => if catch_index == 0 {
                        Ok(
                            (
                                ExceptionTableView { start_pc, end_pc, handler_pc, catch_type: None },
                                end,
                            ),
                        )
                    } else {
                        match runtime_class_name(pool, catch_index) {
                            Err(e) => Err(e),
                            Ok(name) => Ok(
                                (
                                    ExceptionTableView {
                                        start_pc,
                                        end_pc,
                                        handler_pc,
                                        catch_type: Some(name),
                                    },
                                    end,
                                ),
                            ),
                        }
                    },
                },
            },
        },
    }
}

pub open spec fn parse_exception_rows_from(
    bytes: Seq<u8>,
    pos: int,
    remaining: nat,
    acc: Seq<ExceptionTableView>,
    pool: Seq<Option<RuntimeConstantView>>,
) -> Result<(Seq<ExceptionTableView>, int), ClassFileError>
    decreases remaining,
{
    if remaining == 0 {
        Ok((acc, pos))
    } else {
        match parse_exception_row(bytes, pos, pool) {
            Err(e) => Err(e),
            Ok((row, p)) => parse_exception_rows_from(
                bytes,
                p,
                (remaining - 1) as nat,
                acc.push(row),
                pool,
            ),
        }
    }
}

/// The rows of a line-number table, recorded one after the other in `acc`.
pub open spec fn parse_line_rows_from(
    bytes: Seq<u8>,
    pos: int,
    remaining: nat,
    acc: Seq<(u16, u16)>,
) -> Result<Seq<(u16, u16)>, ClassFileError>
    decreases remaining,
{
    if remaining == 0 {
        Ok(acc)
    } else {
        match parse_u16(bytes, pos) {
            Err(e) => Err(e),
            Ok((start_pc, p)) => match parse_u16(bytes, p) {
                Err(e) => Err(e),
                Ok((line, q)) => parse_line_rows_from(
                    bytes,
                    q,
                    (remaining - 1) as nat,
                    with_line(acc, start_pc, line),
                ),
            },
        }
    }
}

pub open spec fn parse_line_table(info: Seq<u8>, acc: Seq<(u16, u16)>) -> Result<
    Seq<(u16, u16)>,
    ClassFileError,
> {
    match parse_u16(info, 0) {
        Err(e) => Err(e),
        Ok((count, p)) => parse_line_rows_from(info, p, count as nat, acc),
    }
}

pub open spec fn parse_local_row(
    bytes: Seq<u8>,
    pos: int,
    pool: Seq<Option<RuntimeConstantView>>,
) -> Result<(LocalVariableView, int), ClassFileError> {
    match parse_u16(bytes, pos) {
        Err(e) => Err(e),
        Ok((start_pc, pos1)) => match parse_u16(bytes, pos1) {
            Err(e) => Err(e),
            Ok((length, pos2)) => match parse_u16(bytes, pos2) {
                Err(e) => Err(e),
                Ok((name_index, pos3)) => match parse_u16(bytes, pos3) {
                    Err(e) => Err(e),
                    Ok((descriptor_index, pos4)) => match parse_u16(bytes, pos4) {
                        Err(e) => Err(e),
                        Ok((index, end)) => match runtime_utf8(pool, name_index) {
                            Err(e) => Err(e),
                            Ok(name) => match runtime_utf8(pool, descriptor_index) {
                                Err(e) => Err(e),
                                Ok(descriptor) => Ok(
                                    (
                                        LocalVariableView {
                                            start_pc,
                                            length,
                                            name,
                                            descriptor,
                                            index,
                                        },
                                        end,
                                    ),
                                ),
                            },
                        },
                    },
                },
            },
        },
    }
}

/// The position of the first row of `rows[from..]` for the local
/// variable `index`.
pub open spec fn local_position(rows: Seq<LocalVariableView>, index: u16, from: int) -> Option<int>
    decreases rows.len() - from,
{
    if from < 0 || from >= rows.len() {
        None
    } else if rows[from].index == index {
        Some(from)
    } else {
        local_position(rows, index, from + 1)
    }
}

/// The table after a row was recorded: the row takes the place of the
/// row for the same local variable, where there is one, and else comes
/// last.
pub open spec fn with_local(rows: Seq<LocalVariableView>, row: LocalVariableView) -> Seq<
    LocalVariableView,
> {
    match local_position(rows, row.index, 0) {
        Some(i) => rows.update(i, row),
        None => rows.push(row),
    }
}

pub open spec fn parse_local_rows_from(
    bytes: Seq<u8>,
    pos: int,
    remaining: nat,
    acc: Seq<LocalVariableView>,
    pool: Seq<Option<RuntimeConstantView>>,
) -> Result<Seq<LocalVariableView>, ClassFileError>
    decreases remaining,
{
    if remaining == 0 {
        Ok(acc)
    } else {
        match parse_local_row(bytes, pos, pool) {
            Err(e) => Err(e),
            Ok((row, p)) => parse_local_rows_from(
                bytes,
                p,
                (remaining - 1) as nat,
                with_local(acc, row),
                pool,
            ),
        }
    }
}

pub open spec fn parse_local_table(
    info: Seq<u8>,
    acc: Seq<LocalVariableView>,
    pool: Seq<Option<RuntimeConstantView>>,
) -> Result<Seq<LocalVariableView>, ClassFileError> {
    match parse_u16(info, 0) {
        Err(e) => Err(e),
        Ok((count, p)) => parse_local_rows_from(info, p, count as nat, acc, pool),
    }
}

/// The tables gathered from the attributes nested in a code attribute.
pub struct NestedTables {
    pub line_numbers: Seq<(u16, u16)>,
    pub local_variables: Seq<LocalVariableView>,
    pub local_variable_types: Seq<LocalVariableView>,
}

/// One nested attribute, read at `pos` and merged into `acc`. Attributes
/// other than the three tables are skipped.
pub open spec fn parse_nested(
    bytes: Seq<u8>,
    pos: int,
    acc: NestedTables,
    pool: Seq<Option<RuntimeConstantView>>,
) -> Result<(NestedTables, int), ClassFileError> {
    match parse_u16(bytes, pos) {
        Err(e) => Err(e),
        Ok((name_index, pos1)) => match parse_u32(bytes, pos1) {
            Err(e) => Err(e),
            Ok((length, pos2)) => match parse_bytes(bytes, pos2, length as int) {
                Err(e) => Err(e),
                Ok((info, end)) => match runtime_utf8(pool, name_index) {
                    Err(e) => Err(e),
                    Ok(name) => if name == "LineNumberTable"@ {
                        match parse_line_table(info, acc.line_numbers) {
                            Err(e) => Err(e),
                            Ok(lines) => Ok((NestedTables { line_numbers: lines, ..acc }, end)),
                        }
                    } else if name == "LocalVariableTable"@ {
                        match parse_local_table(info, acc.local_variables, pool) {
                            Err(e) => Err(e),
                            Ok(rows) => Ok((NestedTables { local_variables: rows, ..acc }, end)),
                        }
                    } else if name == "LocalVariableTypeTable"@ {
                        match parse_local_table(info, acc.local_variable_types, pool) {
                            Err(e) => Err(e),
                            Ok(rows) => Ok(
                                (NestedTables { local_variable_types: rows, ..acc }, end),
                            ),
                        }
                    } else {
                        Ok((acc, end))
                    },
                },
            },
        },
    }
}

pub open spec fn parse_nested_from(
    bytes: Seq<u8>,
    pos: int,
    remaining: nat,
    acc: NestedTables,
    pool: Seq<Option<RuntimeConstantView>>,
) -> Result<NestedTables, ClassFileError>
    decreases remaining,
{
    if remaining == 0 {
        Ok(acc)
    } else {
        match parse_nested(bytes, pos, acc, pool) {
            Err(e) => Err(e),
            Ok((next, p)) => parse_nested_from(bytes, p, (remaining - 1) as nat, next, pool),
        }
    }
}

/// What follows the code bytes of a code attribute: the exception table
/// and the nested attributes.
pub open spec fn parse_code_tables(
    bytes: Seq<u8>,
    pos: int,
    max_stack: u16,
    max_locals: u16,
    code: Seq<u8>,
    pool: Seq<Option<RuntimeConstantView>>,
) -> Result<CodeView, ClassFileError> {
    match parse_u16(bytes, pos) {
        Err(e) => Err(e),
        Ok((rows, pos1)) => match parse_exception_rows_from(
            bytes,
            pos1,
            rows as nat,
            Seq::empty(),
            pool,
        ) {
            Err(e) => Err(e),
            Ok((exception_table, pos2)) => match parse_u16(bytes, pos2) {
                Err(e) => Err(e),
                Ok((count, pos3)) => match parse_nested_from(
                    bytes,
                    pos3,
                    count as nat,
                    NestedTables {
                        line_numbers: Seq::empty(),
                        local_variables: Seq::empty(),
                        local_variable_types: Seq::empty(),
                    },
                    pool,
                ) {
                    Err(e) => Err(e),
                    Ok(tables) => Ok(
                        CodeView {
                            max_stack,
                            max_locals,
                            code,
                            exception_table,
                            line_numbers: tables.line_numbers,
                            local_variables: tables.local_variables,
                            local_variable_types: tables.local_variable_types,
                        },
                    ),
                },
            },
        },
    }
}

/// The code attribute that `bytes` hold: the stack and locals limits, the
/// code, the exception table and the nested tables.
pub open spec fn parse_code(bytes: Seq<u8>, pool: Seq<Option<RuntimeConstantView>>) -> Result<
    CodeView,
    ClassFileError,
> {
    match parse_u16(bytes, 0) {
        Err(e) => Err(e),
        Ok((max_stack, pos1)) => match parse_u16(bytes, pos1) {
            Err(e) => Err(e),
            Ok((max_locals, pos2)) => match parse_u32(bytes, pos2) {
                Err(e) => Err(e),
                Ok((code_length, pos3)) => match parse_bytes(bytes, pos3, code_length as int) {
                    Err(e) => Err(e),
                    Ok((code, pos4)) => parse_code_tables(
                        bytes,
                        pos4,
                        max_stack,
                        max_locals,
                        code,
                        pool,
                    ),
                },
            },
        },
    }
}

fn read_exception_row(buffer: &mut ByteBuffer, cp: &RuntimeConstantPool) -> (r: Result<
    ExceptionTable,
    ClassFileError,
>)
    ensures
        final(buffer).bytes() == old(buffer).bytes(),
        match parse_exception_row(old(buffer).bytes(), old(buffer).pos(), cp@) {
            Ok((row, p)) => r is Ok && r->Ok_0@ == row && final(buffer).pos() == p,
            Err(e) => r is Err && r->Err_0 == e,
        },
{
    let start_pc = buffer.read_u16()?;
    let end_pc = buffer.read_u16()?;
    let handler_pc = buffer.read_u16()?;
    let catch_type_index = buffer.read_u16()?;
    let catch_type = if catch_type_index == 0 {
        None
    } else {
        Some(cp.class_name_at(catch_type_index)?.to_owned())
    };
    Ok(ExceptionTable { start_pc, end_pc, handler_pc, catch_type })
}

fn read_line_table(info: &[u8], table: &mut IndexMap<u16, u16>) -> (r: Result<(), ClassFileError>)
    ensures
        match parse_line_table(info@, line_entries(*old(table))) {
            Ok(lines) => r is Ok && line_entries(*final(table)) == lines,
            Err(e) => r is Err && r->Err_0 == e,
        },
{
    let mut reader = ByteBuffer::new(info);
    let count = reader.read_u16()?;
    let mut i: u16 = 0;
    while i < count
        invariant
            i <= count,
            reader.bytes() == info@,
            parse_line_table(info@, line_entries(*old(table))) == parse_line_rows_from(
                info@,
                reader.pos(),
                (count - i) as nat,
                line_entries(*table),
            ),
        decreases count - i,
    {
        let start_pc = reader.read_u16()?;
        let line_number = reader.read_u16()?;
        line_table_insert(table, start_pc, line_number);
        i += 1;
    }
    Ok(())
}

fn read_local_row(buffer: &mut ByteBuffer, cp: &RuntimeConstantPool) -> (r: Result<
    LocalVariableTable,
    ClassFileError,
>)
    ensures
        final(buffer).bytes() == old(buffer).bytes(),
        match parse_local_row(old(buffer).bytes(), old(buffer).pos(), cp@) {
            Ok((row, p)) => r is Ok && r->Ok_0@ == row && final(buffer).pos() == p,
            Err(e) => r is Err && r->Err_0 == e,
        },
{
    let start_pc = buffer.read_u16()?;
    let length = buffer.read_u16()?;
    let name_index = buffer.read_u16()?;
    let descriptor_index = buffer.read_u16()?;
    let index = buffer.read_u16()?;
    let name = cp.utf8_at(name_index)?.to_owned();
    let descriptor = cp.utf8_at(descriptor_index)?.to_owned();
    Ok(LocalVariableTable { start_pc, length, name, descriptor, index })
}

/// Records a row of a local variable table: it takes the place of the
/// row for the same local variable, where there is one, and else comes
/// last.
fn put_local(table: &mut Vec<LocalVariableTable>, row: LocalVariableTable)
    ensures
        views(final(table)@) == with_local(views(old(table)@), row@),
{
    let mut i: usize = 0;
    while i < table.len()
        invariant
            i <= table.len(),
            *table == *old(table),
            local_position(views(table@), row@.index, 0) == local_position(
                views(table@),
                row@.index,
                i as int,
            ),
        decreases table.len() - i,
    {
        assert(views(table@)[i as int] == table@[i as int]@);
        if table[i].index == row.index {
            let ghost before = views(table@);
            table.set(i, row);
            assert(views(table@) =~= before.update(i as int, row@));
            return ;
        }
        i += 1;
    }
    proof {
        lemma_views_push(table@, row);
    }
    table.push(row);
}

/// Records a row of a local variable type table, as `put_local` does.
fn put_local_type(table: &mut Vec<LocalVariableTypeTable>, row: LocalVariableTypeTable)
    ensures
        views(final(table)@) == with_local(views(old(table)@), row@),
{
    let mut i: usize = 0;
    while i < table.len()
        invariant
            i <= table.len(),
            *table == *old(table),
            local_position(views(table@), row@.index, 0) == local_position(
                views(table@),
                row@.index,
                i as int,
            ),
        decreases table.len() - i,
    {
        assert(views(table@)[i as int] == table@[i as int]@);
        if table[i].index == row.index {
            let ghost before = views(table@);
            table.set(i, row);
            assert(views(table@) =~= before.update(i as int, row@));
            return ;
        }
        i += 1;
    }
    proof {
        lemma_views_push(table@, row);
    }
    table.push(row);
}

fn read_local_table(info: &[u8], table: &mut Vec<LocalVariableTable>, cp: &RuntimeConstantPool) -> (r:
    Result<(), ClassFileError>)
    ensures
        match parse_local_table(info@, views(old(table)@), cp@) {
            Ok(rows) => r is Ok && views(final(table)@) == rows,
            Err(e) => r is Err && r->Err_0 == e,
        },
{
    let mut reader = ByteBuffer::new(info);
    let count = reader.read_u16()?;
    let mut i: u16 = 0;
    while i < count
        invariant
            i <= count,
            reader.bytes() == info@,
            parse_local_table(info@, views(old(table)@), cp@) == parse_local_rows_from(
                info@,
                reader.pos(),
                (count - i) as nat,
                views(table@),
                cp@,
            ),
        decreases count - i,
    {
        let row = read_local_row(&mut reader, cp)?;
        put_local(table, row);
        i += 1;
    }
    Ok(())
}

fn read_local_type_table(
    info: &[u8],
    table: &mut Vec<LocalVariableTypeTable>,
    cp: &RuntimeConstantPool,
) -> (r: Result<(), ClassFileError>)
    ensures
        match parse_local_table(info@, views(old(table)@), cp@) {
            Ok(rows) => r is Ok && views(final(table)@) == rows,
            Err(e) => r is Err && r->Err_0 == e,
        },
{
    let mut reader = ByteBuffer::new(info);
    let count = reader.read_u16()?;
    let mut i: u16 = 0;
    while i < count
        invariant
            i <= count,
            reader.bytes() == info@,
            parse_local_table(info@, views(old(table)@), cp@) == parse_local_rows_from(
                info@,
                reader.pos(),
                (count - i) as nat,
                views(table@),
                cp@,
            ),
        decreases count - i,
    {
        let row = read_local_row(&mut reader, cp)?;
        let typed = LocalVariableTypeTable {
            start_pc: row.start_pc,
            length: row.length,
            name: row.name,
            signature: row.descriptor,
            index: row.index,
        };
        put_local_type(table, typed);
        i += 1;
    }
    Ok(())
}

/// The tables of `code` as the spec functions gather them.
pub open spec fn tables_of(code: CodeAttribute) -> NestedTables {
    NestedTables {
        line_numbers: code@.line_numbers,
        local_variables: code@.local_variables,
        local_variable_types: code@.local_variable_types,
    }
}

fn read_nested(buffer: &mut ByteBuffer, code: &mut CodeAttribute, cp: &RuntimeConstantPool) -> (r:
    Result<(), ClassFileError>)
    ensures
        final(buffer).bytes() == old(buffer).bytes(),
        final(code).max_stack == old(code).max_stack,
        final(code).max_locals == old(code).max_locals,
        final(code).code == old(code).code,
        final(code).exception_table == old(code).exception_table,
        match parse_nested(old(buffer).bytes(), old(buffer).pos(), tables_of(*old(code)), cp@) {
            Ok((tables, p)) => r is Ok && tables_of(*final(code)) == tables && final(buffer).pos()
                == p,
            Err(e) => r is Err && r->Err_0 == e,
        },
{
    let attribute_name_index = buffer.read_u16()?;
    let attribute_length = buffer.read_u32()?;
    let attribute_bytes = buffer.read_bytes(attribute_length as usize)?;
    let attribute_name = cp.utf8_at(attribute_name_index)?;
    if str_eq(attribute_name, "LineNumberTable") {
        read_line_table(attribute_bytes, &mut code.line_number_table)?;
    } else if str_eq(attribute_name, "LocalVariableTable") {
        read_local_table(attribute_bytes, &mut code.local_variable_table, cp)?;
    } else if str_eq(attribute_name, "LocalVariableTypeTable") {
        read_local_type_table(attribute_bytes, &mut code.local_variable_type_table, cp)?;
    }
    Ok(())
}

fn read_code_bytes(value: &Vec<u8>, cp: &RuntimeConstantPool) -> (r: Result<
    CodeAttribute,
    ClassFileError,
>)
    ensures
        match parse_code(value@, cp@) {
            Ok(code) => r is Ok && r->Ok_0@ == code,
            Err(e) => r is Err && r->Err_0 == e,
        },
{
    let mut buffer = ByteBuffer::new(value.as_slice());
    let max_stack = buffer.read_u16()?;
    let max_locals = buffer.read_u16()?;
    let code_length = buffer.read_u32()?;
    let code = buffer.read_bytes(code_length as usize)?;
    let ghost tables_start = buffer.pos();
    let exception_table_length = buffer.read_u16()?;
    let mut exception_table: Vec<ExceptionTable> = Vec::new();
    proof {
        lemma_views_empty::<ExceptionTable>();
        lemma_views_empty::<LocalVariableTable>();
        lemma_views_empty::<LocalVariableTypeTable>();
    }
    let ghost rows_start = buffer.pos();
    let mut i: u16 = 0;
    while i < exception_table_length
        invariant
            i <= exception_table_length,
            buffer.bytes() == value@,
            parse_exception_rows_from(
                value@,
                rows_start,
                exception_table_length as nat,
                Seq::empty(),
                cp@,
            ) == parse_exception_rows_from(
                value@,
                buffer.pos(),
                (exception_table_length - i) as nat,
                views(exception_table@),
                cp@,
            ),
            parse_code(value@, cp@) == parse_code_tables(
                value@,
                tables_start,
                max_stack,
                max_locals,
                code@,
                cp@,
            ),
            parse_u16(value@, tables_start) == Ok::<_, ClassFileError>(
                (exception_table_length, rows_start),
            ),
        decreases exception_table_length - i,
    {
        let row = read_exception_row(&mut buffer, cp)?;
        proof {
            lemma_views_push(exception_table@, row);
        }
        exception_table.push(row);
        i += 1;
    }
    let attributes_count = buffer.read_u16()?;
    let mut result = CodeAttribute {
        max_stack,
        max_locals,
        code: slice_to_vec(code),
        exception_table,
        line_number_table: line_table_new(),
        local_variable_table: Vec::new(),
        local_variable_type_table: Vec::new(),
    };
    let ghost nested_start = buffer.pos();
    let ghost empty_tables = tables_of(result);
    let ghost rows = views(result.exception_table@);
    let mut j: u16 = 0;
    while j < attributes_count
        invariant
            j <= attributes_count,
            buffer.bytes() == value@,
            result.max_stack == max_stack,
            result.max_locals == max_locals,
            result.code@ == code@,
            views(result.exception_table@) == rows,
            parse_code(value@, cp@) == (match parse_nested_from(
                value@,
                nested_start,
                attributes_count as nat,
                empty_tables,
                cp@,
            ) {
                Err(e) => Err(e),
                Ok(tables) => Ok(
                    CodeView {
                        max_stack,
                        max_locals,
                        code: code@,
                        exception_table: rows,
                        line_numbers: tables.line_numbers,
                        local_variables: tables.local_variables,
                        local_variable_types: tables.local_variable_types,
                    },
                ),
            }),
            parse_nested_from(value@, nested_start, attributes_count as nat, empty_tables, cp@)
                == parse_nested_from(
                value@,
                buffer.pos(),
                (attributes_count - j) as nat,
                tables_of(result),
                cp@,
            ),
        decreases attributes_count - j,
    {
        read_nested(&mut buffer, &mut result, cp)?;
        j += 1;
    }
    Ok(result)
}

/// Reads a `Code` attribute.
pub fn get_attr_as_code(value: &Vec<u8>, cp: &RuntimeConstantPool) -> (r: VmExecResult<
    CodeAttribute,
>)
    ensures
        match parse_code(value@, cp@) {
            Ok(code) => r is Ok && r->Ok_0@ == code,
            Err(e) => r is Err && r->Err_0 == VmError::ReadClassBytesError(e),
        },
{
    match read_code_bytes(value, cp) {
        Ok(code) => Ok(code),
        Err(e) => Err(VmError::ReadClassBytesError(e)),
    }
}

pub open spec fn parse_thrown_from(
    bytes: Seq<u8>,
    pos: int,
    remaining: nat,
    acc: Seq<Seq<char>>,
    pool: Seq<Option<RuntimeConstantView>>,
) -> Result<Seq<Seq<char>>, ClassFileError>
    decreases remaining,
{
    if remaining == 0 {
        Ok(acc)
    } else {
        match parse_u16(bytes, pos) {
            Err(e) => Err(e),
            Ok((index, p)) => match runtime_class_name(pool, index) {
                Err(e) => Err(e),
                Ok(name) => parse_thrown_from(bytes, p, (remaining - 1) as nat, acc.push(name), pool),
            },
        }
    }
}

/// The classes that an `Exceptions` attribute names: a count, then that
/// many indices of class references.
pub open spec fn parse_thrown(bytes: Seq<u8>, pool: Seq<Option<RuntimeConstantView>>) -> Result<
    Seq<Seq<char>>,
    ClassFileError,
> {
    match parse_u16(bytes, 0) {
        Err(e) => Err(e),
        Ok((count, p)) => parse_thrown_from(bytes, p, count as nat, Seq::empty(), pool),
    }
}

/// Reads an `Exceptions` attribute.
pub fn get_attr_as_exception(bytes: &Vec<u8>, cp: &RuntimeConstantPool) -> (r: VmExecResult<
    Vec<String>,
>)
    ensures
        match parse_thrown(bytes@, cp@) {
            Ok(names) => r is Ok && views(r->Ok_0@) == names,
            Err(e) => r is Err && r->Err_0 == VmError::ReadClassBytesError(e),
        },
{
    let mut buffer = ByteBuffer::new(bytes.as_slice());
    let number_of_exceptions = match buffer.read_u16() {
        Ok(n) => n,
        Err(e) => {
            return Err(VmError::ReadClassBytesError(e));
        },
    };
    let mut result: Vec<String> = Vec::new();
    proof {
        lemma_views_empty::<String>();
    }
    let mut i: u16 = 0;
    while i < number_of_exceptions
        invariant
            i <= number_of_exceptions,
            buffer.bytes() == bytes@,
            parse_thrown(bytes@, cp@) == parse_thrown_from(
                bytes@,
                buffer.pos(),
                (number_of_exceptions - i) as nat,
                views(result@),
                cp@,
            ),
        decreases number_of_exceptions - i,
    {
        let exception_index = match buffer.read_u16() {
            Ok(n) => n,
            Err(e) => {
                return Err(VmError::ReadClassBytesError(e));
            },
        };
        let name = match cp.class_name_at(exception_index) {
            Ok(n) => n.to_owned(),
            Err(e) => {
                return Err(VmError::ReadClassBytesError(e));
            },
        };
        proof {
            lemma_views_push(result@, name);
        }
        result.push(name);
        i += 1;
    }
    Ok(result)
}

} // verus!
