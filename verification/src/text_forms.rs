//! The text forms of errors and constants, for reports to people.
use vstd::prelude::*;
use vstd::string::StringExecFns;
use crate::class_file_error::{ClassDataFault, ClassFileError};
use crate::constant_pool::{constant_at, ConstantPool, ConstantPoolEntry, ConstantView};
use crate::runtime_attribute_info::{ConstantValueAttribute, ConstantValueView};
use crate::runtime_constant_pool::{
    MethodHandlerKind, RuntimeConstantPoolEntry, RuntimeConstantView,
};
use crate::text::{decimal_digits, decimal_text, joined, signed_digits, signed_text};

verus! {

impl ClassDataFault {
    /// The fault in words.
    pub open spec fn text(self) -> Seq<char> {
        match self {
            ClassDataFault::BadMagicNumber(v) => "bad magic number "@ + decimal_digits(v as nat),
            ClassDataFault::BadClassFlags(v) => "bad class flags "@ + decimal_digits(v as nat),
            ClassDataFault::BadFieldFlags(v) => "bad field flags "@ + decimal_digits(v as nat),
            ClassDataFault::BadMethodFlags(v) => "bad method flags "@ + decimal_digits(v as nat),
            ClassDataFault::NotUtf8(v) => "not a Utf8 constant: "@ + decimal_digits(v as nat),
            ClassDataFault::NotClassReference(v) => "not a class reference: "@ + decimal_digits(
                v as nat,
            ),
            ClassDataFault::NotNameAndType(v) => "not a name and type: "@ + decimal_digits(
                v as nat,
            ),
            ClassDataFault::NotMemberReference(v) => "not a member reference: "@
                + decimal_digits(v as nat),
            ClassDataFault::EmptyConstantPoolCount => "constant pool count is zero"@,
            ClassDataFault::TrailingBytes => "bytes behind the class"@,
        }
    }

    /// The fault in words.
    pub fn describe(&self) -> (r: String)
        ensures
            r@ == self.text(),
    {
        match self {
            ClassDataFault::BadMagicNumber(v) => joined(
                "bad magic number ",
                decimal_text(*v as u64).as_str(),
            ),
            ClassDataFault::BadClassFlags(v) => joined(
                "bad class flags ",
                decimal_text(*v as u64).as_str(),
            ),
            ClassDataFault::BadFieldFlags(v) => joined(
                "bad field flags ",
                decimal_text(*v as u64).as_str(),
            ),
            ClassDataFault::BadMethodFlags(v) => joined(
                "bad method flags ",
                decimal_text(*v as u64).as_str(),
            ),
            ClassDataFault::NotUtf8(v) => joined(
                "not a Utf8 constant: ",
                decimal_text(*v as u64).as_str(),
            ),
            ClassDataFault::NotClassReference(v) => joined(
                "not a class reference: ",
                decimal_text(*v as u64).as_str(),
            ),
            ClassDataFault::NotNameAndType(v) => joined(
                "not a name and type: ",
                decimal_text(*v as u64).as_str(),
            ),
            ClassDataFault::NotMemberReference(v) => joined(
                "not a member reference: ",
                decimal_text(*v as u64).as_str(),
            ),
            ClassDataFault::EmptyConstantPoolCount => "constant pool count is zero".to_owned(),
            ClassDataFault::TrailingBytes => "bytes behind the class".to_owned(),
        }
    }
}

impl ClassFileError {
    /// The error in words.
    pub open spec fn text(self) -> Seq<char> {
        match self {
            ClassFileError::UnsupportedVersion(major, minor) => "unsupported class file version "@
                + decimal_digits(major as nat) + "."@ + decimal_digits(minor as nat),
            ClassFileError::InvalidConstantPoolIndexError(index) => "invalid const pool index "@
                + decimal_digits(index as nat),
            ClassFileError::InvalidMethodHandlerKind(kind) => "invalid method handler kind "@
                + decimal_digits(kind as nat),
            ClassFileError::InvalidClassData(fault) => "invalid class data: "@ + fault.text(),
            ClassFileError::UnexpectedEndOfData => "unexpected end of data"@,
            ClassFileError::InvalidCesu8String => "invalid cesu8 string"@,
            ClassFileError::ConstantPoolTagNotSupport(tag) => "constant pool tag not support: "@
                + decimal_digits(tag as nat),
            ClassFileError::InvalidCode(code) => "invalid code : "@ + decimal_digits(code as nat),
        }
    }

    /// The error in words.
    pub fn describe(&self) -> (r: String)
        ensures
            r@ == self.text(),
    {
        match self {
            ClassFileError::UnsupportedVersion(major, minor) => {
                let a = joined(
                    "unsupported class file version ",
                    decimal_text(*major as u64).as_str(),
                );
                let b = joined(a.as_str(), ".");
                joined(b.as_str(), decimal_text(*minor as u64).as_str())
            },
            ClassFileError::InvalidConstantPoolIndexError(index) => joined(
                "invalid const pool index ",
                decimal_text(*index as u64).as_str(),
            ),
            ClassFileError::InvalidMethodHandlerKind(kind) => joined(
                "invalid method handler kind ",
                decimal_text(*kind as u64).as_str(),
            ),
            ClassFileError::InvalidClassData(fault) => joined(
                "invalid class data: ",
                fault.describe().as_str(),
            ),
            ClassFileError::UnexpectedEndOfData => "unexpected end of data".to_owned(),
            ClassFileError::InvalidCesu8String => "invalid cesu8 string".to_owned(),
            ClassFileError::ConstantPoolTagNotSupport(tag) => joined(
                "constant pool tag not support: ",
                decimal_text(*tag as u64).as_str(),
            ),
            ClassFileError::InvalidCode(code) => joined(
                "invalid code : ",
                decimal_text(*code as u64).as_str(),
            ),
        }
    }
}

impl MethodHandlerKind {
    /// The instruction that a method handle of this kind stands for.
    pub open spec fn text(self) -> Seq<char> {
        match self {
            MethodHandlerKind::GetField => "getfield C.f:T"@,
            MethodHandlerKind::GetStatic => "getstatic C.f:T"@,
            MethodHandlerKind::PutField => "putfield C.f:T"@,
            MethodHandlerKind::PutStatic => "putstatic C.f:T"@,
            MethodHandlerKind::InvokeVirtual => "invokevirtual C.m:(A*)T"@,
            MethodHandlerKind::InvokeStatic => "invokestatic C.m:(A*)T"@,
            MethodHandlerKind::InvokeSpecial => "invokespecial C.m:(A*)T"@,
            MethodHandlerKind::NewInvokeSpecial => "new C; dup; invokespecial C.<init>:(A*)V"@,
            MethodHandlerKind::InvokeInterface => "invokeinterface C.m:(A*)T"@,
        }
    }

    /// The instruction that a method handle of this kind stands for.
    pub fn describe(&self) -> (r: &'static str)
        ensures
            r@ == self.text(),
    {
        match self {
            MethodHandlerKind::GetField => "getfield C.f:T",
            MethodHandlerKind::GetStatic => "getstatic C.f:T",
            MethodHandlerKind::PutField => "putfield C.f:T",
            MethodHandlerKind::PutStatic => "putstatic C.f:T",
            MethodHandlerKind::InvokeVirtual => "invokevirtual C.m:(A*)T",
            MethodHandlerKind::InvokeStatic => "invokestatic C.m:(A*)T",
            MethodHandlerKind::InvokeSpecial => "invokespecial C.m:(A*)T",
            MethodHandlerKind::NewInvokeSpecial => "new C; dup; invokespecial C.<init>:(A*)V",
            MethodHandlerKind::InvokeInterface => "invokeinterface C.m:(A*)T",
        }
    }
}

/// A member of a class in words: the class, a dot, the name, a colon and
/// the descriptor.
pub open spec fn member_text(class_name: Seq<char>, name: Seq<char>, descriptor: Seq<char>) -> Seq<
    char,
> {
    class_name + "."@ + name + ":"@ + descriptor
}

fn describe_member(label: &str, class_name: &str, name: &str, descriptor: &str) -> (r: String)
    ensures
        r@ == label@ + member_text(class_name@, name@, descriptor@),
{
    let a = joined(label, class_name);
    let b = joined(a.as_str(), ".");
    let c = joined(b.as_str(), name);
    let d = joined(c.as_str(), ":");
    let r = joined(d.as_str(), descriptor);
    assert(r@ =~= label@ + member_text(class_name@, name@, descriptor@));
    r
}

fn describe_pair(label: &str, number: u16, name: &str, descriptor: &str) -> (r: String)
    ensures
        r@ == label@ + decimal_digits(number as nat) + ","@ + name@ + ":"@ + descriptor@,
{
    let a = joined(label, decimal_text(number as u64).as_str());
    let b = joined(a.as_str(), ",");
    let c = joined(b.as_str(), name);
    let d = joined(c.as_str(), ":");
    joined(d.as_str(), descriptor)
}

impl RuntimeConstantView {
    /// The constant in words: its kind, a tab, and what it holds.
    /// Floating-point constants are written as their bit patterns.
    pub open spec fn text(self) -> Seq<char> {
        match self {
            RuntimeConstantView::Utf8(v) => "Utf8\t"@ + v,
            RuntimeConstantView::Integer(v) => "Integer\t"@ + signed_digits(v as int),
            RuntimeConstantView::Float(v) => "Float\t"@ + decimal_digits(v as nat),
            RuntimeConstantView::Long(v) => "Long\t"@ + signed_digits(v as int),
            RuntimeConstantView::Double(v) => "Double\t"@ + decimal_digits(v as nat),
            RuntimeConstantView::ClassReference(v) => "Class\t"@ + v,
            RuntimeConstantView::StringReference(v) => "String\t"@ + v,
            RuntimeConstantView::FieldReference(c, n, d) => "Fieldref\t"@ + member_text(c, n, d),
            RuntimeConstantView::MethodReference(c, n, d) => "Methodref\t"@ + member_text(c, n, d),
            RuntimeConstantView::InterfaceMethodReference(c, n, d) => "InterfaceMethodref\t"@
                + member_text(c, n, d),
            RuntimeConstantView::NameAndTypeDescriptor(n, d) => "NameAndType\t"@ + n + ":"@ + d,
            RuntimeConstantView::MethodHandler(kind, c, n, d) => "MethodHandle\t"@ + kind.text()
                + ","@ + member_text(c, n, d),
            RuntimeConstantView::MethodType(d) => "MethodType\t"@ + d,
            RuntimeConstantView::Dynamic(i, n, d) => "Dynamic\t#"@ + decimal_digits(i as nat)
                + ","@ + n + ":"@ + d,
            RuntimeConstantView::InvokeDynamic(i, n, d) => "InvokeDynamic\t#"@ + decimal_digits(
                i as nat,
            ) + ","@ + n + ":"@ + d,
            RuntimeConstantView::Module(n) => "Module\t"@ + n,
            RuntimeConstantView::Package(n) => "Package\t"@ + n,
        }
    }
}

impl RuntimeConstantPoolEntry {
    /// The constant in words.
    pub fn describe(&self) -> (r: String)
        ensures
            r@ == self@.text(),
    {
        match self {
            RuntimeConstantPoolEntry::Utf8(v) => joined("Utf8\t", v.as_str()),
            RuntimeConstantPoolEntry::Integer(v) => joined(
                "Integer\t",
                signed_text(*v as i64).as_str(),
            ),
            RuntimeConstantPoolEntry::Float(v) => joined(
                "Float\t",
                decimal_text(*v as u64).as_str(),
            ),
            RuntimeConstantPoolEntry::Long(v) => joined("Long\t", signed_text(*v).as_str()),
            RuntimeConstantPoolEntry::Double(v) => joined("Double\t", decimal_text(*v).as_str()),
            RuntimeConstantPoolEntry::ClassReference(v) => joined("Class\t", v.as_str()),
            RuntimeConstantPoolEntry::StringReference(v) => joined("String\t", v.as_str()),
            RuntimeConstantPoolEntry::FieldReference(c, n, d) => describe_member(
                "Fieldref\t",
                c.as_str(),
                n.as_str(),
                d.as_str(),
            ),
            RuntimeConstantPoolEntry::MethodReference(c, n, d) => describe_member(
                "Methodref\t",
                c.as_str(),
                n.as_str(),
                d.as_str(),
            ),
            RuntimeConstantPoolEntry::InterfaceMethodReference(c, n, d) => describe_member(
                "InterfaceMethodref\t",
                c.as_str(),
                n.as_str(),
                d.as_str(),
            ),
            RuntimeConstantPoolEntry::NameAndTypeDescriptor(n, d) => {
                let a = joined("NameAndType\t", n.as_str());
                let b = joined(a.as_str(), ":");
                joined(b.as_str(), d.as_str())
            },
            RuntimeConstantPoolEntry::MethodHandler(kind, c, n, d) => {
                let a = joined("MethodHandle\t", kind.describe());
                let b = joined(a.as_str(), ",");
                let r = describe_member(b.as_str(), c.as_str(), n.as_str(), d.as_str());
                assert(r@ =~= self@.text());
                r
            },
            RuntimeConstantPoolEntry::MethodType(d) => joined("MethodType\t", d.as_str()),
            RuntimeConstantPoolEntry::Dynamic(i, n, d) => describe_pair(
                "Dynamic\t#",
                *i,
                n.as_str(),
                d.as_str(),
            ),
            RuntimeConstantPoolEntry::InvokeDynamic(i, n, d) => describe_pair(
                "InvokeDynamic\t#",
                *i,
                n.as_str(),
                d.as_str(),
            ),
            RuntimeConstantPoolEntry::Module(n) => joined("Module\t", n.as_str()),
            RuntimeConstantPoolEntry::Package(n) => joined("Package\t", n.as_str()),
        }
    }
}

impl ConstantValueView {
    /// The constant in words. Floating-point constants are written as
    /// their bit patterns.
    pub open spec fn text(self) -> Seq<char> {
        match self {
            ConstantValueView::Int(v) => "ConstantValue=>Int:"@ + signed_digits(v as int),
            ConstantValueView::Float(v) => "ConstantValue=>Float:"@ + decimal_digits(v as nat),
            ConstantValueView::Long(v) => "ConstantValue=>Long:"@ + signed_digits(v as int),
            ConstantValueView::Double(v) => "ConstantValue=>Double:"@ + decimal_digits(v as nat),
            ConstantValueView::String(v) => "ConstantValue=>String:"@ + v,
        }
    }
}

impl ConstantValueAttribute {
    /// The constant in words.
    pub fn describe(&self) -> (r: String)
        ensures
            r@ == self@.text(),
    {
        match self {
            ConstantValueAttribute::Int(v) => joined(
                "ConstantValue=>Int:",
                signed_text(*v as i64).as_str(),
            ),
            ConstantValueAttribute::Float(v) => joined(
                "ConstantValue=>Float:",
                decimal_text(*v as u64).as_str(),
            ),
            ConstantValueAttribute::Long(v) => joined(
                "ConstantValue=>Long:",
                signed_text(*v).as_str(),
            ),
            ConstantValueAttribute::Double(v) => joined(
                "ConstantValue=>Double:",
                decimal_text(*v).as_str(),
            ),
            ConstantValueAttribute::String(v) => joined("ConstantValue=>String:", v.as_str()),
        }
    }
}

/// How deep the references of a constant are followed when it is put in
/// words. In a class file that is sound no reference goes deeper than
/// three.
pub const REFERENCE_DEPTH: usize = 8;

/// A constant that refers to one other constant, in words: the label,
/// the index, and in brackets the constant at the index.
pub open spec fn referring(label: Seq<char>, index: u16, target: Seq<char>) -> Seq<char> {
    label + decimal_digits(index as nat) + " => ("@ + target + ")"@
}

/// A constant of two parts, in words: the label, both numbers, and in
/// brackets what each part stands for.
pub open spec fn referring_two(
    label: Seq<char>,
    first: nat,
    second: u16,
    first_text: Seq<char>,
    second_text: Seq<char>,
) -> Seq<char> {
    label + decimal_digits(first) + ", "@ + decimal_digits(second as nat) + " => ("@ + first_text
        + "), ("@ + second_text + ")"@
}

/// The constant at `index` of a pool in words, with the constants that
/// it refers to, followed for at most `depth` references. An index of no
/// constant, and references that go deeper, give
/// `InvalidConstantPoolIndexError`. Floating-point constants are
/// written as their bit patterns.
pub open spec fn entry_text(pool: Seq<Option<ConstantView>>, index: u16, depth: nat) -> Result<
    Seq<char>,
    ClassFileError,
>
    decreases depth,
{
    if depth == 0 {
        Err(ClassFileError::InvalidConstantPoolIndexError(index))
    } else {
        let below = (depth - 1) as nat;
        match constant_at(pool, index as int) {
            None => Err(ClassFileError::InvalidConstantPoolIndexError(index)),
            Some(ConstantView::Utf8(s)) => Ok("String: \""@ + s + "\""@),
            Some(ConstantView::Integer(n)) => Ok("Integer: "@ + signed_digits(n as int)),
            Some(ConstantView::Float(n)) => Ok("Float: "@ + decimal_digits(n as nat)),
            Some(ConstantView::Long(n)) => Ok("Long: "@ + signed_digits(n as int)),
            Some(ConstantView::Double(n)) => Ok("Double: "@ + decimal_digits(n as nat)),
            Some(ConstantView::ClassReference(n)) => one_text(
                "ClassReference: "@,
                n,
                entry_text(pool, n, below),
            ),
            Some(ConstantView::StringReference(n)) => one_text(
                "StringReference: "@,
                n,
                entry_text(pool, n, below),
            ),
            Some(ConstantView::MethodType(n)) => one_text(
                "MethodType: "@,
                n,
                entry_text(pool, n, below),
            ),
            Some(ConstantView::Module(n)) => one_text("Module: "@, n, entry_text(pool, n, below)),
            Some(ConstantView::Package(n)) => one_text(
                "Package: "@,
                n,
                entry_text(pool, n, below),
            ),
            Some(ConstantView::FieldReference(i, j)) => two_text(
                "FieldReference: "@,
                i as nat,
                j,
                entry_text(pool, i, below),
                entry_text(pool, j, below),
            ),
            Some(ConstantView::MethodReference(i, j)) => two_text(
                "MethodReference: "@,
                i as nat,
                j,
                entry_text(pool, i, below),
                entry_text(pool, j, below),
            ),
            Some(ConstantView::InterfaceMethodReference(i, j)) => two_text(
                "InterfaceMethodReference: "@,
                i as nat,
                j,
                entry_text(pool, i, below),
                entry_text(pool, j, below),
            ),
            Some(ConstantView::NameAndTypeDescriptor(i, j)) => two_text(
                "NameAndTypeDescriptor: "@,
                i as nat,
                j,
                entry_text(pool, i, below),
                entry_text(pool, j, below),
            ),
            Some(ConstantView::MethodHandler(i, j)) => two_text(
                "MethodHandler: "@,
                i as nat,
                j,
                Ok(decimal_digits(i as nat)),
                entry_text(pool, j, below),
            ),
            Some(ConstantView::Dynamic(i, j)) => two_text(
                "Dynamic: "@,
                i as nat,
                j,
                Ok(decimal_digits(i as nat)),
                entry_text(pool, j, below),
            ),
            Some(ConstantView::InvokeDynamic(i, j)) => two_text(
                "InvokeDynamic: "@,
                i as nat,
                j,
                Ok(decimal_digits(i as nat)),
                entry_text(pool, j, below),
            ),
        }
    }
}

/// `referring`, where the text of the target was found.
pub open spec fn one_text(label: Seq<char>, index: u16, target: Result<Seq<char>, ClassFileError>) -> Result<
    Seq<char>,
    ClassFileError,
> {
    match target {
        Ok(text) => Ok(referring(label, index, text)),
        Err(e) => Err(e),
    }
}

/// `referring_two`, where the texts of both parts were found; the error
/// of the first part comes first.
pub open spec fn two_text(
    label: Seq<char>,
    first: nat,
    second: u16,
    first_text: Result<Seq<char>, ClassFileError>,
    second_text: Result<Seq<char>, ClassFileError>,
) -> Result<Seq<char>, ClassFileError> {
    match first_text {
        Err(e) => Err(e),
        Ok(a) => match second_text {
            Err(e) => Err(e),
            Ok(b) => Ok(referring_two(label, first, second, a, b)),
        },
    }
}

fn describe_one(label: &str, index: u16, target: Result<String, ClassFileError>) -> (r: Result<
    String,
    ClassFileError,
>)
    ensures
        match target {
            Ok(text) => r matches Ok(found) && found@ == referring(label@, index, text@),
            Err(e) => r == Err::<String, _>(e),
        },
{
    match target {
        Err(e) => Err(e),
        Ok(text) => {
            let a = joined(label, decimal_text(index as u64).as_str());
            let b = joined(a.as_str(), " => (");
            let c = joined(b.as_str(), text.as_str());
            Ok(joined(c.as_str(), ")"))
        },
    }
}

fn describe_two(
    label: &str,
    first: u16,
    second: u16,
    first_text: Result<String, ClassFileError>,
    second_text: Result<String, ClassFileError>,
) -> (r: Result<String, ClassFileError>)
    ensures
        match first_text {
            Err(e) => r == Err::<String, _>(e),
            Ok(a) => match second_text {
                Err(e) => r == Err::<String, _>(e),
                Ok(b) => r matches Ok(found) && found@ == referring_two(
                    label@,
                    first as nat,
                    second,
                    a@,
                    b@,
                ),
            },
        },
{
    let a = match first_text {
        Ok(a) => a,
        Err(e) => {
            return Err(e);
        },
    };
    let b = match second_text {
        Ok(b) => b,
        Err(e) => {
            return Err(e);
        },
    };
    let t1 = joined(label, decimal_text(first as u64).as_str());
    let t2 = joined(t1.as_str(), ", ");
    let t3 = joined(t2.as_str(), decimal_text(second as u64).as_str());
    let t4 = joined(t3.as_str(), " => (");
    let t5 = joined(t4.as_str(), a.as_str());
    let t6 = joined(t5.as_str(), "), (");
    let t7 = joined(t6.as_str(), b.as_str());
    Ok(joined(t7.as_str(), ")"))
}

/// The index of a constant or the error of its text, as a pair of
/// results that say the same.
fn number_text(n: u16) -> (r: Result<String, ClassFileError>)
    ensures
        r matches Ok(text) && text@ == decimal_digits(n as nat),
{
    Ok(decimal_text(n as u64))
}

impl ConstantPool {
    /// The constant at `offset` in words, with the constants that it
    /// refers to. References are followed `REFERENCE_DEPTH` deep.
    pub fn fmt_entry(&self, offset: &u16) -> (r: Result<String, ClassFileError>)
        ensures
            match entry_text(self@, *offset, REFERENCE_DEPTH as nat) {
                Ok(text) => r matches Ok(found) && found@ == text,
                Err(e) => r == Err::<String, _>(e),
            },
    {
        self.fmt_entry_within(*offset, REFERENCE_DEPTH)
    }

    fn fmt_entry_within(&self, index: u16, depth: usize) -> (r: Result<String, ClassFileError>)
        ensures
            match entry_text(self@, index, depth as nat) {
                Ok(text) => r matches Ok(found) && found@ == text,
                Err(e) => r == Err::<String, _>(e),
            },
        decreases depth,
    {
        if depth == 0 {
            return Err(ClassFileError::InvalidConstantPoolIndexError(index));
        }
        let below = depth - 1;
        let entry = match self.try_get(&index) {
            Some(entry) => entry,
            None => {
                return Err(ClassFileError::InvalidConstantPoolIndexError(index));
            },
        };
        match entry {
            ConstantPoolEntry::Utf8(s) => {
                let a = joined("String: \"", s.as_str());
                Ok(joined(a.as_str(), "\""))
            },
            ConstantPoolEntry::Integer(n) => Ok(
                joined("Integer: ", signed_text(*n as i64).as_str()),
            ),
            ConstantPoolEntry::Float(n) => Ok(joined("Float: ", decimal_text(*n as u64).as_str())),
            ConstantPoolEntry::Long(n) => Ok(joined("Long: ", signed_text(*n).as_str())),
            ConstantPoolEntry::Double(n) => Ok(joined("Double: ", decimal_text(*n).as_str())),
            ConstantPoolEntry::ClassReference(n) => describe_one(
                "ClassReference: ",
                *n,
                self.fmt_entry_within(*n, below),
            ),
            ConstantPoolEntry::StringReference(n) => describe_one(
                "StringReference: ",
                *n,
                self.fmt_entry_within(*n, below),
            ),
            ConstantPoolEntry::MethodType(n) => describe_one(
                "MethodType: ",
                *n,
                self.fmt_entry_within(*n, below),
            ),
            ConstantPoolEntry::Module(n) => describe_one(
                "Module: ",
                *n,
                self.fmt_entry_within(*n, below),
            ),
            ConstantPoolEntry::Package(n) => describe_one(
                "Package: ",
                *n,
                self.fmt_entry_within(*n, below),
            ),
            ConstantPoolEntry::FieldReference(i, j) => describe_two(
                "FieldReference: ",
                *i,
                *j,
                self.fmt_entry_within(*i, below),
                self.fmt_entry_within(*j, below),
            ),
            ConstantPoolEntry::MethodReference(i, j) => describe_two(
                "MethodReference: ",
                *i,
                *j,
                self.fmt_entry_within(*i, below),
                self.fmt_entry_within(*j, below),
            ),
            ConstantPoolEntry::InterfaceMethodReference(i, j) => describe_two(
                "InterfaceMethodReference: ",
                *i,
                *j,
                self.fmt_entry_within(*i, below),
                self.fmt_entry_within(*j, below),
            ),
            ConstantPoolEntry::NameAndTypeDescriptor(i, j) => describe_two(
                "NameAndTypeDescriptor: ",
                *i,
                *j,
                self.fmt_entry_within(*i, below),
                self.fmt_entry_within(*j, below),
            ),
            ConstantPoolEntry::MethodHandler(i, j) => describe_two(
                "MethodHandler: ",
                *i as u16,
                *j,
                number_text(*i as u16),
                self.fmt_entry_within(*j, below),
            ),
            ConstantPoolEntry::Dynamic(i, j) => describe_two(
                "Dynamic: ",
                *i,
                *j,
                number_text(*i),
                self.fmt_entry_within(*j, below),
            ),
            ConstantPoolEntry::InvokeDynamic(i, j) => describe_two(
                "InvokeDynamic: ",
                *i,
                *j,
                number_text(*i),
                self.fmt_entry_within(*j, below),
            ),
        }
    }
}


/// The hexadecimal digit for a number below sixteen.
pub open spec fn hex_char(d: int) -> char {
    if d == 0 {
        '0'
    } else if d == 1 {
        '1'
    } else if d == 2 {
        '2'
    } else if d == 3 {
        '3'
    } else if d == 4 {
        '4'
    } else if d == 5 {
        '5'
    } else if d == 6 {
        '6'
    } else if d == 7 {
        '7'
    } else if d == 8 {
        '8'
    } else if d == 9 {
        '9'
    } else if d == 10 {
        'a'
    } else if d == 11 {
        'b'
    } else if d == 12 {
        'c'
    } else if d == 13 {
        'd'
    } else if d == 14 {
        'e'
    } else {
        'f'
    }
}

fn hex_digit(d: u16) -> (r: &'static str)
    requires
        d < 16,
    ensures
        r@ == seq![hex_char(d as int)],
{
    proof {
        reveal_strlit("0");
        reveal_strlit("1");
        reveal_strlit("2");
        reveal_strlit("3");
        reveal_strlit("4");
        reveal_strlit("5");
        reveal_strlit("6");
        reveal_strlit("7");
        reveal_strlit("8");
        reveal_strlit("9");
        reveal_strlit("a");
        reveal_strlit("b");
        reveal_strlit("c");
        reveal_strlit("d");
        reveal_strlit("e");
        reveal_strlit("f");
    }
    let r = if d == 0 {
        "0"
    } else if d == 1 {
        "1"
    } else if d == 2 {
        "2"
    } else if d == 3 {
        "3"
    } else if d == 4 {
        "4"
    } else if d == 5 {
        "5"
    } else if d == 6 {
        "6"
    } else if d == 7 {
        "7"
    } else if d == 8 {
        "8"
    } else if d == 9 {
        "9"
    } else if d == 10 {
        "a"
    } else if d == 11 {
        "b"
    } else if d == 12 {
        "c"
    } else if d == 13 {
        "d"
    } else if d == 14 {
        "e"
    } else {
        "f"
    };
    assert(r@ =~= seq![hex_char(d as int)]);
    r
}

/// A 16-bit value in hexadecimal: `0x` and four digits.
pub open spec fn hex_digits(v: u16) -> Seq<char> {
    "0x"@ + seq![hex_char(v as int / 4096)] + seq![hex_char((v as int / 256) % 16)] + seq![
        hex_char((v as int / 16) % 16),
    ] + seq![hex_char(v as int % 16)]
}

/// Writes a 16-bit value in hexadecimal.
pub fn hex_text(v: u16) -> (r: String)
    ensures
        r@ == hex_digits(v),
{
    let a = joined("0x", hex_digit(v / 4096));
    let b = joined(a.as_str(), hex_digit((v / 256) % 16));
    let c = joined(b.as_str(), hex_digit((v / 16) % 16));
    joined(c.as_str(), hex_digit(v % 16))
}

/// The words that open the text form of a class: what its access flags
/// say of it, the kind of class it is, and its name.
pub open spec fn class_opening(flags: u16, name: Seq<char>) -> Seq<char> {
    let a = if crate::access_flags::has_flag(flags, crate::access_flags::ACC_PUBLIC) {
        "public "@
    } else {
        ""@
    };
    let b = if crate::access_flags::has_flag(flags, crate::access_flags::ACC_FINAL) {
        a + "final "@
    } else {
        a
    };
    let c = if crate::access_flags::has_flag(flags, crate::access_flags::ACC_ABSTRACT) {
        b + "abstract "@
    } else {
        b
    };
    let d = if crate::access_flags::has_flag(flags, crate::access_flags::ACC_INTERFACE) {
        c + "interface "@
    } else if crate::access_flags::has_flag(flags, crate::access_flags::ACC_ENUM) {
        c + "enum "@
    } else {
        c + "class "@
    };
    d + name
}

fn describe_opening(flags: &crate::access_flags::ClassAccessFlags, name: &str) -> (r: String)
    ensures
        r@ == class_opening(flags@, name@),
{
    let a = if flags.contains(crate::access_flags::ACC_PUBLIC) {
        "public ".to_owned()
    } else {
        "".to_owned()
    };
    let b = if flags.contains(crate::access_flags::ACC_FINAL) {
        joined(a.as_str(), "final ")
    } else {
        a
    };
    let c = if flags.contains(crate::access_flags::ACC_ABSTRACT) {
        joined(b.as_str(), "abstract ")
    } else {
        b
    };
    let d = if flags.contains(crate::access_flags::ACC_INTERFACE) {
        joined(c.as_str(), "interface ")
    } else if flags.contains(crate::access_flags::ACC_ENUM) {
        joined(c.as_str(), "enum ")
    } else {
        joined(c.as_str(), "class ")
    };
    joined(d.as_str(), name)
}

/// A label, a number and what follows them.
pub open spec fn counted(before: Seq<char>, label: Seq<char>, n: nat, end: Seq<char>) -> Seq<char> {
    before + label + decimal_digits(n) + end
}

fn describe_counted(before: &str, label: &str, n: usize, end: &str) -> (r: String)
    ensures
        r@ == counted(before@, label@, n as nat, end@),
{
    let a = joined(before, label);
    let b = joined(a.as_str(), decimal_text(n as u64).as_str());
    joined(b.as_str(), end)
}

impl crate::class_file::ClassFileView {
    /// The class file in words: how it opens, its version, its flags,
    /// its name and that of its super class, and how many interfaces,
    /// fields, methods and attributes it has.
    pub open spec fn text(self) -> Seq<char> {
        let a = class_opening(self.access_flags, self.this_class_name);
        let b = counted(a, "minor version: "@, 45, "\n"@);
        let c = counted(b, "major version: "@, self.version.major() as nat, "\n"@);
        let d = c + "flags: ("@ + hex_digits(self.access_flags) + ") "@;
        let e = d + "this_class: "@ + self.this_class_name + "\n"@;
        let f = match self.super_class_name {
            Some(name) => e + "super_class: "@ + name + "\n"@,
            None => e,
        };
        let g = counted(f, "interfaces: "@, self.interface_names.len(), ""@);
        let h = counted(g, ", fields: "@, self.field_info.len(), ""@);
        let i = counted(h, ", method: "@, self.method_info.len(), ""@);
        counted(i, ", attributes: "@, self.attribute_info.len(), "\n"@)
    }
}

impl crate::class_file::ClassFile {
    /// The class file in words.
    pub fn describe(&self) -> (r: String)
        ensures
            r@ == self@.text(),
    {
        let version = self.version.version();
        let a = describe_opening(&self.access_flags, self.this_class_name.as_str());
        let b = describe_counted(a.as_str(), "minor version: ", version.0 as usize, "\n");
        let c = describe_counted(b.as_str(), "major version: ", version.1 as usize, "\n");
        let d1 = joined(c.as_str(), "flags: (");
        let d2 = joined(d1.as_str(), hex_text(self.access_flags.bits()).as_str());
        let d = joined(d2.as_str(), ") ");
        let e1 = joined(d.as_str(), "this_class: ");
        let e2 = joined(e1.as_str(), self.this_class_name.as_str());
        let e = joined(e2.as_str(), "\n");
        let f = match &self.super_class_name {
            Some(name) => {
                let f1 = joined(e.as_str(), "super_class: ");
                let f2 = joined(f1.as_str(), name.as_str());
                joined(f2.as_str(), "\n")
            },
            None => e,
        };
        let g = describe_counted(f.as_str(), "interfaces: ", self.interface_names.len(), "");
        let h = describe_counted(g.as_str(), ", fields: ", self.field_info.len(), "");
        let i = describe_counted(h.as_str(), ", method: ", self.method_info.len(), "");
        let r = describe_counted(i.as_str(), ", attributes: ", self.attribute_info.len(), "\n");
        proof {
            assert(self@.interface_names.len() == self.interface_names@.len());
            assert(self@.field_info.len() == self.field_info@.len());
            assert(self@.method_info.len() == self.method_info@.len());
            assert(self@.attribute_info.len() == self.attribute_info@.len());
        }
        r
    }
}

impl crate::loaded_class::Class {
    /// The class in words: how it opens, its flags, its name and that
    /// of its super class, and how many interfaces, fields and methods
    /// it has.
    pub open spec fn text(self) -> Seq<char> {
        let a = class_opening(self.access_flags@, self.name@);
        let d = a + "flags: ("@ + hex_digits(self.access_flags@) + ") "@;
        let e = d + "this_class: "@ + self.name@ + "\n"@;
        let f = match self.super_class_name {
            Some(name) => e + "super_class: "@ + name@ + "\n"@,
            None => e,
        };
        let g = counted(f, "interfaces: "@, self.interface_names@.len(), ""@);
        let h = counted(g, ", fields: "@, self.fields@.len(), ""@);
        counted(h, ", method: "@, self.methods@.len(), "\n"@)
    }

    /// The class in words.
    pub fn describe(&self) -> (r: String)
        ensures
            r@ == self.text(),
    {
        let a = describe_opening(&self.access_flags, self.name.as_str());
        let d1 = joined(a.as_str(), "flags: (");
        let d2 = joined(d1.as_str(), hex_text(self.access_flags.bits()).as_str());
        let d = joined(d2.as_str(), ") ");
        let e1 = joined(d.as_str(), "this_class: ");
        let e2 = joined(e1.as_str(), self.name.as_str());
        let e = joined(e2.as_str(), "\n");
        let f = match &self.super_class_name {
            Some(name) => {
                let f1 = joined(e.as_str(), "super_class: ");
                let f2 = joined(f1.as_str(), name.as_str());
                joined(f2.as_str(), "\n")
            },
            None => e,
        };
        let g = describe_counted(f.as_str(), "interfaces: ", self.interface_names.len(), "");
        let h = describe_counted(g.as_str(), ", fields: ", self.fields.len(), "");
        describe_counted(h.as_str(), ", method: ", self.methods.len(), "\n")
    }
}

/// The lines of a constant pool from the constant at `index` on, behind
/// the text `lines`: for every constant a line with its index and its
/// text form. The slot behind a wide constant has no line.
pub open spec fn pool_lines(pool: Seq<Option<ConstantView>>, index: int, lines: Seq<char>) -> Result<
    Seq<char>,
    ClassFileError,
>
    decreases pool.len() + 1 - index,
{
    if index < 1 || index > pool.len() || index > 0xFFFF {
        Ok(lines)
    } else if pool[index - 1] is None {
        pool_lines(pool, index + 1, lines)
    } else {
        match entry_text(pool, index as u16, REFERENCE_DEPTH as nat) {
            Err(e) => Err(e),
            Ok(text) => pool_lines(
                pool,
                index + 1,
                counted(lines, "    "@, index as nat, ", "@) + text + "\n"@,
            ),
        }
    }
}

impl ConstantPool {
    /// The pool in words: its size, and a line for every constant.
    pub fn describe(&self) -> (r: Result<String, ClassFileError>)
        ensures
            match pool_lines(
                self@,
                1,
                counted(""@, "Constant pool: (size: "@, self@.len(), ")\n"@),
            ) {
                Ok(text) => r matches Ok(found) && found@ == text,
                Err(e) => r == Err::<String, _>(e),
            },
    {
        let mut text = describe_counted("", "Constant pool: (size: ", self.len(), ")\n");
        let ghost start = text@;
        let mut index: usize = 1;
        while index <= self.len() && index <= 0xFFFF
            invariant
                1 <= index,
                start == counted(""@, "Constant pool: (size: "@, self@.len(), ")\n"@),
                pool_lines(self@, 1, start) == pool_lines(self@, index as int, text@),
            decreases self@.len() + 1 - index,
        {
            let at = index as u16;
            assert(constant_at(self@, at as int) == self@[index - 1]);
            if self.try_get(&at).is_some() {
                let entry = match self.fmt_entry(&at) {
                    Ok(entry) => entry,
                    Err(e) => {
                        return Err(e);
                    },
                };
                let a = describe_counted(text.as_str(), "    ", index, ", ");
                let b = joined(a.as_str(), entry.as_str());
                text = joined(b.as_str(), "\n");
            }
            index += 1;
        }
        Ok(text)
    }
}

impl crate::jvm_error::VmError {
    /// The error in words.
    pub fn describe(&self) -> (r: String)
        ensures
            r@ == self.text(),
    {
        match self {
            crate::jvm_error::VmError::ClassFormatError => "ClassFormatError".to_owned(),
            crate::jvm_error::VmError::ClassNotFoundException(n) => joined(
                "ClassNotFoundException ",
                n.as_str(),
            ),
            crate::jvm_error::VmError::MethodNotFoundException(n, d) => {
                let a = joined("MethodNotFoundException ", n.as_str());
                let b = joined(a.as_str(), " ");
                joined(b.as_str(), d.as_str())
            },
            crate::jvm_error::VmError::FieldNotFoundException(n) => joined(
                "FieldNotFoundException ",
                n.as_str(),
            ),
            crate::jvm_error::VmError::InvalidAttribute(n) => joined(
                "InvalidAttribute ",
                n.as_str(),
            ),
            crate::jvm_error::VmError::InvalidOffset(n) => joined(
                "InvalidOffset ",
                decimal_text(*n as u64).as_str(),
            ),
            crate::jvm_error::VmError::NoClassDefFoundError(n) => joined(
                "NoClassDefFoundError ",
                n.as_str(),
            ),
            crate::jvm_error::VmError::ClassPathNotExist(n) => joined(
                "ClassPathNotExist ",
                n.as_str(),
            ),
            crate::jvm_error::VmError::JarFileNotExist(n) => joined("JarFileNotExist ", n.as_str()),
            crate::jvm_error::VmError::ReadClassBytesError(e) => joined(
                "ReadClassBytesError ",
                e.describe().as_str(),
            ),
            crate::jvm_error::VmError::ExecuteCodeError(n) => joined(
                "ExecuteCodeError ",
                n.as_str(),
            ),
            crate::jvm_error::VmError::ValueTypeMissMatch => "value type miss match".to_owned(),
            crate::jvm_error::VmError::ReadJarFileError(n) => joined(
                "ReadJarFileError ",
                n.as_str(),
            ),
            crate::jvm_error::VmError::ClassVersionNotSupport => "VersionNotSupport".to_owned(),
            crate::jvm_error::VmError::IndexOutOfBounds => "index out of bounds".to_owned(),
            crate::jvm_error::VmError::PopFromEmptyStack => "can't pop from empty stack".to_owned(),
            crate::jvm_error::VmError::StackOverFlow => "stack over flow".to_owned(),
            crate::jvm_error::VmError::ArithmeticException => "arithmetic error".to_owned(),
            crate::jvm_error::VmError::NotImplemented => "NotImplemented error".to_owned(),
            crate::jvm_error::VmError::OutOfMemory => "out of memory".to_owned(),
        }
    }

    /// The error in words.
    pub open spec fn text(self) -> Seq<char> {
        match self {
            crate::jvm_error::VmError::ClassFormatError => "ClassFormatError"@,
            crate::jvm_error::VmError::ClassNotFoundException(n) => "ClassNotFoundException "@
                + n@,
            crate::jvm_error::VmError::MethodNotFoundException(n, d) => "MethodNotFoundException "@
                + n@ + " "@ + d@,
            crate::jvm_error::VmError::FieldNotFoundException(n) => "FieldNotFoundException "@
                + n@,
            crate::jvm_error::VmError::InvalidAttribute(n) => "InvalidAttribute "@ + n@,
            crate::jvm_error::VmError::InvalidOffset(n) => "InvalidOffset "@ + decimal_digits(
                n as nat,
            ),
            crate::jvm_error::VmError::NoClassDefFoundError(n) => "NoClassDefFoundError "@ + n@,
            crate::jvm_error::VmError::ClassPathNotExist(n) => "ClassPathNotExist "@ + n@,
            crate::jvm_error::VmError::JarFileNotExist(n) => "JarFileNotExist "@ + n@,
            crate::jvm_error::VmError::ReadClassBytesError(e) => "ReadClassBytesError "@
                + e.text(),
            crate::jvm_error::VmError::ExecuteCodeError(n) => "ExecuteCodeError "@ + n@,
            crate::jvm_error::VmError::ValueTypeMissMatch => "value type miss match"@,
            crate::jvm_error::VmError::ReadJarFileError(n) => "ReadJarFileError "@ + n@,
            crate::jvm_error::VmError::ClassVersionNotSupport => "VersionNotSupport"@,
            crate::jvm_error::VmError::IndexOutOfBounds => "index out of bounds"@,
            crate::jvm_error::VmError::PopFromEmptyStack => "can't pop from empty stack"@,
            crate::jvm_error::VmError::StackOverFlow => "stack over flow"@,
            crate::jvm_error::VmError::ArithmeticException => "arithmetic error"@,
            crate::jvm_error::VmError::NotImplemented => "NotImplemented error"@,
            crate::jvm_error::VmError::OutOfMemory => "out of memory"@,
        }
    }
}


/// The lines of a resolved pool from slot `slot` on, behind the text
/// `lines`: for every slot a line with its number, counted from 0, and
/// the text form of its constant, or `place_holder` for the slot behind
/// a wide constant.
pub open spec fn resolved_lines(pool: Seq<Option<RuntimeConstantView>>, slot: int, lines: Seq<char>) -> Seq<
    char,
>
    decreases pool.len() - slot,
{
    if slot < 0 || slot >= pool.len() || slot >= 0xFFFF {
        lines
    } else {
        resolved_lines(
            pool,
            slot + 1,
            counted(lines, "#"@, slot as nat, " = "@) + (match pool[slot] {
                Some(constant) => constant.text(),
                None => "place_holder"@,
            }) + "\n"@,
        )
    }
}

impl crate::runtime_constant_pool::RuntimeConstantPool {
    /// The pool in words: a line for every slot.
    pub fn describe(&self) -> (r: String)
        ensures
            r@ == resolved_lines(self@, 0, ""@),
    {
        let mut text = "".to_owned();
        let mut slot: usize = 0;
        while slot < self.len() && slot < 0xFFFF
            invariant
                resolved_lines(self@, 0, ""@) == resolved_lines(self@, slot as int, text@),
            decreases self@.len() - slot,
        {
            let a = describe_counted(text.as_str(), "#", slot, " = ");
            assert(crate::runtime_constant_pool::runtime_constant_at(self@, slot + 1)
                == self@[slot as int]);
            let b = match self.get((slot + 1) as u16) {
                Ok(constant) => joined(a.as_str(), constant.describe().as_str()),
                Err(_) => joined(a.as_str(), "place_holder"),
            };
            text = joined(b.as_str(), "\n");
            slot += 1;
        }
        text
    }
}

} // verus!
