//! Access masks of classes, fields and methods.
use vstd::prelude::*;

verus! {

pub const ACC_PUBLIC: u16 = 0x0001;
pub const ACC_PRIVATE: u16 = 0x0002;
pub const ACC_PROTECTED: u16 = 0x0004;
pub const ACC_STATIC: u16 = 0x0008;
pub const ACC_FINAL: u16 = 0x0010;
pub const ACC_SUPER: u16 = 0x0020;
pub const ACC_SYNCHRONIZED: u16 = 0x0020;
pub const ACC_VOLATILE: u16 = 0x0040;
pub const ACC_BRIDGE: u16 = 0x0040;
pub const ACC_TRANSIENT: u16 = 0x0080;
pub const ACC_VARARGS: u16 = 0x0080;
pub const ACC_INTERFACE: u16 = 0x0200;
pub const ACC_ABSTRACT: u16 = 0x0400;
pub const ACC_STRICT: u16 = 0x0800;
pub const ACC_SYNTHETIC: u16 = 0x1000;
pub const ACC_ANNOTATION: u16 = 0x2000;
pub const ACC_ENUM: u16 = 0x4000;
pub const ACC_MODULE: u16 = 0x8000;
/// The bit that marks a method as implemented by the host.
pub const ACC_NATIVE: u16 = 0x1000;
/// The bit that marks a method as having no body of its own.
pub const ACC_ABSTRACT_METHOD: u16 = 0x4000;

/// Every bit a class mask may hold.
pub const CLASS_FLAGS: u16 = 0xF631;
/// Every bit a field mask may hold.
pub const FIELD_FLAGS: u16 = 0x50DF;
/// Every bit a method mask may hold.
pub const METHOD_FLAGS: u16 = 0x58FF;

/// Whether every bit of `flag` is set in `bits`.
pub open spec fn has_flag(bits: u16, flag: u16) -> bool {
    bits & flag == flag
}

/// Whether `bits` holds no bit outside `allowed`.
pub open spec fn within(bits: u16, allowed: u16) -> bool {
    bits & !allowed == 0
}

#[derive(Debug, Clone, Copy, PartialEq, Eq, Structural)]
pub struct ClassAccessFlags {
    bits: u16,
}

impl View for ClassAccessFlags {
    type V = u16;

    closed spec fn view(&self) -> u16 {
        self.bits
    }
}

impl ClassAccessFlags {
    #[verifier::type_invariant]
    spec fn known_bits(self) -> bool {
        within(self.bits, CLASS_FLAGS)
    }

    /// The mask with no bit set.
    pub fn empty() -> (r: Self)
        ensures
            r@ == 0,
    {
        assert(within(0u16, CLASS_FLAGS)) by (bit_vector);
        ClassAccessFlags { bits: 0 }
    }

    /// The flags for a raw mask, or `None` where it has a bit that no class
    /// flag uses.
    pub fn from_bits(bits: u16) -> (r: Option<Self>)
        ensures
            within(bits, CLASS_FLAGS) ==> r is Some && r->0@ == bits,
            !within(bits, CLASS_FLAGS) ==> r is None,
    {
        if bits & !CLASS_FLAGS == 0 {
            Some(ClassAccessFlags { bits })
        } else {
            None
        }
    }

    pub fn bits(&self) -> (r: u16)
        ensures
            r == self@,
            within(r, CLASS_FLAGS),
    {
        proof {
            use_type_invariant(self);
        }
        self.bits
    }

    pub fn contains(&self, flag: u16) -> (r: bool)
        ensures
            r == has_flag(self@, flag),
    {
        self.bits & flag == flag
    }
}

impl Default for ClassAccessFlags {
    fn default() -> (r: Self)
        ensures
            r@ == 0,
    {
        ClassAccessFlags::empty()
    }
}

#[derive(Debug, Clone, Copy, PartialEq, Eq, Structural)]
pub struct FieldAccessFlags {
    bits: u16,
}

impl View for FieldAccessFlags {
    type V = u16;

    closed spec fn view(&self) -> u16 {
        self.bits
    }
}

impl FieldAccessFlags {
    #[verifier::type_invariant]
    spec fn known_bits(self) -> bool {
        within(self.bits, FIELD_FLAGS)
    }

    /// The mask with no bit set.
    pub fn empty() -> (r: Self)
        ensures
            r@ == 0,
    {
        assert(within(0u16, FIELD_FLAGS)) by (bit_vector);
        FieldAccessFlags { bits: 0 }
    }

    /// The flags for a raw mask, or `None` where it has a bit that no field
    /// flag uses.
    pub fn from_bits(bits: u16) -> (r: Option<Self>)
        ensures
            within(bits, FIELD_FLAGS) ==> r is Some && r->0@ == bits,
            !within(bits, FIELD_FLAGS) ==> r is None,
    {
        if bits & !FIELD_FLAGS == 0 {
            Some(FieldAccessFlags { bits })
        } else {
            None
        }
    }

    pub fn bits(&self) -> (r: u16)
        ensures
            r == self@,
            within(r, FIELD_FLAGS),
    {
        proof {
            use_type_invariant(self);
        }
        self.bits
    }

    pub fn contains(&self, flag: u16) -> (r: bool)
        ensures
            r == has_flag(self@, flag),
    {
        self.bits & flag == flag
    }
}

impl Default for FieldAccessFlags {
    fn default() -> (r: Self)
        ensures
            r@ == 0,
    {
        FieldAccessFlags::empty()
    }
}

#[derive(Debug, Clone, Copy, PartialEq, Eq, Structural)]
pub struct MethodAccessFlags {
    bits: u16,
}

impl View for MethodAccessFlags {
    type V = u16;

    closed spec fn view(&self) -> u16 {
        self.bits
    }
}

impl MethodAccessFlags {
    #[verifier::type_invariant]
    spec fn known_bits(self) -> bool {
        within(self.bits, METHOD_FLAGS)
    }

    /// The mask with no bit set.
    pub fn empty() -> (r: Self)
        ensures
            r@ == 0,
    {
        assert(within(0u16, METHOD_FLAGS)) by (bit_vector);
        MethodAccessFlags { bits: 0 }
    }

    /// The flags for a raw mask, or `None` where it has a bit that no method
    /// flag uses.
    pub fn from_bits(bits: u16) -> (r: Option<Self>)
        ensures
            within(bits, METHOD_FLAGS) ==> r is Some && r->0@ == bits,
            !within(bits, METHOD_FLAGS) ==> r is None,
    {
        if bits & !METHOD_FLAGS == 0 {
            Some(MethodAccessFlags { bits })
        } else {
            None
        }
    }

    pub fn bits(&self) -> (r: u16)
        ensures
            r == self@,
            within(r, METHOD_FLAGS),
    {
        proof {
            use_type_invariant(self);
        }
        self.bits
    }

    pub fn contains(&self, flag: u16) -> (r: bool)
        ensures
            r == has_flag(self@, flag),
    {
        self.bits & flag == flag
    }
}

impl Default for MethodAccessFlags {
    fn default() -> (r: Self)
        ensures
            r@ == 0,
    {
        MethodAccessFlags::empty()
    }
}

} // verus!
