//! The class file versions this machine accepts.
use vstd::prelude::*;
use crate::class_file_error::ClassFileError;

verus! {

#[derive(Debug, Clone, Copy, PartialEq, Eq, Structural)]
#[allow(non_camel_case_types)]
pub enum ClassFileVersion {
    Jdk1_1,
    Jdk1_2,
    Jdk1_3,
    Jdk1_4,
    Jdk5,
    Jdk6,
    Jdk7,
    Jdk8,
    Jdk9,
    Jdk10,
    Jdk11,
    Jdk12,
    Jdk13,
    Jdk14,
    Jdk15,
    Jdk16,
    Jdk17,
    Jdk18,
    Jdk19,
    Jdk20,
    Jdk21,
}

impl ClassFileVersion {
    /// The major version a class file of this release carries: 45 for the
    /// first release, one more for each later one.
    pub open spec fn major(self) -> u16 {
        match self {
            ClassFileVersion::Jdk1_1 => 45,
            ClassFileVersion::Jdk1_2 => 46,
            ClassFileVersion::Jdk1_3 => 47,
            ClassFileVersion::Jdk1_4 => 48,
            ClassFileVersion::Jdk5 => 49,
            ClassFileVersion::Jdk6 => 50,
            ClassFileVersion::Jdk7 => 51,
            ClassFileVersion::Jdk8 => 52,
            ClassFileVersion::Jdk9 => 53,
            ClassFileVersion::Jdk10 => 54,
            ClassFileVersion::Jdk11 => 55,
            ClassFileVersion::Jdk12 => 56,
            ClassFileVersion::Jdk13 => 57,
            ClassFileVersion::Jdk14 => 58,
            ClassFileVersion::Jdk15 => 59,
            ClassFileVersion::Jdk16 => 60,
            ClassFileVersion::Jdk17 => 61,
            ClassFileVersion::Jdk18 => 62,
            ClassFileVersion::Jdk19 => 63,
            ClassFileVersion::Jdk20 => 64,
            ClassFileVersion::Jdk21 => 65,
        }
    }

    /// The release whose class files carry `major`, where there is one.
    pub open spec fn of_major(major: u16) -> Option<ClassFileVersion> {
        if major == 45 {
            Some(ClassFileVersion::Jdk1_1)
        } else if major == 46 {
            Some(ClassFileVersion::Jdk1_2)
        } else if major == 47 {
            Some(ClassFileVersion::Jdk1_3)
        } else if major == 48 {
            Some(ClassFileVersion::Jdk1_4)
        } else if major == 49 {
            Some(ClassFileVersion::Jdk5)
        } else if major == 50 {
            Some(ClassFileVersion::Jdk6)
        } else if major == 51 {
            Some(ClassFileVersion::Jdk7)
        } else if major == 52 {
            Some(ClassFileVersion::Jdk8)
        } else if major == 53 {
            Some(ClassFileVersion::Jdk9)
        } else if major == 54 {
            Some(ClassFileVersion::Jdk10)
        } else if major == 55 {
            Some(ClassFileVersion::Jdk11)
        } else if major == 56 {
            Some(ClassFileVersion::Jdk12)
        } else if major == 57 {
            Some(ClassFileVersion::Jdk13)
        } else if major == 58 {
            Some(ClassFileVersion::Jdk14)
        } else if major == 59 {
            Some(ClassFileVersion::Jdk15)
        } else if major == 60 {
            Some(ClassFileVersion::Jdk16)
        } else if major == 61 {
            Some(ClassFileVersion::Jdk17)
        } else if major == 62 {
            Some(ClassFileVersion::Jdk18)
        } else if major == 63 {
            Some(ClassFileVersion::Jdk19)
        } else if major == 64 {
            Some(ClassFileVersion::Jdk20)
        } else if major == 65 {
            Some(ClassFileVersion::Jdk21)
        } else {
            None
        }
    }

    /// The pair that identifies the release: 45 and the release's major version.
    pub fn version(&self) -> (r: (u16, u16))
        ensures
            r == (45u16, self.major()),
    {
        match self {
            ClassFileVersion::Jdk1_1 => (45, 45),
            ClassFileVersion::Jdk1_2 => (45, 46),
            ClassFileVersion::Jdk1_3 => (45, 47),
            ClassFileVersion::Jdk1_4 => (45, 48),
            ClassFileVersion::Jdk5 => (45, 49),
            ClassFileVersion::Jdk6 => (45, 50),
            ClassFileVersion::Jdk7 => (45, 51),
            ClassFileVersion::Jdk8 => (45, 52),
            ClassFileVersion::Jdk9 => (45, 53),
            ClassFileVersion::Jdk10 => (45, 54),
            ClassFileVersion::Jdk11 => (45, 55),
            ClassFileVersion::Jdk12 => (45, 56),
            ClassFileVersion::Jdk13 => (45, 57),
            ClassFileVersion::Jdk14 => (45, 58),
            ClassFileVersion::Jdk15 => (45, 59),
            ClassFileVersion::Jdk16 => (45, 60),
            ClassFileVersion::Jdk17 => (45, 61),
            ClassFileVersion::Jdk18 => (45, 62),
            ClassFileVersion::Jdk19 => (45, 63),
            ClassFileVersion::Jdk20 => (45, 64),
            ClassFileVersion::Jdk21 => (45, 65),
        }
    }

    /// The release for the major and minor versions of a class file. Majors
    /// 45 to 65 are known; any other is refused with both numbers.
    pub fn new(major: u16, minor: u16) -> (r: Result<ClassFileVersion, ClassFileError>)
        ensures
            r == version_for(major, minor),
    {
        match major {
            45 => Ok(ClassFileVersion::Jdk1_1),
            46 => Ok(ClassFileVersion::Jdk1_2),
            47 => Ok(ClassFileVersion::Jdk1_3),
            48 => Ok(ClassFileVersion::Jdk1_4),
            49 => Ok(ClassFileVersion::Jdk5),
            50 => Ok(ClassFileVersion::Jdk6),
            51 => Ok(ClassFileVersion::Jdk7),
            52 => Ok(ClassFileVersion::Jdk8),
            53 => Ok(ClassFileVersion::Jdk9),
            54 => Ok(ClassFileVersion::Jdk10),
            55 => Ok(ClassFileVersion::Jdk11),
            56 => Ok(ClassFileVersion::Jdk12),
            57 => Ok(ClassFileVersion::Jdk13),
            58 => Ok(ClassFileVersion::Jdk14),
            59 => Ok(ClassFileVersion::Jdk15),
            60 => Ok(ClassFileVersion::Jdk16),
            61 => Ok(ClassFileVersion::Jdk17),
            62 => Ok(ClassFileVersion::Jdk18),
            63 => Ok(ClassFileVersion::Jdk19),
            64 => Ok(ClassFileVersion::Jdk20),
            65 => Ok(ClassFileVersion::Jdk21),
            _ => Err(ClassFileError::UnsupportedVersion(major, minor)),
        }
    }
}

impl Default for ClassFileVersion {
    fn default() -> (r: ClassFileVersion)
        ensures
            r == ClassFileVersion::Jdk8,
    {
        ClassFileVersion::Jdk8
    }
}

/// What `ClassFileVersion::new` returns: the release of that major, or the
/// refusal of the pair.
pub open spec fn version_for(major: u16, minor: u16) -> Result<ClassFileVersion, ClassFileError> {
    match ClassFileVersion::of_major(major) {
        Some(v) => Ok(v),
        None => Err(ClassFileError::UnsupportedVersion(major, minor)),
    }
}

/// A release is known by its major version alone, and later releases have
/// larger majors.
pub proof fn lemma_version_by_major(a: ClassFileVersion, b: ClassFileVersion)
    ensures
        a.major() == b.major() ==> a == b,
        45 <= a.major() <= 65,
        ClassFileVersion::of_major(a.major()) == Some(a),
{
}

/// Majors 45 to 65 are the known ones.
pub proof fn lemma_known_majors(major: u16)
    ensures
        ClassFileVersion::of_major(major) is Some <==> 45 <= major <= 65,
        ClassFileVersion::of_major(major) is Some ==> ClassFileVersion::of_major(major)->0.major()
            == major,
{
}

} // verus!
