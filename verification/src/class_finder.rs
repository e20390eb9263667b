//! Finding the bytes of a class by its name.
use vstd::prelude::*;
use crate::jvm_error::{VmError, VmExecResult};

verus! {

/// A place where class files are found. Implementations read a
/// directory, an archive, or whatever else holds class files.
pub trait ClassPath {
    /// The bytes of the class called `class_name`, `Ok(None)` where this
    /// place has no such class, or the error met while looking.
    fn find_class(&self, class_name: &str) -> VmExecResult<Option<Vec<u8>>>;
}

/// One class path of a finder.
pub struct ClassPathEntry {
    pub provider: Box<dyn ClassPath>,
}

impl ClassPathEntry {
    fn new(provider: Box<dyn ClassPath>) -> (r: ClassPathEntry)
        ensures
            r == (ClassPathEntry { provider }),
    {
        ClassPathEntry { provider }
    }
}

pub struct ClassFinder {
    pub class_paths: Vec<ClassPathEntry>,
}

/// What the search does with the answer of one class path.
pub enum Verdict {
    /// The class was found: the search ends with these bytes.
    Found(Vec<u8>),
    /// The class path failed: the search ends with this error.
    Failed(VmError),
    /// The class path does not have the class: the next one is asked.
    AskNext,
}

impl ClassFinder {
    pub fn new() -> (r: ClassFinder)
        ensures
            r.class_paths@.len() == 0,
    {
        ClassFinder { class_paths: Vec::new() }
    }

    /// Adds a class path behind those that are asked already, which
    /// stay as they are and in their order.
    pub fn add(&mut self, path: Box<dyn ClassPath>)
        ensures
            final(self).class_paths@.len() == old(self).class_paths@.len() + 1,
            final(self).class_paths@.drop_last() == old(self).class_paths@,
    {
        let entry = ClassPathEntry::new(path);
        self.class_paths.push(entry);
        assert(self.class_paths@.drop_last() =~= old(self).class_paths@);
    }

    /// Judges the answer of one class path.
    pub fn judge(answer: VmExecResult<Option<Vec<u8>>>) -> (r: Verdict)
        ensures
            match answer {
                Ok(Some(bytes)) => r == Verdict::Found(bytes),
                Ok(None) => r is AskNext,
                Err(e) => r == Verdict::Failed(e),
            },
    {
        match answer {
            Ok(Some(bytes)) => Verdict::Found(bytes),
            Ok(None) => Verdict::AskNext,
            Err(e) => Verdict::Failed(e),
        }
    }

    /// Asks the class paths in order and returns the first bytes found or
    /// the first error. Where every class path answers that it does not
    /// have the class, and so where there is none, the result is
    /// `ClassNotFoundException` with the name.
    pub fn find_class(&self, name: &str) -> (r: VmExecResult<Vec<u8>>)
        ensures
            self.class_paths@.len() == 0 ==> (r matches Err(VmError::ClassNotFoundException(n))
                && n@ == name@),
    {
        let mut i: usize = 0;
        while i < self.class_paths.len()
            invariant
                i <= self.class_paths.len(),
            decreases self.class_paths.len() - i,
        {
            let answer = self.class_paths[i].provider.find_class(name);
            match ClassFinder::judge(answer) {
                Verdict::Found(bytes) => {
                    return Ok(bytes);
                },
                Verdict::Failed(e) => {
                    return Err(e);
                },
                Verdict::AskNext => {},
            }
            i += 1;
        }
        Err(VmError::ClassNotFoundException(name.to_owned()))
    }
}

impl Default for ClassFinder {
    fn default() -> (r: ClassFinder)
        ensures
            r.class_paths@.len() == 0,
    {
        ClassFinder::new()
    }
}

} // verus!
