//! The loader that turns a class name into a decoded class file.
use vstd::prelude::*;
use crate::class_file::ClassFile;
use crate::class_file_reader::{parse_class_file, read_buffer};
use crate::class_finder::{ClassFinder, ClassPath};
use crate::jvm_error::{VmError, VmExecResult};
use crate::loaded_class::ClassRef;

verus! {

/// What a request for a class comes to.
pub enum LoadClassResult {
    /// The class was not known; this is its class file.
    NewLoaded(ClassFile),
    /// The class is known under this handle.
    AlreadyLoaded(ClassRef),
}

pub struct BootstrapClassLoader {
    class_finder: ClassFinder,
}

impl BootstrapClassLoader {
    pub fn new() -> (r: BootstrapClassLoader)
        ensures
            r.class_paths() == 0,
    {
        BootstrapClassLoader { class_finder: ClassFinder::new() }
    }

    /// The number of class paths that the loader asks.
    pub closed spec fn class_paths(&self) -> nat {
        self.class_finder.class_paths@.len()
    }

    /// The class paths that the loader asks, in the order in which it
    /// asks them.
    pub closed spec fn paths(&self) -> Seq<crate::class_finder::ClassPathEntry> {
        self.class_finder.class_paths@
    }

    /// Adds a class path behind those that are asked already, which
    /// stay as they are and in their order.
    pub fn add_class_path(&mut self, path: Box<dyn ClassPath>)
        ensures
            final(self).class_paths() == old(self).class_paths() + 1,
            final(self).paths().len() == old(self).paths().len() + 1,
            final(self).paths().drop_last() == old(self).paths(),
    {
        self.class_finder.add(path);
    }

    /// Decodes the bytes that a class path returned for a class.
    pub fn decode(bytes: &Vec<u8>) -> (r: VmExecResult<ClassFile>)
        ensures
            match parse_class_file(bytes@) {
                Ok(class) => r is Ok && r->Ok_0@ == class,
                Err(e) => r is Err && r->Err_0 == VmError::ReadClassBytesError(e),
            },
    {
        match read_buffer(bytes.as_slice()) {
            Ok(class_file) => Ok(class_file),
            Err(e) => Err(VmError::ReadClassBytesError(e)),
        }
    }

    /// The class called `name`: the handle under which it is `known`, or
    /// else its class file, found on the class paths and decoded. Without
    /// class paths an unknown class is not found.
    pub fn load_class(&self, name: &str, known: Option<ClassRef>) -> (r: VmExecResult<
        LoadClassResult,
    >)
        ensures
            known matches Some(c) ==> (r matches Ok(LoadClassResult::AlreadyLoaded(d)) && d == c),
            known is None ==> !(r matches Ok(LoadClassResult::AlreadyLoaded(_))),
            known is None && self.class_paths() == 0 ==> (r matches Err(
                VmError::ClassNotFoundException(n),
            ) && n@ == name@),
    {
        match known {
            Some(class_ref) => Ok(LoadClassResult::AlreadyLoaded(class_ref)),
            None => {
                let bytes = self.class_finder.find_class(name)?;
                let class_file = BootstrapClassLoader::decode(&bytes)?;
                Ok(LoadClassResult::NewLoaded(class_file))
            },
        }
    }
}

} // verus!
