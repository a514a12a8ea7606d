//! A value model of the file-system collaborator.
//!
//! Discovery and writing are verified against this model: a set of files
//! (each readable or access-denied), a set of directories, a working
//! directory and the conventional configuration file name.

use crate::paths::SysPath;
use vstd::prelude::*;

verus! {

/// The ways an open can fail.
#[derive(Clone, Copy, PartialEq, Eq, Structural)]
pub enum IoErrorKind {
    NotFound,
    PermissionDenied,
    AlreadyExists,
    Other,
}

/// One file: its path, whether opening it for reading succeeds, and its
/// text.
pub struct FileEntry {
    pub path: SysPath,
    pub readable: bool,
    pub content: String,
}

/// The file-system model.
pub struct MemoryFileSystem {
    /// The conventional name of the configuration file.
    pub config_name: String,
    pub working_directory: Option<SysPath>,
    pub files: Vec<FileEntry>,
    pub directories: Vec<SysPath>,
}

/// What opening `p` inside `files` yields: the first entry at that path
/// decides; no entry is `NotFound`.
pub open spec fn open_in(files: Seq<FileEntry>, p: Seq<Seq<char>>) -> Result<
    Seq<char>,
    IoErrorKind,
>
    decreases files,
{
    if files.len() == 0 {
        Err(IoErrorKind::NotFound)
    } else if files[0].path@ == p {
        if files[0].readable {
            Ok(files[0].content@)
        } else {
            Err(IoErrorKind::PermissionDenied)
        }
    } else {
        open_in(files.drop_first(), p)
    }
}

pub open spec fn open_result(fs: MemoryFileSystem, p: Seq<Seq<char>>) -> Result<
    Seq<char>,
    IoErrorKind,
> {
    open_in(fs.files@, p)
}

pub open spec fn has_file(files: Seq<FileEntry>, p: Seq<Seq<char>>) -> bool {
    exists|i: int| 0 <= i < files.len() && files[i].path@ == p
}

pub open spec fn is_dir_spec(fs: MemoryFileSystem, p: Seq<Seq<char>>) -> bool {
    exists|i: int| 0 <= i < fs.directories@.len() && fs.directories@[i]@ == p
}

/// Every file's text leaves room for the parser's recursion budget in a
/// machine word; a real text always does.
pub open spec fn fs_wf(fs: MemoryFileSystem) -> bool {
    forall|i: int|
        0 <= i < fs.files@.len() ==> 2 * (#[trigger] fs.files@[i]).content@.len() + 4
            <= usize::MAX
}

pub proof fn lemma_open_in_bound(files: Seq<FileEntry>, p: Seq<Seq<char>>)
    requires
        forall|i: int|
            0 <= i < files.len() ==> 2 * (#[trigger] files[i]).content@.len() + 4 <= usize::MAX,
        open_in(files, p) is Ok,
    ensures
        2 * open_in(files, p)->Ok_0.len() + 4 <= usize::MAX,
    decreases files,
{
    if files.len() > 0 && files[0].path@ != p {
        lemma_open_in_bound(files.drop_first(), p);
    }
}

impl MemoryFileSystem {
    /// Open the file at `p` for reading and return its whole text.
    pub fn open(&self, p: &SysPath) -> (r: Result<String, IoErrorKind>)
        ensures
            match open_result(*self, p@) {
                Ok(text) => r is Ok && r->Ok_0@ == text,
                Err(k) => r is Err && r->Err_0 == k,
            },
    {
        let ghost fl = self.files@;
        proof {
            assert(fl.skip(0) =~= fl);
        }
        let mut i: usize = 0;
        while i < self.files.len()
            invariant
                i <= fl.len(),
                fl == self.files@,
                open_in(fl, p@) == open_in(fl.skip(i as int), p@),
            decreases fl.len() - i,
        {
            proof {
                assert(fl.skip(i as int)[0] == fl[i as int]);
            }
            let entry = &self.files[i];
            if entry.path.same_path(p) {
                if entry.readable {
                    return Ok(entry.content.clone());
                } else {
                    return Err(IoErrorKind::PermissionDenied);
                }
            }
            proof {
                assert(fl.skip(i as int).drop_first() =~= fl.skip(i + 1));
            }
            i += 1;
        }
        proof {
            assert(fl.skip(i as int).len() == 0);
        }
        Err(IoErrorKind::NotFound)
    }

    /// Whether `p` names a directory.
    pub fn is_dir(&self, p: &SysPath) -> (r: bool)
        ensures
            r == is_dir_spec(*self, p@),
    {
        let mut i: usize = 0;
        while i < self.directories.len()
            invariant
                i <= self.directories@.len(),
                forall|t: int| 0 <= t < i ==> self.directories@[t]@ != p@,
            decreases self.directories@.len() - i,
        {
            if self.directories[i].same_path(p) {
                return true;
            }
            i += 1;
        }
        false
    }

    /// Whether any file sits at `p`.
    pub fn file_exists(&self, p: &SysPath) -> (r: bool)
        ensures
            r == has_file(self.files@, p@),
    {
        let mut i: usize = 0;
        while i < self.files.len()
            invariant
                i <= self.files@.len(),
                forall|t: int| 0 <= t < i ==> (#[trigger] self.files@[t]).path@ != p@,
            decreases self.files@.len() - i,
        {
            if self.files[i].path.same_path(p) {
                return true;
            }
            i += 1;
        }
        false
    }

    /// Create the file at `path` with the given text; if any file already
    /// sits at that path, fail with `AlreadyExists` and change nothing.
    pub fn create_new(&mut self, path: SysPath, content: String) -> (r: Result<(), IoErrorKind>)
        ensures
            has_file(old(self).files@, path@) ==> r is Err && r->Err_0 == IoErrorKind::AlreadyExists
                && *final(self) == *old(self),
            !has_file(old(self).files@, path@) ==> r is Ok && final(self).files@ == old(
                self,
            ).files@.push(FileEntry { path, readable: true, content }) && final(self).config_name
                == old(self).config_name && final(self).working_directory == old(
                self,
            ).working_directory && final(self).directories == old(self).directories,
    {
        let mut i: usize = 0;
        while i < self.files.len()
            invariant
                i <= self.files@.len(),
                forall|t: int| 0 <= t < i ==> (#[trigger] self.files@[t]).path@ != path@,
            decreases self.files@.len() - i,
        {
            if self.files[i].path.same_path(&path) {
                return Err(IoErrorKind::AlreadyExists);
            }
            i += 1;
        }
        self.files.push(FileEntry { path, readable: true, content });
        Ok(())
    }
}

} // verus!
