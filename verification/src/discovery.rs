//! Configuration discovery: the upward search for the configuration file.
//!
//! The search starts at a base directory and retries at each parent until a
//! file opens, the parents run out, or the policy forbids ascending. How
//! tolerant the search is of a missing file depends on how the base path
//! was supplied.

use crate::codec::{cfg_from_json, deserialize_spec};
use crate::configuration::Configuration;
use crate::diagnostics::{ConfigurationDiagnostic, WorkspaceError, WorkspaceErrorSpec};
use crate::fs::{fs_wf, is_dir_spec, lemma_open_in_bound, open_result, IoErrorKind,
    MemoryFileSystem};
use crate::json::parse_document;
use crate::paths::{path_display_spec, SysPath};
use crate::text::string_to_chars;
use vstd::prelude::*;

verus! {

/// Where discovery starts, and how tolerant it is of a missing file.
pub enum ConfigurationBasePath {
    /// The default mode: search from the working directory; not having a
    /// configuration file is not an error.
    Auto,
    /// A base path provided by an editor session; not having a
    /// configuration file is not an error.
    Lsp(SysPath),
    /// A base path provided by the user: the search never ascends, and not
    /// having a configuration file there is an error.
    FromUser(SysPath),
}

impl ConfigurationBasePath {
    pub fn is_from_user(&self) -> (r: bool)
        ensures
            r == (self is FromUser),
    {
        match self {
            ConfigurationBasePath::FromUser(_) => true,
            _ => false,
        }
    }
}

/// A parsed configuration together with the diagnostics of its reading,
/// attached to the file it came from. `value` is present exactly when no
/// fatal diagnostic was raised.
pub struct Deserialized {
    pub value: Option<Configuration>,
    pub diagnostics: Vec<ConfigurationDiagnostic>,
    pub file_path: String,
}

/// The outcome of the upward search itself, before deserialization.
#[verifier::ext_equal]
pub enum DiscoverOutcome {
    /// The file at this path opened with this text.
    Found(Seq<Seq<char>>, Seq<char>),
    /// No file, tolerated: the search ran out of parents.
    Absent,
    /// A fatal condition at this path: an open failure other than
    /// not-found, or any failure on a user-supplied base path.
    Unreadable(Seq<Seq<char>>),
}

/// The search from `dir` upward. A user-forced search never ascends; an
/// open failure other than `NotFound` is fatal at once; otherwise the
/// search retries at the parent while one exists and is a directory.
pub open spec fn discover_spec(
    fs: MemoryFileSystem,
    dir: Seq<Seq<char>>,
    from_user: bool,
) -> DiscoverOutcome
    decreases dir.len(),
{
    let p = dir.push(fs.config_name@);
    match open_result(fs, p) {
        Ok(text) => DiscoverOutcome::Found(p, text),
        Err(k) => {
            if from_user || k != IoErrorKind::NotFound {
                DiscoverOutcome::Unreadable(p)
            } else if dir.len() > 0 && is_dir_spec(fs, dir.drop_last()) {
                discover_spec(fs, dir.drop_last(), from_user)
            } else {
                DiscoverOutcome::Absent
            }
        },
    }
}

pub open spec fn start_dir_spec(fs: MemoryFileSystem, base: ConfigurationBasePath) -> Seq<
    Seq<char>,
> {
    match base {
        ConfigurationBasePath::Lsp(p) => p@,
        ConfigurationBasePath::FromUser(p) => p@,
        ConfigurationBasePath::Auto => match fs.working_directory {
            Some(wd) => wd@,
            None => Seq::<Seq<char>>::empty(),
        },
    }
}

/// Read one configuration text strictly, collecting a fatal diagnostic
/// instead of a value when the text is rejected.
pub fn deserialize_config(text: &str, file_path: String) -> (d: Deserialized)
    requires
        2 * text@.len() + 4 <= usize::MAX,
    ensures
        d.file_path@ == file_path@,
        match deserialize_spec(text@) {
            Ok(cv) => d.value is Some && d.value->Some_0@ == cv && d.diagnostics@.len() == 0,
            Err(dg) => d.value is None && d.diagnostics@.len() == 1 && d.diagnostics@[0]@ == dg,
        },
{
    let chars = string_to_chars(text);
    match parse_document(&chars) {
        Err(_) => {
            let mut diagnostics: Vec<ConfigurationDiagnostic> = Vec::new();
            diagnostics.push(ConfigurationDiagnostic::Malformed);
            Deserialized { value: None, diagnostics, file_path }
        },
        Ok(v) => match cfg_from_json(&v) {
            Ok(c) => Deserialized { value: Some(c), diagnostics: Vec::new(), file_path },
            Err(d) => {
                let mut diagnostics: Vec<ConfigurationDiagnostic> = Vec::new();
                diagnostics.push(d);
                Deserialized { value: None, diagnostics, file_path }
            },
        },
    }
}

/// Load the configuration from the file system, searching upward from the
/// base path. A found file is deserialized strictly; a missing file is an
/// error only when the base path came from the user; any other open
/// failure is always an error.
pub fn load_config(
    file_system: &MemoryFileSystem,
    base_path: ConfigurationBasePath,
) -> (r: Result<Option<Deserialized>, WorkspaceError>)
    requires
        fs_wf(*file_system),
    ensures
        match discover_spec(
            *file_system,
            start_dir_spec(*file_system, base_path),
            base_path is FromUser,
        ) {
            DiscoverOutcome::Found(p, text) => r is Ok && r->Ok_0 is Some && {
                let d = r->Ok_0->Some_0;
                &&& d.file_path@ == path_display_spec(p)
                &&& match deserialize_spec(text) {
                    Ok(cv) => d.value is Some && d.value->Some_0@ == cv && d.diagnostics@.len()
                        == 0,
                    Err(dg) => d.value is None && d.diagnostics@.len() == 1 && d.diagnostics@[0]@
                        == dg,
                }
            },
            DiscoverOutcome::Absent => r is Ok && r->Ok_0 is None,
            DiscoverOutcome::Unreadable(p) => r is Err && r->Err_0@
                == WorkspaceErrorSpec::CantReadFile(path_display_spec(p)),
        },
{
    let from_user = base_path.is_from_user();
    let mut dir: SysPath = match &base_path {
        ConfigurationBasePath::Lsp(p) => p.clone_path(),
        ConfigurationBasePath::FromUser(p) => p.clone_path(),
        ConfigurationBasePath::Auto => match &file_system.working_directory {
            Some(wd) => wd.clone_path(),
            None => SysPath::empty(),
        },
    };
    let ghost start = start_dir_spec(*file_system, base_path);
    loop
        invariant
            fs_wf(*file_system),
            from_user == (base_path is FromUser),
            start == start_dir_spec(*file_system, base_path),
            discover_spec(*file_system, start, from_user) == discover_spec(
                *file_system,
                dir@,
                from_user,
            ),
        decreases dir@.len(),
    {
        let candidate = dir.join(&file_system.config_name);
        match file_system.open(&candidate) {
            Ok(text) => {
                proof {
                    lemma_open_in_bound(file_system.files@, candidate@);
                }
                let d = deserialize_config(text.as_str(), candidate.display());
                return Ok(Some(d));
            },
            Err(k) => {
                if from_user || k != IoErrorKind::NotFound {
                    return Err(WorkspaceError::cant_read_file(candidate.display()));
                }
                match dir.parent() {
                    Some(parent) => {
                        if file_system.is_dir(&parent) {
                            dir = parent;
                        } else {
                            return Ok(None);
                        }
                    },
                    None => {
                        return Ok(None);
                    },
                }
            },
        }
    }
}

} // verus!
