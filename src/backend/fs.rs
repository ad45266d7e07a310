//! The filesystem backend's layout: a directory per session under a root
//! that must already exist, a file per key, and a hidden file that records
//! the session's creation time.
use std::path::PathBuf;
use vstd::prelude::*;

verus! {

#[verifier::external_type_specification]
#[verifier::external_body]
pub struct ExPathBuf(PathBuf);

/// Relies on `PathBuf::clone`: it returns a copy of the path.
pub assume_specification[ <std::path::PathBuf as std::clone::Clone>::clone ](p: &PathBuf) -> PathBuf;

/// Name of the file that records a session's creation time.
pub const TIME_MARKER: &'static str = ".__created";

/// The bytes of `TIME_MARKER`.
pub open spec fn marker_name_text() -> Seq<u8> {
    seq![46u8, 95, 95, 99, 114, 101, 97, 116, 101, 100]
}

/// Whether `key` names the file that records a session's creation time, so
/// that no value may be stored, read or removed under it.
pub fn is_reserved_key(key: &[u8]) -> (r: bool)
    ensures
        r == (key@ == marker_name_text()),
{
    let name: Vec<u8> = vec![46u8, 95, 95, 99, 114, 101, 97, 116, 101, 100];
    assert(name@ =~= marker_name_text());
    if key.len() != name.len() {
        assert(key@.len() != marker_name_text().len());
        return false;
    }
    let mut i: usize = 0;
    while i < key.len()
        invariant
            key@.len() == name@.len(),
            name@ == marker_name_text(),
            0 <= i <= key@.len(),
            forall|k: int| 0 <= k < i ==> key@[k] == name@[k],
        decreases key@.len() - i,
    {
        if key[i] != name[i] {
            assert(key@[i as int] != marker_name_text()[i as int]);
            return false;
        }
        i = i + 1;
    }
    assert(key@ =~= name@);
    true
}

/// What a look at a session's directory found.
#[derive(PartialEq, Eq, Structural, Debug, Clone, Copy)]
pub enum RootProbe {
    /// A directory stands there.
    Directory,
    /// Something that is not a directory stands there.
    NotDirectory,
    /// Nothing stands there.
    Missing,
    /// The look itself failed.
    Failed,
}

/// Why a session's directory cannot be used.
#[derive(PartialEq, Eq, Structural, Debug, Clone, Copy)]
pub enum RootFault {
    /// The path is taken by something that is not a directory: a
    /// configuration fault, never recovered from.
    Occupied,
    /// The path could not be inspected: a transient fault.
    Metadata,
}

/// Whether a session exists, from a look at its directory: a directory
/// means yes, nothing means no, anything else is a fault.
pub fn session_root_exists(probe: RootProbe) -> (r: Result<bool, RootFault>)
    ensures
        r == (match probe {
            RootProbe::Directory => Ok::<bool, RootFault>(true),
            RootProbe::Missing => Ok(false),
            RootProbe::NotDirectory => Err(RootFault::Occupied),
            RootProbe::Failed => Err(RootFault::Metadata),
        }),
{
    match probe {
        RootProbe::Directory => Ok(true),
        RootProbe::Missing => Ok(false),
        RootProbe::NotDirectory => Err(RootFault::Occupied),
        RootProbe::Failed => Err(RootFault::Metadata),
    }
}

/// How removing a file under a session's directory ended.
#[derive(PartialEq, Eq, Structural, Debug, Clone, Copy)]
pub enum RemoveOutcome {
    /// The file was removed.
    Removed,
    /// There was no such file.
    NotFound,
    /// The removal failed.
    Failed,
}

/// Whether a removal succeeded: removing a file that is already absent is
/// no error, so removing twice succeeds as removing once does.
pub fn removal_succeeded(outcome: RemoveOutcome) -> (r: bool)
    ensures
        r == (outcome != RemoveOutcome::Failed),
{
    match outcome {
        RemoveOutcome::Failed => false,
        _ => true,
    }
}

/// Filesystem session backend.
#[derive(Clone)]
pub struct FilesystemBackend {
    root: PathBuf,
}

impl FilesystemBackend {
    /// The directory under which sessions are stored.
    pub closed spec fn spec_root(&self) -> PathBuf {
        self.root
    }

    /// Creates a backend over `root`, the sessions directory, which must
    /// exist before the backend is used.
    pub fn new<P: Into<PathBuf>>(root: P) -> (r: Self)
        ensures
            call_ensures(P::into, (root,), r.spec_root()),
    {
        FilesystemBackend { root: root.into() }
    }

    /// The sessions directory.
    pub fn root(&self) -> (r: &PathBuf)
        ensures
            *r == self.spec_root(),
    {
        &self.root
    }
}

} // verus!
