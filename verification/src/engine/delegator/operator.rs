//! File-system operations on a system: which side of a transfer shows its
//! progress, what a directory listing keeps, and the results operations give.

use vstd::prelude::*;

use crate::engine::modules::tasks::{parent, path_parent};
use crate::memory::tasks::opt_text;
use crate::progress::TransferDirection;

verus! {

/// Whether an operation acts on this machine or on a remote system.
#[derive(Debug, Clone, Copy, PartialEq, Eq, Structural)]
pub enum Locality {
    Local,
    Remote,
}

impl Locality {
    /// How the locality is printed in messages.
    pub fn name(&self) -> (n: String)
        ensures
            n@ == match *self {
                Locality::Local => "local"@,
                Locality::Remote => "remote"@,
            },
    {
        match self {
            Locality::Local => String::from_str("local"),
            Locality::Remote => String::from_str("remote"),
        }
    }
}

/// How a file-system operator reaches its files: over SSH, on this machine
/// from the user's home directory (a local system), or on this machine as the
/// scripts' host.
#[derive(Debug, Clone, Copy, PartialEq, Eq, Structural)]
pub enum OperatorKind {
    Ssh,
    Local,
    Host,
}

/// The locality of an operator of the given kind.
pub open spec fn locality_of(kind: OperatorKind) -> Locality {
    match kind {
        OperatorKind::Ssh => Locality::Remote,
        OperatorKind::Local | OperatorKind::Host => Locality::Local,
    }
}

/// The locality of an operator of the given kind.
pub fn locality(kind: OperatorKind) -> (l: Locality)
    ensures
        l == locality_of(kind),
{
    match kind {
        OperatorKind::Ssh => Locality::Remote,
        OperatorKind::Local | OperatorKind::Host => Locality::Local,
    }
}

/// What kind of entry a path is.
#[derive(Debug, Clone, Copy, PartialEq, Eq, Structural)]
pub enum MetadataType {
    File,
    Directory,
    Unknown,
}

impl Default for MetadataType {
    fn default() -> (t: MetadataType)
        ensures
            t == MetadataType::Unknown,
    {
        MetadataType::Unknown
    }
}

impl MetadataType {
    /// How the kind is shown to scripts.
    pub fn name(&self) -> (n: String)
        ensures
            n@ == match *self {
                MetadataType::File => "file"@,
                MetadataType::Directory => "directory"@,
                MetadataType::Unknown => "unknown"@,
            },
    {
        match self {
            MetadataType::File => String::from_str("file"),
            MetadataType::Directory => String::from_str("directory"),
            MetadataType::Unknown => String::from_str("unknown"),
        }
    }

    /// The kind of an entry, from whether it is a file and whether it is a
    /// directory.
    pub fn of(is_file: bool, is_dir: bool) -> (t: MetadataType)
        ensures
            t == if is_file {
                MetadataType::File
            } else if is_dir {
                MetadataType::Directory
            } else {
                MetadataType::Unknown
            },
    {
        if is_file {
            MetadataType::File
        } else if is_dir {
            MetadataType::Directory
        } else {
            MetadataType::Unknown
        }
    }
}

/// What is known of a path; times are seconds since the Unix epoch.
#[derive(Debug)]
pub struct MetadataResult {
    pub path: String,
    pub size: Option<u64>,
    pub permissions: Option<u32>,
    pub entry_type: MetadataType,
    pub uid: Option<u32>,
    pub gid: Option<u32>,
    pub accessed: Option<u64>,
    pub modified: Option<u64>,
}

/// Where a file was written and how many bytes.
#[derive(Debug)]
pub struct FileWriteResult {
    pub path: String,
    pub bytes_written: usize,
}

impl Default for FileWriteResult {
    fn default() -> (r: FileWriteResult)
        ensures
            r.path@ == Seq::<char>::empty(),
            r.bytes_written == 0,
    {
        FileWriteResult { path: String::new(), bytes_written: 0 }
    }
}

/// Which operator's progress context shows a transfer.
#[derive(Debug, Clone, Copy, PartialEq, Eq, Structural)]
pub enum ProgressOwner {
    Source,
    Target,
}

/// How a file streamed from an operator of kind `source` to one of kind
/// `target` is shown: between two remote or two local operators as a copy by
/// the source, from remote to local as a download by the source, and from
/// local to remote as an upload by the target.
pub fn transfer_plan(
    source: OperatorKind,
    target: OperatorKind,
    source_file_path: String,
    target_file_path: String,
) -> (plan: (TransferDirection, ProgressOwner))
    ensures
        match (locality_of(source), locality_of(target)) {
            (Locality::Remote, Locality::Local) => {
                &&& plan.1 == ProgressOwner::Source
                &&& plan.0 matches TransferDirection::Download { source_file_path: s, target_file_path: Some(t) }
                &&& s@ == source_file_path@
                &&& t@ == target_file_path@
            },
            (Locality::Local, Locality::Remote) => {
                &&& plan.1 == ProgressOwner::Target
                &&& plan.0 matches TransferDirection::Upload { source_file_path: Some(s), target_file_path: t }
                &&& s@ == source_file_path@
                &&& t@ == target_file_path@
            },
            _ => {
                &&& plan.1 == ProgressOwner::Source
                &&& plan.0 matches TransferDirection::Copy { source_file_path: s, target_file_path: t }
                &&& s@ == source_file_path@
                &&& t@ == target_file_path@
            },
        },
{
    match (locality(source), locality(target)) {
        (Locality::Remote, Locality::Local) => (
            TransferDirection::Download {
                source_file_path,
                target_file_path: Some(target_file_path),
            },
            ProgressOwner::Source,
        ),
        (Locality::Local, Locality::Remote) => (
            TransferDirection::Upload {
                source_file_path: Some(source_file_path),
                target_file_path,
            },
            ProgressOwner::Target,
        ),
        _ => (TransferDirection::Copy { source_file_path, target_file_path }, ProgressOwner::Source),
    }
}

/// An entry of a directory listing that scripts see.
#[derive(Debug)]
pub enum FileSystemEntry {
    File(String),
    Directory(String),
}

/// The paths of a listing's files and directories, in order, each with its
/// kind; entries of other kinds are left out.
pub open spec fn listed_entries(entries: Seq<MetadataResult>) -> Seq<(bool, Seq<char>)> {
    entries.filter(|e: MetadataResult| e.entry_type != MetadataType::Unknown).map_values(
        |e: MetadataResult| (e.entry_type == MetadataType::File, e.path@),
    )
}

/// The abstract value of an entry: whether it is a file, and its path.
pub open spec fn entry_view(e: FileSystemEntry) -> (bool, Seq<char>) {
    match e {
        FileSystemEntry::File(p) => (true, p@),
        FileSystemEntry::Directory(p) => (false, p@),
    }
}

/// The files and directories of a listing, in order.
pub fn directory_entries(entries: Vec<MetadataResult>) -> (r: Vec<FileSystemEntry>)
    ensures
        r@.map_values(|e: FileSystemEntry| entry_view(e)) == listed_entries(entries@),
{
    let ghost es = entries@;
    let ghost pred = |e: MetadataResult| e.entry_type != MetadataType::Unknown;
    let mut r: Vec<FileSystemEntry> = Vec::new();
    let mut i: usize = 0;
    while i < entries.len()
        invariant
            es == entries@,
            pred == (|e: MetadataResult| e.entry_type != MetadataType::Unknown),
            i <= entries.len(),
            r@.map_values(|e: FileSystemEntry| entry_view(e)) == es.subrange(0, i as int).filter(
                pred,
            ).map_values(|e: MetadataResult| (e.entry_type == MetadataType::File, e.path@)),
        decreases entries.len() - i,
    {
        proof {
            crate::engine::selection::lemma_filter_push(es.subrange(0, i as int), es[i as int], pred);
            assert(es.subrange(0, i as int).push(es[i as int]) =~= es.subrange(0, i as int + 1));
        }
        let ghost before = r@;
        let ghost f = es.subrange(0, i as int).filter(pred);
        let entry = &entries[i];
        match entry.entry_type {
            MetadataType::File => {
                r.push(FileSystemEntry::File(entry.path.clone()));
            },
            MetadataType::Directory => {
                r.push(FileSystemEntry::Directory(entry.path.clone()));
            },
            MetadataType::Unknown => {},
        }
        if entry.entry_type != MetadataType::Unknown {
            assert(r@ =~= before.push(r@[r@.len() - 1]));
            assert(r@.map_values(|e: FileSystemEntry| entry_view(e)) =~= before.map_values(
                |e: FileSystemEntry| entry_view(e),
            ).push((es[i as int].entry_type == MetadataType::File, es[i as int].path@)));
            assert(f.push(es[i as int]).map_values(
                |e: MetadataResult| (e.entry_type == MetadataType::File, e.path@),
            ) =~= f.map_values(|e: MetadataResult| (e.entry_type == MetadataType::File, e.path@)).push(
                (es[i as int].entry_type == MetadataType::File, es[i as int].path@),
            ));
        }
        i = i + 1;
    }
    assert(es.subrange(0, entries.len() as int) =~= es);
    r
}

/// What `Path::file_name` gives for the path `p`: its last component, unless
/// the path ends in `..` or has no component.
pub uninterp spec fn path_file_name(p: Seq<char>) -> Option<Seq<char>>;

/// `Path::file_name`. Its result is named, not stated.
#[verifier::external_body]
fn path_file_name_of(path: &str) -> (r: Option<String>)
    ensures
        match r {
            Some(n) => path_file_name(path@) == Some(n@),
            None => path_file_name(path@) is None,
        },
{
    match std::path::Path::new(path).file_name() {
        Some(name) => Some(name.to_string_lossy().to_string()),
        None => None,
    }
}

/// The name of the file at `path`: the path's last component, if it names one.
pub fn file_name(path: &str) -> (r: Option<String>)
    ensures
        match r {
            Some(n) => path_file_name(path@) == Some(n@),
            None => path_file_name(path@) is None,
        },
{
    path_file_name_of(path)
}

/// What `Path::with_file_name` gives: `path` with its file name replaced by
/// `name` (or `name` appended, where `path` has no file name).
pub uninterp spec fn path_with_file_name(path: Seq<char>, name: Seq<char>) -> Seq<char>;

/// `Path::with_file_name`. Its result is named, not stated.
#[verifier::external_body]
fn path_with_file_name_of(path: &str, name: &str) -> (r: String)
    ensures
        r@ == path_with_file_name(path@, name@),
{
    std::path::Path::new(path).with_file_name(name).to_string_lossy().to_string()
}

/// The path a file at `path` gets when it is renamed to `name`.
pub fn with_file_name(path: &str, name: &str) -> (r: String)
    ensures
        r@ == path_with_file_name(path@, name@),
{
    path_with_file_name_of(path, name)
}

/// The directory that holds the file or directory at `path`: the path without
/// its last component, if it has one.
pub fn parent_directory(path: &str) -> (r: Option<String>)
    ensures
        opt_text(r) == path_parent(path@),
{
    parent(path)
}

} // verus!
