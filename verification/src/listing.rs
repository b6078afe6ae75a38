//! Directory listings of both sides as entries, and the words for a
//! directory that cannot be read.

use crate::paths::{file_name, file_name_of};
use crate::text::{cat, cat3};
use crate::types::FileEntry;
use vstd::prelude::*;
use vstd::string::*;

verus! {

/// What is known of a file.
#[derive(Clone, Copy, Debug, PartialEq, Eq)]
pub struct Meta {
    pub is_dir: bool,
    pub size: Option<u64>,
    /// Mode bits, the file type's included.
    pub mode: Option<u32>,
}

/// One thing found in a directory.
#[derive(Debug)]
pub struct Found {
    /// Its name on this machine, its full path on the remote side.
    pub path: String,
    pub is_symlink: bool,
    /// What is known of it, of the link itself where it is one.
    pub link: Meta,
    /// What is known of the file it leads to.
    pub target: Option<Meta>,
}

/// An entry with its name as characters.
pub struct EntryModel {
    pub name: Seq<char>,
    pub is_dir: bool,
    pub is_symlink: bool,
    pub size: u64,
    pub mode: Option<u32>,
}

pub open spec fn entry_view(e: FileEntry) -> EntryModel {
    EntryModel {
        name: e.name@,
        is_dir: e.is_dir,
        is_symlink: e.is_symlink,
        size: e.size,
        mode: e.mode,
    }
}

pub open spec fn entry_views(v: Seq<FileEntry>) -> Seq<EntryModel> {
    v.map_values(|e: FileEntry| entry_view(e))
}

/// Permission bits of a mode.
pub open spec fn permission_bits(mode: Option<u32>) -> Option<u32> {
    match mode {
        Some(m) => Some(m & 0o777),
        None => None,
    }
}

pub open spec fn size_or_zero(m: Meta) -> u64 {
    match m.size {
        Some(s) => s,
        None => 0,
    }
}

/// The entry for a local file: links are followed, so navigation and size
/// reflect the target, and a directory has no size.
pub open spec fn local_entry_spec(f: Found) -> EntryModel {
    let meta = match f.target {
        Some(t) => t,
        None => f.link,
    };
    EntryModel {
        name: f.path@,
        is_dir: meta.is_dir,
        is_symlink: f.is_symlink,
        size: if meta.is_dir {
            0
        } else {
            size_or_zero(meta)
        },
        mode: permission_bits(meta.mode),
    }
}

/// The entry for a remote file: a link's target is resolved where that is
/// possible, so directories remain navigable.
pub open spec fn remote_entry_spec(f: Found) -> EntryModel {
    let meta = match f.target {
        Some(t) => if f.is_symlink {
            t
        } else {
            f.link
        },
        None => f.link,
    };
    EntryModel {
        name: match file_name_of(f.path@) {
            Some(n) => n,
            None => f.path@,
        },
        is_dir: meta.is_dir,
        is_symlink: f.is_symlink,
        size: size_or_zero(meta),
        mode: permission_bits(meta.mode),
    }
}

fn bits(mode: Option<u32>) -> (r: Option<u32>)
    ensures
        r == permission_bits(mode),
{
    match mode {
        Some(m) => Some(m & 0o777),
        None => None,
    }
}

fn known_size(m: &Meta) -> (r: u64)
    ensures
        r == size_or_zero(*m),
{
    match m.size {
        Some(s) => s,
        None => 0,
    }
}

/// The entry for a file found on this machine.
pub fn local_entry(f: &Found) -> (r: FileEntry)
    ensures
        entry_view(r) == local_entry_spec(*f),
{
    let meta = match f.target {
        Some(t) => t,
        None => f.link,
    };
    FileEntry {
        name: f.path.clone(),
        is_dir: meta.is_dir,
        is_symlink: f.is_symlink,
        size: if meta.is_dir {
            0
        } else {
            known_size(&meta)
        },
        mode: bits(meta.mode),
    }
}

/// The entry for a file found on the remote side.
pub fn remote_entry(f: &Found) -> (r: FileEntry)
    ensures
        entry_view(r) == remote_entry_spec(*f),
{
    let meta = match f.target {
        Some(t) => if f.is_symlink {
            t
        } else {
            f.link
        },
        None => f.link,
    };
    let name = match file_name(f.path.as_str()) {
        Some(n) => n,
        None => f.path.clone(),
    };
    FileEntry {
        name,
        is_dir: meta.is_dir,
        is_symlink: f.is_symlink,
        size: known_size(&meta),
        mode: bits(meta.mode),
    }
}

/// An error of this machine: its number, if the system gave one, and its
/// text.
#[derive(Debug)]
pub struct LocalError {
    pub code: Option<i32>,
    pub text: String,
}

/// The words for a local directory that cannot be read.
pub open spec fn described(path: Seq<char>, code: Option<i32>, text: Seq<char>) -> Seq<char> {
    if code == Some(1i32) {
        path
            + ": macOS blocked access (Operation not permitted). Grant it in System Settings > Privacy & Security > Files and Folders, then retry; rebuilding the app (ad-hoc signature) asks again."@
    } else {
        path + ": "@ + text
    }
}

/// macOS privacy denials arrive as a bare `Operation not permitted`
/// (os error 1) with no prompt, which reads like a filesystem bug. Name
/// the cause and the fix instead: replacing an ad-hoc signed build
/// invalidates the folder grant recorded for the previous binary.
pub fn describe_local_error(path: &str, err: &LocalError) -> (r: String)
    ensures
        r@ == described(path@, err.code, err.text@),
{
    let denied = match err.code {
        Some(c) => c == 1,
        None => false,
    };
    if denied {
        cat(
            path,
            ": macOS blocked access (Operation not permitted). Grant it in System Settings > Privacy & Security > Files and Folders, then retry; rebuilding the app (ad-hoc signature) asks again.",
        )
    } else {
        cat3(path, ": ", err.text.as_str())
    }
}

pub open spec fn listed_locally(found: Seq<Found>) -> Seq<EntryModel> {
    found.map_values(|f: Found| local_entry_spec(f))
}

pub open spec fn listed_remotely(found: Seq<Found>) -> Seq<EntryModel> {
    found.map_values(|f: Found| remote_entry_spec(f))
}

/// The entries of a local directory, from what reading it gave.
pub fn list_local(path: &str, read: Result<Vec<Found>, LocalError>) -> (r: Result<
    Vec<FileEntry>,
    String,
>)
    ensures
        match (read, r) {
            (Ok(found), Ok(entries)) => entry_views(entries@) == listed_locally(found@),
            (Err(e), Err(text)) => text@ == described(path@, e.code, e.text@),
            _ => false,
        },
{
    match read {
        Ok(found) => {
            let mut out: Vec<FileEntry> = Vec::new();
            let n: usize = found.len();
            let mut i: usize = 0;
            while i < n
                invariant
                    i <= n == found@.len(),
                    entry_views(out@) == listed_locally(found@.take(i as int)),
                decreases n - i,
            {
                let ghost before = entry_views(out@);
                out.push(local_entry(&found[i]));
                proof {
                    let f = found@[i as int];
                    assert(entry_views(out@) =~= before.push(local_entry_spec(f)));
                    assert(listed_locally(found@.take(i + 1)) =~= listed_locally(
                        found@.take(i as int),
                    ).push(local_entry_spec(f)));
                }
                i += 1;
            }
            proof {
                assert(found@.take(n as int) =~= found@);
            }
            Ok(out)
        },
        Err(e) => Err(describe_local_error(path, &e)),
    }
}

/// The entries of a remote directory, from what reading it gave.
pub fn list_remote(path: &str, read: Result<Vec<Found>, String>) -> (r: Result<
    Vec<FileEntry>,
    String,
>)
    ensures
        match (read, r) {
            (Ok(found), Ok(entries)) => entry_views(entries@) == listed_remotely(found@),
            (Err(e), Err(text)) => text@ == path@ + ": "@ + e@,
            _ => false,
        },
{
    match read {
        Ok(found) => {
            let mut out: Vec<FileEntry> = Vec::new();
            let n: usize = found.len();
            let mut i: usize = 0;
            while i < n
                invariant
                    i <= n == found@.len(),
                    entry_views(out@) == listed_remotely(found@.take(i as int)),
                decreases n - i,
            {
                let ghost before = entry_views(out@);
                out.push(remote_entry(&found[i]));
                proof {
                    let f = found@[i as int];
                    assert(entry_views(out@) =~= before.push(remote_entry_spec(f)));
                    assert(listed_remotely(found@.take(i + 1)) =~= listed_remotely(
                        found@.take(i as int),
                    ).push(remote_entry_spec(f)));
                }
                i += 1;
            }
            proof {
                assert(found@.take(n as int) =~= found@);
            }
            Ok(out)
        },
        Err(e) => Err(cat3(path, ": ", e.as_str())),
    }
}

/// A listed entry is what was found, in order and under its own name: with
/// the kind and size of what it leads to, where that is known, and with its
/// nine permission bits and no others.
pub proof fn entries_are_what_was_found(found: Seq<Found>, i: int)
    requires
        0 <= i < found.len(),
    ensures
        listed_locally(found).len() == found.len(),
        listed_remotely(found).len() == found.len(),
        ({
            let f = found[i];
            let l = listed_locally(found)[i];
            let r = listed_remotely(found)[i];
            let local = match f.target {
                Some(t) => t,
                None => f.link,
            };
            let remote = if f.is_symlink && f.target is Some {
                f.target->0
            } else {
                f.link
            };
            &&& l.name == f.path@
            &&& l.is_symlink == f.is_symlink && r.is_symlink == f.is_symlink
            &&& l.is_dir == local.is_dir
            &&& r.is_dir == remote.is_dir
            &&& !local.is_dir ==> l.size == (match local.size {
                Some(n) => n,
                None => 0,
            })
            &&& local.is_dir ==> l.size == 0
            &&& r.size == (match remote.size {
                Some(n) => n,
                None => 0,
            })
            &&& l.mode is Some <==> local.mode is Some
            &&& l.mode is Some ==> l.mode->0 == local.mode->0 & 0o777
            &&& r.mode is Some <==> remote.mode is Some
            &&& r.mode is Some ==> r.mode->0 == remote.mode->0 & 0o777
            &&& match file_name_of(f.path@) {
                Some(name) => r.name == name,
                None => r.name == f.path@,
            }
        }),
{
}

} // verus!
