//! The filesystem watcher's trigger rules: which debounced events start
//! a rescan of the package directory.
//!
//! A batch of events starts at most one scan: the first event that
//! qualifies decides, the rest of the batch is dropped.

use vstd::prelude::*;

verus! {

/// The kinds of filesystem events the watcher distinguishes.
#[derive(Debug, Eq, PartialEq, Clone, Copy, Structural)]
pub enum WatchEventKind {
    CreateFile,
    CreateFolder,
    CreateAny,
    RemoveFile,
    RemoveFolder,
    RemoveAny,
    AccessCloseWrite,
    ModifyData,
    MetadataPermissions,
    MetadataOwnership,
    MetadataWriteTime,
    RenameFrom,
    RenameTo,
    RenameBoth,
    ModifyOther,
    Other,
}

/// One debounced filesystem event: its kind, the affected paths, the
/// watcher's own rescan flag, and whether the first path is a directory.
#[derive(Debug)]
pub struct WatchEvent {
    pub kind: WatchEventKind,
    pub paths: Vec<Vec<u8>>,
    pub needs_rescan: bool,
    pub first_path_is_dir: bool,
}

/// The last index at which `b` occurs, or -1.
pub open spec fn find_last_byte(s: Seq<u8>, b: u8) -> int
    decreases s.len(),
{
    if s.len() == 0 {
        -1
    } else if s.last() == b {
        s.len() - 1
    } else {
        find_last_byte(s.drop_last(), b)
    }
}

pub proof fn lemma_find_last_byte_bounds(s: Seq<u8>, b: u8)
    ensures
        -1 <= find_last_byte(s, b) < s.len(),
        find_last_byte(s, b) >= 0 ==> s[find_last_byte(s, b)] == b,
        forall|j: int| find_last_byte(s, b) < j < s.len() ==> s[j] != b,
    decreases s.len(),
{
    if s.len() > 0 && s.last() != b {
        lemma_find_last_byte_bounds(s.drop_last(), b);
        assert forall|j: int| find_last_byte(s, b) < j < s.len() implies s[j] != b by {
            if j < s.len() - 1 {
                assert(s.drop_last()[j] != b);
            }
        }
    }
}

/// Finds the last occurrence of a byte, or the length when absent; the
/// result is one past nothing, so `r` is the found index plus one.
pub fn find_last_byte_at(s: &[u8], b: u8) -> (r: i64)
    requires
        s@.len() < 0x8000000000000000,
    ensures
        r as int == find_last_byte(s@, b),
{
    proof {
        lemma_find_last_byte_bounds(s@, b);
    }
    let mut i: usize = s.len();
    while i > 0
        invariant
            s@.len() < 0x8000000000000000,
            0 <= i <= s@.len(),
            forall|j: int| i <= j < s@.len() ==> s@[j] != b,
        decreases i,
    {
        if s[i - 1] == b {
            proof {
                lemma_find_last_byte_bounds(s@, b);
                let k = find_last_byte(s@, b);
                if k < i - 1 {
                    assert(s@[i as int - 1] != b);
                }
            }
            return (i - 1) as i64;
        }
        i = i - 1;
    }
    proof {
        lemma_find_last_byte_bounds(s@, b);
        let k = find_last_byte(s@, b);
        if k >= 0 {
            assert(s@[k] != b);
        }
    }
    -1
}

/// The file-name part of a path: everything after the last slash.
pub open spec fn spec_file_name(p: Seq<u8>) -> Seq<u8> {
    p.skip(find_last_byte(p, 47) + 1)
}

/// Whether a path's file name carries the `tar` extension: a last dot
/// that leaves a non-empty stem, followed by exactly `tar`.
pub open spec fn spec_has_tar_extension(p: Seq<u8>) -> bool {
    let name = spec_file_name(p);
    let dot = find_last_byte(name, 46);
    dot >= 1 && name.skip(dot + 1) == seq![116u8, 97u8, 114u8]
}

/// Whether a changed path concerns the watcher: a `.tar` file or the
/// authorization configuration file itself.
pub open spec fn spec_path_matches(p: Seq<u8>, auth_json: Seq<u8>) -> bool {
    spec_has_tar_extension(p) || p == auth_json
}

/// Decides whether a path concerns the watcher.
pub fn path_matches(p: &[u8], auth_json: &[u8]) -> (r: bool)
    requires
        p@.len() < 0x8000000000000000,
    ensures
        r == spec_path_matches(p@, auth_json@),
{
    proof {
        lemma_find_last_byte_bounds(p@, 47);
    }
    let slash = find_last_byte_at(p, 47);
    let start = (slash + 1) as usize;
    let name = vstd::slice::slice_subrange(p, start, p.len());
    proof {
        assert(name@ =~= spec_file_name(p@));
        lemma_find_last_byte_bounds(name@, 46);
    }
    let dot = find_last_byte_at(name, 46);
    let has_tar = if dot >= 1 {
        let ext = vstd::slice::slice_subrange(name, (dot + 1) as usize, name.len());
        proof {
            assert(ext@ =~= spec_file_name(p@).skip(find_last_byte(spec_file_name(p@), 46) + 1));
        }
        ext.len() == 3 && ext[0] == 116 && ext[1] == 97 && ext[2] == 114
    } else {
        false
    };
    proof {
        let nm = spec_file_name(p@);
        let d = find_last_byte(nm, 46);
        if d >= 1 {
            if nm.skip(d + 1) == seq![116u8, 97u8, 114u8] {
                assert(nm.skip(d + 1)[0] == 116);
                assert(nm.skip(d + 1)[1] == 97);
                assert(nm.skip(d + 1)[2] == 114);
            }
            if nm.skip(d + 1).len() == 3 && nm.skip(d + 1)[0] == 116 && nm.skip(d + 1)[1] == 97
                && nm.skip(d + 1)[2] == 114 {
                assert(nm.skip(d + 1) =~= seq![116u8, 97u8, 114u8]);
            }
        }
    }
    if has_tar {
        return true;
    }
    crate::auth::types::compare_bytes(p, auth_json)
}

/// Whether one debounced event calls for a rescan: a rescan signal from
/// the watcher; creation, removal, closed writes or data changes of a
/// matching file; any folder creation or removal; metadata changes of a
/// matching path or a directory; renames where some side matches; any
/// other modification of a matching path.
pub open spec fn spec_triggers(e: WatchEvent, auth_json: Seq<u8>) -> bool {
    if e.needs_rescan {
        true
    } else {
        match e.kind {
            WatchEventKind::CreateFile | WatchEventKind::RemoveFile
                | WatchEventKind::AccessCloseWrite | WatchEventKind::ModifyData
                | WatchEventKind::RemoveAny | WatchEventKind::RenameFrom
                | WatchEventKind::CreateAny | WatchEventKind::RenameTo
                | WatchEventKind::ModifyOther => spec_path_matches(e.paths@[0]@, auth_json),
            WatchEventKind::CreateFolder | WatchEventKind::RemoveFolder => true,
            WatchEventKind::MetadataPermissions | WatchEventKind::MetadataOwnership
                | WatchEventKind::MetadataWriteTime => spec_path_matches(e.paths@[0]@, auth_json)
                || e.first_path_is_dir,
            WatchEventKind::RenameBoth => spec_path_matches(e.paths@[0]@, auth_json)
                || spec_path_matches(e.paths@[1]@, auth_json),
            WatchEventKind::Other => false,
        }
    }
}

/// An event's paths suffice for its kind: one path, or two for a rename
/// that knows both names.
pub open spec fn spec_event_wf(e: WatchEvent) -> bool {
    &&& e.paths@.len() >= 1
    &&& (e.kind is RenameBoth ==> e.paths@.len() >= 2)
    &&& forall|i: int| 0 <= i < e.paths@.len() ==> (#[trigger] e.paths@[i])@.len()
        < 0x8000000000000000
}

/// Decides whether one debounced event calls for a rescan.
pub fn should_scan(e: &WatchEvent, auth_json: &[u8]) -> (r: bool)
    requires
        spec_event_wf(*e),
    ensures
        r == spec_triggers(*e, auth_json@),
{
    if e.needs_rescan {
        return true;
    }
    match e.kind {
        WatchEventKind::CreateFile | WatchEventKind::RemoveFile
            | WatchEventKind::AccessCloseWrite | WatchEventKind::ModifyData
            | WatchEventKind::RemoveAny | WatchEventKind::RenameFrom | WatchEventKind::CreateAny
            | WatchEventKind::RenameTo | WatchEventKind::ModifyOther => path_matches(
            e.paths[0].as_slice(),
            auth_json,
        ),
        WatchEventKind::CreateFolder | WatchEventKind::RemoveFolder => true,
        WatchEventKind::MetadataPermissions | WatchEventKind::MetadataOwnership
            | WatchEventKind::MetadataWriteTime => path_matches(e.paths[0].as_slice(), auth_json)
            || e.first_path_is_dir,
        WatchEventKind::RenameBoth => path_matches(e.paths[0].as_slice(), auth_json)
            || path_matches(e.paths[1].as_slice(), auth_json),
        WatchEventKind::Other => false,
    }
}

/// Picks the single event of a batch that starts a rescan: the first one
/// that qualifies. At most one scan is started per batch, however many
/// events it holds.
pub fn first_trigger(events: &Vec<WatchEvent>, auth_json: &[u8]) -> (r: Option<usize>)
    requires
        forall|i: int| 0 <= i < events@.len() ==> spec_event_wf(#[trigger] events@[i]),
    ensures
        match r {
            Some(i) => 0 <= i < events@.len() && spec_triggers(events@[i as int], auth_json@)
                && forall|j: int| 0 <= j < i ==> !spec_triggers(#[trigger] events@[j], auth_json@),
            None => forall|j: int|
                0 <= j < events@.len() ==> !spec_triggers(#[trigger] events@[j], auth_json@),
        },
{
    let mut i: usize = 0;
    while i < events.len()
        invariant
            0 <= i <= events@.len(),
            forall|k: int| 0 <= k < events@.len() ==> spec_event_wf(#[trigger] events@[k]),
            forall|j: int| 0 <= j < i ==> !spec_triggers(#[trigger] events@[j], auth_json@),
        decreases events@.len() - i,
    {
        if should_scan(&events[i], auth_json) {
            return Some(i);
        }
        i = i + 1;
    }
    None
}

} // verus!
