//! Changes to the files of a workspace: how a burst of events is brought down
//! to one change per file, and which files matter.

use vstd::prelude::*;
use vstd::utf8::*;

use crate::byte_path;
use crate::json;
use crate::lsp::recent::FileChange;
use crate::path;
use crate::seqs;
use crate::strmap::StrMap;
use crate::text;
use crate::uri;

verus! {

pub const CREATED: u32 = 1;

pub const CHANGED: u32 = 2;

pub const DELETED: u32 = 3;

/// What happened to some files.
#[derive(Clone, Copy)]
pub enum FileEventKind {
    /// They were created.
    Create,
    /// They were removed.
    Remove,
    /// The first was renamed to the second.
    RenameBoth,
    /// They were renamed to something else.
    RenameFrom,
    /// Something else was renamed to them.
    RenameTo,
    /// They were changed in another way.
    Modify,
    /// Nothing that matters.
    Other,
}

/// An event of the platform's file watcher.
pub struct FileEvent {
    pub kind: FileEventKind,
    /// The bytes of the files' paths.
    pub paths: Vec<Vec<u8>>,
}

// ---------------------------------------------------------------------------
// Merging events
// ---------------------------------------------------------------------------

/// A change that waits to be passed on.
pub struct PendingChange {
    /// The path as it was first written.
    pub path: Vec<u8>,
    pub change_type: u32,
}

impl DeepView for PendingChange {
    type V = (Seq<u8>, u32);

    open spec fn deep_view(&self) -> (Seq<u8>, u32) {
        (self.path@, self.change_type)
    }
}

/// What a change waits under: one key for all the ways to write a path.
pub open spec fn key_of(path: Seq<u8>) -> Seq<char> {
    path::normal_path(byte_path::byte_text(path))
}

/// Changes with one more: a mere change does not hide that a file was created
/// or deleted.
pub open spec fn with_change(
    pending: Map<Seq<char>, (Seq<u8>, u32)>,
    path: Seq<u8>,
    change_type: u32,
) -> Map<Seq<char>, (Seq<u8>, u32)> {
    let key = key_of(path);
    if !pending.contains_key(key) {
        pending.insert(key, (path, change_type))
    } else if change_type == CHANGED && pending[key].1 != CHANGED {
        pending
    } else {
        pending.insert(key, (pending[key].0, change_type))
    }
}

/// Changes with the same change to some files more.
pub open spec fn with_changes(
    pending: Map<Seq<char>, (Seq<u8>, u32)>,
    paths: Seq<Seq<u8>>,
    change_type: u32,
) -> Map<Seq<char>, (Seq<u8>, u32)>
    decreases paths.len(),
{
    if paths.len() == 0 {
        pending
    } else {
        with_change(
            with_changes(pending, paths.drop_last(), change_type),
            paths.last(),
            change_type,
        )
    }
}

/// Changes with an event more.
pub open spec fn with_event(
    pending: Map<Seq<char>, (Seq<u8>, u32)>,
    kind: FileEventKind,
    paths: Seq<Seq<u8>>,
) -> Map<Seq<char>, (Seq<u8>, u32)> {
    match kind {
        FileEventKind::Create => with_changes(pending, paths, CREATED),
        FileEventKind::Remove => with_changes(pending, paths, DELETED),
        FileEventKind::RenameBoth => if paths.len() >= 2 {
            with_change(with_change(pending, paths[0], DELETED), paths[1], CREATED)
        } else {
            with_changes(pending, paths, CHANGED)
        },
        FileEventKind::RenameFrom => with_changes(pending, paths, DELETED),
        FileEventKind::RenameTo => with_changes(pending, paths, CREATED),
        FileEventKind::Modify => with_changes(pending, paths, CHANGED),
        FileEventKind::Other => pending,
    }
}

/// The key of a path.
pub fn pending_key(path: &[u8]) -> (r: String)
    ensures
        r@ == key_of(path@),
{
    path::normal(byte_path::text_of_bytes(path).as_str())
}

/// Merges a change to one file.
pub fn merge_path(pending: &mut StrMap<PendingChange>, path: &[u8], change_type: u32)
    ensures
        final(pending)@ == with_change(old(pending)@, path@, change_type),
{
    let key = pending_key(path);
    let (first, keep) = match pending.get(key.as_str()) {
        Some(existing) => (
            byte_path::copy(existing.path.as_slice()),
            change_type == CHANGED && existing.change_type != CHANGED,
        ),
        None => (byte_path::copy(path), false),
    };
    if !keep {
        pending.insert(key.as_str(), PendingChange { path: first, change_type });
    }
}

/// The change that waits for a file.
pub open spec fn waiting(pending: Map<Seq<char>, (Seq<u8>, u32)>, path: Seq<u8>) -> Option<u32> {
    if pending.contains_key(key_of(path)) {
        Some(pending[key_of(path)].1)
    } else {
        None
    }
}

/// The change that waits for a file.
pub fn pending_change(pending: &StrMap<PendingChange>, path: &[u8]) -> (r: Option<u32>)
    ensures
        r == waiting(pending@, path@),
{
    match pending.get(pending_key(path).as_str()) {
        Some(change) => Some(change.change_type),
        None => None,
    }
}

/// Merges the same change to some files.
pub fn merge_paths(pending: &mut StrMap<PendingChange>, paths: &Vec<Vec<u8>>, change_type: u32)
    ensures
        final(pending)@ == with_changes(old(pending)@, paths.deep_view(), change_type),
{
    let ghost before = pending@;
    let ghost all = paths.deep_view();
    let mut i: usize = 0;
    assert(all.take(0) =~= Seq::<Seq<u8>>::empty());
    while i < paths.len()
        invariant
            i <= paths@.len(),
            all == paths.deep_view(),
            pending@ == with_changes(before, all.take(i as int), change_type),
        decreases paths@.len() - i,
    {
        proof {
            assert(all.take(i + 1).drop_last() =~= all.take(i as int));
            assert(all[i as int] =~= paths@[i as int]@);
        }
        merge_path(pending, paths[i].as_slice(), change_type);
        i = i + 1;
    }
    assert(all.take(i as int) =~= all);
}

/// Merges an event.
pub fn merge_event(pending: &mut StrMap<PendingChange>, event: &FileEvent)
    ensures
        final(pending)@ == with_event(old(pending)@, event.kind, event.paths.deep_view()),
{
    match event.kind {
        FileEventKind::Create => merge_paths(pending, &event.paths, CREATED),
        FileEventKind::Remove => merge_paths(pending, &event.paths, DELETED),
        FileEventKind::RenameBoth => {
            if event.paths.len() >= 2 {
                proof {
                    let all = event.paths.deep_view();
                    assert(all[0] =~= event.paths@[0]@);
                    assert(all[1] =~= event.paths@[1]@);
                }
                merge_path(pending, event.paths[0].as_slice(), DELETED);
                merge_path(pending, event.paths[1].as_slice(), CREATED);
            } else {
                merge_paths(pending, &event.paths, CHANGED);
            }
        },
        FileEventKind::RenameFrom => merge_paths(pending, &event.paths, DELETED),
        FileEventKind::RenameTo => merge_paths(pending, &event.paths, CREATED),
        FileEventKind::Modify => merge_paths(pending, &event.paths, CHANGED),
        FileEventKind::Other => {},
    }
}

// ---------------------------------------------------------------------------
// Files that matter
// ---------------------------------------------------------------------------

/// Whether a server may want to know of changes to a file: source and
/// documentation files, and the files that describe a project. The name of such
/// a file is text.
pub open spec fn is_workspace_file(path: Seq<u8>) -> bool {
    let whole = byte_path::byte_text(path);
    ||| path::extension_of(whole) == Some("jl"@)
    ||| path::extension_of(whole) == Some("jmd"@)
    ||| path::extension_of(whole) == Some("md"@)
    ||| path::name_of(whole) matches Some(name) && valid_utf8(byte_path::text_bytes(name))
        && is_project_file(name)
}

/// Whether a file describes a project.
pub open spec fn is_project_file(name: Seq<char>) -> bool {
    ||| name == "Project.toml"@
    ||| name == "JuliaProject.toml"@
    ||| name == "Manifest.toml"@
    ||| name == "JuliaManifest.toml"@
    ||| name == ".JuliaLint.toml"@
    ||| ("Manifest-v"@.is_prefix_of(name) || "JuliaManifest-v"@.is_prefix_of(name))
        && ".toml"@.is_suffix_of(name)
}

/// Whether a server may want to know of changes to a file.
pub fn is_lsp_workspace_file(path: &[u8]) -> (r: bool)
    ensures
        r == is_workspace_file(path@),
{
    let whole = byte_path::text_of_bytes(path);
    if let Some(extension) = path::extension(whole.as_str()) {
        let e = extension.as_str();
        if text::str_eq(e, "jl") || text::str_eq(e, "jmd") || text::str_eq(e, "md") {
            return true;
        }
    }
    match path::file_name(whole.as_str()) {
        Some(file) => {
            let name = file.as_str();
            if text::utf8_text(byte_path::bytes_of_text(name).as_slice()).is_none() {
                return false;
            }
            text::str_eq(name, "Project.toml") || text::str_eq(name, "JuliaProject.toml")
                || text::str_eq(name, "Manifest.toml") || text::str_eq(name, "JuliaManifest.toml")
                || text::str_eq(name, ".JuliaLint.toml") || ((text::starts_with(name, "Manifest-v")
                || text::starts_with(name, "JuliaManifest-v")) && text::ends_with(name, ".toml"))
        },
        None => false,
    }
}

/// Whether a change to a file is passed on: the file matters and has a URI.
pub open spec fn is_passed_on(path: Seq<u8>) -> bool {
    is_workspace_file(path) && uri::path_uri(path) is Some
}

/// The changes to pass on, in a given order of files.
pub open spec fn changes_in(
    keys: Seq<Seq<char>>,
    pending: Map<Seq<char>, (Seq<u8>, u32)>,
) -> Seq<(Seq<char>, u32)> {
    keys.filter(|k: Seq<char>| is_passed_on(pending[k].0)).map_values(
        |k: Seq<char>| (uri::path_uri(pending[k].0)->0, pending[k].1),
    )
}

/// Whether a list holds the changes to pass on, each file once, in any order.
pub open spec fn is_changes_of(
    list: Seq<(Seq<char>, u32)>,
    pending: Map<Seq<char>, (Seq<u8>, u32)>,
) -> bool {
    exists|keys: Seq<Seq<char>>|
        json::arranges(keys, pending.dom()) && list == #[trigger] changes_in(keys, pending)
}

/// The changes to pass on to servers.
pub fn collect_changes(pending: &StrMap<PendingChange>) -> (r: Vec<FileChange>)
    ensures
        is_changes_of(r.deep_view(), pending@),
{
    let keys = pending.keys();
    let ghost ks = keys.deep_view();
    let ghost p = |k: Seq<char>| is_passed_on(pending@[k].0);
    let ghost f = |k: Seq<char>| (uri::path_uri(pending@[k].0)->0, pending@[k].1);
    let mut out: Vec<FileChange> = Vec::new();
    let mut i: usize = 0;
    proof {
        seqs::lemma_filter_start(ks, p);
        assert(out.deep_view() =~= ks.take(0).filter(p).map_values(f));
    }
    while i < keys.len()
        invariant
            i <= keys@.len(),
            ks == keys.deep_view(),
            json::arranges(ks, pending@.dom()),
            p == (|k: Seq<char>| is_passed_on(pending@[k].0)),
            f == (|k: Seq<char>| (uri::path_uri(pending@[k].0)->0, pending@[k].1)),
            out.deep_view() == ks.take(i as int).filter(p).map_values(f),
        decreases keys@.len() - i,
    {
        let key = keys[i].as_str();
        let ghost before = out.deep_view();
        proof {
            seqs::lemma_filter_step(ks, i as int, p);
            assert(ks[i as int] == key@);
            assert(ks.contains(key@));
        }
        if let Some(change) = pending.get(key) {
            let path = change.path.as_slice();
            if is_lsp_workspace_file(path) {
                if let Some(u) = uri::uri_of_path(path) {
                    out.push(FileChange { uri: u, change_type: change.change_type });
                    assert(out.deep_view() =~= before.push(f(ks[i as int])));
                    assert(out.deep_view() =~= ks.take(i + 1).filter(p).map_values(f));
                }
            }
        }
        i = i + 1;
    }
    assert(ks.take(i as int) =~= ks);
    assert(out.deep_view() == changes_in(ks, pending@));
    out
}

// ---------------------------------------------------------------------------
// Laws
// ---------------------------------------------------------------------------

/// Whether two paths are the same, however they are written.
pub open spec fn is_same_file(a: Seq<u8>, b: Seq<u8>) -> bool {
    path::same_path(byte_path::byte_text(a), byte_path::byte_text(b))
}

/// Changes wait for a file under one key, however its path is written, and
/// under keys of their own for two files.
pub proof fn law_one_key_for_a_file(a: Seq<u8>, b: Seq<u8>)
    ensures
        key_of(a) == key_of(b) <==> is_same_file(a, b),
{
    path::law_same_paths_have_one_form(byte_path::byte_text(a), byte_path::byte_text(b));
}

/// A second way to write the path of a file changes what waits for it as the
/// first does, and the file matters or not in both.
pub proof fn law_spelling_does_not_matter(
    pending: Map<Seq<char>, (Seq<u8>, u32)>,
    a: Seq<u8>,
    b: Seq<u8>,
    change_type: u32,
)
    requires
        is_same_file(a, b),
    ensures
        waiting(pending, a) == waiting(pending, b),
        waiting(with_change(pending, a, change_type), b) == waiting(
            with_change(pending, b, change_type),
            b,
        ),
        pending.contains_key(key_of(a)) ==> with_change(pending, a, change_type) == with_change(
            pending,
            b,
            change_type,
        ),
        is_workspace_file(a) == is_workspace_file(b),
{
    law_one_key_for_a_file(a, b);
    path::lemma_name(byte_path::byte_text(a));
    path::lemma_name(byte_path::byte_text(b));
}

/// That a file was created or deleted is not hidden by the changes around it.
pub proof fn law_final_state_survives_changes(
    pending: Map<Seq<char>, (Seq<u8>, u32)>,
    path: Seq<u8>,
    change_type: u32,
)
    requires
        change_type == CREATED || change_type == DELETED,
    ensures
        waiting(with_change(with_change(pending, path, change_type), path, CHANGED), path) == Some(
            change_type,
        ),
        waiting(with_change(with_change(pending, path, CHANGED), path, change_type), path) == Some(
            change_type,
        ),
{
}

/// The last of several creations and deletions counts.
pub proof fn law_last_state_wins(
    pending: Map<Seq<char>, (Seq<u8>, u32)>,
    path: Seq<u8>,
    change_type: u32,
)
    requires
        change_type != CHANGED,
    ensures
        waiting(with_change(pending, path, change_type), path) == Some(change_type),
{
}

/// A rename deletes the one file and creates the other.
pub proof fn law_rename_deletes_and_creates(
    pending: Map<Seq<char>, (Seq<u8>, u32)>,
    from: Seq<u8>,
    to: Seq<u8>,
)
    requires
        !is_same_file(from, to),
    ensures
        waiting(with_event(pending, FileEventKind::RenameBoth, seq![from, to]), from) == Some(
            DELETED,
        ),
        waiting(with_event(pending, FileEventKind::RenameBoth, seq![from, to]), to) == Some(CREATED),
{
    law_one_key_for_a_file(from, to);
}

/// An event leaves the files that it does not name alone.
pub proof fn law_events_are_local(
    pending: Map<Seq<char>, (Seq<u8>, u32)>,
    kind: FileEventKind,
    paths: Seq<Seq<u8>>,
    other: Seq<u8>,
)
    requires
        forall|i: int| 0 <= i < paths.len() ==> !is_same_file(#[trigger] paths[i], other),
    ensures
        waiting(with_event(pending, kind, paths), other) == waiting(pending, other),
{
    lemma_changes_are_local(pending, paths, CREATED, other);
    lemma_changes_are_local(pending, paths, CHANGED, other);
    lemma_changes_are_local(pending, paths, DELETED, other);
    if paths.len() >= 2 {
        law_one_key_for_a_file(paths[0], other);
        law_one_key_for_a_file(paths[1], other);
    }
}

proof fn lemma_changes_are_local(
    pending: Map<Seq<char>, (Seq<u8>, u32)>,
    paths: Seq<Seq<u8>>,
    change_type: u32,
    other: Seq<u8>,
)
    requires
        forall|i: int| 0 <= i < paths.len() ==> !is_same_file(#[trigger] paths[i], other),
    ensures
        waiting(with_changes(pending, paths, change_type), other) == waiting(pending, other),
    decreases paths.len(),
{
    if paths.len() > 0 {
        let rest = paths.drop_last();
        assert(!is_same_file(paths[paths.len() - 1], other));
        law_one_key_for_a_file(paths.last(), other);
        assert forall|i: int| 0 <= i < rest.len() implies !is_same_file(
            #[trigger] rest[i],
            other,
        ) by {
            assert(rest[i] == paths[i]);
        }
        lemma_changes_are_local(pending, rest, change_type, other);
    }
}

} // verus!
