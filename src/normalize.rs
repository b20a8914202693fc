use vstd::prelude::*;

use crate::event::{FileChange, FileEventType};

verus! {

/// How a rename notification identifies the paths it carries.
#[derive(Clone, Copy, Debug, PartialEq, Eq, Structural)]
pub enum RenameMode {
    Any,
    To,
    From,
    Both,
    Other,
}

/// The kind of a raw notification, as the watch backend reports it.
#[derive(Clone, Copy, Debug, PartialEq, Eq, Structural)]
pub enum RawKind {
    Any,
    Access,
    Create,
    Modify,
    Rename(RenameMode),
    Remove,
    Other,
}

/// A raw notification: its kind and the paths attached to it, in order.
#[derive(Clone, Debug)]
pub struct RawEvent {
    pub kind: RawKind,
    pub paths: Vec<String>,
}

impl View for RawEvent {
    type V = (RawKind, Seq<Seq<char>>);

    open spec fn view(&self) -> (RawKind, Seq<Seq<char>>) {
        (self.kind, self.paths@.map_values(|p: String| p@))
    }
}

/// A path with every backslash separator rewritten to a forward slash.
pub open spec fn normalized(p: Seq<char>) -> Seq<char> {
    p.map_values(|c: char| if c == '\\' { '/' } else { c })
}

/// The class given to each path of a notification that is not a rename;
/// `None` where the path is dropped.
pub open spec fn classify(kind: RawKind) -> Option<FileEventType> {
    match kind {
        RawKind::Create => Some(FileEventType::Created),
        RawKind::Remove => Some(FileEventType::Deleted),
        RawKind::Modify => Some(FileEventType::Changed),
        RawKind::Rename(_) => Some(FileEventType::Changed),
        RawKind::Access => None,
        RawKind::Any => Some(FileEventType::Unknown),
        RawKind::Other => Some(FileEventType::Unknown),
    }
}

/// Every path, normalized, with the same class.
pub open spec fn each_as(paths: Seq<Seq<char>>, t: FileEventType) -> Seq<(Seq<char>, FileEventType)> {
    paths.map_values(|p: Seq<char>| (normalized(p), t))
}

/// The change records that one raw notification stands for.
pub open spec fn changes_of(kind: RawKind, paths: Seq<Seq<char>>) -> Seq<(Seq<char>, FileEventType)> {
    match kind {
        RawKind::Rename(RenameMode::From) => if paths.len() > 0 {
            seq![(normalized(paths[0]), FileEventType::RenamedOld)]
        } else {
            seq![]
        },
        RawKind::Rename(RenameMode::To) => if paths.len() > 0 {
            seq![(normalized(paths[0]), FileEventType::RenamedNew)]
        } else {
            seq![]
        },
        RawKind::Rename(RenameMode::Both) => if paths.len() >= 2 {
            seq![
                (normalized(paths[0]), FileEventType::RenamedOld),
                (normalized(paths[1]), FileEventType::RenamedNew),
            ]
        } else {
            seq![]
        },
        _ => match classify(kind) {
            Some(t) => each_as(paths, t),
            None => seq![],
        },
    }
}

/// Relies on str::replace: every match of the char pattern is replaced by the
/// given string and all other characters are copied in order.
#[verifier::external_body]
fn replace_backslashes(p: &str) -> (r: String)
    ensures
        r@ == normalized(p@),
{
    p.replace('\\', "/")
}

/// Rewrites platform separators so that the path uses forward slashes only.
pub fn normalize_path(p: &str) -> (r: String)
    ensures
        r@ == normalized(p@),
{
    replace_backslashes(p)
}

fn record(p: &String, t: FileEventType) -> (r: FileChange)
    ensures
        r@ == (normalized(p@), t),
{
    FileChange { path: normalize_path(p.as_str()), event_type: t }
}

/// Every path of `paths`, normalized, as a record of class `t`.
fn all_paths_as(paths: &Vec<String>, t: FileEventType) -> (r: Vec<FileChange>)
    ensures
        r@.map_values(|c: FileChange| c@) == each_as(paths@.map_values(|p: String| p@), t),
{
    let ghost ps = paths@.map_values(|p: String| p@);
    let mut out: Vec<FileChange> = Vec::new();
    let mut i: usize = 0;
    while i < paths.len()
        invariant
            i <= paths.len(),
            ps == paths@.map_values(|p: String| p@),
            out@.map_values(|c: FileChange| c@) == each_as(ps.take(i as int), t),
        decreases paths.len() - i,
    {
        let c = record(&paths[i], t);
        let ghost prev = out@;
        out.push(c);
        i = i + 1;
        assert(ps.take(i as int) =~= ps.take(i - 1 as int).push(ps[i - 1]));
        assert(out@.map_values(|c: FileChange| c@) =~= prev.map_values(|c: FileChange| c@).push(c@));
        assert(out@.map_values(|c: FileChange| c@) =~= each_as(ps.take(i as int), t));
    }
    assert(ps.take(i as int) =~= ps);
    out
}

/// Normalizes one raw notification into zero, one or two change records.
///
/// A rename is handled on its own: the old name comes out as `RenamedOld`, the
/// new one as `RenamedNew`, old before new; a paired rename with fewer than two
/// paths gives nothing, and a rename of unknown shape gives `Changed` for each
/// path. Any other notification classifies each of its paths alike, and access
/// notifications give nothing.
pub fn convert_notify_event_to_file_event(event: &RawEvent) -> (r: Vec<FileChange>)
    ensures
        r@.map_values(|c: FileChange| c@) == changes_of(event@.0, event@.1),
{
    let ghost ps = event@.1;
    let mut changes: Vec<FileChange> = Vec::new();
    match event.kind {
        RawKind::Rename(mode) => match mode {
            RenameMode::From => {
                if event.paths.len() > 0 {
                    changes.push(record(&event.paths[0], FileEventType::RenamedOld));
                }
            },
            RenameMode::To => {
                if event.paths.len() > 0 {
                    changes.push(record(&event.paths[0], FileEventType::RenamedNew));
                }
            },
            RenameMode::Both => {
                if event.paths.len() >= 2 {
                    changes.push(record(&event.paths[0], FileEventType::RenamedOld));
                    changes.push(record(&event.paths[1], FileEventType::RenamedNew));
                }
            },
            RenameMode::Any | RenameMode::Other => {
                changes = all_paths_as(&event.paths, FileEventType::Changed);
            },
        },
        RawKind::Create => {
            changes = all_paths_as(&event.paths, FileEventType::Created);
        },
        RawKind::Remove => {
            changes = all_paths_as(&event.paths, FileEventType::Deleted);
        },
        RawKind::Modify => {
            changes = all_paths_as(&event.paths, FileEventType::Changed);
        },
        RawKind::Access => {},
        RawKind::Any | RawKind::Other => {
            changes = all_paths_as(&event.paths, FileEventType::Unknown);
        },
    }
    assert(changes@.map_values(|c: FileChange| c@) =~= changes_of(event@.0, ps));
    changes
}

/// A notification that is not a rename gives one record per attached path,
/// each with the class of its kind, in path order; an access notification
/// gives none.
pub proof fn lemma_plain_event_one_record_per_path(kind: RawKind, paths: Seq<Seq<char>>)
    requires
        !(kind is Rename),
    ensures
        kind != RawKind::Access ==> changes_of(kind, paths).len() == paths.len() && forall|i: int|
            0 <= i < paths.len() ==> #[trigger] changes_of(kind, paths)[i] == (
                normalized(paths[i]),
                classify(kind).unwrap(),
            ),
        kind == RawKind::Access ==> changes_of(kind, paths).len() == 0,
{
}

/// A paired rename with paths `[a, b]` gives the old name, then the new one.
pub proof fn lemma_paired_rename_old_then_new(a: Seq<char>, b: Seq<char>)
    ensures
        changes_of(RawKind::Rename(RenameMode::Both), seq![a, b]) == seq![
            (normalized(a), FileEventType::RenamedOld),
            (normalized(b), FileEventType::RenamedNew),
        ],
{
}

/// A one-sided rename with path `a` gives a single record for `a`: the old
/// name for `From`, the new name for `To`.
pub proof fn lemma_one_sided_rename(a: Seq<char>)
    ensures
        changes_of(RawKind::Rename(RenameMode::From), seq![a]) == seq![
            (normalized(a), FileEventType::RenamedOld),
        ],
        changes_of(RawKind::Rename(RenameMode::To), seq![a]) == seq![
            (normalized(a), FileEventType::RenamedNew),
        ],
{
}

/// A paired rename with fewer than two paths gives no record at all.
pub proof fn lemma_paired_rename_needs_two_paths(paths: Seq<Seq<char>>)
    requires
        paths.len() < 2,
    ensures
        changes_of(RawKind::Rename(RenameMode::Both), paths).len() == 0,
{
}

/// Normalizing a path twice is normalizing it once, and a path without
/// backslashes is left as it is.
pub proof fn lemma_normalize_idempotent(p: Seq<char>)
    ensures
        normalized(normalized(p)) == normalized(p),
        (forall|i: int| 0 <= i < p.len() ==> p[i] != '\\') ==> normalized(p) == p,
{
    assert(normalized(normalized(p)) =~= normalized(p));
    if forall|i: int| 0 <= i < p.len() ==> p[i] != '\\' {
        assert(normalized(p) =~= p);
    }
}

} // verus!
