//! Coalescing of raw filesystem notifications into debounced events.
//!
//! Raw notifications arrive one by one; for each path the latest pending
//! kind and the time it was last touched are kept. A pending entry becomes
//! an [`FsEvent`] once it has been quiet for the debounce window, which
//! absorbs an editor's write-to-temporary-then-rename pattern. Times are
//! milliseconds on a monotonic clock, supplied by the caller.

use crate::paths::{should_ignore, should_ignore_spec};
use crate::text::{copy_string, lit, sat_sub, str_eq};
use vstd::prelude::*;

verus! {

#[verifier::external_type_specification]
#[verifier::external_body]
#[verifier::reject_recursive_types(T)]
pub struct ExSender<T>(std::sync::mpsc::Sender<T>);

/// Debounce window in milliseconds.
pub const DEBOUNCE_MS: u64 = 300;

/// Poll interval of the watcher loop in milliseconds.
pub const POLL_MS: u64 = 50;

/// High-level filesystem event delivered to the application.
#[derive(Debug)]
pub enum FsEvent {
    FileModified(String),
    EntryCreated { path: String, is_dir: bool },
    EntryRemoved(String),
    EntryRenamed { from: String, to: String },
}

/// What an [`FsEvent`] says, with paths as character sequences.
pub enum FsEventView {
    FileModified(Seq<char>),
    EntryCreated(Seq<char>, bool),
    EntryRemoved(Seq<char>),
    EntryRenamed(Seq<char>, Seq<char>),
}

impl View for FsEvent {
    type V = FsEventView;

    open spec fn view(&self) -> FsEventView {
        match self {
            FsEvent::FileModified(p) => FsEventView::FileModified(p@),
            FsEvent::EntryCreated { path, is_dir } => FsEventView::EntryCreated(path@, *is_dir),
            FsEvent::EntryRemoved(p) => FsEventView::EntryRemoved(p@),
            FsEvent::EntryRenamed { from, to } => FsEventView::EntryRenamed(from@, to@),
        }
    }
}

/// Handle on the watcher loop; [`WatcherHandle::shutdown`] asks it to stop.
pub struct WatcherHandle {
    shutdown_tx: std::sync::mpsc::Sender<()>,
}

/// `Sender::send` from std's `mpsc`: hands `()` to the receiving end. It
/// fails only when the receiver is gone, which the caller ignores; nothing
/// is stated of the outcome.
#[verifier::external_body]
fn send_unit(tx: &std::sync::mpsc::Sender<()>) {
    let _ = tx.send(());
}

impl WatcherHandle {
    /// The channel the handle signals shutdown on.
    pub closed spec fn channel(&self) -> std::sync::mpsc::Sender<()> {
        self.shutdown_tx
    }

    /// A handle that signals shutdown through `shutdown_tx`.
    pub fn new(shutdown_tx: std::sync::mpsc::Sender<()>) -> (r: Self)
        ensures
            r.channel() == shutdown_tx,
    {
        WatcherHandle { shutdown_tx }
    }

    /// Asks the watcher loop to stop; a loop that is already gone is fine.
    pub fn shutdown(&self) {
        send_unit(&self.shutdown_tx);
    }
}

/// Which side of a rename a notification reports: either, the new name,
/// the old name, both names in one notification, or something else.
#[derive(Clone, Copy, Debug, PartialEq, Eq, Structural)]
pub enum RenameMode {
    Any,
    To,
    From,
    Both,
    Other,
}

/// Kind of a raw notification, as far as the coalescing reads it.
#[derive(Clone, Copy, Debug, PartialEq, Eq, Structural)]
pub enum RawKind {
    /// A creation; `is_folder` when the notifier says a directory was made.
    Create { is_folder: bool },
    /// A rename, with the notifier's rename mode.
    Rename(RenameMode),
    /// A change of data or metadata.
    Modify,
    /// A removal.
    Remove,
    /// Access and other notifications, which are not watched.
    Other,
}

/// A raw notification: its kind and the paths it concerns.
pub struct RawEvent {
    pub kind: RawKind,
    pub paths: Vec<String>,
}

/// Pending kind of one path while notifications are coalesced.
#[derive(Debug)]
pub enum PendingKind {
    Modified,
    Created { is_dir: bool },
    Removed,
    RenamedFrom,
    RenamedTo,
    RenamedBoth { from: String },
}

/// A [`PendingKind`] with its path as a character sequence.
pub enum KindView {
    Modified,
    Created(bool),
    Removed,
    RenamedFrom,
    RenamedTo,
    RenamedBoth(Seq<char>),
}

impl View for PendingKind {
    type V = KindView;

    open spec fn view(&self) -> KindView {
        match self {
            PendingKind::Modified => KindView::Modified,
            PendingKind::Created { is_dir } => KindView::Created(*is_dir),
            PendingKind::Removed => KindView::Removed,
            PendingKind::RenamedFrom => KindView::RenamedFrom,
            PendingKind::RenamedTo => KindView::RenamedTo,
            PendingKind::RenamedBoth { from } => KindView::RenamedBoth(from@),
        }
    }
}

impl PendingKind {
    /// A copy of this kind.
    pub fn copy(&self) -> (r: Self)
        ensures
            r@ == self@,
    {
        match self {
            PendingKind::Modified => PendingKind::Modified,
            PendingKind::Created { is_dir } => PendingKind::Created { is_dir: *is_dir },
            PendingKind::Removed => PendingKind::Removed,
            PendingKind::RenamedFrom => PendingKind::RenamedFrom,
            PendingKind::RenamedTo => PendingKind::RenamedTo,
            PendingKind::RenamedBoth { from } => PendingKind::RenamedBoth { from: copy_string(from) },
        }
    }
}

/// The event that a pending kind becomes; `is_dir_on_disk` says whether the
/// path is a directory now, and is read only for a path renamed into place.
pub open spec fn fs_event_spec(path: Seq<char>, kind: KindView, is_dir_on_disk: bool) -> FsEventView {
    match kind {
        KindView::Modified => FsEventView::FileModified(path),
        KindView::Created(is_dir) => FsEventView::EntryCreated(path, is_dir),
        KindView::Removed => FsEventView::EntryRemoved(path),
        KindView::RenamedFrom => FsEventView::EntryRemoved(path),
        KindView::RenamedTo => FsEventView::EntryCreated(path, is_dir_on_disk),
        KindView::RenamedBoth(from) => FsEventView::EntryRenamed(from, path),
    }
}

/// The event a quiet pending entry is delivered as: a path renamed away is a
/// removal, a path renamed into place is a creation (of a directory when
/// `is_dir_on_disk`), a rename seen from both ends keeps both paths.
pub fn to_fs_event(path: String, kind: PendingKind, is_dir_on_disk: bool) -> (r: FsEvent)
    ensures
        r@ == fs_event_spec(path@, kind@, is_dir_on_disk),
{
    match kind {
        PendingKind::Modified => FsEvent::FileModified(path),
        PendingKind::Created { is_dir } => FsEvent::EntryCreated { path, is_dir },
        PendingKind::Removed => FsEvent::EntryRemoved(path),
        PendingKind::RenamedFrom => FsEvent::EntryRemoved(path),
        PendingKind::RenamedTo => FsEvent::EntryCreated { path, is_dir: is_dir_on_disk },
        PendingKind::RenamedBoth { from } => FsEvent::EntryRenamed { from, to: path },
    }
}

/// Pending entries keyed by path: kind and time of the last touch.
pub type PendingMap = Map<Seq<char>, (KindView, u64)>;

/// One path of a raw notification applied to the pending entries.
pub open spec fn touch_spec(m: PendingMap, kind: RawKind, p: Seq<char>, now: u64) -> PendingMap {
    if should_ignore_spec(p) {
        m
    } else {
        match kind {
            RawKind::Create { is_folder } => m.insert(p, (KindView::Created(is_folder), now)),
            RawKind::Rename(RenameMode::Both) => m,
            RawKind::Rename(RenameMode::From) => m.insert(p, (KindView::RenamedFrom, now)),
            RawKind::Rename(RenameMode::To) => m.insert(p, (KindView::RenamedTo, now)),
            RawKind::Rename(_) => m.insert(p, (KindView::Modified, now)),
            RawKind::Modify => if m.contains_key(p) && m[p].0 is Created {
                m.insert(p, (m[p].0, now))
            } else {
                m.insert(p, (KindView::Modified, now))
            },
            RawKind::Remove => m.insert(p, (KindView::Removed, now)),
            RawKind::Other => m,
        }
    }
}

/// All paths of a notification applied in order.
pub open spec fn touch_all_spec(m: PendingMap, kind: RawKind, ps: Seq<Seq<char>>, now: u64) -> PendingMap
    decreases ps.len(),
{
    if ps.len() == 0 {
        m
    } else {
        touch_spec(touch_all_spec(m, kind, ps.drop_last(), now), kind, ps.last(), now)
    }
}

/// A notification applied to the pending entries: each path in turn, then,
/// for a rename reported with both ends, the old path is dropped and the new
/// one records where it came from.
pub open spec fn process_spec(m: PendingMap, kind: RawKind, ps: Seq<Seq<char>>, now: u64) -> PendingMap {
    let m1 = touch_all_spec(m, kind, ps, now);
    if kind == RawKind::Rename(RenameMode::Both) && ps.len() == 2 && !should_ignore_spec(ps[0])
        && !should_ignore_spec(ps[1]) {
        m1.remove(ps[0]).insert(ps[1], (KindView::RenamedBoth(ps[0]), now))
    } else {
        m1
    }
}

/// An entry is ready once it has been quiet for `debounce` milliseconds.
pub open spec fn is_ready(at: u64, now: u64, debounce: u64) -> bool {
    sat_sub(now as nat, at as nat) >= debounce
}

/// One pending entry.
pub struct PendingEntry {
    pub path: String,
    pub kind: PendingKind,
    pub at: u64,
}

/// The pending entries of the watcher, at most one per path.
pub struct PendingEvents {
    entries: Vec<PendingEntry>,
}

/// The key and value an entry contributes.
pub open spec fn entry_view(e: PendingEntry) -> (Seq<char>, (KindView, u64)) {
    (e.path@, (e.kind@, e.at))
}

/// The map that a list of entries with distinct paths stands for.
pub open spec fn entries_map(es: Seq<PendingEntry>) -> PendingMap
    decreases es.len(),
{
    if es.len() == 0 {
        Map::empty()
    } else {
        entries_map(es.drop_last()).insert(es.last().path@, (es.last().kind@, es.last().at))
    }
}

/// No two entries share a path.
pub open spec fn distinct_paths(es: Seq<PendingEntry>) -> bool {
    forall|i: int, j: int| 0 <= i < es.len() && 0 <= j < es.len() && i != j ==> es[i].path@ != es[j].path@
}

proof fn lemma_map_dom(es: Seq<PendingEntry>, p: Seq<char>)
    requires
        distinct_paths(es),
    ensures
        entries_map(es).contains_key(p) <==> exists|i: int| 0 <= i < es.len() && es[i].path@ == p,
        forall|i: int| 0 <= i < es.len() && es[i].path@ == p ==> entries_map(es)[p] == (es[i].kind@, es[i].at),
    decreases es.len(),
{
    if es.len() > 0 {
        let init = es.drop_last();
        lemma_map_dom(init, p);
        if entries_map(es).contains_key(p) && es.last().path@ != p {
            let i = choose|i: int| 0 <= i < init.len() && init[i].path@ == p;
            assert(es[i].path@ == p);
        }
        if exists|i: int| 0 <= i < es.len() && es[i].path@ == p {
            let i = choose|i: int| 0 <= i < es.len() && es[i].path@ == p;
            if i < es.len() - 1 {
                assert(init[i].path@ == p);
            }
        }
        assert forall|i: int| 0 <= i < es.len() && es[i].path@ == p implies entries_map(es)[p] == (
            es[i].kind@,
            es[i].at,
        ) by {
            if i < es.len() - 1 {
                assert(init[i] == es[i]);
                assert(es.last().path@ != p);
            }
        }
    }
}

proof fn lemma_map_update(es: Seq<PendingEntry>, i: int, e: PendingEntry)
    requires
        distinct_paths(es),
        0 <= i < es.len(),
        e.path@ == es[i].path@,
    ensures
        distinct_paths(es.update(i, e)),
        entries_map(es.update(i, e)) == entries_map(es).insert(e.path@, (e.kind@, e.at)),
{
    let es2 = es.update(i, e);
    assert forall|p: Seq<char>| #[trigger] entries_map(es2).contains_key(p) == entries_map(es).insert(
        e.path@,
        (e.kind@, e.at),
    ).contains_key(p) by {
        lemma_map_dom(es, p);
        lemma_map_dom(es2, p);
        if exists|j: int| 0 <= j < es.len() && es[j].path@ == p {
            let j = choose|j: int| 0 <= j < es.len() && es[j].path@ == p;
            assert(es2[j].path@ == p);
        }
        if exists|j: int| 0 <= j < es2.len() && es2[j].path@ == p {
            let j = choose|j: int| 0 <= j < es2.len() && es2[j].path@ == p;
            assert(es[j].path@ == p);
        }
    }
    assert forall|p: Seq<char>| #[trigger] entries_map(es2).contains_key(p) implies entries_map(es2)[p]
        == entries_map(es).insert(e.path@, (e.kind@, e.at))[p] by {
        lemma_map_dom(es, p);
        lemma_map_dom(es2, p);
        let j = choose|j: int| 0 <= j < es2.len() && es2[j].path@ == p;
        if j != i {
            assert(es[j].path@ == p);
        }
    }
    assert(entries_map(es2) =~= entries_map(es).insert(e.path@, (e.kind@, e.at)));
}

proof fn lemma_map_push(es: Seq<PendingEntry>, e: PendingEntry)
    requires
        distinct_paths(es),
        forall|j: int| 0 <= j < es.len() ==> es[j].path@ != e.path@,
    ensures
        distinct_paths(es.push(e)),
        entries_map(es.push(e)) == entries_map(es).insert(e.path@, (e.kind@, e.at)),
{
    assert(es.push(e).drop_last() =~= es);
}

proof fn lemma_map_remove(es: Seq<PendingEntry>, i: int)
    requires
        distinct_paths(es),
        0 <= i < es.len(),
    ensures
        distinct_paths(es.remove(i)),
        entries_map(es.remove(i)) == entries_map(es).remove(es[i].path@),
{
    let es2 = es.remove(i);
    let q = es[i].path@;
    assert forall|a: int, b: int| 0 <= a < es2.len() && 0 <= b < es2.len() && a != b implies es2[a].path@
        != es2[b].path@ by {
        let a1 = if a < i { a } else { a + 1 };
        let b1 = if b < i { b } else { b + 1 };
        assert(es2[a] == es[a1]);
        assert(es2[b] == es[b1]);
    }
    assert forall|p: Seq<char>| #[trigger] entries_map(es2).contains_key(p) == entries_map(es).remove(
        q,
    ).contains_key(p) by {
        lemma_map_dom(es, p);
        lemma_map_dom(es2, p);
        if exists|j: int| 0 <= j < es2.len() && es2[j].path@ == p {
            let j = choose|j: int| 0 <= j < es2.len() && es2[j].path@ == p;
            let j1 = if j < i { j } else { j + 1 };
            assert(es[j1].path@ == p);
            assert(es2[j] == es[j1]);
        }
        if p != q && exists|j: int| 0 <= j < es.len() && es[j].path@ == p {
            let j = choose|j: int| 0 <= j < es.len() && es[j].path@ == p;
            let j2 = if j < i { j } else { j - 1 };
            assert(es2[j2] == es[j]);
        }
    }
    assert forall|p: Seq<char>| #[trigger] entries_map(es2).contains_key(p) implies entries_map(es2)[p]
        == entries_map(es).remove(q)[p] by {
        lemma_map_dom(es, p);
        lemma_map_dom(es2, p);
        let j = choose|j: int| 0 <= j < es2.len() && es2[j].path@ == p;
        let j1 = if j < i { j } else { j + 1 };
        assert(es2[j] == es[j1]);
    }
    assert(entries_map(es2) =~= entries_map(es).remove(q));
}

impl PendingEvents {
    /// The pending entries, keyed by path.
    pub closed spec fn view(&self) -> PendingMap {
        entries_map(self.entries@)
    }

    /// At most one entry per path.
    pub closed spec fn wf(&self) -> bool {
        distinct_paths(self.entries@)
    }

    /// No entries.
    pub fn new() -> (r: Self)
        ensures
            r.wf(),
            r.view() == Map::<Seq<char>, (KindView, u64)>::empty(),
    {
        PendingEvents { entries: Vec::new() }
    }

    /// Number of pending entries.
    pub fn len(&self) -> (r: usize)
        requires
            self.wf(),
        ensures
            r == self.view().dom().len(),
    {
        proof {
            self.lemma_len();
        }
        self.entries.len()
    }

    proof fn lemma_len(&self)
        requires
            self.wf(),
        ensures
            self.view().dom().finite(),
            self.view().dom().len() == self.entries@.len(),
    {
        lemma_len_entries(self.entries@);
    }

    fn find(&self, p: &str) -> (r: Option<usize>)
        requires
            self.wf(),
        ensures
            match r {
                None => !self.view().contains_key(p@),
                Some(i) => i < self.entries@.len() && self.entries@[i as int].path@ == p@
                    && self.view().contains_key(p@)
                    && self.view()[p@] == (self.entries@[i as int].kind@, self.entries@[i as int].at),
            },
    {
        proof {
            lemma_map_dom(self.entries@, p@);
        }
        let mut i: usize = 0;
        while i < self.entries.len()
            invariant
                i <= self.entries@.len(),
                distinct_paths(self.entries@),
                forall|j: int| 0 <= j < i ==> self.entries@[j].path@ != p@,
            decreases self.entries.len() - i,
        {
            if str_eq(self.entries[i].path.as_str(), p) {
                proof {
                    lemma_map_dom(self.entries@, p@);
                }
                return Some(i);
            }
            i = i + 1;
        }
        None
    }

    /// The pending kind and time of `p`, if any.
    pub fn get(&self, p: &str) -> (r: Option<(PendingKind, u64)>)
        requires
            self.wf(),
        ensures
            match r {
                None => !self.view().contains_key(p@),
                Some((k, at)) => self.view().contains_key(p@) && self.view()[p@] == (k@, at),
            },
    {
        match self.find(p) {
            None => None,
            Some(i) => Some((self.entries[i].kind.copy(), self.entries[i].at)),
        }
    }

    /// Sets the entry of `p` to `kind` at time `at`.
    pub fn insert(&mut self, p: &str, kind: PendingKind, at: u64)
        requires
            old(self).wf(),
        ensures
            final(self).wf(),
            final(self).view() == old(self).view().insert(p@, (kind@, at)),
    {
        let e = PendingEntry { path: lit(p), kind, at };
        let ghost ev = e;
        match self.find(p) {
            Some(i) => {
                proof {
                    lemma_map_update(self.entries@, i as int, ev);
                }
                self.entries.set(i, e);
            },
            None => {
                proof {
                    lemma_map_dom(self.entries@, p@);
                    lemma_map_push(self.entries@, ev);
                }
                self.entries.push(e);
            },
        }
    }

    /// Drops the entry of `p`, if any.
    pub fn remove(&mut self, p: &str)
        requires
            old(self).wf(),
        ensures
            final(self).wf(),
            final(self).view() == old(self).view().remove(p@),
    {
        match self.find(p) {
            Some(i) => {
                proof {
                    lemma_map_remove(self.entries@, i as int);
                }
                self.entries.remove(i);
            },
            None => {
                assert(self.view().remove(p@) =~= self.view());
            },
        }
    }

    /// Applies one path of a notification of kind `kind`, seen at `now`.
    fn touch(&mut self, kind: RawKind, p: &str, now: u64)
        requires
            old(self).wf(),
        ensures
            final(self).wf(),
            final(self).view() == touch_spec(old(self).view(), kind, p@, now),
    {
        if should_ignore(p) {
            return;
        }
        match kind {
            RawKind::Create { is_folder } => self.insert(p, PendingKind::Created { is_dir: is_folder }, now),
            RawKind::Rename(RenameMode::Both) => {},
            RawKind::Rename(RenameMode::From) => self.insert(p, PendingKind::RenamedFrom, now),
            RawKind::Rename(RenameMode::To) => self.insert(p, PendingKind::RenamedTo, now),
            RawKind::Rename(_) => self.insert(p, PendingKind::Modified, now),
            RawKind::Modify => {
                let keep = match self.get(p) {
                    Some((k, _)) => match k {
                        PendingKind::Created { is_dir } => Some(PendingKind::Created { is_dir }),
                        _ => None,
                    },
                    None => None,
                };
                match keep {
                    Some(k) => self.insert(p, k, now),
                    None => self.insert(p, PendingKind::Modified, now),
                }
            },
            RawKind::Remove => self.insert(p, PendingKind::Removed, now),
            RawKind::Other => {},
        }
    }

    /// Applies a raw notification seen at `now` (milliseconds).
    ///
    /// Ignored paths are skipped. A creation records whether a directory was
    /// made; a change never turns a pending creation into a modification; a
    /// rename reported with both ends replaces the old path's entry by one
    /// on the new path that remembers the old one.
    pub fn process_raw_event(&mut self, event: &RawEvent, now: u64)
        requires
            old(self).wf(),
        ensures
            final(self).wf(),
            final(self).view() == process_spec(
                old(self).view(),
                event.kind,
                event.paths@.map_values(|s: String| s@),
                now,
            ),
    {
        let ghost ps = event.paths@.map_values(|s: String| s@);
        let mut i: usize = 0;
        while i < event.paths.len()
            invariant
                i <= event.paths@.len(),
                ps == event.paths@.map_values(|s: String| s@),
                self.wf(),
                self.view() == touch_all_spec(old(self).view(), event.kind, ps.take(i as int), now),
            decreases event.paths.len() - i,
        {
            assert(ps.take(i + 1).drop_last() =~= ps.take(i as int));
            self.touch(event.kind, event.paths[i].as_str(), now);
            i = i + 1;
        }
        assert(ps.take(event.paths.len() as int) =~= ps);
        if event.kind == RawKind::Rename(RenameMode::Both) && event.paths.len() == 2 {
            let from = event.paths[0].as_str();
            let to = event.paths[1].as_str();
            if !should_ignore(from) && !should_ignore(to) {
                self.remove(from);
                self.insert(to, PendingKind::RenamedBoth { from: lit(from) }, now);
            }
        }
    }

    /// Takes out every entry quiet for at least `debounce` milliseconds at
    /// `now`, in the order they were first recorded, and keeps the others.
    pub fn take_ready(&mut self, now: u64, debounce: u64) -> (r: Vec<(String, PendingKind)>)
        requires
            old(self).wf(),
        ensures
            final(self).wf(),
            final(self).view() == old(self).view().restrict(
                old(self).view().dom().filter(|p: Seq<char>| !is_ready(old(self).view()[p].1, now, debounce)),
            ),
            forall|i: int| 0 <= i < r@.len() ==> {
                let p = #[trigger] r@[i].0@;
                &&& old(self).view().contains_key(p)
                &&& old(self).view()[p].0 == r@[i].1@
                &&& is_ready(old(self).view()[p].1, now, debounce)
            },
            forall|p: Seq<char>| #[trigger] old(self).view().contains_key(p) && is_ready(old(self).view()[p].1, now, debounce)
                ==> exists|i: int| 0 <= i < r@.len() && r@[i].0@ == p,
            forall|i: int, j: int| 0 <= i < j < r@.len() ==> r@[i].0@ != r@[j].0@,
    {
        let ghost es0 = self.entries@;
        let mut rest: Vec<PendingEntry> = Vec::new();
        std::mem::swap(&mut rest, &mut self.entries);
        let mut out: Vec<(String, PendingKind)> = Vec::new();
        let ghost mut i: int = 0;
        assert(es0.take(0) =~= Seq::<PendingEntry>::empty());
        assert(es0.skip(0) =~= es0);
        while rest.len() > 0
            invariant
                0 <= i <= es0.len(),
                rest@ == es0.skip(i),
                self.entries@ == kept_entries(es0.take(i), now, debounce),
                out@ == ready_entries(es0.take(i), now, debounce),
            decreases rest.len(),
        {
            let e = rest.remove(0);
            proof {
                assert(es0.take(i + 1).drop_last() =~= es0.take(i));
                assert(es0.take(i + 1).last() == e);
                assert(es0.skip(i + 1) =~= es0.skip(i).drop_first());
                i = i + 1;
            }
            if sat_sub_u64(now, e.at) >= debounce {
                out.push((e.path, e.kind));
            } else {
                self.entries.push(e);
            }
        }
        proof {
            assert(es0.take(i) =~= es0);
            lemma_kept(es0, now, debounce);
            lemma_ready(es0, now, debounce);
        }
        out
    }
}

/// The entries not yet quiet, in order.
pub open spec fn kept_entries(es: Seq<PendingEntry>, now: u64, debounce: u64) -> Seq<PendingEntry>
    decreases es.len(),
{
    if es.len() == 0 {
        Seq::empty()
    } else if is_ready(es.last().at, now, debounce) {
        kept_entries(es.drop_last(), now, debounce)
    } else {
        kept_entries(es.drop_last(), now, debounce).push(es.last())
    }
}

/// The quiet entries, as path and kind, in order.
pub open spec fn ready_entries(es: Seq<PendingEntry>, now: u64, debounce: u64) -> Seq<(String, PendingKind)>
    decreases es.len(),
{
    if es.len() == 0 {
        Seq::empty()
    } else if is_ready(es.last().at, now, debounce) {
        ready_entries(es.drop_last(), now, debounce).push((es.last().path, es.last().kind))
    } else {
        ready_entries(es.drop_last(), now, debounce)
    }
}

proof fn lemma_kept(es: Seq<PendingEntry>, now: u64, debounce: u64)
    requires
        distinct_paths(es),
    ensures
        distinct_paths(kept_entries(es, now, debounce)),
        entries_map(kept_entries(es, now, debounce)) == entries_map(es).restrict(
            entries_map(es).dom().filter(|p: Seq<char>| !is_ready(entries_map(es)[p].1, now, debounce)),
        ),
    decreases es.len(),
{
    let m = entries_map(es);
    if es.len() == 0 {
        assert(m.restrict(m.dom().filter(|p: Seq<char>| !is_ready(m[p].1, now, debounce))) =~= Map::empty());
    } else {
        let init = es.drop_last();
        let l = es.last();
        assert(distinct_paths(init));
        lemma_kept(init, now, debounce);
        let mi = entries_map(init);
        lemma_map_dom(init, l.path@);
        assert(!mi.contains_key(l.path@));
        let ki = kept_entries(init, now, debounce);
        lemma_map_dom(ki, l.path@);
        assert(!entries_map(ki).contains_key(l.path@));
        if !is_ready(l.at, now, debounce) {
            lemma_map_push(ki, l);
        }
        assert(entries_map(kept_entries(es, now, debounce)) =~= m.restrict(
            m.dom().filter(|p: Seq<char>| !is_ready(m[p].1, now, debounce)),
        ));
    }
}

proof fn lemma_ready(es: Seq<PendingEntry>, now: u64, debounce: u64)
    requires
        distinct_paths(es),
    ensures
        ({
            let r = ready_entries(es, now, debounce);
            let m = entries_map(es);
            &&& forall|i: int| 0 <= i < r.len() ==> {
                let p = #[trigger] r[i].0@;
                &&& m.contains_key(p)
                &&& m[p].0 == r[i].1@
                &&& is_ready(m[p].1, now, debounce)
            }
            &&& forall|p: Seq<char>| #[trigger] m.contains_key(p) && is_ready(m[p].1, now, debounce) ==> exists|i: int|
                0 <= i < r.len() && r[i].0@ == p
            &&& forall|i: int, j: int| 0 <= i < j < r.len() ==> r[i].0@ != r[j].0@
        }),
    decreases es.len(),
{
    if es.len() > 0 {
        let init = es.drop_last();
        let l = es.last();
        assert(distinct_paths(init));
        lemma_ready(init, now, debounce);
        let mi = entries_map(init);
        let m = entries_map(es);
        lemma_map_dom(init, l.path@);
        assert(!mi.contains_key(l.path@));
        let ri = ready_entries(init, now, debounce);
        let r = ready_entries(es, now, debounce);
        assert forall|i: int| 0 <= i < r.len() implies {
            let p = #[trigger] r[i].0@;
            &&& m.contains_key(p)
            &&& m[p].0 == r[i].1@
            &&& is_ready(m[p].1, now, debounce)
        } by {
            if i < ri.len() {
                assert(r[i] == ri[i]);
                assert(mi.contains_key(ri[i].0@));
            }
        }
        assert forall|p: Seq<char>| #[trigger] m.contains_key(p) && is_ready(m[p].1, now, debounce) implies exists|
            i: int,
        | 0 <= i < r.len() && r[i].0@ == p by {
            if p == l.path@ {
                assert(r[r.len() - 1].0@ == p);
            } else {
                assert(mi.contains_key(p));
                let i = choose|i: int| 0 <= i < ri.len() && ri[i].0@ == p;
                assert(r[i] == ri[i]);
            }
        }
        assert forall|i: int, j: int| 0 <= i < j < r.len() implies r[i].0@ != r[j].0@ by {
            if j < ri.len() {
                assert(r[i] == ri[i]);
                assert(r[j] == ri[j]);
            } else {
                assert(r[i] == ri[i]);
                assert(mi.contains_key(ri[i].0@));
            }
        }
    }
}

proof fn lemma_len_entries(es: Seq<PendingEntry>)
    requires
        distinct_paths(es),
    ensures
        entries_map(es).dom().finite(),
        entries_map(es).dom().len() == es.len(),
    decreases es.len(),
{
    if es.len() > 0 {
        let init = es.drop_last();
        assert(distinct_paths(init));
        lemma_len_entries(init);
        lemma_map_dom(init, es.last().path@);
        assert(!entries_map(init).contains_key(es.last().path@));
    }
}

/// `a - b`, or zero when `b > a`.
pub fn sat_sub_u64(a: u64, b: u64) -> (r: u64)
    ensures
        r == sat_sub(a as nat, b as nat),
{
    if a >= b {
        a - b
    } else {
        0
    }
}

/// A modification after a creation is still delivered as a creation (the
/// creation already implies new content), stamped with the later time.
pub proof fn law_modify_keeps_create(m: PendingMap, p: Seq<char>, is_folder: bool, t1: u64, t2: u64)
    requires
        !should_ignore_spec(p),
    ensures
        touch_spec(touch_spec(m, RawKind::Create { is_folder }, p, t1), RawKind::Modify, p, t2)[p] == (
            KindView::Created(is_folder),
            t2,
        ),
{
}

} // verus!
