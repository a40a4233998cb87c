//! Filesystems that are mounted when they are first needed.
//!
//! A mount point is registered with the kind of filesystem that belongs there.
//! Nothing is mounted until an operation does not find a path at or below the
//! mount point; then the filesystem is made and mounted, once, and the operation
//! is tried again.
use vstd::prelude::*;
use vstd::string::*;

use crate::error::VfsResult;
use crate::mount::FsKind;
use crate::ondemand::{ondemand_next, with_ondemand, OndemandAction, OndemandEvent};
use crate::text::same_text;

verus! {

/// A mount point with the filesystem that belongs there.
#[derive(Debug, PartialEq, Eq)]
pub struct LazyEntry {
    /// The mount point.
    pub point: String,
    /// The kind of filesystem.
    pub kind: FsKind,
    /// Whether the filesystem is still to be mounted.
    pub pending: bool,
}

/// What a [`LazyEntry`] holds.
#[verifier::ext_equal]
pub struct LazyEntryView {
    /// The mount point.
    pub point: Seq<char>,
    /// The kind of filesystem.
    pub kind: FsKind,
    /// Whether the filesystem is still to be mounted.
    pub pending: bool,
}

impl View for LazyEntry {
    type V = LazyEntryView;

    open spec fn view(&self) -> LazyEntryView {
        LazyEntryView { point: self.point@, kind: self.kind, pending: self.pending }
    }
}

/// The mount points that are served when they are needed, in the order in which
/// they were registered.
#[derive(Debug, PartialEq, Eq)]
pub struct LazyMounts {
    /// The mount points.
    pub entries: Vec<LazyEntry>,
}

impl View for LazyMounts {
    type V = Seq<LazyEntryView>;

    open spec fn view(&self) -> Seq<LazyEntryView> {
        self.entries@.map_values(|e: LazyEntry| e@)
    }
}

/// The path is the mount point or lies below it.
pub open spec fn covers(point: Seq<char>, path: Seq<char>) -> bool {
    &&& point.len() <= path.len()
    &&& path.take(point.len() as int) == point
    &&& {
        ||| path.len() == point.len()
        ||| path[point.len() as int] == '/'
        ||| point.len() > 0 && point.last() == '/'
    }
}

/// What lies at or below a mount point: the point itself, and what is made of it
/// by a slash and anything; behind a slash that ends the point, anything. A path
/// that merely starts with the same letters does not, nor does one that does not
/// start with the point.
pub proof fn law_covers(point: Seq<char>, rest: Seq<char>, c: char, path: Seq<char>)
    ensures
        covers(point, point),
        covers(point, point.push('/') + rest),
        covers(point.push('/'), point.push('/') + rest),
        c != '/' && (point.len() == 0 || point.last() != '/') ==> !covers(
            point,
            point.push(c) + rest,
        ),
        covers(point, path) ==> point.len() <= path.len(),
        covers(point, path) ==> forall|i: int| 0 <= i < point.len() ==> path[i] == point[i],
{
    assert(point.take(point.len() as int) =~= point);
    assert((point.push('/') + rest).take(point.len() as int) =~= point);
    assert((point.push('/') + rest).take(point.push('/').len() as int) =~= point.push('/'));
    if covers(point, path) {
        assert forall|i: int| 0 <= i < point.len() implies path[i] == point[i] by {
            assert(path.take(point.len() as int)[i] == path[i]);
        }
    }
}

/// The entry is still to be mounted, and the path needs it.
pub open spec fn wanted(entry: LazyEntryView, path: Seq<char>) -> bool {
    entry.pending && covers(entry.point, path)
}

/// The place of the first entry that the path needs.
pub open spec fn wanted_place(entries: Seq<LazyEntryView>, path: Seq<char>) -> Option<int>
    decreases entries.len(),
{
    if entries.len() == 0 {
        None
    } else {
        match wanted_place(entries.drop_last(), path) {
            Some(i) => Some(i),
            None => if wanted(entries.last(), path) {
                Some(entries.len() - 1)
            } else {
                None
            },
        }
    }
}

/// The mount point is registered, whether it has been served or not.
pub open spec fn registered_point(entries: Seq<LazyEntryView>, point: Seq<char>) -> bool {
    exists|i: int| 0 <= i < entries.len() && (#[trigger] entries[i]).point == point
}

/// No mount point is registered twice.
pub open spec fn points_distinct(entries: Seq<LazyEntryView>) -> bool {
    forall|i: int, j: int|
        0 <= i < j < entries.len() ==> (#[trigger] entries[i]).point != (
        #[trigger] entries[j]).point
}

/// The mount points after one was registered. One that is registered already
/// stays as it is.
pub open spec fn with_point(
    entries: Seq<LazyEntryView>,
    point: Seq<char>,
    kind: FsKind,
) -> Seq<LazyEntryView> {
    if registered_point(entries, point) {
        entries
    } else {
        entries.push(LazyEntryView { point, kind, pending: true })
    }
}

/// The mount points after the one that the path needs, if any, was taken to be
/// served.
pub open spec fn after_taking(entries: Seq<LazyEntryView>, path: Seq<char>) -> Seq<LazyEntryView> {
    match wanted_place(entries, path) {
        Some(i) => entries.update(i, LazyEntryView { pending: false, ..entries[i] }),
        None => entries,
    }
}

/// What the path needs to have mounted.
pub open spec fn taken_for(entries: Seq<LazyEntryView>, path: Seq<char>) -> Option<
    (Seq<char>, FsKind),
> {
    match wanted_place(entries, path) {
        Some(i) => Some((entries[i].point, entries[i].kind)),
        None => None,
    }
}

/// The first entry that a path needs is needed, and none before it is; where
/// there is no first one, no entry is needed.
pub proof fn law_wanted_place_is_first(entries: Seq<LazyEntryView>, path: Seq<char>)
    ensures
        match wanted_place(entries, path) {
            Some(i) => {
                &&& 0 <= i < entries.len()
                &&& wanted(entries[i], path)
                &&& forall|k: int| 0 <= k < i ==> !wanted(#[trigger] entries[k], path)
            },
            None => forall|k: int| 0 <= k < entries.len() ==> !wanted(#[trigger] entries[k], path),
        },
    decreases entries.len(),
{
    if entries.len() > 0 {
        let front = entries.drop_last();
        law_wanted_place_is_first(front, path);
        assert forall|k: int| 0 <= k < front.len() implies #[trigger] entries[k] == front[k] by {}
    }
}

/// What a path takes: of the entries that are still to be mounted and at or above
/// the path, the first, with its own point and kind; nothing if there is none.
pub proof fn law_what_is_taken(entries: Seq<LazyEntryView>, path: Seq<char>, i: int)
    requires
        0 <= i < entries.len(),
        entries[i].pending,
        covers(entries[i].point, path),
        forall|k: int|
            0 <= k < i ==> !((#[trigger] entries[k]).pending && covers(entries[k].point, path)),
    ensures
        taken_for(entries, path) == Some((entries[i].point, entries[i].kind)),
        ({
            let after = after_taking(entries, path);
            &&& after.len() == entries.len()
            &&& !after[i].pending
            &&& after[i].point == entries[i].point
            &&& after[i].kind == entries[i].kind
            &&& forall|k: int|
                0 <= k < entries.len() && k != i ==> #[trigger] after[k] == entries[k]
        }),
{
    law_wanted_place_is_first(entries, path);
    assert(wanted(entries[i], path));
    let place = wanted_place(entries, path)->0;
    assert(wanted(entries[place], path));
}

/// Where no entry is still to be mounted at or above the path, nothing is taken
/// and nothing changes.
pub proof fn law_nothing_is_taken(entries: Seq<LazyEntryView>, path: Seq<char>)
    requires
        forall|k: int|
            0 <= k < entries.len() ==> !((#[trigger] entries[k]).pending && covers(
                entries[k].point,
                path,
            )),
    ensures
        taken_for(entries, path) is None,
        after_taking(entries, path) == entries,
{
    law_wanted_place_is_first(entries, path);
}

/// Registering a mount point puts it last, still to be mounted, if it was not
/// registered; those that were stay as they are in any case.
pub proof fn law_registering(
    entries: Seq<LazyEntryView>,
    point: Seq<char>,
    kind: FsKind,
    i: int,
)
    ensures
        ({
            let after = with_point(entries, point, kind);
            let known = exists|k: int|
                0 <= k < entries.len() && (#[trigger] entries[k]).point == point;
            &&& 0 <= i < entries.len() ==> after[i] == entries[i]
            &&& known ==> after.len() == entries.len()
            &&& !known ==> after.len() == entries.len() + 1
            &&& !known ==> after.last().point == point
            &&& !known ==> after.last().kind == kind
            &&& !known ==> after.last().pending
            &&& registered_point(after, point)
        }),
{
    let after = with_point(entries, point, kind);
    if !registered_point(entries, point) {
        assert(after[entries.len() as int].point == point);
    }
}

/// What the mount points are seen to hold is what they hold.
pub proof fn law_lazy_views(lazy: LazyMounts, i: int)
    ensures
        lazy@.len() == lazy.entries@.len(),
        0 <= i < lazy.entries@.len() ==> lazy@[i].point == lazy.entries@[i].point@,
        0 <= i < lazy.entries@.len() ==> lazy@[i].kind == lazy.entries@[i].kind,
        0 <= i < lazy.entries@.len() ==> lazy@[i].pending == lazy.entries@[i].pending,
{
}

/// A registered mount point is served at the first access at or below it, if no
/// mount point registered before it wants the path too.
pub proof fn law_first_access_is_served(
    entries: Seq<LazyEntryView>,
    point: Seq<char>,
    kind: FsKind,
    path: Seq<char>,
)
    requires
        !registered_point(entries, point),
        covers(point, path),
        forall|k: int| 0 <= k < entries.len() ==> !wanted(#[trigger] entries[k], path),
    ensures
        taken_for(with_point(entries, point, kind), path) == Some((point, kind)),
{
    let all = with_point(entries, point, kind);
    law_wanted_place_is_first(entries, path);
    assert(all.drop_last() =~= entries);
}

/// A mount point is served at most once: once it has been taken, no access takes
/// it again, and no registration brings it back. Where no other mount point wants
/// the path, a second access to it takes nothing.
pub proof fn law_served_at_most_once(
    entries: Seq<LazyEntryView>,
    path: Seq<char>,
    again: Seq<char>,
    point: Seq<char>,
    kind: FsKind,
)
    requires
        points_distinct(entries),
        taken_for(entries, path) is Some,
    ensures
        ({
            let (served, _) = taken_for(entries, path)->0;
            let after = after_taking(entries, path);
            let later = with_point(after, point, kind);
            &&& points_distinct(after)
            &&& points_distinct(later)
            &&& registered_point(after, served)
            &&& taken_for(after, again) matches Some((p, _)) ==> p != served
            &&& taken_for(later, again) matches Some((p, _)) ==> p != served
            &&& (forall|k: int|
                0 <= k < entries.len() && entries[k].point != served ==> !wanted(
                    #[trigger] entries[k],
                    again,
                )) ==> taken_for(after, again) is None
        }),
{
    law_wanted_place_is_first(entries, path);
    let i = wanted_place(entries, path)->0;
    let served = entries[i].point;
    let after = after_taking(entries, path);
    let later = with_point(after, point, kind);
    assert(after[i].point == served && !after[i].pending);
    assert forall|k: int| 0 <= k < after.len() implies (#[trigger] after[k]).point
        == entries[k].point && (k != i ==> after[k] == entries[k]) by {}
    lemma_with_point_distinct(after, point, kind);
    law_wanted_place_is_first(after, again);
    law_wanted_place_is_first(later, again);
    assert(later[i] == after[i]);
}

/// Registering a mount point keeps the mount points distinct.
proof fn lemma_with_point_distinct(entries: Seq<LazyEntryView>, point: Seq<char>, kind: FsKind)
    requires
        points_distinct(entries),
    ensures
        points_distinct(with_point(entries, point, kind)),
{
    let all = with_point(entries, point, kind);
    assert forall|i: int, j: int| 0 <= i < j < all.len() implies (#[trigger] all[i]).point != (
    #[trigger] all[j]).point by {
        assert(all[i] == entries[i]);
        if j < entries.len() {
            assert(all[j] == entries[j]);
        }
    }
}

/// An entry found in the front of a list is the one found in the whole list.
proof fn lemma_wanted_in_prefix(entries: Seq<LazyEntryView>, path: Seq<char>, n: int)
    requires
        0 <= n <= entries.len(),
        wanted_place(entries.take(n), path) is Some,
    ensures
        wanted_place(entries, path) == wanted_place(entries.take(n), path),
    decreases entries.len() - n,
{
    if n < entries.len() {
        assert(entries.take(n + 1).drop_last() =~= entries.take(n));
        lemma_wanted_in_prefix(entries, path, n + 1);
    } else {
        assert(entries.take(n) =~= entries);
    }
}

/// Whether the path is the mount point or lies below it.
fn is_covered(point: &str, path: &str) -> (covered: bool)
    ensures
        covered == covers(point@, path@),
{
    let n: usize = point.unicode_len();
    let len: usize = path.unicode_len();
    if n > len {
        return false;
    }
    let mut i: usize = 0;
    while i < n
        invariant
            i <= n,
            n == point@.len(),
            n <= path@.len(),
            forall|k: int| 0 <= k < i ==> point@[k] == path@[k],
        decreases n - i,
    {
        if point.get_char(i) != path.get_char(i) {
            assert(path@.take(n as int)[i as int] != point@[i as int]);
            return false;
        }
        i = i + 1;
    }
    assert(path@.take(n as int) =~= point@);
    n == len || path.get_char(n) == '/' || (n > 0 && point.get_char(n - 1) == '/')
}

impl LazyMounts {
    /// No mount point is registered twice.
    pub open spec fn wf(&self) -> bool {
        points_distinct(self@)
    }

    /// No mount point is registered.
    pub fn new() -> (lazy: LazyMounts)
        ensures
            lazy@ == Seq::<LazyEntryView>::empty(),
            lazy.wf(),
    {
        let lazy = LazyMounts { entries: Vec::new() };
        assert(lazy@ =~= Seq::<LazyEntryView>::empty());
        lazy
    }
}

/// Whether a mount point is registered.
pub fn is_registered(lazy: &LazyMounts, point: &str) -> (found: bool)
    ensures
        found == registered_point(lazy@, point@),
{
    let mut i: usize = 0;
    while i < lazy.entries.len()
        invariant
            i <= lazy.entries@.len(),
            forall|k: int| 0 <= k < i ==> (#[trigger] lazy@[k]).point != point@,
        decreases lazy.entries@.len() - i,
    {
        assert(lazy@[i as int] == lazy.entries@[i as int]@);
        if same_text(lazy.entries[i].point.as_str(), point) {
            return true;
        }
        i = i + 1;
    }
    assert(lazy@.len() == lazy.entries@.len());
    false
}

/// Registers a mount point. The filesystem is not made yet.
pub fn register(lazy: &mut LazyMounts, point: &str, kind: FsKind)
    requires
        old(lazy).wf(),
    ensures
        final(lazy).wf(),
        final(lazy)@ == with_point(old(lazy)@, point@, kind),
{
    proof {
        lemma_with_point_distinct(lazy@, point@, kind);
    }
    if is_registered(lazy, point) {
        return;
    }
    let ghost before = lazy@;
    lazy.entries.push(LazyEntry { point: point.to_owned(), kind, pending: true });
    assert(lazy@ =~= before.push(LazyEntryView { point: point@, kind, pending: true }));
}

/// Takes what the path needs to have mounted, if anything: it is not given out
/// again.
pub fn take_pending_for(lazy: &mut LazyMounts, path: &str) -> (taken: Option<(String, FsKind)>)
    requires
        old(lazy).wf(),
    ensures
        final(lazy).wf(),
        final(lazy)@ == after_taking(old(lazy)@, path@),
        match taken {
            Some((point, kind)) => taken_for(old(lazy)@, path@) == Some((point@, kind)),
            None => taken_for(old(lazy)@, path@) is None,
        },
{
    let ghost before = lazy@;
    let mut i: usize = 0;
    assert(before.take(0) =~= Seq::<LazyEntryView>::empty());
    while i < lazy.entries.len()
        invariant
            i <= lazy.entries@.len(),
            lazy@ == before,
            before == old(lazy)@,
            points_distinct(before),
            wanted_place(before.take(i as int), path@) is None,
        decreases lazy.entries@.len() - i,
    {
        assert(before.take(i + 1).drop_last() =~= before.take(i as int));
        assert(before[i as int] == lazy.entries@[i as int]@);
        if lazy.entries[i].pending && is_covered(lazy.entries[i].point.as_str(), path) {
            proof {
                lemma_wanted_in_prefix(before, path@, i + 1);
            }
            let point: String = lazy.entries[i].point.clone();
            let kind: FsKind = lazy.entries[i].kind;
            lazy.entries[i] = LazyEntry { point: point.clone(), kind, pending: false };
            assert(lazy@ =~= after_taking(before, path@));
            return Some((point, kind));
        }
        i = i + 1;
    }
    assert(before.take(i as int) =~= before);
    None
}

/// What happened while the filesystem that a path needs is being mounted.
#[derive(Debug, Clone, Copy, PartialEq, Eq)]
pub enum LazyEvent {
    /// The path was not found.
    Start,
    /// The filesystem was mounted.
    Mounted(VfsResult<()>),
}

/// What to do next to have mounted what a path needs.
#[derive(Debug, PartialEq, Eq)]
pub enum LazyAction {
    /// Mount a filesystem of this kind here.
    Mount(String, FsKind),
    /// Whether something was mounted.
    Return(bool),
}

/// Mounts what a path needs, and tells whether that was done. A filesystem that
/// cannot be mounted is not tried again.
pub fn try_lazy_mount(lazy: &mut LazyMounts, path: &str, event: LazyEvent) -> (action: LazyAction)
    requires
        old(lazy).wf(),
    ensures
        final(lazy).wf(),
        match event {
            LazyEvent::Start => {
                &&& final(lazy)@ == after_taking(old(lazy)@, path@)
                &&& match taken_for(old(lazy)@, path@) {
                    Some((point, kind)) => action matches LazyAction::Mount(p, k) && p@ == point
                        && k == kind,
                    None => action == LazyAction::Return(false),
                }
            },
            LazyEvent::Mounted(result) => {
                &&& final(lazy)@ == old(lazy)@
                &&& action == LazyAction::Return(result is Ok)
            },
        },
{
    match event {
        LazyEvent::Start => match take_pending_for(lazy, path) {
            Some((point, kind)) => LazyAction::Mount(point, kind),
            None => LazyAction::Return(false),
        },
        LazyEvent::Mounted(result) => LazyAction::Return(result.is_ok()),
    }
}

/// Runs an operation on a path that may need a filesystem mounted first. If it
/// fails with `NotFound` and [`try_lazy_mount`] mounts something, it is tried
/// again, once; any other result is final.
pub fn with_fs_lazy<R>(event: OndemandEvent<R>) -> (action: OndemandAction<R>)
    ensures
        action == ondemand_next(event),
{
    with_ondemand(event)
}

} // verus!
