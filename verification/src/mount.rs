//! Setting up the tree of mounted filesystems.
//!
//! What has to be done stands here; whoever drives these functions performs
//! each action on the filesystem and reports what came of it.
use vstd::prelude::*;
use vstd::string::*;

use crate::error::VfsResult;
use crate::path::{components, joined, path_push, pushed, way, way_to};
use crate::text::texts;

verus! {

/// The permissions of a directory that is made on the way.
pub const DIR_PERMISSION: u16 = 0o755;

/// How much of a file is read at once.
pub const READ_CHUNK: usize = 4096;

/// Where procfs is mounted.
pub const PROC_MOUNT_POINT: &'static str = "/proc";

/// A kind of filesystem.
#[derive(Debug, Clone, Copy, PartialEq, Eq, Structural)]
pub enum FsKind {
    /// Device nodes.
    DevFs,
    /// Files in memory.
    MemoryFs,
    /// Kernel internals.
    DebugFs,
    /// Processes.
    ProcFs,
}

/// A file that is read from its start to its end.
#[derive(Debug, PartialEq, Eq)]
pub struct FileReader {
    /// What has been read.
    pub data: Vec<u8>,
}

/// Where the reading of a file stands.
#[derive(Debug, PartialEq, Eq)]
pub enum ReadStep {
    /// Read on, from the offset.
    ReadAt(FileReader),
    /// The file has been read, or could not be.
    Done(VfsResult<Vec<u8>>),
}

impl FileReader {
    /// Nothing has been read.
    pub fn new() -> (reader: FileReader)
        ensures
            reader.data@ == Seq::<u8>::empty(),
    {
        FileReader { data: Vec::new() }
    }

    /// Where to read next.
    pub fn offset(&self) -> (offset: u64)
        ensures
            offset == self.data@.len(),
    {
        self.data.len() as u64
    }

    /// Takes what was read at the offset. A read that gives nothing is the end
    /// of the file.
    pub fn take(self, chunk: VfsResult<Vec<u8>>) -> (step: ReadStep)
        ensures
            match chunk {
                Err(e) => step == ReadStep::Done(Err(e)),
                Ok(bytes) => if bytes@.len() == 0 {
                    &&& step matches ReadStep::Done(Ok(data))
                    &&& data@ == self.data@
                } else {
                    &&& step matches ReadStep::ReadAt(reader)
                    &&& reader.data@ == self.data@ + bytes@
                    &&& reader.data@.len() == self.data@.len() + bytes@.len()
                    &&& reader.data@.take(self.data@.len() as int) == self.data@
                    &&& reader.data@.skip(self.data@.len() as int) == bytes@
                },
            },
    {
        match chunk {
            Err(e) => ReadStep::Done(Err(e)),
            Ok(bytes) => {
                if bytes.len() == 0 {
                    return ReadStep::Done(Ok(self.data));
                }
                let mut data: Vec<u8> = self.data;
                let ghost before = data@;
                data.extend_from_slice(bytes.as_slice());
                assert(data@.take(before.len() as int) =~= before);
                assert(data@.skip(before.len() as int) =~= bytes@);
                ReadStep::ReadAt(FileReader { data })
            },
        }
    }
}

/// What a read at `at` gives of a file with these contents, if it gives `n` bytes.
pub open spec fn file_chunk(contents: Seq<u8>, at: int, n: int) -> Seq<u8> {
    contents.subrange(at, at + n)
}

/// Reads that go on where the last one ended gather the file from its start,
/// and one that gives nothing at the end of the file leaves the whole of it.
pub proof fn law_whole_file_is_read(contents: Seq<u8>, at: int, n: int)
    requires
        0 <= at,
        0 <= n,
        at + n <= contents.len(),
    ensures
        contents.take(at) + file_chunk(contents, at, n) == contents.take(at + n),
        at == contents.len() ==> contents.take(at) == contents,
{
    assert(contents.take(at) + file_chunk(contents, at, n) =~= contents.take(at + n));
    assert(at == contents.len() ==> contents.take(at) =~= contents);
}

/// What happened while a filesystem is being mounted.
#[derive(Debug, Clone, Copy, PartialEq, Eq)]
pub enum MountEvent {
    /// The mount was asked for.
    Start,
    /// The mount point was looked for: whether it is there.
    Probed(bool),
    /// The mount point was made.
    DirMade(VfsResult<()>),
    /// The mount point was resolved.
    Resolved(VfsResult<()>),
    /// The filesystem was mounted on it.
    Mounted(VfsResult<()>),
}

/// What to do next to mount a filesystem.
#[derive(Debug, Clone, Copy, PartialEq, Eq)]
pub enum MountAction {
    /// Look whether the mount point is there.
    Probe,
    /// Make a directory there, with these permissions.
    MakeDir(u16),
    /// Resolve the mount point.
    Resolve,
    /// Mount the filesystem on what was resolved.
    Mount,
    /// The mount is over.
    Return(VfsResult<()>),
}

/// What to do next to mount a filesystem.
pub open spec fn mount_next(event: MountEvent) -> MountAction {
    match event {
        MountEvent::Start => MountAction::Probe,
        MountEvent::Probed(there) => if there {
            MountAction::Resolve
        } else {
            MountAction::MakeDir(DIR_PERMISSION)
        },
        MountEvent::DirMade(Ok(_)) => MountAction::Resolve,
        MountEvent::DirMade(Err(e)) => MountAction::Return(Err(e)),
        MountEvent::Resolved(Ok(_)) => MountAction::Mount,
        MountEvent::Resolved(Err(e)) => MountAction::Return(Err(e)),
        MountEvent::Mounted(result) => MountAction::Return(result),
    }
}

/// Mounts a filesystem: the mount point is made if it is not there.
pub fn mount_at(event: MountEvent) -> (action: MountAction)
    ensures
        action == mount_next(event),
{
    match event {
        MountEvent::Start => MountAction::Probe,
        MountEvent::Probed(there) => if there {
            MountAction::Resolve
        } else {
            MountAction::MakeDir(DIR_PERMISSION)
        },
        MountEvent::DirMade(made) => match made {
            Ok(_) => MountAction::Resolve,
            Err(e) => MountAction::Return(Err(e)),
        },
        MountEvent::Resolved(resolved) => match resolved {
            Ok(_) => MountAction::Mount,
            Err(e) => MountAction::Return(Err(e)),
        },
        MountEvent::Mounted(result) => MountAction::Return(result),
    }
}

/// What comes of a mount: `there` says whether the mount point is found at
/// first, and the others what making, resolving and mounting it give.
pub open spec fn mount_result(
    there: bool,
    made: VfsResult<()>,
    resolved: VfsResult<()>,
    mounted: VfsResult<()>,
) -> VfsResult<()> {
    if !there && made is Err {
        made
    } else if resolved is Err {
        resolved
    } else {
        mounted
    }
}

/// Following the actions of [`mount_at`] to the end gives the first error, or
/// the result of the mount itself; a mount point that is there is not made.
pub proof fn law_mount_runs_to_its_end(
    there: bool,
    made: VfsResult<()>,
    resolved: VfsResult<()>,
    mounted: VfsResult<()>,
)
    ensures
        ({
            let resolve_on = match mount_next(MountEvent::Resolved(resolved)) {
                MountAction::Mount => mount_next(MountEvent::Mounted(mounted)),
                end => end,
            };
            let end = match mount_next(MountEvent::Probed(there)) {
                MountAction::MakeDir(_) => match mount_next(MountEvent::DirMade(made)) {
                    MountAction::Resolve => resolve_on,
                    end => end,
                },
                _ => resolve_on,
            };
            &&& end == MountAction::Return(mount_result(there, made, resolved, mounted))
            &&& !there && made is Err ==> end == MountAction::Return(made)
            &&& (there || made is Ok) && resolved is Err ==> end == MountAction::Return(resolved)
            &&& (there || made is Ok) && resolved is Ok ==> end == MountAction::Return(mounted)
        }),
        mount_next(MountEvent::Probed(false)) == MountAction::MakeDir(0o755),
        mount_next(MountEvent::Start) == MountAction::Probe,
        there ==> mount_next(MountEvent::Probed(there)) == MountAction::Resolve,
{
}

/// What happened while a directory is being provided.
#[derive(Debug, Clone, Copy, PartialEq, Eq)]
pub enum EnsureEvent {
    /// The directory was asked for.
    Start,
    /// It was looked for: whether it is there.
    Probed(bool),
    /// It was made.
    DirMade(VfsResult<()>),
}

/// What to do next to provide a directory.
#[derive(Debug, Clone, Copy, PartialEq, Eq)]
pub enum EnsureAction {
    /// Look whether it is there.
    Probe,
    /// Make it, with these permissions.
    MakeDir(u16),
    /// It is there, or could not be made.
    Return(VfsResult<()>),
}

/// Provides a directory: it is made if it is not there.
pub fn ensure_dir(event: EnsureEvent) -> (action: EnsureAction)
    ensures
        action == (match event {
            EnsureEvent::Start => EnsureAction::Probe,
            EnsureEvent::Probed(there) => if there {
                EnsureAction::Return(Ok(()))
            } else {
                EnsureAction::MakeDir(DIR_PERMISSION)
            },
            EnsureEvent::DirMade(made) => EnsureAction::Return(made),
        }),
{
    match event {
        EnsureEvent::Start => EnsureAction::Probe,
        EnsureEvent::Probed(there) => if there {
            EnsureAction::Return(Ok(()))
        } else {
            EnsureAction::MakeDir(DIR_PERMISSION)
        },
        EnsureEvent::DirMade(made) => EnsureAction::Return(made),
    }
}

/// A step on the way to the full tree.
#[derive(Debug, PartialEq, Eq)]
pub enum MountStep {
    /// Read the kernel's symbols from this file and publish them.
    LoadSymbols(String),
    /// Mount a filesystem of this kind here.
    Mount(String, FsKind),
    /// Have a filesystem of this kind mounted here when it is first needed.
    RegisterLazy(String, FsKind),
    /// Provide this directory.
    EnsureDir(String),
    /// Make a symbolic link to the first path at the second.
    Symlink(String, String),
    /// Fill the tree of devices and drivers.
    InitSysfs,
    /// Bind the log device.
    BindDevLog,
}

/// What a [`MountStep`] holds.
#[verifier::ext_equal]
pub enum MountStepView {
    /// Read the kernel's symbols from this file and publish them.
    LoadSymbols(Seq<char>),
    /// Mount a filesystem of this kind here.
    Mount(Seq<char>, FsKind),
    /// Have a filesystem of this kind mounted here when it is first needed.
    RegisterLazy(Seq<char>, FsKind),
    /// Provide this directory.
    EnsureDir(Seq<char>),
    /// Make a symbolic link to the first path at the second.
    Symlink(Seq<char>, Seq<char>),
    /// Fill the tree of devices and drivers.
    InitSysfs,
    /// Bind the log device.
    BindDevLog,
}

impl View for MountStep {
    type V = MountStepView;

    open spec fn view(&self) -> MountStepView {
        match self {
            MountStep::LoadSymbols(path) => MountStepView::LoadSymbols(path@),
            MountStep::Mount(path, kind) => MountStepView::Mount(path@, *kind),
            MountStep::RegisterLazy(path, kind) => MountStepView::RegisterLazy(path@, *kind),
            MountStep::EnsureDir(path) => MountStepView::EnsureDir(path@),
            MountStep::Symlink(target, link) => MountStepView::Symlink(target@, link@),
            MountStep::InitSysfs => MountStepView::InitSysfs,
            MountStep::BindDevLog => MountStepView::BindDevLog,
        }
    }
}

/// What a [`MountStep`] is seen to hold is what it holds.
pub proof fn law_mount_step_view(a: String, b: String, kind: FsKind)
    ensures
        MountStep::LoadSymbols(a)@ == MountStepView::LoadSymbols(a@),
        MountStep::Mount(a, kind)@ == MountStepView::Mount(a@, kind),
        MountStep::RegisterLazy(a, kind)@ == MountStepView::RegisterLazy(a@, kind),
        MountStep::EnsureDir(a)@ == MountStepView::EnsureDir(a@),
        MountStep::Symlink(a, b)@ == MountStepView::Symlink(a@, b@),
        MountStep::InitSysfs@ == MountStepView::InitSysfs,
        MountStep::BindDevLog@ == MountStepView::BindDevLog,
{
}

/// What a list of steps holds.
pub open spec fn step_views(steps: Seq<MountStep>) -> Seq<MountStepView> {
    steps.map_values(|s: MountStep| s@)
}

/// The steps that provide a directory and all those above it.
pub open spec fn ensure_steps(path: Seq<char>) -> Seq<MountStepView> {
    way_to(path).map_values(|p: Seq<char>| MountStepView::EnsureDir(p))
}

/// A directory is provided by providing everything on the way to it, one after
/// the other and nothing else.
pub proof fn law_ensure_steps(path: Seq<char>, i: int)
    ensures
        ensure_steps(path).len() == way_to(path).len(),
        0 <= i < way_to(path).len() ==> ensure_steps(path)[i] == MountStepView::EnsureDir(
            way_to(path)[i],
        ),
{
}

/// All steps to the full tree, in their order.
pub open spec fn mount_plan(dev_log: bool) -> Seq<MountStepView> {
    let fb = "/sys/class/graphics/fb0/device"@;
    let debug = "/sys/kernel/debug"@;
    seq![
        MountStepView::LoadSymbols("/root/kallsyms"@),
        MountStepView::Mount("/dev"@, FsKind::DevFs),
        MountStepView::Mount("/dev/shm"@, FsKind::MemoryFs),
        MountStepView::Mount("/tmp"@, FsKind::MemoryFs),
        MountStepView::RegisterLazy(PROC_MOUNT_POINT@, FsKind::ProcFs),
        MountStepView::Mount("/sys"@, FsKind::MemoryFs),
    ] + ensure_steps(fb) + seq![
        MountStepView::Symlink("whatever"@, pushed(joined(components(fb)), "subsystem"@)),
        MountStepView::InitSysfs,
    ] + ensure_steps(debug) + seq![MountStepView::Mount(debug, FsKind::DebugFs)] + (if dev_log {
        seq![MountStepView::BindDevLog]
    } else {
        Seq::empty()
    })
}

/// Procfs is not mounted on the way, but registered to be mounted when it is
/// first needed.
pub proof fn law_procfs_waits_for_first_access(dev_log: bool)
    ensures
        mount_plan(dev_log).contains(
            MountStepView::RegisterLazy(PROC_MOUNT_POINT@, FsKind::ProcFs),
        ),
        forall|i: int|
            0 <= i < mount_plan(dev_log).len() ==> match #[trigger] mount_plan(dev_log)[i] {
                MountStepView::Mount(_, kind) => kind != FsKind::ProcFs,
                _ => true,
            },
{
    let plan = mount_plan(dev_log);
    let fb = ensure_steps("/sys/class/graphics/fb0/device"@);
    let debug = ensure_steps("/sys/kernel/debug"@);
    assert(plan[4] == MountStepView::RegisterLazy(PROC_MOUNT_POINT@, FsKind::ProcFs));
    assert forall|i: int| 0 <= i < plan.len() implies match #[trigger] plan[i] {
        MountStepView::Mount(_, kind) => kind != FsKind::ProcFs,
        _ => true,
    } by {
        if 6 <= i < 6 + fb.len() {
            assert(plan[i] == fb[i - 6]);
        } else if 8 + fb.len() <= i < 8 + fb.len() + debug.len() {
            assert(plan[i] == debug[i - 8 - fb.len()]);
        }
    }
}

/// Adds the steps that provide a directory and all those above it, and gives
/// its path.
fn put_ensure_steps(steps: &mut Vec<MountStep>, path: &str) -> (end: String)
    ensures
        step_views(final(steps)@) == step_views(old(steps)@) + ensure_steps(path@),
        end@ == joined(components(path@)),
{
    let dirs: Vec<String> = way(path);
    let ghost before = step_views(steps@);
    let ghost all = ensure_steps(path@);
    let mut end: String = String::new();
    let mut i: usize = 0;
    assert(step_views(steps@) =~= before + all.take(0));
    assert(end@ =~= joined(components(path@).take(0)));
    while i < dirs.len()
        invariant
            i <= dirs@.len(),
            texts(dirs@) == way_to(path@),
            all == ensure_steps(path@),
            step_views(steps@) == before + all.take(i as int),
            end@ == joined(components(path@).take(i as int)),
        decreases dirs@.len() - i,
    {
        let ghost steps_before = steps@;
        assert(texts(dirs@)[i as int] == dirs@[i as int]@);
        end = dirs[i].clone();
        steps.push(MountStep::EnsureDir(dirs[i].clone()));
        proof {
            assert(step_views(steps@) =~= step_views(steps_before).push(
                MountStepView::EnsureDir(dirs@[i as int]@),
            ));
            assert(all[i as int] == MountStepView::EnsureDir(dirs@[i as int]@));
            assert(before + all.take(i + 1) =~= (before + all.take(i as int)).push(all[i as int]));
        }
        i = i + 1;
    }
    assert(texts(dirs@).len() == dirs@.len());
    assert(all.take(i as int) =~= all);
    assert(components(path@).take(i as int) =~= components(path@));
    end
}

/// Gives all steps to the full tree, in their order.
pub fn mount_steps(dev_log: bool) -> (steps: Vec<MountStep>)
    ensures
        step_views(steps@) == mount_plan(dev_log),
{
    let mut steps: Vec<MountStep> = Vec::new();
    steps.push(MountStep::LoadSymbols("/root/kallsyms".to_owned()));
    steps.push(MountStep::Mount("/dev".to_owned(), FsKind::DevFs));
    steps.push(MountStep::Mount("/dev/shm".to_owned(), FsKind::MemoryFs));
    steps.push(MountStep::Mount("/tmp".to_owned(), FsKind::MemoryFs));
    steps.push(MountStep::RegisterLazy(PROC_MOUNT_POINT.to_owned(), FsKind::ProcFs));
    steps.push(MountStep::Mount("/sys".to_owned(), FsKind::MemoryFs));
    let ghost a = step_views(steps@);
    let fb: String = put_ensure_steps(&mut steps, "/sys/class/graphics/fb0/device");
    let ghost b = step_views(steps@);
    let link: String = path_push(fb.as_str(), "subsystem");
    steps.push(MountStep::Symlink("whatever".to_owned(), link));
    steps.push(MountStep::InitSysfs);
    let ghost c = step_views(steps@);
    assert(c =~= b + seq![
        MountStepView::Symlink("whatever"@, link@),
        MountStepView::InitSysfs,
    ]);
    put_ensure_steps(&mut steps, "/sys/kernel/debug");
    let ghost d = step_views(steps@);
    steps.push(MountStep::Mount("/sys/kernel/debug".to_owned(), FsKind::DebugFs));
    let ghost e = step_views(steps@);
    assert(e =~= d + seq![MountStepView::Mount("/sys/kernel/debug"@, FsKind::DebugFs)]);
    if dev_log {
        steps.push(MountStep::BindDevLog);
        assert(step_views(steps@) =~= e + seq![MountStepView::BindDevLog]);
    } else {
        assert(e =~= e + Seq::<MountStepView>::empty());
    }
    assert(a =~= seq![
        MountStepView::LoadSymbols("/root/kallsyms"@),
        MountStepView::Mount("/dev"@, FsKind::DevFs),
        MountStepView::Mount("/dev/shm"@, FsKind::MemoryFs),
        MountStepView::Mount("/tmp"@, FsKind::MemoryFs),
        MountStepView::RegisterLazy(PROC_MOUNT_POINT@, FsKind::ProcFs),
        MountStepView::Mount("/sys"@, FsKind::MemoryFs),
    ]);
    steps
}

/// What to do next to set up the full tree.
#[derive(Debug, PartialEq, Eq)]
pub enum MountAllAction {
    /// Take this step.
    Do(MountStep),
    /// The tree is set up, or a step failed.
    Return(VfsResult<()>),
}

/// A step is due after `done` of as many steps as `length` says, if the last one
/// gave `last`.
pub open spec fn step_due(length: nat, done: nat, last: VfsResult<()>) -> bool {
    last is Ok && done < length
}

/// Mount all filesystems.
///
/// `done` steps have been taken, and the last of them gave `last`; before the
/// first step these are zero and `Ok`. A step that fails is the last one.
pub fn mount_all(dev_log: bool, done: usize, last: VfsResult<()>) -> (action: MountAllAction)
    ensures
        if step_due(mount_plan(dev_log).len(), done as nat, last) {
            &&& action matches MountAllAction::Do(step)
            &&& step@ == mount_plan(dev_log)[done as int]
        } else {
            action == MountAllAction::Return(last)
        },
{
    if last.is_err() {
        return MountAllAction::Return(last);
    }
    let mut steps: Vec<MountStep> = mount_steps(dev_log);
    assert(step_views(steps@).len() == steps@.len());
    if done < steps.len() {
        assert(step_views(steps@)[done as int] == steps@[done as int]@);
        MountAllAction::Do(steps.remove(done))
    } else {
        MountAllAction::Return(last)
    }
}

/// How many steps of a plan are taken, and what comes of it, if step after step
/// gives what `results` say.
pub open spec fn follow(
    length: nat,
    done: nat,
    last: VfsResult<()>,
    results: Seq<VfsResult<()>>,
) -> (nat, VfsResult<()>)
    decreases length - done,
{
    if step_due(length, done, last) {
        follow(length, done + 1, results[done as int], results)
    } else {
        (done, last)
    }
}

/// Either all steps are taken and succeed, or the first that fails is the last
/// one taken and its error is the result.
pub proof fn law_mount_stops_at_first_error(
    length: nat,
    done: nat,
    last: VfsResult<()>,
    results: Seq<VfsResult<()>>,
)
    requires
        done <= length,
        length <= results.len(),
        forall|i: int| 0 <= i < done - 1 ==> (#[trigger] results[i]) is Ok,
        done > 0 ==> results[done - 1] == last,
        done == 0 ==> last is Ok,
    ensures
        ({
            let (taken, result) = follow(length, done, last, results);
            &&& taken <= length
            &&& forall|i: int| 0 <= i < taken - 1 ==> (#[trigger] results[i]) is Ok
            &&& taken > 0 ==> results[taken - 1] == result
            &&& result is Ok ==> taken == length
        }),
    decreases length - done,
{
    if step_due(length, done, last) {
        law_mount_stops_at_first_error(length, done + 1, results[done as int], results);
    }
}

} // verus!
