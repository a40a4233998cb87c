//! The modules that come with the kernel, and when they can be unloaded.
use vstd::prelude::*;
use vstd::string::*;

use crate::error::VfsResult;
use crate::node::{device_id, device_number, law_device_number, NodeType};
use crate::ondemand::{register_module, ModuleDesc, RegisterAction};
use crate::text::same_text;

verus! {

/// Major number of the FUSE device.
pub const FUSE_DEV_MAJOR: u32 = 10;

/// Minor number of the FUSE device.
pub const FUSE_DEV_MINOR: u32 = 229;

/// What tells whether a node belongs to FUSE.
#[derive(Debug, PartialEq, Eq)]
pub struct NodeFacts {
    /// The name of the node's filesystem.
    pub fs_name: String,
    /// What the node is and, for a device, its number, if that could be found
    /// out.
    pub metadata: Option<(NodeType, u64)>,
}

/// An open file.
#[derive(Debug, PartialEq, Eq)]
pub enum OpenFile {
    /// A file with a place in the tree.
    File(NodeFacts),
    /// A directory.
    Directory(NodeFacts),
    /// Anything else.
    Other,
}

/// What a process holds on to.
#[derive(Debug, PartialEq, Eq)]
pub struct ProcessFiles {
    /// Its current directory.
    pub current_dir: NodeFacts,
    /// Its open files.
    pub open_files: Vec<OpenFile>,
}

/// The node belongs to FUSE: it is on a FUSE filesystem, or it is the FUSE
/// device among the device nodes. Every other filesystem is told by its name
/// alone.
pub open spec fn fuse_node(node: NodeFacts) -> bool {
    ||| node.fs_name@ == "fuse"@
    ||| node.fs_name@ == "devfs"@ && node.metadata == Some(
        (NodeType::CharacterDevice, device_number(FUSE_DEV_MAJOR, FUSE_DEV_MINOR)),
    )
}

/// The open file belongs to FUSE.
pub open spec fn fuse_file(file: OpenFile) -> bool {
    match file {
        OpenFile::File(node) => fuse_node(node),
        OpenFile::Directory(node) => fuse_node(node),
        OpenFile::Other => false,
    }
}

/// The process holds on to something that belongs to FUSE.
pub open spec fn process_uses_fuse(process: ProcessFiles) -> bool {
    ||| fuse_node(process.current_dir)
    ||| exists|i: int|
        0 <= i < process.open_files@.len() && fuse_file(#[trigger] process.open_files@[i])
}

/// What belongs to FUSE: everything on a FUSE filesystem, and among the device
/// nodes the character device with FUSE's number.
pub proof fn law_fuse_node(node: NodeFacts)
    ensures
        node.fs_name@ == "fuse"@ ==> fuse_node(node),
        node.fs_name@ == "devfs"@ ==> (fuse_node(node) <==> node.metadata == Some(
            (NodeType::CharacterDevice, 2789u64),
        )),
        node.fs_name@ != "fuse"@ && node.fs_name@ != "devfs"@ ==> !fuse_node(node),
{
    reveal_strlit("fuse");
    reveal_strlit("devfs");
    assert("fuse"@.len() != "devfs"@.len());
    law_device_number(FUSE_DEV_MAJOR, FUSE_DEV_MINOR);
}

/// An open file or directory belongs to FUSE if its node does; nothing else that
/// is open does.
pub proof fn law_fuse_file(node: NodeFacts)
    ensures
        fuse_file(OpenFile::File(node)) <==> fuse_node(node),
        fuse_file(OpenFile::Directory(node)) <==> fuse_node(node),
        !fuse_file(OpenFile::Other),
{
}

/// One open file that belongs to FUSE, at whichever place, is enough for its
/// process to use FUSE; so is the current directory. Without any of them the
/// process does not use FUSE.
pub proof fn law_one_file_is_enough(process: ProcessFiles)
    ensures
        fuse_node(process.current_dir) ==> process_uses_fuse(process),
        forall|i: int|
            0 <= i < process.open_files@.len() && fuse_file(#[trigger] process.open_files@[i])
                ==> process_uses_fuse(process),
        !fuse_node(process.current_dir) && (forall|i: int|
            0 <= i < process.open_files@.len() ==> !fuse_file(#[trigger] process.open_files@[i]))
            ==> !process_uses_fuse(process),
{
}

/// Some process holds on to something that belongs to FUSE.
pub open spec fn fuse_in_use(processes: Seq<ProcessFiles>) -> bool {
    exists|p: int| 0 <= p < processes.len() && process_uses_fuse(#[trigger] processes[p])
}

/// FUSE is in use as soon as one open file of one process, whichever they are,
/// belongs to it, or one current directory does; and only then.
pub proof fn law_in_use(processes: Seq<ProcessFiles>)
    ensures
        forall|p: int|
            0 <= p < processes.len() && fuse_node((#[trigger] processes[p]).current_dir)
                ==> fuse_in_use(processes),
        forall|p: int, i: int|
            0 <= p < processes.len() && 0 <= i < processes[p].open_files@.len() && fuse_file(
                #[trigger] processes[p].open_files@[i],
            ) ==> fuse_in_use(processes),
        (forall|p: int|
            0 <= p < processes.len() ==> !fuse_node((#[trigger] processes[p]).current_dir))
            && (forall|p: int, i: int|
            0 <= p < processes.len() && 0 <= i < processes[p].open_files@.len() ==> !fuse_file(
                #[trigger] processes[p].open_files@[i],
            )) ==> !fuse_in_use(processes),
{
    assert forall|p: int, i: int|
        0 <= p < processes.len() && 0 <= i < processes[p].open_files@.len() && fuse_file(
            #[trigger] processes[p].open_files@[i],
        ) implies fuse_in_use(processes) by {
        law_one_file_is_enough(processes[p]);
        assert(process_uses_fuse(processes[p]));
    }
    assert forall|p: int|
        0 <= p < processes.len() && fuse_node(
            (#[trigger] processes[p]).current_dir,
        ) implies fuse_in_use(processes) by {
        assert(process_uses_fuse(processes[p]));
    }
}

/// Whether a node's metadata are needed to tell if it belongs to FUSE. They
/// are for device nodes, which are kept in memory. Nothing is asked of a node on
/// any other filesystem, where the answer might have to be read from a disk.
pub fn needs_metadata(fs_name: &str) -> (needed: bool)
    ensures
        needed == (fs_name@ == "devfs"@),
{
    same_text(fs_name, "devfs")
}

/// Where metadata are not needed, they do not matter.
pub proof fn law_metadata_matter_on_devfs_only(
    node: NodeFacts,
    metadata: Option<(NodeType, u64)>,
)
    requires
        node.fs_name@ != "devfs"@,
    ensures
        fuse_node(node) == fuse_node(NodeFacts { metadata, ..node }),
        fuse_node(node) == (node.fs_name@ == "fuse"@),
{
}

/// Whether a node belongs to FUSE.
pub fn is_fuse_node(node: &NodeFacts) -> (belongs: bool)
    ensures
        belongs == fuse_node(*node),
{
    if same_text(node.fs_name.as_str(), "fuse") {
        return true;
    }
    if !needs_metadata(node.fs_name.as_str()) {
        return false;
    }
    if let Some((node_type, rdev)) = node.metadata {
        if node_type == NodeType::CharacterDevice {
            if rdev == device_id(FUSE_DEV_MAJOR, FUSE_DEV_MINOR) {
                return true;
            }
        }
    }
    false
}

/// Where a path is resolved to unmount FUSE.
#[derive(Debug, Clone, Copy, PartialEq, Eq, Structural)]
pub enum Context {
    /// As the process with this place in the list sees it.
    Process(usize),
    /// As the kernel sees it.
    Global,
}

/// What happened while FUSE is being made ready to unload.
#[derive(Debug, Clone, Copy, PartialEq, Eq)]
pub enum PrepareEvent {
    /// It was asked for.
    Start,
    /// The mount point was resolved: whether it is the root of a mount, or
    /// nothing if it could not be resolved.
    Resolved(Context, Option<bool>),
    /// It was unmounted.
    Unmounted(Context, VfsResult<()>),
}

/// What to do next to make FUSE ready to unload.
#[derive(Debug, Clone, Copy, PartialEq, Eq, Structural)]
pub enum PrepareAction {
    /// Resolve the mount point.
    Resolve(Context),
    /// Unmount what is there.
    Unmount(Context),
    /// FUSE is ready to unload.
    Return,
}

/// Where FUSE is mounted.
pub const FUSE_MOUNT_POINT: &'static str = "/mnt/fuse";

/// Where to go after `done` of the contexts: those of the processes, and then
/// the kernel's.
pub open spec fn context_at(processes: nat, done: nat) -> PrepareAction {
    if done < processes {
        PrepareAction::Resolve(Context::Process(done as usize))
    } else if done == processes {
        PrepareAction::Resolve(Context::Global)
    } else {
        PrepareAction::Return
    }
}

/// How many contexts are done once this one is.
pub open spec fn done_with(processes: nat, context: Context) -> nat {
    match context {
        Context::Process(i) => i as nat + 1,
        Context::Global => processes + 1,
    }
}

/// What to do next to make FUSE ready to unload.
pub open spec fn prepare_next(processes: nat, event: PrepareEvent) -> PrepareAction {
    match event {
        PrepareEvent::Start => context_at(processes, 0),
        PrepareEvent::Resolved(context, Some(true)) => PrepareAction::Unmount(context),
        PrepareEvent::Resolved(context, _) => context_at(processes, done_with(processes, context)),
        PrepareEvent::Unmounted(context, _) => context_at(
            processes,
            done_with(processes, context),
        ),
    }
}

/// Every context is visited once: the processes in their order, and then the
/// kernel. Where FUSE is mounted it is unmounted, and whether that succeeds
/// does not matter.
pub proof fn law_every_context_is_visited(
    processes: nat,
    done: nat,
    found: Option<bool>,
    unmounted: VfsResult<()>,
)
    requires
        processes <= usize::MAX,
        done <= processes,
    ensures
        ({
            let context = if done < processes {
                Context::Process(done as usize)
            } else {
                Context::Global
            };
            let next = context_at(processes, done + 1);
            &&& context_at(processes, done) == PrepareAction::Resolve(context)
            &&& prepare_next(processes, PrepareEvent::Resolved(context, found)) == (if found
                == Some(true) {
                PrepareAction::Unmount(context)
            } else {
                next
            })
            &&& prepare_next(processes, PrepareEvent::Unmounted(context, unmounted)) == next
        }),
        prepare_next(processes, PrepareEvent::Start) == context_at(processes, 0),
        context_at(processes, processes + 1) == PrepareAction::Return,
{
}

/// The order of the visits: the first process, or the kernel if there is none;
/// after each process the next one, or the kernel after the last; and nothing
/// after the kernel. A mount that was found is unmounted before that.
pub proof fn law_order_of_visits(
    processes: nat,
    i: usize,
    found: Option<bool>,
    unmounted: VfsResult<()>,
)
    requires
        processes <= usize::MAX,
        i < processes,
    ensures
        prepare_next(0, PrepareEvent::Start) == PrepareAction::Resolve(Context::Global),
        prepare_next(processes, PrepareEvent::Start) == PrepareAction::Resolve(
            Context::Process(0),
        ),
        ({
            let next = if i + 1 < processes {
                PrepareAction::Resolve(Context::Process((i + 1) as usize))
            } else {
                PrepareAction::Resolve(Context::Global)
            };
            let here = Context::Process(i);
            &&& found != Some(true) ==> prepare_next(processes, PrepareEvent::Resolved(here, found))
                == next
            &&& prepare_next(processes, PrepareEvent::Resolved(here, Some(true)))
                == PrepareAction::Unmount(here)
            &&& prepare_next(processes, PrepareEvent::Unmounted(here, unmounted)) == next
        }),
        found != Some(true) ==> prepare_next(
            processes,
            PrepareEvent::Resolved(Context::Global, found),
        ) == PrepareAction::Return,
        prepare_next(processes, PrepareEvent::Resolved(Context::Global, Some(true)))
            == PrepareAction::Unmount(Context::Global),
        prepare_next(processes, PrepareEvent::Unmounted(Context::Global, unmounted))
            == PrepareAction::Return,
{
}

/// Tells whether FUSE is in use, and makes it ready to unload.
#[derive(Debug, Clone, Copy, PartialEq, Eq, Structural)]
pub struct FuseUsageChecker;

impl FuseUsageChecker {
    /// Whether a process holds on to something that belongs to FUSE.
    pub fn is_in_use(&self, processes: &Vec<ProcessFiles>) -> (in_use: bool)
        ensures
            in_use == (exists|p: int|
                0 <= p < processes@.len() && process_uses_fuse(#[trigger] processes@[p])),
            in_use == fuse_in_use(processes@),
            forall|p: int|
                0 <= p < processes@.len() && fuse_node((#[trigger] processes@[p]).current_dir)
                    ==> in_use,
            forall|p: int, i: int|
                0 <= p < processes@.len() && 0 <= i < processes@[p].open_files@.len() && fuse_file(
                    #[trigger] processes@[p].open_files@[i],
                ) ==> in_use,
            in_use ==> exists|p: int|
                0 <= p < processes@.len() && (fuse_node((#[trigger] processes@[p]).current_dir)
                    || exists|i: int|
                    0 <= i < processes@[p].open_files@.len() && fuse_file(
                        #[trigger] processes@[p].open_files@[i],
                    )),
    {
        proof {
            assert forall|p: int| 0 <= p < processes@.len() implies process_uses_fuse(
                #[trigger] processes@[p],
            ) == (fuse_node(processes@[p].current_dir) || exists|i: int|
                0 <= i < processes@[p].open_files@.len() && fuse_file(
                    #[trigger] processes@[p].open_files@[i],
                )) by {
                law_one_file_is_enough(processes@[p]);
            }
        }
        let mut p: usize = 0;
        while p < processes.len()
            invariant
                p <= processes@.len(),
                forall|k: int| 0 <= k < p ==> !process_uses_fuse(#[trigger] processes@[k]),
            decreases processes@.len() - p,
        {
            let process: &ProcessFiles = &processes[p];
            if is_fuse_node(&process.current_dir) {
                assert(process_uses_fuse(processes@[p as int]));
                return true;
            }
            let mut i: usize = 0;
            while i < process.open_files.len()
                invariant
                    i <= process.open_files@.len(),
                    p < processes@.len(),
                    *process == processes@[p as int],
                    forall|k: int| 0 <= k < i ==> !fuse_file(#[trigger] process.open_files@[k]),
                decreases process.open_files@.len() - i,
            {
                let belongs: bool = match &process.open_files[i] {
                    OpenFile::File(node) => is_fuse_node(node),
                    OpenFile::Directory(node) => is_fuse_node(node),
                    OpenFile::Other => false,
                };
                if belongs {
                    assert(fuse_file(process.open_files@[i as int]));
                    assert(process_uses_fuse(processes@[p as int]));
                    return true;
                }
                i = i + 1;
            }
            assert(!process_uses_fuse(processes@[p as int]));
            p = p + 1;
        }
        false
    }

    /// Unmounts FUSE wherever it is mounted, for as many processes as there
    /// are and for the kernel.
    pub fn prepare_unload(&self, processes: usize, event: PrepareEvent) -> (action: PrepareAction)
        ensures
            action == prepare_next(processes as nat, event),
    {
        match event {
            PrepareEvent::Start => if processes > 0 {
                PrepareAction::Resolve(Context::Process(0))
            } else {
                PrepareAction::Resolve(Context::Global)
            },
            PrepareEvent::Resolved(context, Some(true)) => PrepareAction::Unmount(context),
            PrepareEvent::Resolved(context, _) => after_context(processes, context),
            PrepareEvent::Unmounted(context, _) => after_context(processes, context),
        }
    }
}

/// Where to go when this context is done.
fn after_context(processes: usize, context: Context) -> (action: PrepareAction)
    ensures
        action == context_at(processes as nat, done_with(processes as nat, context)),
{
    match context {
        Context::Process(i) => if i >= processes {
            PrepareAction::Return
        } else if i + 1 < processes {
            PrepareAction::Resolve(Context::Process(i + 1))
        } else {
            PrepareAction::Resolve(Context::Global)
        },
        Context::Global => PrepareAction::Return,
    }
}

/// The FUSE module.
pub open spec fn is_fuse_module(desc: ModuleDesc) -> bool {
    &&& desc.name@ == "fuse"@
    &&& desc.ko_path@ == "/root/modules/fuse.ko"@
    &&& desc.idle_timeout_ticks == 5_000
    &&& desc.trigger_prefix@ == "/dev/fuse"@
    &&& desc.checks_usage
}

/// Register built-in on-demand module policies.
///
/// FUSE is the only one: it is loaded when its device is used.
pub fn register_builtin_modules(initialized: bool) -> (action: RegisterAction)
    ensures
        if initialized {
            action matches RegisterAction::Register(desc) && is_fuse_module(desc)
        } else {
            action == RegisterAction::Return(false)
        },
{
    let desc = ModuleDesc {
        name: "fuse".to_owned(),
        ko_path: "/root/modules/fuse.ko".to_owned(),
        idle_timeout_ticks: 5_000,
        trigger_prefix: "/dev/fuse".to_owned(),
        checks_usage: true,
    };
    register_module(initialized, desc)
}

} // verus!
