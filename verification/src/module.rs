//! What the loadable modules do when they come and go.
use vstd::prelude::*;
use vstd::string::*;

use crate::error::{VfsError, VfsResult};
use crate::mount::{mount_at, mount_next, MountAction, MountEvent};
use crate::node::{device_id, device_number, NodeType};
use crate::ondemand_builtin::{FUSE_DEV_MAJOR, FUSE_DEV_MINOR};
use crate::registry::{creator_of, law_unregister_undoes_register, registered, unregistered};
use crate::registry::{register_filesystem, unregister_filesystem, FsRegistry};

verus! {

/// A device to be registered.
#[derive(Debug, PartialEq, Eq)]
pub struct DeviceDesc {
    /// The name below `/dev`.
    pub name: String,
    /// What the node is.
    pub node_type: NodeType,
    /// The number of the device.
    pub device: u64,
}

/// The device through which the daemon talks to the kernel.
pub fn fuse_device() -> (desc: DeviceDesc)
    ensures
        desc.name@ == "fuse"@,
        desc.node_type == NodeType::CharacterDevice,
        desc.device == device_number(FUSE_DEV_MAJOR, FUSE_DEV_MINOR),
{
    DeviceDesc {
        name: "fuse".to_owned(),
        node_type: NodeType::CharacterDevice,
        device: device_id(FUSE_DEV_MAJOR, FUSE_DEV_MINOR),
    }
}

/// The device is there: it was registered, now or earlier.
pub open spec fn device_there(device: VfsResult<()>) -> bool {
    device is Ok || device == Err::<(), VfsError>(VfsError::AlreadyExists)
}

/// The device is gone: it was removed, now or earlier.
pub open spec fn device_gone(device: VfsResult<()>) -> bool {
    device is Ok || device == Err::<(), VfsError>(VfsError::NotFound)
}

/// What the FUSE module changes in the kernel. `C` is what makes a filesystem of
/// a type, and `N` is a connection to a daemon.
pub struct FuseModule<C, N> {
    /// The filesystem types.
    pub types: FsRegistry<C>,
    /// Whether the device is registered.
    pub device: bool,
    /// The connection that the device and the filesystems share.
    pub connection: Option<N>,
}

/// What a [`FuseModule`] holds.
#[verifier::ext_equal]
pub struct ModuleView<C, N> {
    /// The filesystem types.
    pub types: Map<Seq<char>, C>,
    /// Whether the device is registered.
    pub device: bool,
    /// The connection that the device and the filesystems share.
    pub connection: Option<N>,
}

impl<C, N> View for FuseModule<C, N> {
    type V = ModuleView<C, N>;

    open spec fn view(&self) -> ModuleView<C, N> {
        ModuleView { types: self.types@, device: self.device, connection: self.connection }
    }
}

impl<C, N> ModuleView<C, N> {
    /// A connection is there: the one that was, or else `fresh`.
    pub open spec fn connected(self, fresh: N) -> ModuleView<C, N> {
        ModuleView {
            connection: if self.connection is Some {
                self.connection
            } else {
                Some(fresh)
            },
            ..self
        }
    }

    /// Registering the device gave `device`. With the device there, the
    /// filesystem type is registered too.
    pub open spec fn initialized(self, creator: C, device: VfsResult<()>) -> ModuleView<C, N> {
        if device_there(device) {
            ModuleView {
                types: registered(self.types, "fuse"@, creator),
                device: true,
                ..self
            }
        } else {
            self
        }
    }

    /// The filesystem type is gone.
    pub open spec fn without_type(self) -> ModuleView<C, N> {
        ModuleView { types: unregistered(self.types, "fuse"@), ..self }
    }

    /// Unregistering the device gave `device`.
    pub open spec fn without_device(self, device: VfsResult<()>) -> ModuleView<C, N> {
        ModuleView { device: self.device && !device_gone(device), ..self }
    }

    /// The module was loaded: a connection is there, and registering the device
    /// gave `device`.
    pub open spec fn loaded(self, fresh: N, creator: C, device: VfsResult<()>) -> ModuleView<C, N> {
        self.connected(fresh).initialized(creator, device)
    }

    /// The module was unloaded, and unregistering the device gave `device`.
    pub open spec fn unloaded(self, device: VfsResult<()>) -> ModuleView<C, N> {
        self.without_type().without_device(device)
    }
}

/// The status of a load whose device registration gave `device`.
pub open spec fn init_status(device: VfsResult<()>) -> i32 {
    if device_there(device) {
        0i32
    } else {
        -1i32
    }
}

impl<C, N> FuseModule<C, N> {
    /// The filesystem types are consistent.
    pub open spec fn wf(&self) -> bool {
        self.types.wf()
    }

    /// No filesystem type is known, and there is neither device nor connection.
    pub fn new() -> (module: FuseModule<C, N>)
        ensures
            module.wf(),
            module@ == (ModuleView {
                types: Map::<Seq<char>, C>::empty(),
                device: false,
                connection: None::<N>,
            }),
    {
        FuseModule { types: FsRegistry::new(), device: false, connection: None }
    }

    /// Sees to it that there is a connection. One that is there already is kept.
    pub fn connect(&mut self, fresh: N)
        requires
            old(self).wf(),
        ensures
            final(self).wf(),
            final(self)@ == old(self)@.connected(fresh),
    {
        if self.connection.is_none() {
            self.connection = Some(fresh);
        }
    }
}

/// Entry point to initialize FUSE, once there is a connection and
/// [`fuse_device`] was registered for it with the result `device`.
///
/// With the device there, the filesystem type is registered too; it does not
/// matter if it was registered before.
pub fn init_fuse<C, N>(
    module: &mut FuseModule<C, N>,
    creator: C,
    device: VfsResult<()>,
) -> (status: i32)
    requires
        old(module).wf(),
    ensures
        final(module).wf(),
        status == init_status(device),
        final(module)@ == old(module)@.initialized(creator, device),
{
    match device {
        Ok(_) => {},
        Err(VfsError::AlreadyExists) => {},
        Err(_) => {
            return -1;
        },
    }
    module.device = true;
    let _ = register_filesystem(&mut module.types, "fuse", creator);
    0
}

/// What became of the device.
#[derive(Debug, Clone, Copy, PartialEq, Eq, Structural)]
pub enum DeviceExit {
    /// It was removed.
    Removed,
    /// It was not there.
    NotThere,
    /// It could not be removed.
    Failed(VfsError),
}

/// Takes note that the device was unregistered, and tells what became of it.
pub fn exit_fuse<C, N>(module: &mut FuseModule<C, N>, device: VfsResult<()>) -> (exit: DeviceExit)
    requires
        old(module).wf(),
    ensures
        final(module).wf(),
        final(module)@ == old(module)@.without_device(device),
        exit == (match device {
            Ok(_) => DeviceExit::Removed,
            Err(e) => if e == VfsError::NotFound {
                DeviceExit::NotThere
            } else {
                DeviceExit::Failed(e)
            },
        }),
{
    match device {
        Ok(_) => {
            module.device = false;
            DeviceExit::Removed
        },
        Err(VfsError::NotFound) => {
            module.device = false;
            DeviceExit::NotThere
        },
        Err(e) => DeviceExit::Failed(e),
    }
}

/// Loads the FUSE module, once there is a connection and [`fuse_device`] was
/// registered for it with the result `device`.
pub fn fuse_init<C, N>(
    module: &mut FuseModule<C, N>,
    creator: C,
    device: VfsResult<()>,
) -> (status: i32)
    requires
        old(module).wf(),
    ensures
        final(module).wf(),
        status == init_status(device),
        final(module)@ == old(module)@.initialized(creator, device),
{
    init_fuse(module, creator, device)
}

/// Unloads the FUSE module: the filesystem type goes. The device goes after it,
/// and [`exit_fuse`] takes note of that.
pub fn fuse_exit<C, N>(module: &mut FuseModule<C, N>)
    requires
        old(module).wf(),
    ensures
        final(module).wf(),
        final(module)@ == old(module)@.without_type(),
{
    unregister_filesystem(&mut module.types, "fuse");
}

/// Loading the module reuses a connection that is there and never replaces it;
/// afterwards there is one in any case. It succeeds exactly if the device is
/// there, and then the filesystem type is registered too; otherwise neither
/// the types nor the device change.
pub proof fn law_load_keeps_connection<C, N>(
    m: ModuleView<C, N>,
    fresh: N,
    creator: C,
    device: VfsResult<()>,
)
    ensures
        ({
            let after = m.loaded(fresh, creator, device);
            &&& after.connection is Some
            &&& m.connection is Some ==> after.connection == m.connection
            &&& m.connection is None ==> after.connection == Some(fresh)
            &&& init_status(device) == 0 ==> after.device && creator_of(after.types, "fuse"@) is Some
            &&& init_status(device) != 0 ==> after.types == m.types && after.device == m.device
            &&& forall|other: Seq<char>|
                other != "fuse"@ ==> #[trigger] creator_of(after.types, other) == creator_of(
                    m.types,
                    other,
                )
        }),
{
}

/// The device is there if it was registered now or had been before, and gone if
/// it was removed now or had been before; any other error says that it is not. A
/// load answers zero in the first case and minus one otherwise.
pub proof fn law_device_results(e: VfsError)
    ensures
        device_there(Ok(())),
        device_there(Err(e)) <==> e == VfsError::AlreadyExists,
        device_gone(Ok(())),
        device_gone(Err(e)) <==> e == VfsError::NotFound,
        init_status(Ok(())) == 0,
        e == VfsError::AlreadyExists ==> init_status(Err(e)) == 0,
        e != VfsError::AlreadyExists ==> init_status(Err(e)) == -1,
{
}

/// What each part of loading and unloading changes, and what it leaves alone: a
/// filesystem type that is there stays, and one that is not is the one offered.
pub proof fn law_parts_of_load_and_unload<C, N>(
    m: ModuleView<C, N>,
    fresh: N,
    creator: C,
    device: VfsResult<()>,
)
    ensures
        m.connected(fresh).types == m.types,
        m.connected(fresh).device == m.device,
        m.initialized(creator, device).connection == m.connection,
        device_there(device) && creator_of(m.types, "fuse"@) is None ==> creator_of(
            m.initialized(creator, device).types,
            "fuse"@,
        ) == Some(creator),
        device_there(device) && creator_of(m.types, "fuse"@) is Some ==> creator_of(
            m.initialized(creator, device).types,
            "fuse"@,
        ) == creator_of(m.types, "fuse"@),
        device_there(device) ==> m.initialized(creator, device).device,
        m.without_type().device == m.device,
        m.without_type().connection == m.connection,
        creator_of(m.without_type().types, "fuse"@) is None,
        m.without_device(device).types == m.types,
        m.without_device(device).connection == m.connection,
        device_gone(device) ==> !m.without_device(device).device,
        !device_gone(device) ==> m.without_device(device).device == m.device,
{
}

/// What the module is seen to hold is what it holds.
pub proof fn law_module_view<C, N>(module: FuseModule<C, N>)
    ensures
        module@.types == module.types@,
        module@.device == module.device,
        module@.connection == module.connection,
{
}

/// Unloading the module leaves neither its filesystem type nor its device, even
/// where one of them was missing before, and keeps the connection and all other
/// types. Unloading it again changes nothing.
pub proof fn law_unload_leaves_connection_only<C, N>(
    m: ModuleView<C, N>,
    device: VfsResult<()>,
    again: VfsResult<()>,
)
    requires
        device_gone(device),
    ensures
        ({
            let after = m.unloaded(device);
            &&& !after.device
            &&& creator_of(after.types, "fuse"@) is None
            &&& after.connection == m.connection
            &&& forall|other: Seq<char>|
                other != "fuse"@ ==> #[trigger] creator_of(after.types, other) == creator_of(
                    m.types,
                    other,
                )
            &&& after.unloaded(again) == after
        }),
{
    let after = m.unloaded(device);
    assert(after.unloaded(again) =~= after);
}

/// The module can be unloaded and loaded again: the new device and filesystems
/// serve the same connection, whatever connection is offered.
pub proof fn law_reload_serves_same_connection<C, N>(
    m: ModuleView<C, N>,
    fresh: N,
    creator: C,
    device: VfsResult<()>,
    removed: VfsResult<()>,
    fresh_again: N,
    creator_again: C,
    device_again: VfsResult<()>,
)
    ensures
        m.loaded(fresh, creator, device).unloaded(removed).loaded(
            fresh_again,
            creator_again,
            device_again,
        ).connection == m.loaded(fresh, creator, device).connection,
{
}

/// Loading the FUSE module and unloading it again leaves the filesystem types
/// as they were, if none had its name.
pub proof fn law_module_leaves_no_type_behind<C, N>(
    m: ModuleView<C, N>,
    fresh: N,
    creator: C,
    device: VfsResult<()>,
    removed: VfsResult<()>,
)
    requires
        !m.types.contains_key("fuse"@),
    ensures
        m.loaded(fresh, creator, device).unloaded(removed).types == m.types,
{
    law_unregister_undoes_register(m.types, "fuse"@, creator);
    assert(unregistered(m.types, "fuse"@) =~= m.types);
}

/// What to do next to load the procfs module.
#[derive(Debug, Clone, Copy, PartialEq, Eq)]
pub enum ProcfsAction {
    /// Do this at the mount point of procfs.
    Act(MountAction),
    /// The status of the load.
    Return(i32),
}

/// Loads the procfs module: procfs is mounted, on a directory that is made if
/// it is not there.
pub fn procfs_init(event: MountEvent) -> (action: ProcfsAction)
    ensures
        action == (match mount_next(event) {
            MountAction::Return(result) => ProcfsAction::Return(
                if result is Ok {
                    0i32
                } else {
                    -1i32
                },
            ),
            act => ProcfsAction::Act(act),
        }),
{
    match mount_at(event) {
        MountAction::Return(result) => if result.is_ok() {
            ProcfsAction::Return(0)
        } else {
            ProcfsAction::Return(-1)
        },
        act => ProcfsAction::Act(act),
    }
}

} // verus!
