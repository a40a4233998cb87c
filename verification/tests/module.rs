use starryfuse::error::{VfsError, VfsResult};
use starryfuse::module::{
    exit_fuse, fuse_device, fuse_exit, fuse_init, init_fuse, procfs_init, DeviceExit, FuseModule,
    ProcfsAction,
};
use starryfuse::mount::{MountAction, MountEvent};
use starryfuse::node::NodeType;
use starryfuse::registry::{get_filesystem_creator, register_filesystem};

#[test]
fn device_of_fuse() {
    let desc = fuse_device();
    assert_eq!(desc.name, "fuse");
    assert_eq!(desc.node_type, NodeType::CharacterDevice);
    assert_eq!(desc.device, 0xae5);
}

#[test]
fn fuse_comes_and_goes() {
    let mut m: FuseModule<u8, &str> = FuseModule::new();
    m.connect("first");
    assert_eq!(fuse_init(&mut m, 1, Ok(())), 0);
    assert_eq!(get_filesystem_creator(&m.types, "fuse"), Some(&1));
    assert!(m.device);
    // Loading it again changes nothing.
    m.connect("second");
    assert_eq!(fuse_init(&mut m, 2, Err(VfsError::AlreadyExists)), 0);
    assert_eq!(get_filesystem_creator(&m.types, "fuse"), Some(&1));
    assert_eq!((m.device, m.connection), (true, Some("first")));
    fuse_exit(&mut m);
    assert_eq!(exit_fuse(&mut m, Ok(())), DeviceExit::Removed);
    assert_eq!(get_filesystem_creator(&m.types, "fuse"), None);
    assert_eq!((m.device, m.connection), (false, Some("first")));
    // Unloading it again changes nothing.
    fuse_exit(&mut m);
    assert_eq!(exit_fuse(&mut m, Err(VfsError::NotFound)), DeviceExit::NotThere);
    assert_eq!((m.device, m.connection), (false, Some("first")));
    // What is loaded later serves the same connection.
    m.connect("third");
    assert_eq!(init_fuse(&mut m, 3, Ok(())), 0);
    assert_eq!(get_filesystem_creator(&m.types, "fuse"), Some(&3));
    assert_eq!((m.device, m.connection), (true, Some("first")));
}

#[test]
fn fuse_without_its_device() {
    let mut m: FuseModule<u8, u8> = FuseModule::new();
    m.connect(5);
    assert_eq!(init_fuse(&mut m, 1, Err(VfsError::Io)), -1);
    assert_eq!(fuse_init(&mut m, 1, Err(VfsError::NotFound)), -1);
    assert_eq!(get_filesystem_creator(&m.types, "fuse"), None);
    assert_eq!((m.device, m.connection), (false, Some(5)));
}

#[test]
fn device_that_stays() {
    let mut m: FuseModule<u8, u8> = FuseModule::new();
    m.connect(5);
    assert_eq!(fuse_init(&mut m, 1, Ok(())), 0);
    assert_eq!(exit_fuse(&mut m, Err(VfsError::Io)), DeviceExit::Failed(VfsError::Io));
    assert!(m.device);
}

#[test]
fn other_types_stay() {
    let mut m: FuseModule<u8, u8> = FuseModule::new();
    assert_eq!(register_filesystem(&mut m.types, "ext4", 9), Ok(()));
    m.connect(5);
    assert_eq!(fuse_init(&mut m, 1, Ok(())), 0);
    fuse_exit(&mut m);
    assert_eq!(get_filesystem_creator(&m.types, "ext4"), Some(&9));
}

fn load_procfs(there: bool, made: VfsResult<()>, mounted: VfsResult<()>) -> i32 {
    let mut event = MountEvent::Start;
    loop {
        event = match procfs_init(event) {
            ProcfsAction::Act(MountAction::Probe) => MountEvent::Probed(there),
            ProcfsAction::Act(MountAction::MakeDir(_)) => MountEvent::DirMade(made),
            ProcfsAction::Act(MountAction::Resolve) => MountEvent::Resolved(Ok(())),
            ProcfsAction::Act(MountAction::Mount) => MountEvent::Mounted(mounted),
            ProcfsAction::Act(MountAction::Return(_)) => panic!("no action"),
            ProcfsAction::Return(status) => return status,
        };
    }
}

#[test]
fn procfs_is_mounted() {
    let io = Err(VfsError::Io);
    assert_eq!(load_procfs(true, io, Ok(())), 0);
    assert_eq!(load_procfs(false, Ok(()), Ok(())), 0);
    assert_eq!(load_procfs(false, io, Ok(())), -1);
    assert_eq!(load_procfs(true, Ok(()), io), -1);
}
