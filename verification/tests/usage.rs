use starryfuse::error::VfsError;
use starryfuse::module::fuse_device;
use starryfuse::node::NodeType;
use starryfuse::ondemand::RegisterAction;
use starryfuse::ondemand_builtin::{
    is_fuse_node, needs_metadata, register_builtin_modules, Context, FuseUsageChecker, NodeFacts,
    OpenFile, PrepareAction, PrepareEvent, ProcessFiles, FUSE_MOUNT_POINT,
};

fn node(fs: &str, metadata: Option<(NodeType, u64)>) -> NodeFacts {
    NodeFacts { fs_name: String::from(fs), metadata }
}

fn device(number: u64) -> NodeFacts {
    node("devfs", Some((NodeType::CharacterDevice, number)))
}

fn process(current_dir: NodeFacts, open_files: Vec<OpenFile>) -> ProcessFiles {
    ProcessFiles { current_dir, open_files }
}

// Major 10, minor 229.
const FUSE_NUMBER: u64 = 10 << 8 | 229;

#[test]
fn nodes_of_fuse() {
    assert!(is_fuse_node(&node("fuse", None)));
    assert!(is_fuse_node(&node("fuse", Some((NodeType::RegularFile, 0)))));
    assert!(is_fuse_node(&device(FUSE_NUMBER)));
    assert!(!is_fuse_node(&device(FUSE_NUMBER + 1)));
    assert!(!is_fuse_node(&device(229 << 8 | 10)));
    assert!(!is_fuse_node(&node("devfs", Some((NodeType::BlockDevice, FUSE_NUMBER)))));
    assert!(!is_fuse_node(&node("ext4", None)));
    assert!(!is_fuse_node(&node("fusectl", None)));
    assert!(!is_fuse_node(&node("ext4", Some((NodeType::CharacterDevice, FUSE_NUMBER)))));
    assert!(!is_fuse_node(&node("tmpfs", Some((NodeType::CharacterDevice, FUSE_NUMBER)))));
    assert!(!is_fuse_node(&node("devfs", None)));
    assert!(needs_metadata("devfs"));
    assert!(!needs_metadata("fuse"));
    assert!(!needs_metadata("ext4"));
    assert!(!needs_metadata(""));
    assert_eq!(fuse_device().device, FUSE_NUMBER);
}

#[test]
fn fuse_is_in_use() {
    let checker = FuseUsageChecker;
    let home = || node("ext4", Some((NodeType::Directory, 0)));
    assert!(!checker.is_in_use(&Vec::new()));
    assert!(!checker.is_in_use(&vec![process(home(), vec![OpenFile::Other])]));
    assert!(checker.is_in_use(&vec![process(node("fuse", None), Vec::new())]));
    let idle = || process(home(), vec![OpenFile::File(home()), OpenFile::Directory(home())]);
    assert!(!checker.is_in_use(&vec![idle(), idle()]));
    let daemon = process(home(), vec![OpenFile::Other, OpenFile::File(device(FUSE_NUMBER))]);
    assert!(checker.is_in_use(&vec![idle(), daemon]));
    let reader = process(home(), vec![OpenFile::Directory(node("fuse", None))]);
    assert!(checker.is_in_use(&vec![idle(), idle(), reader]));
}

#[test]
fn every_mount_is_undone() {
    let checker = FuseUsageChecker;
    assert_eq!(FUSE_MOUNT_POINT, "/mnt/fuse");
    // FUSE is mounted for process 1 and for the kernel, and cannot be
    // unmounted for the process.
    let mut event = PrepareEvent::Start;
    let mut seen = Vec::new();
    loop {
        let action = checker.prepare_unload(3, event);
        seen.push(action);
        event = match action {
            PrepareAction::Resolve(Context::Process(0)) => {
                PrepareEvent::Resolved(Context::Process(0), None)
            }
            PrepareAction::Resolve(Context::Process(2)) => {
                PrepareEvent::Resolved(Context::Process(2), Some(false))
            }
            PrepareAction::Resolve(c) => PrepareEvent::Resolved(c, Some(true)),
            PrepareAction::Unmount(c) => PrepareEvent::Unmounted(c, Err(VfsError::Other(-16))),
            PrepareAction::Return => break,
        };
    }
    assert_eq!(
        seen,
        vec![
            PrepareAction::Resolve(Context::Process(0)),
            PrepareAction::Resolve(Context::Process(1)),
            PrepareAction::Unmount(Context::Process(1)),
            PrepareAction::Resolve(Context::Process(2)),
            PrepareAction::Resolve(Context::Global),
            PrepareAction::Unmount(Context::Global),
            PrepareAction::Return,
        ]
    );
    assert_eq!(
        checker.prepare_unload(0, PrepareEvent::Start),
        PrepareAction::Resolve(Context::Global)
    );
}

#[test]
fn built_in_modules() {
    match register_builtin_modules(true) {
        RegisterAction::Register(desc) => {
            assert_eq!(desc.name, "fuse");
            assert_eq!(desc.ko_path, "/root/modules/fuse.ko");
            assert_eq!(desc.idle_timeout_ticks, 5_000);
            assert_eq!(desc.trigger_prefix, "/dev/fuse");
            assert!(desc.checks_usage);
        }
        RegisterAction::Return(_) => panic!("not registered"),
    }
    assert_eq!(register_builtin_modules(false), RegisterAction::Return(false));
}
