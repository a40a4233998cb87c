use starryfuse::error::{VfsError, VfsResult};
use starryfuse::lazy_mount::{
    is_registered, register, take_pending_for, try_lazy_mount, with_fs_lazy, LazyAction, LazyEvent,
    LazyMounts,
};
use starryfuse::mount::{FsKind, PROC_MOUNT_POINT};
use starryfuse::ondemand::{OndemandAction, OndemandEvent};

fn proc_only() -> LazyMounts {
    let mut lazy = LazyMounts::new();
    register(&mut lazy, PROC_MOUNT_POINT, FsKind::ProcFs);
    lazy
}

fn procfs() -> Option<(String, FsKind)> {
    Some((String::from("/proc"), FsKind::ProcFs))
}

#[test]
fn mount_point_is_taken_once() {
    let mut lazy = proc_only();
    assert_eq!(take_pending_for(&mut lazy, "/proc/self/exe"), procfs());
    assert_eq!(take_pending_for(&mut lazy, "/proc/self/exe"), None);
    assert_eq!(take_pending_for(&mut lazy, "/proc"), None);
    assert!(is_registered(&lazy, "/proc"));
    // Registering it again does not bring it back.
    register(&mut lazy, "/proc", FsKind::MemoryFs);
    assert_eq!(take_pending_for(&mut lazy, "/proc"), None);
}

#[test]
fn paths_at_and_below_the_mount_point() {
    for path in ["/proc", "/proc/", "/proc/meminfo", "/proc//x", "/proc/\u{e9}"] {
        assert_eq!(take_pending_for(&mut proc_only(), path), procfs());
    }
    for path in ["", "/", "/pro", "/process", "/proc2/x", "proc/x", "/sys/proc", "/proc\u{e9}"] {
        let mut lazy = proc_only();
        assert_eq!(take_pending_for(&mut lazy, path), None);
        assert_eq!(take_pending_for(&mut lazy, "/proc"), procfs());
    }
}

#[test]
fn several_mount_points() {
    let mut lazy = LazyMounts::new();
    assert!(!is_registered(&lazy, "/a"));
    register(&mut lazy, "/a", FsKind::MemoryFs);
    register(&mut lazy, "/a/b", FsKind::DebugFs);
    register(&mut lazy, "/c", FsKind::ProcFs);
    assert!(is_registered(&lazy, "/a/b"));
    let text = String::from;
    assert_eq!(take_pending_for(&mut lazy, "/c"), Some((text("/c"), FsKind::ProcFs)));
    assert_eq!(take_pending_for(&mut lazy, "/a/b/x"), Some((text("/a"), FsKind::MemoryFs)));
    assert_eq!(take_pending_for(&mut lazy, "/a/b/x"), Some((text("/a/b"), FsKind::DebugFs)));
    assert_eq!(take_pending_for(&mut lazy, "/a/b/x"), None);
    let mut root = LazyMounts::new();
    register(&mut root, "/", FsKind::MemoryFs);
    assert_eq!(take_pending_for(&mut root, "/x"), Some((text("/"), FsKind::MemoryFs)));
}

#[test]
fn mounting_on_demand() {
    let mut lazy = proc_only();
    let path = "/proc/self/exe";
    assert_eq!(
        try_lazy_mount(&mut lazy, path, LazyEvent::Start),
        LazyAction::Mount(String::from("/proc"), FsKind::ProcFs)
    );
    let mounted = LazyEvent::Mounted(Ok(()));
    assert_eq!(try_lazy_mount(&mut lazy, path, mounted), LazyAction::Return(true));
    assert_eq!(try_lazy_mount(&mut lazy, path, LazyEvent::Start), LazyAction::Return(false));
    let failed = LazyEvent::Mounted(Err(VfsError::Io));
    assert_eq!(try_lazy_mount(&mut lazy, path, failed), LazyAction::Return(false));
}

/// Opens a path that is there once procfs is mounted, and gives the result with
/// how often procfs was made.
fn open(lazy: &mut LazyMounts, mounted: &mut bool, path: &str) -> (VfsResult<u32>, usize) {
    let mut made = 0;
    let mut event = OndemandEvent::Start;
    loop {
        let found = if *mounted { Ok(7) } else { Err(VfsError::NotFound) };
        event = match with_fs_lazy(event) {
            OndemandAction::Run => OndemandEvent::Ran(found),
            OndemandAction::RunAgain => OndemandEvent::RanAgain(found),
            OndemandAction::TryLoad => {
                let mut lazy_event = LazyEvent::Start;
                let done = loop {
                    match try_lazy_mount(lazy, path, lazy_event) {
                        LazyAction::Mount(_, _) => {
                            made += 1;
                            *mounted = true;
                            lazy_event = LazyEvent::Mounted(Ok(()));
                        }
                        LazyAction::Return(done) => break done,
                    }
                };
                OndemandEvent::LoadTried(done)
            }
            OndemandAction::Return(result) => return (result, made),
        };
    }
}

#[test]
fn first_access_mounts_and_is_retried() {
    let mut lazy = proc_only();
    let mut mounted = false;
    assert_eq!(open(&mut lazy, &mut mounted, "/tmp/x"), (Err(VfsError::NotFound), 0));
    assert_eq!(open(&mut lazy, &mut mounted, "/proc/self/exe"), (Ok(7), 1));
    assert_eq!(open(&mut lazy, &mut mounted, "/proc/meminfo"), (Ok(7), 0));
    // Even if procfs goes, it is not made again.
    mounted = false;
    assert_eq!(open(&mut lazy, &mut mounted, "/proc/meminfo"), (Err(VfsError::NotFound), 0));
}

#[test]
fn other_errors_are_not_retried() {
    let event: OndemandEvent<u32> = OndemandEvent::Ran(Err(VfsError::Io));
    assert_eq!(with_fs_lazy(event), OndemandAction::Return(Err(VfsError::Io)));
}
