use starryfuse::error::{VfsError, VfsResult};
use starryfuse::mount::{
    ensure_dir, mount_all, mount_at, mount_steps, EnsureAction, EnsureEvent, FileReader, FsKind,
    MountAction, MountAllAction, MountEvent, MountStep, ReadStep, READ_CHUNK,
};
use starryfuse::path::way;

fn read_file(content: &[u8], chunk: usize) -> (VfsResult<Vec<u8>>, usize) {
    let mut reader = FileReader::new();
    let mut reads = 0;
    loop {
        reads += 1;
        let at = reader.offset() as usize;
        let end = (at + chunk).min(content.len());
        match reader.take(Ok(content[at..end].to_vec())) {
            ReadStep::ReadAt(next) => reader = next,
            ReadStep::Done(result) => return (result, reads),
        }
    }
}

#[test]
fn files_are_read_to_their_end() {
    let content: Vec<u8> = (0..10_000u32).map(|i| (i % 251) as u8).collect();
    assert_eq!(read_file(&content, READ_CHUNK), (Ok(content.clone()), 4));
    assert_eq!(read_file(&content, 1000), (Ok(content.clone()), 11));
    assert_eq!(read_file(&[], READ_CHUNK), (Ok(Vec::new()), 1));
    assert_eq!(READ_CHUNK, 4096);
}

#[test]
fn read_error_is_passed_on() {
    let reader = FileReader { data: vec![1] };
    assert_eq!(reader.take(Err(VfsError::Io)), ReadStep::Done(Err(VfsError::Io)));
}

fn mount(
    there: bool,
    made: VfsResult<()>,
    resolved: VfsResult<()>,
    mounted: VfsResult<()>,
) -> (VfsResult<()>, Vec<MountAction>) {
    let mut event = MountEvent::Start;
    let mut done = Vec::new();
    loop {
        let action = mount_at(event);
        event = match action {
            MountAction::Probe => MountEvent::Probed(there),
            MountAction::MakeDir(_) => MountEvent::DirMade(made),
            MountAction::Resolve => MountEvent::Resolved(resolved),
            MountAction::Mount => MountEvent::Mounted(mounted),
            MountAction::Return(result) => return (result, done),
        };
        done.push(action);
    }
}

#[test]
fn mounting() {
    let io = Err(VfsError::Io);
    let (result, done) = mount(true, io, Ok(()), Ok(()));
    assert_eq!(result, Ok(()));
    assert_eq!(done, vec![MountAction::Probe, MountAction::Resolve, MountAction::Mount]);
    let (result, done) = mount(false, Ok(()), Ok(()), Ok(()));
    assert_eq!(result, Ok(()));
    assert_eq!(
        done,
        vec![
            MountAction::Probe,
            MountAction::MakeDir(0o755),
            MountAction::Resolve,
            MountAction::Mount,
        ]
    );
    assert_eq!(mount(false, io, Ok(()), Ok(())).0, io);
    assert_eq!(mount(true, Ok(()), Err(VfsError::NotFound), Ok(())).0, Err(VfsError::NotFound));
    assert_eq!(mount(true, Ok(()), Ok(()), io).0, io);
}

#[test]
fn providing_a_directory() {
    assert_eq!(ensure_dir(EnsureEvent::Start), EnsureAction::Probe);
    assert_eq!(ensure_dir(EnsureEvent::Probed(true)), EnsureAction::Return(Ok(())));
    assert_eq!(ensure_dir(EnsureEvent::Probed(false)), EnsureAction::MakeDir(0o755));
    assert_eq!(ensure_dir(EnsureEvent::DirMade(Ok(()))), EnsureAction::Return(Ok(())));
    let e = Err(VfsError::PermissionDenied);
    assert_eq!(ensure_dir(EnsureEvent::DirMade(e)), EnsureAction::Return(e));
}

#[test]
fn way_to_a_directory() {
    assert_eq!(way("/sys/kernel/debug"), vec!["/", "/sys", "/sys/kernel", "/sys/kernel/debug"]);
    assert_eq!(way("/"), vec!["/"]);
    assert_eq!(way(""), Vec::<String>::new());
    assert_eq!(way("a//b/./c/"), vec!["/a", "/a/b", "/a/b/c"]);
    assert_eq!(way("./x/../y"), vec!["/.", "/./x", "/./x/..", "/./x/../y"]);
}

fn plan() -> Vec<MountStep> {
    let text = String::from;
    let dir = |p: &str| MountStep::EnsureDir(String::from(p));
    vec![
        MountStep::LoadSymbols(text("/root/kallsyms")),
        MountStep::Mount(text("/dev"), FsKind::DevFs),
        MountStep::Mount(text("/dev/shm"), FsKind::MemoryFs),
        MountStep::Mount(text("/tmp"), FsKind::MemoryFs),
        MountStep::RegisterLazy(text("/proc"), FsKind::ProcFs),
        MountStep::Mount(text("/sys"), FsKind::MemoryFs),
        dir("/"),
        dir("/sys"),
        dir("/sys/class"),
        dir("/sys/class/graphics"),
        dir("/sys/class/graphics/fb0"),
        dir("/sys/class/graphics/fb0/device"),
        MountStep::Symlink(text("whatever"), text("/sys/class/graphics/fb0/device/subsystem")),
        MountStep::InitSysfs,
        dir("/"),
        dir("/sys"),
        dir("/sys/kernel"),
        dir("/sys/kernel/debug"),
        MountStep::Mount(text("/sys/kernel/debug"), FsKind::DebugFs),
    ]
}

#[test]
fn steps_to_the_full_tree() {
    assert_eq!(mount_steps(false), plan());
    let mut with_log = plan();
    with_log.push(MountStep::BindDevLog);
    assert_eq!(mount_steps(true), with_log);
}

#[test]
fn full_tree_is_set_up_in_order() {
    let mut done = Vec::new();
    let result = loop {
        match mount_all(false, done.len(), Ok(())) {
            MountAllAction::Do(step) => done.push(step),
            MountAllAction::Return(result) => break result,
        }
    };
    assert_eq!(result, Ok(()));
    assert_eq!(done, plan());
}

#[test]
fn failed_step_is_the_last() {
    for done in [1, 5, 19] {
        let failed = Err(VfsError::NotFound);
        assert_eq!(mount_all(false, done, failed), MountAllAction::Return(failed));
    }
}
