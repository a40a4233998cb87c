use starryfuse::error::VfsError;
use starryfuse::ondemand::{
    current_tick, find_handle, init_ondemand, register_module, simple_hash, tick_ondemand,
    try_ondemand_load_path, try_ondemand_load_syscall, with_ondemand, AccessEvent, AccessResult,
    AttemptStep, KmodOnDemandLoader, LoadAction, LoadError, LoadEvent, ModuleDesc, OndemandAction,
    OndemandEvent, RegisterAction, UnloadAction, UnloadError, UnloadEvent,
};

#[test]
fn hashes() {
    assert_eq!(simple_hash(""), 5381);
    assert_eq!(simple_hash("a"), 177670);
    assert_eq!(simple_hash("ab"), 5863208);
    assert_eq!(simple_hash("fuse"), 6385237784);
    assert_eq!(simple_hash("procfs"), 6953911600498);
    let mut h: u64 = 5381;
    let long = "a module with a name that is long enough to wrap around";
    for b in long.bytes() {
        h = h.wrapping_mul(33).wrapping_add(u64::from(b));
    }
    assert_eq!(simple_hash(long), h);
}

#[test]
fn ticks_are_milliseconds() {
    assert_eq!(current_tick(0), 0);
    assert_eq!(current_tick(999_999), 0);
    assert_eq!(current_tick(1_000_000), 1);
    assert_eq!(current_tick(u64::MAX), u64::MAX / 1_000_000);
    assert_eq!(tick_ondemand(true, 5_500_000), Some(5));
    assert_eq!(tick_ondemand(false, 5_500_000), None);
}

#[test]
fn loading_reads_and_initialises() {
    let loader = KmodOnDemandLoader;
    let path = "/root/modules/fuse.ko";
    assert!(matches!(
        loader.load("fuse", path, LoadEvent::Start),
        LoadAction::ReadFile(p) if p == path
    ));
    assert!(matches!(
        loader.load("fuse", path, LoadEvent::FileRead(Ok(vec![1, 2]))),
        LoadAction::InitModule(image) if image == vec![1, 2]
    ));
    assert!(matches!(
        loader.load("fuse", path, LoadEvent::ModuleInit(Ok(()))),
        LoadAction::Return(Ok(6385237784))
    ));
}

#[test]
fn loading_fails() {
    let loader = KmodOnDemandLoader;
    for e in [VfsError::NotFound, VfsError::Io, VfsError::PermissionDenied] {
        assert!(matches!(
            loader.load("m", "p", LoadEvent::FileRead(Err(e))),
            LoadAction::Return(Err(LoadError::NotFound))
        ));
    }
    let cases = [
        (VfsError::NotFound, LoadError::NotFound),
        (VfsError::InvalidInput, LoadError::InvalidModule),
        (VfsError::Io, LoadError::Other),
        (VfsError::Other(-12), LoadError::Other),
    ];
    for (e, expected) in cases {
        assert!(matches!(
            loader.load("m", "p", LoadEvent::ModuleInit(Err(e))),
            LoadAction::Return(Err(got)) if got == expected
        ));
    }
}

fn names(list: &[&str]) -> Vec<String> {
    list.iter().map(|n| String::from(*n)).collect()
}

#[test]
fn handles_lead_back_to_modules() {
    let loaded = names(&["ext", "fuse", "procfs"]);
    assert_eq!(find_handle(&loaded, simple_hash("fuse")), Some(1));
    assert_eq!(find_handle(&loaded, simple_hash("procfs")), Some(2));
    assert_eq!(find_handle(&loaded, 1), None);
    assert_eq!(find_handle(&Vec::new(), 5381), None);
    // Two names with one hash: the first is found.
    assert_eq!(simple_hash("ab"), simple_hash("bA"));
    assert_eq!(find_handle(&names(&["x", "bA", "ab"]), simple_hash("ab")), Some(1));
}

#[test]
fn unloading_an_ordinary_module() {
    let loader = KmodOnDemandLoader;
    let start = UnloadEvent::Start(simple_hash("fuse"), names(&["ext", "fuse"]));
    assert!(matches!(loader.unload(start), UnloadAction::Delete(n) if n == "fuse"));
    assert!(matches!(
        loader.unload(UnloadEvent::Deleted(Ok(()))),
        UnloadAction::Return(Ok(()))
    ));
    assert!(matches!(
        loader.unload(UnloadEvent::Deleted(Err(VfsError::Io))),
        UnloadAction::Return(Err(UnloadError::Other))
    ));
}

#[test]
fn unloading_an_unknown_module() {
    let start = UnloadEvent::Start(77, names(&["ext", "fuse"]));
    assert!(matches!(
        KmodOnDemandLoader.unload(start),
        UnloadAction::Return(Err(UnloadError::NotLoaded))
    ));
}

#[test]
fn procfs_is_unloaded_like_any_module() {
    let loader = KmodOnDemandLoader;
    let start = UnloadEvent::Start(simple_hash("procfs"), names(&["fuse", "procfs"]));
    assert!(matches!(loader.unload(start), UnloadAction::Delete(n) if n == "procfs"));
    assert!(matches!(
        loader.unload(UnloadEvent::Deleted(Ok(()))),
        UnloadAction::Return(Ok(()))
    ));
    for e in [VfsError::NotFound, VfsError::Other(-16)] {
        assert!(matches!(
            loader.unload(UnloadEvent::Deleted(Err(e))),
            UnloadAction::Return(Err(UnloadError::Other))
        ));
    }
}

fn run(mut answers: Vec<AccessResult>) -> (bool, usize) {
    let mut attempt = try_ondemand_load_path(true, "/dev/fuse", 7_000_000).unwrap();
    assert_eq!(attempt.event, AccessEvent::Path("/dev/fuse"));
    assert_eq!(attempt.now, 7);
    let mut asked = 0;
    loop {
        asked += 1;
        match attempt.answered(answers.remove(0)) {
            AttemptStep::YieldAndAsk(next) => attempt = next,
            AttemptStep::YieldAndGiveUp => return (false, asked),
            AttemptStep::Return(found) => return (found, asked),
        }
    }
}

#[test]
fn registry_answers() {
    assert_eq!(run(vec![AccessResult::Loaded]), (true, 1));
    assert_eq!(run(vec![AccessResult::NoMatch]), (false, 1));
    assert_eq!(run(vec![AccessResult::LoadFailed]), (false, 1));
    assert_eq!(
        run(vec![AccessResult::Loading, AccessResult::Unavailable, AccessResult::Loaded]),
        (true, 3)
    );
    let mut four = vec![AccessResult::Loading; 4];
    four.push(AccessResult::Loaded);
    assert_eq!(run(four), (true, 5));
    assert_eq!(run(vec![AccessResult::Unavailable; 5]), (false, 5));
}

#[test]
fn no_registry_no_attempt() {
    assert_eq!(try_ondemand_load_path(false, "/dev/fuse", 1), None);
    assert_eq!(try_ondemand_load_syscall(false, 3, 1), None);
    let attempt = try_ondemand_load_syscall(true, 3, 2_000_000).unwrap();
    assert_eq!(attempt.event, AccessEvent::Syscall(3));
    assert_eq!((attempt.now, attempt.tries), (2, 0));
}

/// Runs an operation, with how often it ran.
fn operate(results: [Result<u32, VfsError>; 2], loads: bool) -> (Result<u32, VfsError>, usize) {
    let mut runs = 0;
    let mut event = OndemandEvent::Start;
    loop {
        event = match with_ondemand(event) {
            OndemandAction::Run => {
                runs += 1;
                OndemandEvent::Ran(results[0])
            }
            OndemandAction::TryLoad => OndemandEvent::LoadTried(loads),
            OndemandAction::RunAgain => {
                runs += 1;
                OndemandEvent::RanAgain(results[1])
            }
            OndemandAction::Return(result) => return (result, runs),
        };
    }
}

#[test]
fn operation_is_retried_once() {
    assert_eq!(operate([Ok(1), Ok(2)], true), (Ok(1), 1));
    let missing = Err(VfsError::NotFound);
    assert_eq!(operate([missing, Ok(2)], true), (Ok(2), 2));
    assert_eq!(operate([missing, Ok(2)], false), (missing, 1));
    assert_eq!(operate([missing, missing], true), (missing, 2));
    assert_eq!(operate([missing, Err(VfsError::Io)], true), (Err(VfsError::Io), 2));
    assert_eq!(operate([Err(VfsError::Io), Ok(2)], true), (Err(VfsError::Io), 1));
}

#[test]
fn registry_is_set_up_once() {
    let mut registry = None;
    init_ondemand(&mut registry, "first");
    assert_eq!(registry, Some("first"));
    init_ondemand(&mut registry, "second");
    assert_eq!(registry, Some("first"));
}

#[test]
fn registering_modules() {
    let desc = || ModuleDesc {
        name: String::from("m"),
        ko_path: String::from("/m.ko"),
        idle_timeout_ticks: 1,
        trigger_prefix: String::from("/m"),
        checks_usage: false,
    };
    assert_eq!(register_module(true, desc()), RegisterAction::Register(desc()));
    assert_eq!(register_module(false, desc()), RegisterAction::Return(false));
}
