use starryfuse::error::VfsError;
use starryfuse::registry::{
    get_filesystem_creator, register_filesystem, unregister_filesystem, FsRegistry,
};

#[test]
fn registered_type_is_found() {
    let mut r: FsRegistry<u32> = FsRegistry::new();
    assert_eq!(get_filesystem_creator(&r, "fuse"), None);
    assert_eq!(register_filesystem(&mut r, "fuse", 7), Ok(()));
    assert_eq!(get_filesystem_creator(&r, "fuse"), Some(&7));
    assert_eq!(get_filesystem_creator(&r, "fus"), None);
}

#[test]
fn taken_name_stays_with_first_type() {
    let mut r: FsRegistry<u32> = FsRegistry::new();
    assert_eq!(register_filesystem(&mut r, "fuse", 7), Ok(()));
    assert_eq!(register_filesystem(&mut r, "fuse", 8), Err(VfsError::AlreadyExists));
    assert_eq!(get_filesystem_creator(&r, "fuse"), Some(&7));
}

#[test]
fn unregistering_frees_only_its_name() {
    let mut r: FsRegistry<u32> = FsRegistry::new();
    unregister_filesystem(&mut r, "fuse");
    assert_eq!(register_filesystem(&mut r, "a", 1), Ok(()));
    assert_eq!(register_filesystem(&mut r, "fuse", 2), Ok(()));
    assert_eq!(register_filesystem(&mut r, "c", 3), Ok(()));
    unregister_filesystem(&mut r, "fuse");
    assert_eq!(get_filesystem_creator(&r, "fuse"), None);
    assert_eq!(get_filesystem_creator(&r, "a"), Some(&1));
    assert_eq!(get_filesystem_creator(&r, "c"), Some(&3));
    assert_eq!(register_filesystem(&mut r, "fuse", 4), Ok(()));
    assert_eq!(get_filesystem_creator(&r, "fuse"), Some(&4));
}
