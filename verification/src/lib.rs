//! FUSE for a small kernel, and the on-demand loading of the module that holds it.
//!
//! A FUSE filesystem is served by a daemon in user space. Operations on files
//! become requests that the daemon reads from a device, and the replies that it
//! writes there become the results of the operations:
//!
//! - [`abi`] is the wire format, over the little-endian integers of [`bytes`];
//! - [`dev`] is the device and the queue of requests behind it;
//! - [`vfs`] turns operations into requests and replies into results, with
//!   [`dirent`] for directory listings and [`node`] for what is known of a node.
//!
//! The module that provides the device is loaded when somebody looks for it:
//!
//! - [`ondemand`] decides when to load and unload modules, and
//!   [`ondemand_builtin`] knows the modules that come with the kernel;
//! - [`module`] is what modules do when they come and go;
//! - [`registry`] holds the filesystem types, and [`mount`] sets up the tree of
//!   mounted filesystems, over the paths of [`path`];
//! - [`lazy_mount`] keeps the filesystems that are mounted when they are first
//!   needed;
//! - [`symbols`] is the kernel's symbol table.
//!
//! Nothing here waits, takes a lock or touches a device. Where the kernel has to
//! act, a function gives the action and takes what came of it.
pub mod abi;
pub mod bytes;
pub mod dev;
pub mod dirent;
pub mod error;
pub mod lazy_mount;
pub mod module;
pub mod mount;
pub mod node;
pub mod ondemand;
pub mod ondemand_builtin;
pub mod path;
pub mod registry;
pub mod symbols;
pub mod text;
pub mod vfs;
