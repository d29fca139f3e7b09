//! Policy core of a bridge that performs FUSE mounts on behalf of sandboxed
//! applications.
pub mod book_laws;
pub mod caller;
pub mod course;
pub mod daemon;
pub mod daemon_laws;
pub mod error;
pub mod fdpass;
pub mod flatpak;
pub mod identity_laws;
pub mod ledger;
pub mod mount_table;
pub mod mountinfo;
pub mod number;
pub mod path;
pub mod path_laws;
pub mod policy;
pub mod policy_laws;
pub mod proto;
pub mod registry;
pub mod removal;
pub mod request;
pub mod request_laws;
pub mod shim;
pub mod shim_laws;
pub mod table_laws;
pub mod text;
pub mod text_laws;
pub mod watch;
