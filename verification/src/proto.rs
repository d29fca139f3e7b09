//! Names shared between the daemon and the program in the sandbox.
use vstd::prelude::*;

verus! {

/// Well-known bus name the daemon claims on the session bus.
pub const BUS_NAME: &'static str = "io.github.stektus.FuseBridge1";

/// Object path the bridge interface is served at.
pub const OBJECT_PATH: &'static str = "/io/github/stektus/FuseBridge1";

/// Interface name (same as the bus name, versioned).
pub const INTERFACE: &'static str = "io.github.stektus.FuseBridge1";

/// The version that both programs report.
pub const VERSION: &'static str = "0.1.0";

/// Environment variable FUSE libraries use to hand `fusermount3` the unix
/// socket over which the `/dev/fuse` descriptor is returned.
pub const COMMFD_ENV: &'static str = "_FUSE_COMMFD";

} // verus!
