# fusebridge

FUSE mounts for sandboxed applications, without handing the application the
keys to the host.

A Flatpak application cannot mount a FUSE filesystem: `fusermount3` is
setuid, and the sandbox strips that. The bridge is a small session daemon
that runs the host's own `fusermount3` on the application's behalf, and a shim
that stands in for `fusermount3` inside the sandbox. What the daemon adds is
policy, and the policy is what is proved here.

## Layout

- `src/` is the library, verified with Verus:
  - `text`, `path`, `number`: texts, paths by component, and numbers;
  - `mountinfo`, `mount_table`: the kernel's mount table and what holds of it;
  - `flatpak`, `caller`: who is asking;
  - `policy`: options, mountpoints, and telling our own mounts from strangers';
  - `registry`, `ledger`: the books of mounts and claims, and what holds of
    them;
  - `request`, `course`: a mount request stage by stage, and what holds of
    every course it can take;
  - `removal`, `watch`: taking mounts down;
  - `fdpass`, `shim`, `daemon`, `proto`, `error`: the wire format, the two
    command lines, shared names and answers.
- `app/` is the program around it: the bus, the helper process and the system
  calls. Under the name `fusermount3` it is the shim, otherwise the daemon.
- `tests/` runs the library.

## What is promised

- A refused request never leaves the application with the `/dev/fuse`
  descriptor; a granted one always does, and only for a mount confirmed to be
  on the approved directory.
- A mountpoint is an empty directory of the session user, strictly inside an
  allowed root.
- Of mounts elsewhere, only one that went from connected to disconnected when
  the daemon dropped its descriptor is ever removed.
- A mount is unmounted only for the application that made it, and only while
  it is still that mount.
- No place is claimed twice, and both limits on live mounts hold at all times,
  requests in flight included.
