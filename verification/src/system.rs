//! What the router does as the first process of the machine.

use vstd::prelude::*;

verus! {

/// The directory that workers are locked into.
pub const CHROOT_JAIL_PATH: &'static str = "/run/empty";

pub const NOBODY_UID: u32 = 65534;

pub const NOBODY_GID: u32 = 65534;

pub const SNTP_UID: u32 = 10001;

pub const SNTP_GID: u32 = 10001;

pub const DHCP_CLIENT_UID: u32 = 10002;

pub const DHCP_CLIENT_GID: u32 = 10002;

pub const DHCP_SERVER_UID: u32 = 10003;

pub const DHCP_SERVER_GID: u32 = 10003;

pub const DNS_FORWARDER_UID: u32 = 10004;

pub const DNS_FORWARDER_GID: u32 = 10004;

/// Where the kernel keeps the path of the program that loads modules.
pub const MODPROBE_SETTING: &'static str = "/proc/sys/kernel/modprobe";

/// The program that loads modules.
pub const MODPROBE_PATH: &'static str = "/sbin/modprobe";

/// The process that the kernel starts first.
pub const INIT_PID: i32 = 1;

/// The machine that the program runs on.
pub struct RealSystem;

impl RealSystem {
    /// Whether file systems are mounted: only the first process does so.
    pub fn mounts(&self, pid: i32) -> (r: bool)
        ensures
            r == (pid == INIT_PID),
    {
        pid == INIT_PID
    }
}

/// Whether the process with the given number hangs when it panics, in place of
/// ending: the machine stops with its first process.
pub fn hangs_on_panic(pid: i32) -> (r: bool)
    ensures
        r == (pid == INIT_PID),
{
    pid == INIT_PID
}

/// How the cause of a panic is put in words.
pub fn panic_cause(payload: Option<&str>) -> (r: String)
    ensures
        r@ == match payload {
            Some(text) => "Panic Cause: "@ + text@,
            None => "Panic Cause: Unknown"@,
        },
{
    match payload {
        Some(text) => "Panic Cause: ".to_owned().concat(text),
        None => "Panic Cause: Unknown".to_owned(),
    }
}

/// A file system and the place where it is mounted.
#[derive(Clone, Copy, Debug, PartialEq, Eq)]
pub struct Mount {
    pub target: &'static str,
    pub fstype: &'static str,
}

/// The virtual file systems in the order in which they are mounted.
pub open spec fn virtual_filesystems() -> Seq<Mount> {
    seq![
        Mount { target: "/proc", fstype: "proc" },
        Mount { target: "/sys", fstype: "sysfs" },
        Mount { target: "/dev", fstype: "devtmpfs" },
        Mount { target: "/run", fstype: "tmpfs" },
    ]
}

/// What to do next to make the virtual file systems available.
#[derive(Clone, Debug, PartialEq, Eq)]
pub enum MountStep {
    Mount(Mount),
    /// Everything is mounted: tell the kernel how modules are loaded.
    SetModprobePath,
    /// Give up.
    Failed(String),
}

/// Says what to do next where `mounted` file systems have been mounted and the
/// attempt to mount the next one failed, if at all, for the given reason.
pub fn mount_virtual_filesystems(mounted: usize, failure: Option<&str>) -> (r: MountStep)
    ensures
        if mounted >= virtual_filesystems().len() {
            r is SetModprobePath
        } else {
            match failure {
                None => r == MountStep::Mount(virtual_filesystems()[mounted as int]),
                Some(reason) => r matches MountStep::Failed(text) && text@ == "Failed to mount "@
                    + virtual_filesystems()[mounted as int].target@ + ": "@ + reason@,
            }
        },
{
    let next = match mounted {
        0 => Mount { target: "/proc", fstype: "proc" },
        1 => Mount { target: "/sys", fstype: "sysfs" },
        2 => Mount { target: "/dev", fstype: "devtmpfs" },
        3 => Mount { target: "/run", fstype: "tmpfs" },
        _ => return MountStep::SetModprobePath,
    };
    match failure {
        None => MountStep::Mount(next),
        Some(reason) => MountStep::Failed(
            "Failed to mount ".to_owned().concat(next.target).concat(": ").concat(reason),
        ),
    }
}

} // verus!
