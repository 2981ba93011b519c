//! What the platform must allow before capture and injection can work.
//!
//! The probing itself — device files, group membership, display servers —
//! is platform work done outside; the verdict on what a probe found, and
//! the guidance shown when something is missing, live here.

use vstd::prelude::*;
use crate::text::str_eq;

verus! {

/// The verdict on a permission check.
#[derive(Debug, Clone, PartialEq)]
pub enum PermissionStatus {
    /// Everything the backends need is allowed.
    Granted,
    /// Something is missing; each entry names one gap.
    Denied { missing: Vec<String> },
    /// The platform gave no usable answer.
    Unknown,
}

impl PermissionStatus {
    /// Whether everything is allowed.
    pub fn is_granted(&self) -> (r: bool)
        ensures
            r == (self is Granted),
    {
        match self {
            PermissionStatus::Granted => true,
            _ => false,
        }
    }

    /// The missing permissions; empty unless denied.
    pub fn missing_permissions(&self) -> (r: Vec<String>)
        ensures
            match self {
                PermissionStatus::Denied { missing } => r@.map_values(|s: String| s@)
                    == missing@.map_values(|s: String| s@),
                _ => r@.len() == 0,
            },
    {
        match self {
            PermissionStatus::Denied { missing } => {
                let n = missing.len();
                let mut out: Vec<String> = Vec::new();
                let mut i: usize = 0;
                while i < n
                    invariant
                        i <= n,
                        n == missing@.len(),
                        out@.len() == i,
                        forall|j: int| 0 <= j < i ==> #[trigger] out@[j]@ == missing@[j]@,
                    decreases n - i,
                {
                    out.push(missing[i].clone());
                    i = i + 1;
                }
                proof {
                    assert(out@.map_values(|s: String| s@) =~= missing@.map_values(
                        |s: String| s@,
                    ));
                }
                out
            }
            _ => Vec::new(),
        }
    }
}

/// What probing a Linux system found: whether the uinput device exists,
/// whether its mode already allows this user, whether the user is in the
/// input group, and whether a display server is reachable.
#[derive(Debug, Clone, Copy, PartialEq, Eq, Structural)]
pub struct SystemProbe {
    pub uinput_device_present: bool,
    pub uinput_mode_ok: bool,
    pub input_group_member: bool,
    pub display_available: bool,
}

pub const MISSING_UINPUT_MODULE: &'static str = "uinput kernel module";

pub const MISSING_INPUT_ACCESS: &'static str = "input group membership or /dev/uinput access";

pub const MISSING_DISPLAY: &'static str = "X11 or Wayland display server";

/// The gaps a probe implies, in the order they are reported.
pub open spec fn spec_missing(p: SystemProbe) -> Seq<Seq<char>> {
    let dev: Seq<Seq<char>> = if !p.uinput_device_present {
        seq![MISSING_UINPUT_MODULE@]
    } else if !p.uinput_mode_ok && !p.input_group_member {
        seq![MISSING_INPUT_ACCESS@]
    } else {
        Seq::empty()
    };
    if !p.display_available {
        dev.push(MISSING_DISPLAY@)
    } else {
        dev
    }
}

/// Judges what a probe found: granted exactly when input devices are
/// reachable — through the device's own mode or the input group — and a
/// display server is up; otherwise denied, naming each gap.
pub fn check_permissions(probe: &SystemProbe) -> (r: PermissionStatus)
    ensures
        spec_missing(*probe).len() == 0 ==> r is Granted,
        spec_missing(*probe).len() > 0 ==> match r {
            PermissionStatus::Denied { missing } => missing@.map_values(|s: String| s@)
                == spec_missing(*probe),
            _ => false,
        },
{
    let mut missing: Vec<String> = Vec::new();
    if !probe.uinput_device_present {
        missing.push(String::from_str(MISSING_UINPUT_MODULE));
    } else if !probe.uinput_mode_ok && !probe.input_group_member {
        missing.push(String::from_str(MISSING_INPUT_ACCESS));
    }
    if !probe.display_available {
        missing.push(String::from_str(MISSING_DISPLAY));
    }
    if missing.len() == 0 {
        proof {
            assert(missing@.map_values(|s: String| s@) =~= spec_missing(*probe));
        }
        PermissionStatus::Granted
    } else {
        proof {
            assert(missing@.map_values(|s: String| s@) =~= spec_missing(*probe));
        }
        PermissionStatus::Denied { missing }
    }
}

pub const MACOS_HELP: &'static str = "macOS Permissions Required\n==========================\n\nAccessibility permission is needed to capture and inject input events.\n\nHow to grant it:\n1. Open System Settings\n2. Go to Privacy & Security, then Accessibility\n3. Add this application to the list\n4. Enable the checkbox next to it\n\nA restart of the application may be needed after granting.\n";

pub const LINUX_HELP: &'static str = "Linux Permissions Required\n==========================\n\nAccess to /dev/uinput and the input devices is needed.\n\nHow to grant it:\n\n1. Load the uinput kernel module:\n   sudo modprobe uinput\n\n2. Add your user to the input group:\n   sudo usermod -a -G input $USER\n\n   Then log out and log back in.\n\n3. Make sure an X11 or Wayland session is running.\n";

pub const WINDOWS_HELP: &'static str = "Windows Permissions\n===================\n\nInput capture and injection usually work without special permissions on Windows.\n\nIf injection fails:\n1. Try running as Administrator\n2. Check that security software is not blocking input injection\n3. To drive an elevated application, run elevated as well\n";

pub const UNKNOWN_OS_HELP: &'static str = "Unknown operating system. Linux, macOS, and Windows are supported.\n";

/// The guidance for fixing permissions on the named platform: `linux`,
/// `macos` or `windows`, anything else getting the unknown-platform
/// answer.
pub fn get_permission_help(os: &str) -> (r: String)
    ensures
        r@ == if os@ == "linux"@ {
            LINUX_HELP@
        } else if os@ == "macos"@ {
            MACOS_HELP@
        } else if os@ == "windows"@ {
            WINDOWS_HELP@
        } else {
            UNKNOWN_OS_HELP@
        },
{
    if str_eq(os, "linux") {
        get_linux_help()
    } else if str_eq(os, "macos") {
        get_macos_help()
    } else if str_eq(os, "windows") {
        get_windows_help()
    } else {
        String::from_str(UNKNOWN_OS_HELP)
    }
}

/// The macOS guidance.
pub fn get_macos_help() -> (r: String)
    ensures
        r@ == MACOS_HELP@,
{
    String::from_str(MACOS_HELP)
}

/// The Linux guidance.
pub fn get_linux_help() -> (r: String)
    ensures
        r@ == LINUX_HELP@,
{
    String::from_str(LINUX_HELP)
}

/// The Windows guidance.
pub fn get_windows_help() -> (r: String)
    ensures
        r@ == WINDOWS_HELP@,
{
    String::from_str(WINDOWS_HELP)
}

} // verus!
