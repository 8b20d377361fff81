//! What the debugger's clients ask for over the network, as requests of the
//! hub, and what they are answered.

use vstd::prelude::*;

use super::handle::Cmd;
use crate::disk::drives::{DriveInfo, MountOptions};
use crate::disk::kind::DriveKind;
use crate::picture::{encode_png, encodes};
use crate::text::{same, texts};

verus! {

/// How long a request may take, in milliseconds: by default, and one that
/// waits for its input.
pub const DEFAULT_TIMEOUT_MS: u64 = 5_000;

pub const INPUT_WAIT_TIMEOUT_MS: u64 = 120_000;

/// The bytes of memory that are read when no number is given, and the most.
pub const DEFAULT_READ: usize = 256;

pub const READ_LIMIT: usize = 0x10_0000;

/// A failure: its HTTP status and a message.
pub type Failure = (u16, String);

/// Whether a failure is one with a message as a text.
pub open spec fn fails(got: Failure, code: u16, message: Seq<char>) -> bool {
    got.0 == code && got.1@ == message
}

/// What an action does.
#[derive(Clone, Copy, Debug, PartialEq, Eq, Structural)]
pub enum Action {
    Pause,
    Resume,
    Step,
    RebootShell,
}

/// The action of a name.
pub open spec fn action_named(name: Seq<char>) -> Option<Action> {
    if name == "pause"@ {
        Some(Action::Pause)
    } else if name == "resume"@ || name == "continue"@ {
        Some(Action::Resume)
    } else if name == "step"@ {
        Some(Action::Step)
    } else if name == "reboot_shell"@ {
        Some(Action::RebootShell)
    } else {
        None
    }
}

/// Whether a request is what an action asks for.
pub open spec fn asks(cmd: Cmd, action: Action, count: Option<u64>, until: Option<String>) -> bool {
    match action {
        Action::Pause => cmd == Cmd::Pause,
        Action::Resume => cmd == (Cmd::Resume { until }),
        Action::Step => cmd == (Cmd::Step {
            count: match count {
                Some(n) => n,
                None => 1,
            },
        }),
        Action::RebootShell => cmd == Cmd::RebootShell,
    }
}

/// The request of an action, and how long it may take.
pub fn control(
    action: &str,
    count: Option<u64>,
    until: Option<String>,
    timeout_ms: Option<u64>,
) -> (request: Result<(Cmd, u64), Failure>)
    ensures
        match (request, action_named(action@)) {
            (Ok((cmd, ms)), Some(a)) => asks(cmd, a, count, until) && ms == (if a == Action::Step
                && timeout_ms is Some {
                timeout_ms->0
            } else {
                DEFAULT_TIMEOUT_MS
            }),
            (Err(e), None) => fails(
                e,
                404,
                "unknown action '"@ + action@ + "' (pause, resume, step, reboot_shell)"@,
            ),
            _ => false,
        },
{
    if same(action, "pause") {
        Ok((Cmd::Pause, DEFAULT_TIMEOUT_MS))
    } else if same(action, "resume") || same(action, "continue") {
        Ok((Cmd::Resume { until }, DEFAULT_TIMEOUT_MS))
    } else if same(action, "step") {
        let count: u64 = match count {
            Some(n) => n,
            None => 1,
        };
        let ms: u64 = match timeout_ms {
            Some(ms) => ms,
            None => DEFAULT_TIMEOUT_MS,
        };
        Ok((Cmd::Step { count }, ms))
    } else if same(action, "reboot_shell") {
        Ok((Cmd::RebootShell, DEFAULT_TIMEOUT_MS))
    } else {
        let mut message = String::from_str("unknown action '");
        message.append(action);
        message.append("' (pause, resume, step, reboot_shell)");
        Err((404, message))
    }
}

/// How many bytes of memory are read.
pub fn read_length(len: Option<usize>) -> (n: usize)
    ensures
        n == (match len {
            Some(n) => if n < READ_LIMIT {
                n
            } else {
                READ_LIMIT
            },
            None => DEFAULT_READ,
        }),
{
    match len {
        Some(n) => if n < READ_LIMIT {
            n
        } else {
            READ_LIMIT
        },
        None => DEFAULT_READ,
    }
}

/// How memory is shown.
#[derive(Clone, Copy, Debug, PartialEq, Eq, Structural)]
pub enum MemoryFormat {
    Hex,
    Base64,
    Raw,
}

/// How memory is shown by the name of the format.
pub open spec fn memory_format_named(name: Option<Seq<char>>) -> Option<MemoryFormat> {
    match name {
        None => Some(MemoryFormat::Hex),
        Some(n) => if n == "hex"@ {
            Some(MemoryFormat::Hex)
        } else if n == "base64"@ {
            Some(MemoryFormat::Base64)
        } else if n == "raw"@ || n == "bin"@ {
            Some(MemoryFormat::Raw)
        } else {
            None
        },
    }
}

/// The text of an optional string.
pub open spec fn text_of(name: Option<&str>) -> Option<Seq<char>> {
    match name {
        Some(n) => Some(n@),
        None => None,
    }
}

/// How memory is shown by the name of the format.
pub fn memory_format(name: Option<&str>) -> (format: Result<MemoryFormat, Failure>)
    ensures
        match (format, memory_format_named(text_of(name))) {
            (Ok(a), Some(b)) => a == b,
            (Err(e), None) => fails(
                e,
                400,
                "unknown format '"@ + name->0@ + "' (hex, base64, raw)"@,
            ),
            _ => false,
        },
{
    match name {
        None => Ok(MemoryFormat::Hex),
        Some(n) => {
            if same(n, "hex") {
                Ok(MemoryFormat::Hex)
            } else if same(n, "base64") {
                Ok(MemoryFormat::Base64)
            } else if same(n, "raw") || same(n, "bin") {
                Ok(MemoryFormat::Raw)
            } else {
                let mut message = String::from_str("unknown format '");
                message.append(n);
                message.append("' (hex, base64, raw)");
                Err((400, message))
            }
        },
    }
}

/// A screenshot as it is sent.
#[derive(Debug)]
pub enum Screenshot {
    Png(Vec<u8>),
    /// Three bytes a pixel, and the size of the picture.
    Raw { rgb: Vec<u8>, width: u32, height: u32 },
}

/// What a screenshot of a format comes to.
pub open spec fn shot(
    format: Option<Seq<char>>,
    rgb: Seq<u8>,
    width: u32,
    height: u32,
    got: Result<Screenshot, Failure>,
) -> bool {
    let name = match format {
        Some(n) => n,
        None => "png"@,
    };
    if name == "png"@ {
        match got {
            Ok(Screenshot::Png(file)) => encodes(Ok(file), rgb, width, height),
            Err((code, e)) => code == 500 && encodes(Err(e), rgb, width, height),
            _ => false,
        }
    } else if name == "raw"@ {
        got matches Ok(Screenshot::Raw { rgb: p, width: w, height: h }) && p@ == rgb && w == width
            && h == height
    } else {
        got matches Err(e) && fails(e, 400, "unknown format '"@ + name + "' (png, raw)"@)
    }
}

/// A screenshot in the format that a client asks for.
pub fn screenshot(format: Option<&str>, rgb: Vec<u8>, width: u32, height: u32) -> (got: Result<
    Screenshot,
    Failure,
>)
    ensures
        shot(text_of(format), rgb@, width, height, got),
{
    let name = match format {
        Some(n) => n,
        None => "png",
    };
    if same(name, "png") {
        match encode_png(rgb.as_slice(), width, height) {
            Ok(file) => Ok(Screenshot::Png(file)),
            Err(e) => Err((500, e)),
        }
    } else if same(name, "raw") {
        Ok(Screenshot::Raw { rgb, width, height })
    } else {
        let mut message = String::from_str("unknown format '");
        message.append(name);
        message.append("' (png, raw)");
        Err((400, message))
    }
}

/// Whether a name is that of a kind of input event.
pub open spec fn event_kind(kind: Seq<char>) -> bool {
    kind == "key"@ || kind == "type"@ || kind == "mouse"@ || kind == "wait"@
}

/// The type that events have which give none: that of the kind of input, and
/// none in a batch.
pub fn default_type(kind: &str) -> (default: Result<Option<&str>, Failure>)
    ensures
        match default {
            Ok(Some(t)) => event_kind(kind@) && t@ == kind@,
            Ok(None) => kind@ == "batch"@,
            Err(e) => !event_kind(kind@) && kind@ != "batch"@ && fails(
                e,
                404,
                "unknown input kind '"@ + kind@ + "'"@,
            ),
        },
{
    if same(kind, "key") || same(kind, "type") || same(kind, "mouse") || same(kind, "wait") {
        proof {
            reveal_strlit("key");
            reveal_strlit("type");
            reveal_strlit("mouse");
            reveal_strlit("wait");
            reveal_strlit("batch");
        }
        Ok(Some(kind))
    } else if same(kind, "batch") {
        Ok(None)
    } else {
        let mut message = String::from_str("unknown input kind '");
        message.append(kind);
        message.append("'");
        Err((404, message))
    }
}

/// How long a request for input may take.
pub fn input_timeout(wait: bool) -> (ms: u64)
    ensures
        ms == (if wait {
            INPUT_WAIT_TIMEOUT_MS
        } else {
            DEFAULT_TIMEOUT_MS
        }),
{
    if wait {
        INPUT_WAIT_TIMEOUT_MS
    } else {
        DEFAULT_TIMEOUT_MS
    }
}

/// How a drive is mounted that a client asks for: without explicit options a
/// remount keeps the drive's type, label and read-only flag, unless what is
/// mounted is a file, an image, which brings its own type and label.
pub open spec fn mounts_as(
    opts: MountOptions,
    mounted: Option<DriveInfo>,
    is_file: bool,
    kind: Option<DriveKind>,
    label: Option<String>,
    read_only: bool,
    images: Seq<String>,
) -> bool {
    let explicit = kind is Some || label is Some || read_only;
    &&& texts(opts.more_images@) == texts(images)
    &&& match mounted {
        Some(info) if !explicit && !is_file => {
            &&& opts.kind == info.kind
            &&& match opts.label {
                Some(l) => info.image is None && l@ == info.label@,
                None => info.image is Some,
            }
            &&& opts.read_only == info.read_only
        },
        _ => {
            &&& opts.kind == (match kind {
                Some(k) => k,
                None => DriveKind::HardDisk,
            })
            &&& opts.label == label
            &&& opts.read_only == read_only
        },
    }
}

/// How to mount (or replace) a drive that a client asks for, where a drive
/// may be mounted already and the path may be a file.
pub fn mount_options(
    mounted: Option<DriveInfo>,
    is_file: bool,
    kind: Option<DriveKind>,
    label: Option<String>,
    read_only: bool,
    images: Vec<String>,
) -> (opts: MountOptions)
    ensures
        mounts_as(opts, mounted, is_file, kind, label, read_only, images@),
        opts.geometry is None,
{
    let explicit = kind.is_some() || label.is_some() || read_only;
    if let Some(info) = mounted {
        if !explicit && !is_file {
            let kept = if info.image.is_none() {
                Some(info.label)
            } else {
                None
            };
            return MountOptions {
                kind: info.kind,
                label: kept,
                read_only: info.read_only,
                more_images: images,
                geometry: None,
            };
        }
    }
    let kind = match kind {
        Some(k) => k,
        None => DriveKind::HardDisk,
    };
    MountOptions { kind, label, read_only, more_images: images, geometry: None }
}

/// A remount with no options of its own keeps what the drive is: the type and
/// the read-only flag, and of one that is no image the label.
pub proof fn law_remount_keeps_options(
    opts: MountOptions,
    info: DriveInfo,
    images: Seq<String>,
)
    requires
        mounts_as(opts, Some(info), false, None, None, false, images),
    ensures
        opts.kind == info.kind,
        opts.read_only == info.read_only,
        info.image is None ==> opts.label is Some && opts.label->0@ == info.label@,
{
}

} // verus!
