use vstd::prelude::*;

verus! {

/// Identifier of the hotkey that captures a region as an SDR PNG.
pub const HOTKEY_SDR_ID: i32 = 1;

/// Identifier of the hotkey that captures a region as a native HDR JXR file.
pub const HOTKEY_HDR_ID: i32 = 2;

/// Modifiers of both hotkeys: Alt (1), Control (2), and no auto-repeat (0x4000).
pub const HOTKEY_MODIFIERS: u32 = 0x4003;

/// Virtual-key code of the SDR hotkey, `A`.
pub const HOTKEY_SDR_KEY: u32 = 0x41;

/// Virtual-key code of the HDR hotkey, `H`.
pub const HOTKEY_HDR_KEY: u32 = 0x48;

/// The window message that reports a registered hotkey.
pub const WM_HOTKEY: u32 = 0x0312;

/// The message that the keyboard hook posts to request a full-screen capture
/// (the first private message number, `WM_USER + 1`).
pub const WM_TAKE_SCREENSHOT: u32 = 0x0401;

/// Virtual-key code of the Print Screen key.
pub const VK_SNAPSHOT: u32 = 0x2C;

/// Keyboard messages that count as a key press.
pub const WM_KEYDOWN: u32 = 0x0100;
pub const WM_SYSKEYDOWN: u32 = 0x0104;

/// What the main message loop does with one message.
#[derive(Clone, Copy, Debug, PartialEq, Eq)]
pub enum Command {
    /// Let the user select a region; save it as HDR JXR when `hdr_file`,
    /// else as SDR PNG and on the clipboard.
    CaptureRegion { hdr_file: bool },
    /// Capture the whole screen at once.
    CaptureScreen,
    /// Nothing to do.
    Ignore,
}

pub open spec fn spec_dispatch(message: u32, wparam: usize) -> Command {
    if message == WM_HOTKEY {
        if wparam == HOTKEY_SDR_ID as usize {
            Command::CaptureRegion { hdr_file: false }
        } else if wparam == HOTKEY_HDR_ID as usize {
            Command::CaptureRegion { hdr_file: true }
        } else {
            Command::Ignore
        }
    } else if message == WM_TAKE_SCREENSHOT {
        Command::CaptureScreen
    } else {
        Command::Ignore
    }
}

/// Maps a message of the main loop to the work it asks for: the SDR hotkey
/// to a region capture to PNG, the HDR hotkey to a region capture to JXR,
/// the keyboard hook's request to a full-screen capture.
pub fn dispatch_message(message: u32, wparam: usize) -> (c: Command)
    ensures
        c == spec_dispatch(message, wparam),
        message == WM_HOTKEY && wparam == HOTKEY_SDR_ID as usize ==> c == (Command::CaptureRegion {
            hdr_file: false,
        }),
        message == WM_HOTKEY && wparam == HOTKEY_HDR_ID as usize ==> c == (Command::CaptureRegion {
            hdr_file: true,
        }),
        message == WM_TAKE_SCREENSHOT ==> c == Command::CaptureScreen,
        message != WM_HOTKEY && message != WM_TAKE_SCREENSHOT ==> c == Command::Ignore,
        message == WM_HOTKEY && wparam != HOTKEY_SDR_ID as usize && wparam != HOTKEY_HDR_ID as usize
            ==> c == Command::Ignore,
{
    if message == WM_HOTKEY {
        if wparam == 1 {
            Command::CaptureRegion { hdr_file: false }
        } else if wparam == 2 {
            Command::CaptureRegion { hdr_file: true }
        } else {
            Command::Ignore
        }
    } else if message == WM_TAKE_SCREENSHOT {
        Command::CaptureScreen
    } else {
        Command::Ignore
    }
}

/// What the low-level keyboard hook does with one keyboard event.
#[derive(Clone, Copy, Debug, PartialEq, Eq)]
pub struct HookDecision {
    /// Post `WM_TAKE_SCREENSHOT` to the main thread.
    pub request_capture: bool,
    /// Keep the event from other applications (else pass it down the hook chain).
    pub swallow: bool,
}

/// Decides a keyboard event seen by the hook: `code` is the hook code,
/// `vk_code` the key, `event` the keyboard message, `main_thread` the
/// identifier of the main thread (0 while unknown). Print Screen is always
/// kept from other applications; a press of it requests a full-screen
/// capture once the main thread is known. Every other event passes on.
pub fn keyboard_hook_decision(code: i32, vk_code: u32, event: u32, main_thread: u32) -> (d:
    HookDecision)
    ensures
        d.swallow == (code >= 0 && vk_code == VK_SNAPSHOT),
        d.request_capture == (code >= 0 && vk_code == VK_SNAPSHOT && (event == WM_KEYDOWN || event
            == WM_SYSKEYDOWN) && main_thread != 0),
{
    if code >= 0 && vk_code == VK_SNAPSHOT {
        let pressed = event == WM_KEYDOWN || event == WM_SYSKEYDOWN;
        HookDecision { request_capture: pressed && main_thread != 0, swallow: true }
    } else {
        HookDecision { request_capture: false, swallow: false }
    }
}

/// The files and destinations that a capture produces.
#[derive(Clone, Copy, Debug, PartialEq, Eq)]
pub struct CaptureOutputs {
    /// Tone-mapped SDR PNG file.
    pub png: bool,
    /// The same SDR image on the clipboard.
    pub clipboard: bool,
    /// Native HDR JXR file of the raw half-float pixels.
    pub jxr: bool,
}

/// Outputs of a region capture: the HDR hotkey saves a JXR file only; the
/// SDR hotkey saves a PNG file and puts it on the clipboard.
pub fn region_outputs(hdr_file: bool) -> (o: CaptureOutputs)
    ensures
        o.jxr == hdr_file,
        o.png == !hdr_file,
        o.clipboard == !hdr_file,
{
    CaptureOutputs { png: !hdr_file, clipboard: !hdr_file, jxr: hdr_file }
}

/// Outputs of a full-screen capture: always a PNG file and the clipboard,
/// and a JXR file as well when the desktop was captured in HDR.
pub fn screen_outputs(frame_is_hdr: bool) -> (o: CaptureOutputs)
    ensures
        o.png,
        o.clipboard,
        o.jxr == frame_is_hdr,
{
    CaptureOutputs { png: true, clipboard: true, jxr: frame_is_hdr }
}

/// Name of the SDR screenshot file taken at `timestamp`.
pub fn png_file_name(timestamp: &str) -> (name: String)
    ensures
        name@ == "Screenshot_"@ + timestamp@ + ".png"@,
{
    let mut name = String::from_str("Screenshot_");
    name.append(timestamp);
    name.append(".png");
    name
}

/// Name of the HDR screenshot file taken at `timestamp`.
pub fn jxr_file_name(timestamp: &str) -> (name: String)
    ensures
        name@ == "Screenshot_HDR_"@ + timestamp@ + ".jxr"@,
{
    let mut name = String::from_str("Screenshot_HDR_");
    name.append(timestamp);
    name.append(".jxr");
    name
}

} // verus!
