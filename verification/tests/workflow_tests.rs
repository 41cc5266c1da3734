use hdr_screenshot::capture::{
    acquire_decision, surface_is_hdr, AcquireDecision, AcquireOutcome, ACQUIRE_ATTEMPTS,
    FORMAT_RGBA16_FLOAT,
};
use hdr_screenshot::workflow::{
    dispatch_message, jxr_file_name, keyboard_hook_decision, png_file_name, region_outputs,
    screen_outputs, Command, HookDecision, VK_SNAPSHOT, WM_HOTKEY, WM_KEYDOWN, WM_SYSKEYDOWN,
    WM_TAKE_SCREENSHOT,
};

#[test]
fn early_frame_without_presentation_is_retried() {
    let f0 = AcquireOutcome::Frame { last_present_time: 0 };
    assert_eq!(acquire_decision(0, f0), AcquireDecision::ReleaseAndRetry);
    assert_eq!(acquire_decision(1, f0), AcquireDecision::ReleaseAndRetry);
    assert_eq!(acquire_decision(2, f0), AcquireDecision::UseFrame);
    let f1 = AcquireOutcome::Frame { last_present_time: 12345 };
    assert_eq!(acquire_decision(0, f1), AcquireDecision::UseFrame);
}

#[test]
fn failures_wait_then_give_up_on_last_attempt() {
    for a in 0..ACQUIRE_ATTEMPTS - 1 {
        assert_eq!(acquire_decision(a, AcquireOutcome::Failed), AcquireDecision::WaitAndRetry);
    }
    assert_eq!(acquire_decision(ACQUIRE_ATTEMPTS - 1, AcquireOutcome::Failed), AcquireDecision::GiveUp);
}

#[test]
fn hdr_only_for_float_duplication() {
    assert!(surface_is_hdr(true, FORMAT_RGBA16_FLOAT));
    assert!(!surface_is_hdr(true, 87));
    assert!(!surface_is_hdr(false, FORMAT_RGBA16_FLOAT));
}

#[test]
fn hotkeys_and_hook_message_dispatch() {
    assert_eq!(dispatch_message(WM_HOTKEY, 1), Command::CaptureRegion { hdr_file: false });
    assert_eq!(dispatch_message(WM_HOTKEY, 2), Command::CaptureRegion { hdr_file: true });
    assert_eq!(dispatch_message(WM_HOTKEY, 3), Command::Ignore);
    assert_eq!(dispatch_message(WM_TAKE_SCREENSHOT, 0), Command::CaptureScreen);
    assert_eq!(dispatch_message(0x0012, 0), Command::Ignore);
}

#[test]
fn print_screen_is_swallowed_and_requests_capture() {
    assert_eq!(
        keyboard_hook_decision(0, VK_SNAPSHOT, WM_KEYDOWN, 77),
        HookDecision { request_capture: true, swallow: true }
    );
    assert_eq!(
        keyboard_hook_decision(0, VK_SNAPSHOT, WM_SYSKEYDOWN, 77),
        HookDecision { request_capture: true, swallow: true }
    );
    assert_eq!(
        keyboard_hook_decision(0, VK_SNAPSHOT, 0x0101, 77),
        HookDecision { request_capture: false, swallow: true }
    );
    assert_eq!(
        keyboard_hook_decision(0, VK_SNAPSHOT, WM_KEYDOWN, 0),
        HookDecision { request_capture: false, swallow: true }
    );
}

#[test]
fn other_keys_pass_through_hook() {
    assert_eq!(
        keyboard_hook_decision(0, 0x41, WM_KEYDOWN, 77),
        HookDecision { request_capture: false, swallow: false }
    );
    assert_eq!(
        keyboard_hook_decision(-1, VK_SNAPSHOT, WM_KEYDOWN, 77),
        HookDecision { request_capture: false, swallow: false }
    );
}

#[test]
fn region_modes_choose_outputs() {
    let sdr = region_outputs(false);
    assert!(sdr.png && sdr.clipboard && !sdr.jxr);
    let hdr = region_outputs(true);
    assert!(!hdr.png && !hdr.clipboard && hdr.jxr);
}

#[test]
fn screen_capture_outputs() {
    let o = screen_outputs(false);
    assert!(o.png && o.clipboard && !o.jxr);
    let o = screen_outputs(true);
    assert!(o.png && o.clipboard && o.jxr);
}

#[test]
fn file_names() {
    assert_eq!(png_file_name("20240102_030405"), "Screenshot_20240102_030405.png");
    assert_eq!(jxr_file_name("20240102_030405"), "Screenshot_HDR_20240102_030405.jxr");
}
