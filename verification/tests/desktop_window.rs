use makepad_draw::desktop_window::{
    caption_buttons, classify_event, click_action, overlay_buttons, process_chrome, ChromeButton,
    DesktopButtonType, DesktopWindowVerdict, PlatformType, WindowAction, WindowEventKind,
};

#[test]
fn clicks_toggle_and_act() {
    assert_eq!(click_action(ChromeButton::XR, false, true), WindowAction::XrStopPresenting);
    assert_eq!(click_action(ChromeButton::XR, false, false), WindowAction::XrStartPresenting);
    assert_eq!(click_action(ChromeButton::Fullscreen, true, false), WindowAction::NormalWindow);
    assert_eq!(click_action(ChromeButton::Fullscreen, false, false), WindowAction::FullscreenWindow);
    assert_eq!(click_action(ChromeButton::Min, true, true), WindowAction::MinimizeWindow);
    assert_eq!(click_action(ChromeButton::Max, true, false), WindowAction::RestoreWindow);
    assert_eq!(click_action(ChromeButton::Max, false, false), WindowAction::MaximizeWindow);
    assert_eq!(click_action(ChromeButton::Close, false, false), WindowAction::CloseWindow);
}

#[test]
fn events_are_classified() {
    let me = 5;
    assert_eq!(classify_event(WindowEventKind::WindowClosed(5), me), DesktopWindowVerdict::WindowClosed);
    assert_eq!(classify_event(WindowEventKind::WindowClosed(6), me), DesktopWindowVerdict::EventForOtherWindow);
    assert_eq!(classify_event(WindowEventKind::WindowGeomChange(5), me), DesktopWindowVerdict::WindowGeomChange);
    assert_eq!(classify_event(WindowEventKind::WindowGeomChange(6), me), DesktopWindowVerdict::EventForOtherWindow);
    assert_eq!(classify_event(WindowEventKind::WindowCloseRequested(5), me), DesktopWindowVerdict::Nothing);
    assert_eq!(classify_event(WindowEventKind::WindowCloseRequested(6), me), DesktopWindowVerdict::EventForOtherWindow);
    assert_eq!(classify_event(WindowEventKind::WindowDragQuery(5), me), DesktopWindowVerdict::EventForOtherWindow);
    assert_eq!(classify_event(WindowEventKind::FingerDown(5), me), DesktopWindowVerdict::Nothing);
    assert_eq!(classify_event(WindowEventKind::FingerMove(6), me), DesktopWindowVerdict::EventForOtherWindow);
    assert_eq!(classify_event(WindowEventKind::FingerHover(6), me), DesktopWindowVerdict::EventForOtherWindow);
    assert_eq!(classify_event(WindowEventKind::FingerUp(5), me), DesktopWindowVerdict::Nothing);
    assert_eq!(classify_event(WindowEventKind::FingerScroll(6), me), DesktopWindowVerdict::EventForOtherWindow);
    assert_eq!(classify_event(WindowEventKind::Other, me), DesktopWindowVerdict::Nothing);
}

#[test]
fn chrome_is_drawn_unless_linux_declines() {
    assert!(process_chrome(PlatformType::Windows));
    assert!(process_chrome(PlatformType::OSX));
    assert!(process_chrome(PlatformType::Web));
    assert!(process_chrome(PlatformType::Unknown));
    assert!(process_chrome(PlatformType::Linux { custom_window_chrome: true }));
    assert!(!process_chrome(PlatformType::Linux { custom_window_chrome: false }));
}

#[test]
fn caption_buttons_windows_style() {
    assert_eq!(
        caption_buttons(PlatformType::OSX, false),
        vec![DesktopButtonType::WindowsMin, DesktopButtonType::WindowsMax, DesktopButtonType::WindowsClose]
    );
    assert_eq!(
        caption_buttons(PlatformType::Windows, true),
        vec![DesktopButtonType::WindowsMin, DesktopButtonType::WindowsMaxToggled, DesktopButtonType::WindowsClose]
    );
    assert!(caption_buttons(PlatformType::Linux { custom_window_chrome: false }, false).is_empty());
}

#[test]
fn overlay_buttons_by_platform() {
    assert_eq!(overlay_buttons(false, false, true), vec![DesktopButtonType::Fullscreen, DesktopButtonType::XRMode]);
    assert_eq!(overlay_buttons(true, false, false), vec![]);
    assert_eq!(overlay_buttons(false, true, false), vec![]);
    assert_eq!(overlay_buttons(true, false, true), vec![DesktopButtonType::XRMode]);
}
