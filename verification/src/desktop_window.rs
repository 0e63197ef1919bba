//! The decisions of a desktop window's chrome: what a click on a chrome button asks
//! of the window, whom a window event concerns, and which chrome buttons are drawn.
use vstd::prelude::*;

verus! {

/// A button of the window chrome.
#[derive(Clone, Copy, Debug, PartialEq, Eq)]
pub enum DesktopButtonType {
    WindowsMin,
    WindowsMax,
    WindowsMaxToggled,
    WindowsClose,
    XRMode,
    Fullscreen,
}

/// What the window is asked to do.
#[derive(Clone, Copy, Debug, PartialEq, Eq)]
pub enum WindowAction {
    XrStartPresenting,
    XrStopPresenting,
    FullscreenWindow,
    NormalWindow,
    MinimizeWindow,
    MaximizeWindow,
    RestoreWindow,
    CloseWindow,
}

/// The button whose click is handled: the minimise, maximise and close buttons of the
/// caption, and the full-screen and XR buttons drawn over the content.
#[derive(Clone, Copy, Debug, PartialEq, Eq)]
pub enum ChromeButton {
    Min,
    Max,
    Close,
    Fullscreen,
    XR,
}

pub open spec fn click_action_spec(button: ChromeButton, is_fullscreen: bool, xr_is_presenting: bool) -> WindowAction {
    match button {
        ChromeButton::XR => if xr_is_presenting {
            WindowAction::XrStopPresenting
        } else {
            WindowAction::XrStartPresenting
        },
        ChromeButton::Fullscreen => if is_fullscreen {
            WindowAction::NormalWindow
        } else {
            WindowAction::FullscreenWindow
        },
        ChromeButton::Min => WindowAction::MinimizeWindow,
        ChromeButton::Max => if is_fullscreen {
            WindowAction::RestoreWindow
        } else {
            WindowAction::MaximizeWindow
        },
        ChromeButton::Close => WindowAction::CloseWindow,
    }
}

/// What a click on `button` asks of the window, given whether it is full screen and
/// whether it presents in XR: the XR and full-screen buttons toggle, the maximise
/// button restores a full-screen window and maximises another.
pub fn click_action(button: ChromeButton, is_fullscreen: bool, xr_is_presenting: bool) -> (a: WindowAction)
    ensures
        a == click_action_spec(button, is_fullscreen, xr_is_presenting),
{
    match button {
        ChromeButton::XR => if xr_is_presenting {
            WindowAction::XrStopPresenting
        } else {
            WindowAction::XrStartPresenting
        },
        ChromeButton::Fullscreen => if is_fullscreen {
            WindowAction::NormalWindow
        } else {
            WindowAction::FullscreenWindow
        },
        ChromeButton::Min => WindowAction::MinimizeWindow,
        ChromeButton::Max => if is_fullscreen {
            WindowAction::RestoreWindow
        } else {
            WindowAction::MaximizeWindow
        },
        ChromeButton::Close => WindowAction::CloseWindow,
    }
}

/// A window event, reduced to its kind and the window it was sent to.
#[derive(Clone, Copy, Debug, PartialEq, Eq)]
pub enum WindowEventKind {
    WindowCloseRequested(u64),
    WindowClosed(u64),
    WindowGeomChange(u64),
    WindowDragQuery(u64),
    FingerDown(u64),
    FingerMove(u64),
    FingerHover(u64),
    FingerUp(u64),
    FingerScroll(u64),
    Other,
}

/// Whom an event concerns, as the desktop window reports it.
#[derive(Clone, Copy, Debug, PartialEq, Eq)]
pub enum DesktopWindowVerdict {
    EventForOtherWindow,
    WindowClosed,
    WindowGeomChange,
    Nothing,
}

pub open spec fn classify_spec(event: WindowEventKind, window_id: u64) -> DesktopWindowVerdict {
    let other = |w: u64|
        if w != window_id {
            DesktopWindowVerdict::EventForOtherWindow
        } else {
            DesktopWindowVerdict::Nothing
        };
    match event {
        WindowEventKind::WindowCloseRequested(w) => other(w),
        WindowEventKind::WindowClosed(w) => if w == window_id {
            DesktopWindowVerdict::WindowClosed
        } else {
            DesktopWindowVerdict::EventForOtherWindow
        },
        WindowEventKind::WindowGeomChange(w) => if w == window_id {
            DesktopWindowVerdict::WindowGeomChange
        } else {
            DesktopWindowVerdict::EventForOtherWindow
        },
        WindowEventKind::WindowDragQuery(_) => DesktopWindowVerdict::EventForOtherWindow,
        WindowEventKind::FingerDown(w) => other(w),
        WindowEventKind::FingerMove(w) => other(w),
        WindowEventKind::FingerHover(w) => other(w),
        WindowEventKind::FingerUp(w) => other(w),
        WindowEventKind::FingerScroll(w) => other(w),
        WindowEventKind::Other => DesktopWindowVerdict::Nothing,
    }
}

/// Whom `event` concerns, for the window `window_id`: a closing or a change of geometry
/// of this window is reported as such; close requests and finger events sent elsewhere,
/// closings and geometry changes of other windows, and every drag query (answered
/// separately) are for another window; anything else is nothing for it.
pub fn classify_event(event: WindowEventKind, window_id: u64) -> (v: DesktopWindowVerdict)
    ensures
        v == classify_spec(event, window_id),
{
    match event {
        WindowEventKind::WindowCloseRequested(w) | WindowEventKind::FingerDown(w)
        | WindowEventKind::FingerMove(w) | WindowEventKind::FingerHover(w)
        | WindowEventKind::FingerUp(w) | WindowEventKind::FingerScroll(w) => {
            if w != window_id {
                DesktopWindowVerdict::EventForOtherWindow
            } else {
                DesktopWindowVerdict::Nothing
            }
        },
        WindowEventKind::WindowClosed(w) => if w == window_id {
            DesktopWindowVerdict::WindowClosed
        } else {
            DesktopWindowVerdict::EventForOtherWindow
        },
        WindowEventKind::WindowGeomChange(w) => if w == window_id {
            DesktopWindowVerdict::WindowGeomChange
        } else {
            DesktopWindowVerdict::EventForOtherWindow
        },
        WindowEventKind::WindowDragQuery(_) => DesktopWindowVerdict::EventForOtherWindow,
        WindowEventKind::Other => DesktopWindowVerdict::Nothing,
    }
}

/// The platform the window runs on.
#[derive(Clone, Copy, Debug, PartialEq, Eq)]
pub enum PlatformType {
    Unknown,
    Windows,
    OSX,
    Linux { custom_window_chrome: bool },
    Web,
}

/// Whether the window draws its own chrome: on Linux when it asks for custom chrome,
/// everywhere else always.
pub fn process_chrome(platform: PlatformType) -> (b: bool)
    ensures
        b == (match platform {
            PlatformType::Linux { custom_window_chrome } => custom_window_chrome,
            _ => true,
        }),
{
    match platform {
        PlatformType::Linux { custom_window_chrome } => custom_window_chrome,
        _ => true,
    }
}

pub open spec fn caption_buttons_spec(platform: PlatformType, is_fullscreen: bool) -> Seq<DesktopButtonType> {
    let chrome = match platform {
        PlatformType::Linux { custom_window_chrome } => custom_window_chrome,
        _ => true,
    };
    if !chrome {
        Seq::empty()
    } else {
        seq![
            DesktopButtonType::WindowsMin,
            if is_fullscreen {
                DesktopButtonType::WindowsMaxToggled
            } else {
                DesktopButtonType::WindowsMax
            },
            DesktopButtonType::WindowsClose,
        ]
    }
}

/// The buttons drawn in the caption, in drawing order: none when the platform draws the
/// chrome; otherwise minimise, maximise (drawn toggled on a full-screen window) and
/// close, the Windows style, whatever the platform.
pub fn caption_buttons(platform: PlatformType, is_fullscreen: bool) -> (b: Vec<DesktopButtonType>)
    ensures
        b@ == caption_buttons_spec(platform, is_fullscreen),
{
    let mut b: Vec<DesktopButtonType> = Vec::new();
    if process_chrome(platform) {
        b.push(DesktopButtonType::WindowsMin);
        if is_fullscreen {
            b.push(DesktopButtonType::WindowsMaxToggled);
        } else {
            b.push(DesktopButtonType::WindowsMax);
        }
        b.push(DesktopButtonType::WindowsClose);
    }
    assert(b@ =~= caption_buttons_spec(platform, is_fullscreen));
    b
}

pub open spec fn overlay_buttons_spec(is_desktop: bool, is_fullscreen: bool, xr_can_present: bool) -> Seq<DesktopButtonType> {
    let f = if !is_desktop && !is_fullscreen {
        seq![DesktopButtonType::Fullscreen]
    } else {
        Seq::empty()
    };
    let x = if xr_can_present {
        seq![DesktopButtonType::XRMode]
    } else {
        Seq::empty()
    };
    f + x
}

/// The buttons drawn over the content at the end of the window, in drawing order: the
/// full-screen button on a platform that is no desktop while the window is not full
/// screen, then the XR button when the window can present in XR.
pub fn overlay_buttons(is_desktop: bool, is_fullscreen: bool, xr_can_present: bool) -> (b: Vec<DesktopButtonType>)
    ensures
        b@ == overlay_buttons_spec(is_desktop, is_fullscreen, xr_can_present),
{
    let mut b: Vec<DesktopButtonType> = Vec::new();
    if !is_desktop && !is_fullscreen {
        b.push(DesktopButtonType::Fullscreen);
    }
    if xr_can_present {
        b.push(DesktopButtonType::XRMode);
    }
    assert(b@ =~= overlay_buttons_spec(is_desktop, is_fullscreen, xr_can_present));
    b
}

/// A click on close closes the window and a click on minimise minimises it, whatever the
/// window's state; the XR button stops presenting exactly when the window presents, and
/// the full-screen and maximise buttons leave full screen exactly when the window is in
/// it (the first back to a normal window, the second by restoring), going full screen
/// or maximising otherwise.
pub proof fn lemma_click_actions(is_fullscreen: bool, xr_is_presenting: bool)
    ensures
        click_action_spec(ChromeButton::Close, is_fullscreen, xr_is_presenting) == WindowAction::CloseWindow,
        click_action_spec(ChromeButton::Min, is_fullscreen, xr_is_presenting) == WindowAction::MinimizeWindow,
        (click_action_spec(ChromeButton::XR, is_fullscreen, xr_is_presenting) == WindowAction::XrStopPresenting)
            <==> xr_is_presenting,
        (click_action_spec(ChromeButton::XR, is_fullscreen, xr_is_presenting) == WindowAction::XrStartPresenting)
            <==> !xr_is_presenting,
        (click_action_spec(ChromeButton::Fullscreen, is_fullscreen, xr_is_presenting) == WindowAction::NormalWindow)
            <==> is_fullscreen,
        (click_action_spec(ChromeButton::Fullscreen, is_fullscreen, xr_is_presenting)
            == WindowAction::FullscreenWindow) <==> !is_fullscreen,
        (click_action_spec(ChromeButton::Max, is_fullscreen, xr_is_presenting) == WindowAction::RestoreWindow)
            <==> is_fullscreen,
        (click_action_spec(ChromeButton::Max, is_fullscreen, xr_is_presenting) == WindowAction::MaximizeWindow)
            <==> !is_fullscreen,
{
}

/// Whom events concern: a finger event or a close request is for another window exactly
/// when it was sent to another window, and nothing for this one otherwise; a closing or a
/// geometry change is reported as such exactly when it is this window's, and is for
/// another window otherwise; a drag query is always for another window (it is answered
/// separately); any other event is nothing for the window.
pub proof fn lemma_event_verdicts(w: u64, me: u64)
    ensures
        ({
            let other_or_nothing = if w != me {
                DesktopWindowVerdict::EventForOtherWindow
            } else {
                DesktopWindowVerdict::Nothing
            };
            &&& classify_spec(WindowEventKind::FingerDown(w), me) == other_or_nothing
            &&& classify_spec(WindowEventKind::FingerMove(w), me) == other_or_nothing
            &&& classify_spec(WindowEventKind::FingerHover(w), me) == other_or_nothing
            &&& classify_spec(WindowEventKind::FingerUp(w), me) == other_or_nothing
            &&& classify_spec(WindowEventKind::FingerScroll(w), me) == other_or_nothing
            &&& classify_spec(WindowEventKind::WindowCloseRequested(w), me) == other_or_nothing
        }),
        (classify_spec(WindowEventKind::WindowClosed(w), me) == DesktopWindowVerdict::WindowClosed) <==> w == me,
        (classify_spec(WindowEventKind::WindowClosed(w), me) == DesktopWindowVerdict::EventForOtherWindow) <==> w
            != me,
        (classify_spec(WindowEventKind::WindowGeomChange(w), me) == DesktopWindowVerdict::WindowGeomChange) <==> w
            == me,
        (classify_spec(WindowEventKind::WindowGeomChange(w), me) == DesktopWindowVerdict::EventForOtherWindow)
            <==> w != me,
        classify_spec(WindowEventKind::WindowDragQuery(w), me) == DesktopWindowVerdict::EventForOtherWindow,
        classify_spec(WindowEventKind::Other, me) == DesktopWindowVerdict::Nothing,
{
}

} // verus!
