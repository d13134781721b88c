//! Lock-screen detection over an enumerated window list.  The surrounding
//! loop walks the top-level windows front to back, starting at the
//! foreground window, and records each one's class name and owning
//! process's executable name; this module makes the decision.

use vstd::prelude::*;

use crate::text::{ascii_lower, chars_eq_str, chars_to_lower, str_eq, str_to_chars};

verus! {

/// One enumerated top-level window: its class name and the executable name
/// of its owning process (empty where that could not be read).
pub struct WindowRecord {
    pub class: String,
    pub exe: String,
}

/// A window that marks the screen as lock-screen-obscured: a core shell
/// window owned by the lock app, or the lock-screen controller proxy.
pub open spec fn is_lock_window(w: WindowRecord) -> bool {
    ||| (w.class@ == "Windows.UI.Core.CoreWindow"@ && ascii_lower(w.exe@) == "lockapp.exe"@)
    ||| w.class@ == "LockScreenControllerProxyWindow"@
}

/// The screen counts as locked when no foreground window exists (the list
/// is empty) or some enumerated window is a lock-screen window.
pub open spec fn lock_screen(ws: Seq<WindowRecord>) -> bool {
    ws.len() == 0 || exists|i: int| 0 <= i < ws.len() && is_lock_window(#[trigger] ws[i])
}

/// Decides whether the screen is lock-screen-obscured.
pub fn is_lock_screen(windows: &Vec<WindowRecord>) -> (r: bool)
    ensures
        r == lock_screen(windows@),
{
    if windows.len() == 0 {
        return true;
    }
    let mut i: usize = 0;
    while i < windows.len()
        invariant
            i <= windows@.len(),
            forall|k: int| 0 <= k < i ==> !is_lock_window(#[trigger] windows@[k]),
        decreases windows@.len() - i,
    {
        let w = &windows[i];
        if str_eq(w.class.as_str(), "Windows.UI.Core.CoreWindow") {
            let lowered = chars_to_lower(&str_to_chars(w.exe.as_str()));
            if chars_eq_str(&lowered, "lockapp.exe") {
                assert(is_lock_window(windows@[i as int]));
                return true;
            }
            proof {
                reveal_strlit("Windows.UI.Core.CoreWindow");
                reveal_strlit("LockScreenControllerProxyWindow");
                assert(("Windows.UI.Core.CoreWindow"@).len() == 26);
                assert(("LockScreenControllerProxyWindow"@).len() == 31);
                assert(w.class@ != "LockScreenControllerProxyWindow"@);
            }
        } else if str_eq(w.class.as_str(), "LockScreenControllerProxyWindow") {
            assert(is_lock_window(windows@[i as int]));
            return true;
        }
        i += 1;
    }
    false
}

/// Whether a child window's class marks it as the taskbar's content host.
pub fn is_taskbar_content_class(class: &str) -> (r: bool)
    ensures
        r == (class@ == "Windows.UI.Composition.DesktopWindowContentBridge"@),
{
    str_eq(class, "Windows.UI.Composition.DesktopWindowContentBridge")
}

} // verus!
