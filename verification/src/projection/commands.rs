//! What the front end's projection commands send to the running session.

use vstd::prelude::*;
use crate::channels::input_channel::{button_key, touch_action};
use crate::session::session::{SessionCommand, SessionCommandView};
use crate::text::{joined, text_eq};

verus! {

/// Touchscreen size assumed until a session negotiates its own (the default tier).
pub const DEFAULT_TOUCH_WIDTH: u32 = 1280;

pub const DEFAULT_TOUCH_HEIGHT: u32 = 720;

/// The pointer action of a front-end touch phase ("down", "move", "up"); any other phase is
/// refused with a message naming it.
pub fn touch_phase_action(phase: &str) -> (r: Result<u32, String>)
    ensures
        phase@ == "down"@ ==> r == Ok::<u32, String>(touch_action::DOWN),
        phase@ == "move"@ ==> r == Ok::<u32, String>(touch_action::MOVED),
        phase@ == "up"@ ==> r == Ok::<u32, String>(touch_action::UP),
        !(phase@ == "down"@ || phase@ == "move"@ || phase@ == "up"@) ==> (r matches Err(m)
            && m@ == "unknown touch phase: "@ + phase@),
{
    proof {
        reveal_strlit("down");
        reveal_strlit("move");
        reveal_strlit("up");
        assert("move"@ != "down"@) by {
            assert("move"@[0] != "down"@[0]);
        }
        assert("up"@ != "down"@) by {
            assert("up"@[0] != "down"@[0]);
        }
        assert("up"@ != "move"@) by {
            assert("up"@[0] != "move"@[0]);
        }
    }
    if text_eq(phase, "down") {
        Ok(touch_action::DOWN)
    } else if text_eq(phase, "move") {
        Ok(touch_action::MOVED)
    } else if text_eq(phase, "up") {
        Ok(touch_action::UP)
    } else {
        Err(joined("unknown touch phase: ", phase))
    }
}

/// What resuming projection sends after the phone took the display back for its own UI: a
/// HOME press and release (which makes the phone give up native focus more reliably), then a
/// request for video focus.
pub fn resume_commands() -> (cmds: Vec<SessionCommand>)
    ensures
        cmds@.map_values(|c: SessionCommand| c@) == seq![
            SessionCommandView::Button {
                key_codes: seq![button_key::HOME],
                down: true,
                longpress: false,
            },
            SessionCommandView::Button {
                key_codes: seq![button_key::HOME],
                down: false,
                longpress: false,
            },
            SessionCommandView::RequestVideoFocus,
        ],
{
    let mut cmds: Vec<SessionCommand> = Vec::new();
    let mut press: Vec<u32> = Vec::new();
    press.push(button_key::HOME);
    let mut release: Vec<u32> = Vec::new();
    release.push(button_key::HOME);
    cmds.push(SessionCommand::Button { key_codes: press, down: true, longpress: false });
    cmds.push(SessionCommand::Button { key_codes: release, down: false, longpress: false });
    cmds.push(SessionCommand::RequestVideoFocus);
    assert(cmds@.map_values(|c: SessionCommand| c@) =~= seq![
        SessionCommandView::Button { key_codes: seq![button_key::HOME], down: true, longpress: false },
        SessionCommandView::Button { key_codes: seq![button_key::HOME], down: false, longpress: false },
        SessionCommandView::RequestVideoFocus,
    ]);
    cmds
}

} // verus!
