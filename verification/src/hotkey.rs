//! Global shortcuts of the overlay. Shift+Tab toggles the self-history overlay;
//! Ctrl+Shift with a number key 1 to 9 types the chat preset of that slot. A keyboard
//! listener reports each key press and release; the decisions are the state machine
//! below, and the listener performs the action that each step returns.

use vstd::prelude::*;
use crate::domain::ChatPreset;

verus! {

/// A key, as far as the shortcuts tell keys apart: either Shift key, either Control key,
/// Tab, a key of the number row (its digit), or any other key.
#[derive(Debug, Clone, Copy, PartialEq, Eq, Structural)]
pub enum HotkeyKey {
    Shift,
    Control,
    Tab,
    Number(u8),
    Other,
}

/// A key going down or coming up.
#[derive(Debug, Clone, Copy, PartialEq, Eq, Structural)]
pub enum KeyEvent {
    Press(HotkeyKey),
    Release(HotkeyKey),
}

/// What the listener knows between events: which modifiers are held, whether Tab went
/// down while Shift (and not Control) was held, and which preset slot's number key went
/// down while Control and Shift were held.
#[derive(Debug, Clone, Copy, PartialEq, Eq, Structural)]
pub struct HotkeyState {
    pub shift_down: bool,
    pub ctrl_down: bool,
    pub tab_armed: bool,
    pub number_armed: Option<i64>,
}

/// What the listener does after an event.
#[derive(Debug, Clone, Copy, PartialEq, Eq, Structural)]
pub enum HotkeyAction {
    Nothing,
    ToggleOverlay,
    TypeChatPreset(i64),
}

/// The preset slot of a key: the number keys 1 to 9 are slots 1 to 9; no other key has
/// one.
pub open spec fn slot_of(key: HotkeyKey) -> Option<i64> {
    match key {
        HotkeyKey::Number(d) => if 1 <= d <= 9 {
            Some(d as i64)
        } else {
            None
        },
        _ => None,
    }
}

/// A state that the listener can reach: an armed slot is one of 1 to 9.
pub open spec fn hotkey_state_ok(s: HotkeyState) -> bool {
    match s.number_armed {
        Some(n) => 1 <= n <= 9,
        None => true,
    }
}

/// The state and action after one event.
pub open spec fn hotkey_step_spec(s: HotkeyState, e: KeyEvent) -> (HotkeyState, HotkeyAction) {
    match e {
        KeyEvent::Press(HotkeyKey::Shift) => (HotkeyState { shift_down: true, ..s }, HotkeyAction::Nothing),
        KeyEvent::Release(HotkeyKey::Shift) => (HotkeyState { shift_down: false, ..s }, HotkeyAction::Nothing),
        KeyEvent::Press(HotkeyKey::Control) => (HotkeyState { ctrl_down: true, ..s }, HotkeyAction::Nothing),
        KeyEvent::Release(HotkeyKey::Control) => (HotkeyState { ctrl_down: false, ..s }, HotkeyAction::Nothing),
        KeyEvent::Press(HotkeyKey::Tab) => if s.shift_down && !s.ctrl_down {
            (HotkeyState { tab_armed: true, ..s }, HotkeyAction::Nothing)
        } else {
            (s, HotkeyAction::Nothing)
        },
        KeyEvent::Release(HotkeyKey::Tab) => if s.tab_armed {
            (HotkeyState { tab_armed: false, ..s }, HotkeyAction::ToggleOverlay)
        } else {
            (s, HotkeyAction::Nothing)
        },
        KeyEvent::Press(key) => if s.ctrl_down && s.shift_down && slot_of(key) is Some {
            (HotkeyState { number_armed: slot_of(key), ..s }, HotkeyAction::Nothing)
        } else {
            (s, HotkeyAction::Nothing)
        },
        KeyEvent::Release(key) => match s.number_armed {
            Some(slot) => if slot_of(key) == Some(slot) {
                (HotkeyState { number_armed: None, ..s }, HotkeyAction::TypeChatPreset(slot))
            } else {
                (s, HotkeyAction::Nothing)
            },
            None => (s, HotkeyAction::Nothing),
        },
    }
}

/// The state of a freshly started listener: nothing held, nothing armed.
pub fn hotkey_start() -> (r: HotkeyState)
    ensures
        r == (HotkeyState { shift_down: false, ctrl_down: false, tab_armed: false, number_armed: None }),
        hotkey_state_ok(r),
{
    HotkeyState { shift_down: false, ctrl_down: false, tab_armed: false, number_armed: None }
}

/// The preset slot of a key (see `slot_of`).
pub fn number_key_to_slot(key: HotkeyKey) -> (r: Option<i64>)
    ensures
        r == slot_of(key),
{
    match key {
        HotkeyKey::Number(d) => if 1 <= d && d <= 9 {
            Some(d as i64)
        } else {
            None
        },
        _ => None,
    }
}

/// One step of the listener (see `hotkey_step_spec`). The overlay toggles only when Tab
/// comes up after it went down with Shift held and Control not; a preset is typed only
/// when the number key of its slot comes up after it went down with Control and Shift
/// held. A key going down never triggers anything.
pub fn hotkey_step(s: HotkeyState, e: KeyEvent) -> (r: (HotkeyState, HotkeyAction))
    requires
        hotkey_state_ok(s),
    ensures
        r == hotkey_step_spec(s, e),
        hotkey_state_ok(r.0),
        r.1 == HotkeyAction::ToggleOverlay <==> (e == KeyEvent::Release(HotkeyKey::Tab) && s.tab_armed),
        forall|slot: i64| r.1 == HotkeyAction::TypeChatPreset(slot) <==> (s.number_armed == Some(slot)
            && e is Release && slot_of(e->Release_0) == Some(slot)),
        e is Press ==> r.1 == HotkeyAction::Nothing,
{
    match e {
        KeyEvent::Press(HotkeyKey::Shift) => (HotkeyState { shift_down: true, ..s }, HotkeyAction::Nothing),
        KeyEvent::Release(HotkeyKey::Shift) => (HotkeyState { shift_down: false, ..s }, HotkeyAction::Nothing),
        KeyEvent::Press(HotkeyKey::Control) => (HotkeyState { ctrl_down: true, ..s }, HotkeyAction::Nothing),
        KeyEvent::Release(HotkeyKey::Control) => (HotkeyState { ctrl_down: false, ..s }, HotkeyAction::Nothing),
        KeyEvent::Press(HotkeyKey::Tab) => {
            if s.shift_down && !s.ctrl_down {
                (HotkeyState { tab_armed: true, ..s }, HotkeyAction::Nothing)
            } else {
                (s, HotkeyAction::Nothing)
            }
        },
        KeyEvent::Release(HotkeyKey::Tab) => {
            if s.tab_armed {
                (HotkeyState { tab_armed: false, ..s }, HotkeyAction::ToggleOverlay)
            } else {
                (s, HotkeyAction::Nothing)
            }
        },
        KeyEvent::Press(key) => {
            if s.ctrl_down && s.shift_down {
                match number_key_to_slot(key) {
                    Some(slot) => (HotkeyState { number_armed: Some(slot), ..s }, HotkeyAction::Nothing),
                    None => (s, HotkeyAction::Nothing),
                }
            } else {
                (s, HotkeyAction::Nothing)
            }
        },
        KeyEvent::Release(key) => {
            match s.number_armed {
                Some(slot) => {
                    match number_key_to_slot(key) {
                        Some(k) => {
                            if k == slot {
                                (HotkeyState { number_armed: None, ..s }, HotkeyAction::TypeChatPreset(slot))
                            } else {
                                (s, HotkeyAction::Nothing)
                            }
                        },
                        None => (s, HotkeyAction::Nothing),
                    }
                },
                None => (s, HotkeyAction::Nothing),
            }
        },
    }
}

/// The state after a sequence of events, from `s`.
pub open spec fn hotkey_run(s: HotkeyState, events: Seq<KeyEvent>) -> HotkeyState
    decreases events.len(),
{
    if events.len() == 0 {
        s
    } else {
        hotkey_run(hotkey_step_spec(s, events[0]).0, events.drop_first())
    }
}

/// An event of a modifier key: Shift or Control going down or coming up.
pub open spec fn is_modifier_event(e: KeyEvent) -> bool {
    match e {
        KeyEvent::Press(HotkeyKey::Shift) | KeyEvent::Release(HotkeyKey::Shift) => true,
        KeyEvent::Press(HotkeyKey::Control) | KeyEvent::Release(HotkeyKey::Control) => true,
        _ => false,
    }
}

proof fn lemma_modifiers_keep_armed(s: HotkeyState, events: Seq<KeyEvent>)
    requires
        forall|i: int| 0 <= i < events.len() ==> is_modifier_event(#[trigger] events[i]),
    ensures
        hotkey_run(s, events).tab_armed == s.tab_armed,
        hotkey_run(s, events).number_armed == s.number_armed,
    decreases events.len(),
{
    if events.len() > 0 {
        assert(is_modifier_event(events[0]));
        let rest = events.drop_first();
        assert forall|i: int| 0 <= i < rest.len() implies is_modifier_event(#[trigger] rest[i]) by {
            assert(rest[i] == events[i + 1]);
        }
        lemma_modifiers_keep_armed(hotkey_step_spec(s, events[0]).0, rest);
    }
}

/// Shift+Tab is latched when Tab goes down: once Tab went down with Shift held and
/// Control not, Tab coming up toggles the overlay, whatever Shift and Control did in
/// between (Shift may come up a moment before Tab).
pub proof fn lemma_shift_tab_latched(s: HotkeyState, between: Seq<KeyEvent>)
    requires
        s.shift_down,
        !s.ctrl_down,
        forall|i: int| 0 <= i < between.len() ==> is_modifier_event(#[trigger] between[i]),
    ensures
        hotkey_step_spec(
            hotkey_run(hotkey_step_spec(s, KeyEvent::Press(HotkeyKey::Tab)).0, between),
            KeyEvent::Release(HotkeyKey::Tab),
        ).1 == HotkeyAction::ToggleOverlay,
{
    lemma_modifiers_keep_armed(hotkey_step_spec(s, KeyEvent::Press(HotkeyKey::Tab)).0, between);
}

/// Ctrl+Shift+number is latched when the number key goes down: once the key of slot `d`
/// (1 to 9) went down with Control and Shift held, that key coming up types the preset
/// of slot `d`, whatever Shift and Control did in between.
pub proof fn lemma_ctrl_shift_number_latched(s: HotkeyState, d: u8, between: Seq<KeyEvent>)
    requires
        s.shift_down,
        s.ctrl_down,
        1 <= d <= 9,
        forall|i: int| 0 <= i < between.len() ==> is_modifier_event(#[trigger] between[i]),
    ensures
        hotkey_step_spec(
            hotkey_run(hotkey_step_spec(s, KeyEvent::Press(HotkeyKey::Number(d))).0, between),
            KeyEvent::Release(HotkeyKey::Number(d)),
        ).1 == HotkeyAction::TypeChatPreset(d as i64),
{
    lemma_modifiers_keep_armed(hotkey_step_spec(s, KeyEvent::Press(HotkeyKey::Number(d))).0, between);
}

/// What becomes of the overlay window when the shortcut fires.
#[derive(Debug, Clone, Copy, PartialEq, Eq, Structural)]
pub enum OverlayWindowAction {
    /// No window yet: ask the front end to open one.
    RequestOpen,
    /// The overlay may not be shown now: close the window.
    Destroy,
    Hide,
    Show,
}

/// The overlay toggle: with no window, the front end is asked to open one; a window that
/// may not be shown is destroyed; a visible one is hidden; one that is hidden, or whose
/// visibility could not be read (`visible` is `None`), is shown.
pub fn overlay_toggle_action(window_exists: bool, can_open: bool, visible: Option<bool>) -> (r: OverlayWindowAction)
    ensures
        !window_exists ==> r == OverlayWindowAction::RequestOpen,
        window_exists && !can_open ==> r == OverlayWindowAction::Destroy,
        window_exists && can_open && visible == Some(true) ==> r == OverlayWindowAction::Hide,
        window_exists && can_open && visible != Some(true) ==> r == OverlayWindowAction::Show,
{
    if !window_exists {
        OverlayWindowAction::RequestOpen
    } else if !can_open {
        OverlayWindowAction::Destroy
    } else {
        match visible {
            Some(true) => OverlayWindowAction::Hide,
            _ => OverlayWindowAction::Show,
        }
    }
}

/// The first preset bound to `slot`, if any.
pub open spec fn first_preset_with_slot(presets: Seq<ChatPreset>, slot: i64) -> Option<int> {
    if exists|i: int| 0 <= i < presets.len() && #[trigger] presets[i].slot == slot {
        Some(choose|i: int| 0 <= i < presets.len() && #[trigger] presets[i].slot == slot
            && forall|j: int| 0 <= j < i ==> #[trigger] presets[j].slot != slot)
    } else {
        None
    }
}

/// The message to type for a slot's shortcut: that of the first preset bound to the
/// slot, and only while the game window has the focus; nothing when no preset is bound.
pub fn chat_preset_message(presets: &Vec<ChatPreset>, slot: i64, game_foreground: bool) -> (r: Option<String>)
    ensures
        match first_preset_with_slot(presets@, slot) {
            None => r is None,
            Some(i) => if game_foreground {
                r is Some && r->0@ == presets@[i].message@
            } else {
                r is None
            },
        },
{
    let mut i: usize = 0;
    while i < presets.len()
        invariant
            i <= presets.len(),
            forall|j: int| 0 <= j < i ==> #[trigger] presets@[j].slot != slot,
        decreases presets.len() - i,
    {
        if presets[i].slot == slot {
            proof {
                let k = i as int;
                assert(0 <= k < presets@.len() && presets@[k].slot == slot
                    && forall|j: int| 0 <= j < k ==> #[trigger] presets@[j].slot != slot);
                let c = choose|c: int| 0 <= c < presets@.len() && #[trigger] presets@[c].slot == slot
                    && forall|j: int| 0 <= j < c ==> #[trigger] presets@[j].slot != slot;
                if c < k {
                    assert(presets@[c].slot != slot);
                } else if c > k {
                    assert(presets@[k].slot != slot);
                }
                assert(first_preset_with_slot(presets@, slot) == Some(k));
            }
            if game_foreground {
                return Some(presets[i].message.clone());
            } else {
                return None;
            }
        }
        i = i + 1;
    }
    None
}

} // verus!
