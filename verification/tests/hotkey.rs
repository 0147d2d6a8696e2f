use lol_assistant::domain::ChatPreset;
use lol_assistant::hotkey::{
    chat_preset_message, hotkey_start, hotkey_step, number_key_to_slot, overlay_toggle_action,
    HotkeyAction, HotkeyKey, HotkeyState, KeyEvent, OverlayWindowAction,
};
use HotkeyKey::{Control, Number, Other, Shift, Tab};
use KeyEvent::{Press, Release};

fn run(events: &[KeyEvent]) -> (HotkeyState, Vec<HotkeyAction>) {
    let mut state = hotkey_start();
    let mut actions = Vec::new();
    for event in events {
        let (next, action) = hotkey_step(state, *event);
        state = next;
        actions.push(action);
    }
    (state, actions)
}

fn fired(actions: &[HotkeyAction]) -> Vec<HotkeyAction> {
    actions.iter().copied().filter(|a| *a != HotkeyAction::Nothing).collect()
}

#[test]
fn start_state_holds_nothing() {
    let state = hotkey_start();
    assert_eq!(
        state,
        HotkeyState { shift_down: false, ctrl_down: false, tab_armed: false, number_armed: None }
    );
}

#[test]
fn shift_tab_toggles_on_tab_release() {
    let (_, actions) = run(&[Press(Shift), Press(Tab), Release(Tab), Release(Shift)]);
    assert_eq!(actions[1], HotkeyAction::Nothing);
    assert_eq!(actions[2], HotkeyAction::ToggleOverlay);
    assert_eq!(fired(&actions), vec![HotkeyAction::ToggleOverlay]);
}

#[test]
fn shift_released_before_tab_still_toggles() {
    let (state, actions) = run(&[Press(Shift), Press(Tab), Release(Shift), Release(Tab)]);
    assert_eq!(actions[3], HotkeyAction::ToggleOverlay);
    assert!(!state.tab_armed);
    assert!(!state.shift_down);
}

#[test]
fn tab_without_shift_does_nothing() {
    let (_, actions) = run(&[Press(Tab), Release(Tab)]);
    assert!(fired(&actions).is_empty());
}

#[test]
fn ctrl_shift_tab_does_not_toggle() {
    let (_, actions) = run(&[Press(Control), Press(Shift), Press(Tab), Release(Tab)]);
    assert!(fired(&actions).is_empty());
}

#[test]
fn second_tab_release_needs_a_new_press() {
    let (_, actions) = run(&[Press(Shift), Press(Tab), Release(Tab), Release(Tab)]);
    assert_eq!(fired(&actions), vec![HotkeyAction::ToggleOverlay]);
}

#[test]
fn ctrl_shift_number_types_preset_on_release() {
    let (state, actions) = run(&[Press(Control), Press(Shift), Press(Number(3)), Release(Number(3))]);
    assert_eq!(actions[2], HotkeyAction::Nothing);
    assert_eq!(actions[3], HotkeyAction::TypeChatPreset(3));
    assert_eq!(state.number_armed, None);
}

#[test]
fn number_released_after_modifiers_still_types_preset() {
    let (_, actions) = run(&[
        Press(Shift),
        Press(Control),
        Press(Number(9)),
        Release(Control),
        Release(Shift),
        Release(Number(9)),
    ]);
    assert_eq!(fired(&actions), vec![HotkeyAction::TypeChatPreset(9)]);
}

#[test]
fn other_number_release_does_not_type_armed_preset() {
    let (state, actions) = run(&[
        Press(Control),
        Press(Shift),
        Press(Number(2)),
        Release(Number(4)),
        Release(Other),
    ]);
    assert!(fired(&actions).is_empty());
    assert_eq!(state.number_armed, Some(2));
}

#[test]
fn latest_number_press_is_armed() {
    let (_, actions) = run(&[
        Press(Control),
        Press(Shift),
        Press(Number(2)),
        Press(Number(5)),
        Release(Number(2)),
        Release(Number(5)),
    ]);
    assert_eq!(fired(&actions), vec![HotkeyAction::TypeChatPreset(5)]);
}

#[test]
fn number_without_both_modifiers_does_nothing() {
    let (_, shift_only) = run(&[Press(Shift), Press(Number(1)), Release(Number(1))]);
    assert!(fired(&shift_only).is_empty());
    let (_, ctrl_only) = run(&[Press(Control), Press(Number(1)), Release(Number(1))]);
    assert!(fired(&ctrl_only).is_empty());
}

#[test]
fn zero_key_has_no_slot() {
    let (_, actions) = run(&[Press(Control), Press(Shift), Press(Number(0)), Release(Number(0))]);
    assert!(fired(&actions).is_empty());
}

#[test]
fn number_key_slots() {
    assert_eq!(number_key_to_slot(Number(1)), Some(1));
    assert_eq!(number_key_to_slot(Number(9)), Some(9));
    assert_eq!(number_key_to_slot(Number(0)), None);
    assert_eq!(number_key_to_slot(Tab), None);
    assert_eq!(number_key_to_slot(Other), None);
}

#[test]
fn overlay_toggle_actions() {
    assert_eq!(overlay_toggle_action(false, false, None), OverlayWindowAction::RequestOpen);
    assert_eq!(overlay_toggle_action(false, true, Some(true)), OverlayWindowAction::RequestOpen);
    assert_eq!(overlay_toggle_action(true, false, Some(true)), OverlayWindowAction::Destroy);
    assert_eq!(overlay_toggle_action(true, true, Some(true)), OverlayWindowAction::Hide);
    assert_eq!(overlay_toggle_action(true, true, Some(false)), OverlayWindowAction::Show);
    assert_eq!(overlay_toggle_action(true, true, None), OverlayWindowAction::Show);
}

fn preset(slot: i64, message: &str) -> ChatPreset {
    ChatPreset {
        slot,
        label: format!("slot {slot}"),
        message: message.to_string(),
        updated_at: "2026-05-01T00:00:00Z".to_string(),
    }
}

#[test]
fn chat_preset_message_uses_first_preset_of_slot() {
    let presets = vec![preset(1, "gl hf"), preset(2, "drag in 60"), preset(2, "baron soon")];
    assert_eq!(chat_preset_message(&presets, 2, true), Some("drag in 60".to_string()));
    assert_eq!(chat_preset_message(&presets, 1, true), Some("gl hf".to_string()));
}

#[test]
fn chat_preset_message_needs_game_focus_and_a_bound_slot() {
    let presets = vec![preset(1, "gl hf")];
    assert_eq!(chat_preset_message(&presets, 1, false), None);
    assert_eq!(chat_preset_message(&presets, 7, true), None);
    assert_eq!(chat_preset_message(&Vec::new(), 1, true), None);
}
