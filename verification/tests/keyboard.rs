use kando_cosmic_helper::error::Error;
use kando_cosmic_helper::keyboard::{
    simulate_keys, Binding, Global, KeyAction, KeyEvent, KeyReply, KeyStage, KeyStep, Masks,
    State,
};

fn key(keycode: i32, down: bool, delay_ms: i32) -> KeyEvent {
    KeyEvent { keycode, down, delay_ms }
}

const MASKS: Masks = Masks { depressed: 4, latched: 2, locked: 16, layout: 1 };

fn ready() -> State {
    State { seat: true, manager: true, keymap: true }
}

fn failure(step: KeyStep) -> (bool, Error) {
    match step {
        KeyStep::Finish { destroy, outcome: Err(e) } => (destroy, e),
        _ => panic!("typing does not fail"),
    }
}

#[test]
fn keyboard_globals_are_bound() {
    let mut state = State::new();
    assert_eq!(state.global("wl_seat", 9), Some(Binding { global: Global::Seat, version: 7 }));
    assert_eq!(state.global("wl_seat", 9), None);
    assert_eq!(
        state.global("zwp_virtual_keyboard_manager_v1", 2),
        Some(Binding { global: Global::Manager, version: 1 })
    );
    assert_eq!(state.global("wl_shm", 1), None);
    assert_eq!(state, State { seat: true, manager: true, keymap: false });
}

#[test]
fn only_xkb_keymaps_are_taken() {
    let mut state = State::new();
    assert!(!state.keymap_told(0));
    assert!(!state.keymap);
    assert!(state.keymap_told(1));
    assert!(state.keymap);
    assert!(!state.keymap_told(2));
    assert!(state.keymap);
}

#[test]
fn keys_without_a_kernel_code_are_refused_before_anything_is_done() {
    let keys = [key(38, true, 0), key(-3, false, 0), key(7, true, 0)];
    let step = simulate_keys(&keys, &State::new(), KeyStage::Start, KeyReply::Done);
    let (destroy, e) = failure(step);
    assert!(!destroy);
    assert_eq!(e.message(), "wayland error: invalid X11 keycode -3");
}

#[test]
fn typing_asks_for_what_it_needs() {
    let keys = [key(38, true, 0)];
    let step = |state: State, stage: KeyStage| simulate_keys(&keys, &state, stage, KeyReply::Done);
    assert!(matches!(
        step(State::new(), KeyStage::Start),
        KeyStep::Ask(KeyStage::Globals, KeyAction::Connect)
    ));
    let (_, e) = failure(step(State::new(), KeyStage::Globals));
    assert!(matches!(e, Error::MissingGlobal("wl_seat")));
    let seat = State { seat: true, ..State::new() };
    let (_, e) = failure(step(seat, KeyStage::Globals));
    assert!(matches!(e, Error::MissingGlobal("zwp_virtual_keyboard_manager_v1")));
    assert!(matches!(
        step(ready(), KeyStage::Globals),
        KeyStep::Ask(KeyStage::Keymap, KeyAction::FetchKeymap)
    ));
    let (destroy, e) = failure(step(State { keymap: false, ..ready() }, KeyStage::Keymap));
    assert!(!destroy);
    assert_eq!(e.message(), "wayland error: seat did not provide an xkb keymap");
    assert!(matches!(
        step(ready(), KeyStage::Keymap),
        KeyStep::Ask(KeyStage::Create, KeyAction::CreateKeyboard)
    ));
}

#[test]
fn a_keymap_must_be_mapped_and_compiled() {
    let keys = [key(38, true, 0)];
    let cannot = KeyReply::CannotMap("no memory".to_string());
    let (destroy, e) = failure(simulate_keys(&keys, &ready(), KeyStage::Create, cannot));
    assert!(!destroy);
    assert_eq!(e.message(), "wayland error: cannot map keymap: no memory");
    let step = simulate_keys(&keys, &ready(), KeyStage::Create, KeyReply::CannotCompile);
    let (destroy, e) = failure(step);
    assert!(!destroy);
    assert_eq!(e.message(), "wayland error: cannot compile keymap");
}

#[test]
fn keys_are_typed_one_after_the_other() {
    let keys = [key(37, true, 0), key(8, false, 40), key(9, false, -5)];
    let mut stage = KeyStage::Create;
    let mut reply = KeyReply::Done;
    let mut seen: Vec<KeyAction> = Vec::new();
    let outcome = loop {
        match simulate_keys(&keys, &ready(), stage, reply) {
            KeyStep::Ask(next, action) => {
                reply = match action {
                    KeyAction::Update { keycode: 37, .. } => {
                        KeyReply::Updated { changed: 4, masks: MASKS, elapsed: 5 }
                    }
                    KeyAction::Update { .. } => {
                        KeyReply::Updated { changed: 0, masks: MASKS, elapsed: 0x1_0000_0002 }
                    }
                    _ => KeyReply::Done,
                };
                seen.push(action);
                stage = next;
            }
            KeyStep::Finish { destroy, outcome } => break (destroy, outcome.is_ok()),
        }
    };
    assert_eq!(outcome, (true, true));
    assert_eq!(
        seen,
        vec![
            KeyAction::Update { sleep: 0, keycode: 37, down: true },
            KeyAction::Send { modifiers: Some(MASKS), time: 5, code: 29, value: 1 },
            KeyAction::Update { sleep: 40, keycode: 8, down: false },
            KeyAction::Send { modifiers: None, time: 2, code: 0, value: 0 },
            KeyAction::Update { sleep: 0, keycode: 9, down: false },
            KeyAction::Send { modifiers: None, time: 2, code: 1, value: 0 },
        ]
    );
}

#[test]
fn typing_stops_at_the_first_failure() {
    let keys = [key(38, true, 0), key(38, false, 0)];
    let lost = KeyReply::Failed(Error::Wayland("lost".to_string()));
    let (destroy, e) = failure(simulate_keys(&keys, &ready(), KeyStage::Send(0), lost));
    assert!(destroy);
    assert_eq!(e.message(), "wayland error: lost");
    let lost = KeyReply::Failed(Error::Connect("no".to_string()));
    let (destroy, _) = failure(simulate_keys(&keys, &ready(), KeyStage::Globals, lost));
    assert!(!destroy);
}

#[test]
fn no_keys_are_typed_at_once() {
    let step = simulate_keys(&[], &ready(), KeyStage::Create, KeyReply::Done);
    assert!(matches!(step, KeyStep::Finish { destroy: true, outcome: Ok(()) }));
}
