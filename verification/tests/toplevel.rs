use kando_cosmic_helper::error::Error;
use kando_cosmic_helper::toplevel;
use kando_cosmic_helper::toplevel::{
    Binding, Global, HandleEvent, State, StateChange, WindowRequest,
};

fn add(state: &mut State, ext: u32, app_id: &str, title: &str, states: Vec<u32>) {
    state.announced(ext, Some(ext + 100));
    state.handle_event(ext, HandleEvent::AppId(app_id.to_string()));
    state.handle_event(ext, HandleEvent::Title(title.to_string()));
    state.states_told(ext + 100, &states);
}

/// Kando's menu has the focus beside an editor; a terminal comes first.
fn windows() -> State {
    let mut state = State::new();
    for name in [
        "wl_seat",
        "ext_foreign_toplevel_list_v1",
        "zcosmic_toplevel_info_v1",
        "zcosmic_toplevel_manager_v1",
    ] {
        state.global(name, 4);
    }
    add(&mut state, 1, "term", "shell", vec![]);
    add(&mut state, 2, "menu.kando.Kando", "Kando Menu", vec![2]);
    add(&mut state, 3, "editor", "main.rs", vec![0, 2, 4]);
    state
}

#[test]
fn window_globals_are_bound() {
    let mut state = State::new();
    assert_eq!(
        state.global("wl_seat", 9),
        Some(Binding { global: Global::Seat, version: 5 })
    );
    assert_eq!(state.global("wl_seat", 9), None);
    assert_eq!(
        state.global("ext_foreign_toplevel_list_v1", 3),
        Some(Binding { global: Global::List, version: 1 })
    );
    assert_eq!(state.global("zcosmic_toplevel_info_v1", 1), None);
    assert!(!state.info);
    assert_eq!(
        state.global("zcosmic_toplevel_info_v1", 5),
        Some(Binding { global: Global::Info, version: 3 })
    );
    assert_eq!(
        state.global("zcosmic_toplevel_manager_v1", 2),
        Some(Binding { global: Global::Manager, version: 2 })
    );
    assert_eq!(state.global("wl_output", 4), None);
}

#[test]
fn listing_needs_two_globals() {
    let mut state = State::new();
    assert!(matches!(
        state.check_globals(),
        Err(Error::MissingGlobal("ext_foreign_toplevel_list_v1"))
    ));
    state.global("ext_foreign_toplevel_list_v1", 1);
    assert!(matches!(
        state.check_globals(),
        Err(Error::MissingGlobal("zcosmic_toplevel_info_v1 (v2+)"))
    ));
    state.global("zcosmic_toplevel_info_v1", 2);
    assert!(state.check_globals().is_ok());
    assert!(!state.done);
    state.all_told();
    assert!(state.done);
}

#[test]
fn open_windows_are_listed_in_order() {
    let mut state = windows();
    state.handle_event(9, HandleEvent::Closed);
    let titles = |s: &State| -> Vec<String> {
        toplevel::list_toplevels(s).into_iter().map(|t| t.title).collect()
    };
    assert_eq!(titles(&state), vec!["shell", "Kando Menu", "main.rs"]);
    state.handle_event(2, HandleEvent::Closed);
    assert_eq!(titles(&state), vec!["shell", "main.rs"]);
}

#[test]
fn the_focused_window_is_the_first_activated_one() {
    let mut state = windows();
    assert_eq!(toplevel::focused_toplevel(&state).unwrap().app_id, "menu.kando.Kando");
    state.handle_event(2, HandleEvent::Closed);
    assert_eq!(toplevel::focused_toplevel(&state).unwrap().app_id, "editor");
    state.states_told(103, &vec![1]);
    assert!(toplevel::focused_toplevel(&state).is_none());
}

#[test]
fn a_window_is_focused_by_what_is_given() {
    let state = windows();
    assert!(matches!(toplevel::focus_toplevel(&state, "editor", ""), Ok(Some(103))));
    assert!(matches!(toplevel::focus_toplevel(&state, "", "shell"), Ok(Some(101))));
    assert!(matches!(toplevel::focus_toplevel(&state, "", ""), Ok(Some(101))));
    assert!(matches!(toplevel::focus_toplevel(&state, "editor", "shell"), Ok(None)));
}

#[test]
fn a_window_without_a_cosmic_handle_is_not_focused() {
    let mut state = windows();
    state.entries[0].cosmic = None;
    assert!(matches!(toplevel::focus_toplevel(&state, "", ""), Ok(None)));
}

#[test]
fn focusing_needs_the_manager_and_a_seat() {
    let mut state = windows();
    state.seat = false;
    assert!(matches!(
        toplevel::focus_toplevel(&state, "", ""),
        Err(Error::MissingGlobal("wl_seat"))
    ));
    state.manager = false;
    assert!(matches!(
        toplevel::focus_toplevel(&state, "", ""),
        Err(Error::MissingGlobal("zcosmic_toplevel_manager_v1"))
    ));
    assert!(matches!(
        toplevel::set_toplevel_state(&state, "", "", StateChange::Close),
        Err(Error::MissingGlobal("zcosmic_toplevel_manager_v1"))
    ));
}

#[test]
fn every_change_has_its_request() {
    let state = windows();
    let request = |app: &str, change: StateChange| {
        toplevel::set_toplevel_state(&state, app, "", change).unwrap().unwrap().1
    };
    assert_eq!(request("term", StateChange::Fullscreen), WindowRequest::SetFullscreen);
    assert_eq!(request("term", StateChange::Unfullscreen), WindowRequest::UnsetFullscreen);
    assert_eq!(request("term", StateChange::Maximize), WindowRequest::SetMaximized);
    assert_eq!(request("term", StateChange::Unmaximize), WindowRequest::UnsetMaximized);
    assert_eq!(request("term", StateChange::Minimize), WindowRequest::SetMinimized);
    assert_eq!(request("term", StateChange::Unminimize), WindowRequest::UnsetMinimized);
    assert_eq!(request("term", StateChange::Close), WindowRequest::Close);
    assert_eq!(request("term", StateChange::ToggleMaximize), WindowRequest::SetMaximized);
    assert_eq!(request("editor", StateChange::ToggleMaximize), WindowRequest::UnsetMaximized);
    assert_eq!(request("term", StateChange::ToggleSticky), WindowRequest::SetSticky);
    assert_eq!(request("editor", StateChange::ToggleSticky), WindowRequest::UnsetSticky);
}

#[test]
fn the_focused_window_is_never_kandos() {
    let mut state = windows();
    assert!(state.has_users_focus());
    let chosen = toplevel::set_toplevel_state(&state, "@focused", "x", StateChange::Minimize);
    assert!(matches!(chosen, Ok(Some((103, WindowRequest::SetMinimized)))));
    state.states_told(103, &vec![]);
    assert!(!state.has_users_focus());
    let none = toplevel::set_toplevel_state(&state, "@focused", "", StateChange::Minimize);
    assert!(matches!(none, Ok(None)));
    assert!(toplevel::waits_for_focus("@focused"));
    assert!(!toplevel::waits_for_focus("focused"));
    assert!(toplevel::is_kando("menu.kando.Kando"));
    assert!(!toplevel::is_kando("menu.kando.kando"));
}

#[test]
fn the_menu_is_maximized_once_for_every_time_it_maps() {
    let mut state = windows();
    assert_eq!(state.auto_maximize("menu.kando.Kando", "Kando Menu"), vec![102]);
    assert!(state.auto_maximize("menu.kando.Kando", "Kando Menu").is_empty());
    state.handle_event(2, HandleEvent::Closed);
    add(&mut state, 4, "menu.kando.Kando", "Kando Settings", vec![]);
    assert!(state.auto_maximize("menu.kando.Kando", "Kando Menu").is_empty());
    add(&mut state, 5, "menu.kando.Kando", "Kando Menu", vec![]);
    assert_eq!(state.auto_maximize("menu.kando.Kando", "Kando Menu"), vec![105]);
}
