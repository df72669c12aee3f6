use kando_cosmic_helper::error::Error;
use kando_cosmic_helper::names::NameMap;
use kando_cosmic_helper::session::{
    Binding, CosmicEvent, CosmicTopEvent, Global, GroupEvent, State, TopEvent, WorkspaceEvent,
};
use kando_cosmic_helper::tasks;
use kando_cosmic_helper::tasks::{
    Action, Ensured, ForgetStage, GotoStage, Naming, Reply, SendStage, Step,
};
use kando_cosmic_helper::workspace::list_workspaces;

fn add(state: &mut State, ext: u32, name: &str, id: &str, at: Vec<u32>, pinned: bool) {
    state.workspace_announced(ext, Some(ext + 100));
    state.workspace_event(ext, WorkspaceEvent::Name(name.to_string()));
    state.workspace_event(ext, WorkspaceEvent::Id(id.to_string()));
    state.workspace_event(ext, WorkspaceEvent::Coordinates(at));
    state.cosmic_event(ext + 100, CosmicEvent::State(if pinned { 1 } else { 0 }));
}

/// Three workspaces, the first of them pinned, announced out of order, and a focused window.
fn desktop() -> State {
    let mut state = State::new();
    for name in [
        "ext_workspace_manager_v1",
        "zcosmic_workspace_manager_v2",
        "zcosmic_toplevel_manager_v1",
        "ext_foreign_toplevel_list_v1",
        "zcosmic_toplevel_info_v1",
    ] {
        assert!(state.global(name, 4).is_some());
    }
    state.output_bound(70);
    add(&mut state, 3, "3", "", vec![2], false);
    add(&mut state, 1, "1", "ws-1", vec![0], true);
    add(&mut state, 2, "2", "", vec![1], false);
    state.toplevel_announced(50, Some(150));
    state.top_event(50, TopEvent::AppId("editor".to_string()));
    state.top_event(50, TopEvent::Title("main.rs".to_string()));
    state.cosmic_top_event(150, CosmicTopEvent::States(vec![2]));
    state
}

fn names(text: &str) -> Reply {
    Reply::Names(text.to_string())
}

fn listed(state: &State) -> Vec<String> {
    list_workspaces(state).into_iter().map(|w| w.name).collect()
}

#[test]
fn workspace_globals_are_bound() {
    let mut state = State::new();
    let bound = |state: &mut State, name: &str, version: u32| state.global(name, version);
    assert_eq!(
        bound(&mut state, "wl_output", 9),
        Some(Binding { global: Global::Output, version: 4 })
    );
    assert_eq!(bound(&mut state, "zcosmic_workspace_manager_v2", 1), None);
    assert_eq!(
        bound(&mut state, "zcosmic_workspace_manager_v2", 3),
        Some(Binding { global: Global::CosmicWsManager, version: 2 })
    );
    assert_eq!(bound(&mut state, "zcosmic_toplevel_manager_v1", 3), None);
    assert_eq!(
        bound(&mut state, "zcosmic_toplevel_manager_v1", 5),
        Some(Binding { global: Global::TopManager, version: 4 })
    );
    assert_eq!(bound(&mut state, "zcosmic_toplevel_info_v1", 1), None);
    assert_eq!(
        bound(&mut state, "zcosmic_toplevel_info_v1", 2),
        Some(Binding { global: Global::TopInfo, version: 2 })
    );
    assert!(matches!(
        state.check_globals(),
        Err(Error::MissingGlobal("ext_workspace_manager_v1"))
    ));
    assert_eq!(
        bound(&mut state, "ext_workspace_manager_v1", 2),
        Some(Binding { global: Global::WsManager, version: 1 })
    );
    assert!(matches!(
        state.check_globals(),
        Err(Error::MissingGlobal("ext_foreign_toplevel_list_v1 / zcosmic_toplevel_info_v1"))
    ));
    assert_eq!(
        bound(&mut state, "ext_foreign_toplevel_list_v1", 2),
        Some(Binding { global: Global::TopList, version: 1 })
    );
    assert!(state.check_globals().is_ok());
}

#[test]
fn the_state_is_synced_once_all_has_been_told() {
    let mut state = State::new();
    assert!(!state.is_synced());
    state.workspaces_told();
    assert!(!state.is_synced());
    state.toplevels_told();
    assert!(state.is_synced());
}

#[test]
fn groups_are_followed() {
    let mut state = State::new();
    state.group_announced(5);
    state.group_event(5, GroupEvent::Capabilities(1));
    state.group_event(5, GroupEvent::OutputEnter(70));
    state.group_event(5, GroupEvent::OutputEnter(71));
    state.group_event(5, GroupEvent::OutputLeave(70));
    state.group_event(5, GroupEvent::WorkspaceEnter(1));
    state.group_event(5, GroupEvent::WorkspaceEnter(2));
    state.group_event(5, GroupEvent::WorkspaceLeave(1));
    state.group_event(6, GroupEvent::OutputEnter(99));
    assert!(state.groups[0].can_create);
    assert_eq!(state.groups[0].outputs, vec![71]);
    assert_eq!(state.groups[0].workspaces, vec![2]);
    assert_eq!(state.groups.len(), 1);
}

#[test]
fn workspaces_are_followed() {
    let mut state = desktop();
    state.workspace_event(1, WorkspaceEvent::State(1));
    state.cosmic_event(101, CosmicEvent::Capabilities(5));
    let w = &state.workspaces[1];
    assert!(w.info.active);
    assert_eq!(w.info.cosmic_caps, 5);
    assert_eq!(w.info.cosmic_state, 1);
    assert_eq!(w.info.coordinates, vec![0]);
    state.workspace_event(1, WorkspaceEvent::State(64));
    assert!(!state.workspaces[1].info.active);
    state.workspace_event(77, WorkspaceEvent::Removed);
    assert!(state.workspaces.iter().all(|w| !w.removed));
}

#[test]
fn events_leave_every_workspace_at_its_place() {
    let mut state = desktop();
    let before: Vec<(u32, Option<u32>)> =
        state.workspaces.iter().map(|w| (w.ext, w.cosmic)).collect();
    state.workspace_event(1, WorkspaceEvent::Removed);
    state.workspace_event(1, WorkspaceEvent::Name("again".to_string()));
    state.cosmic_event(102, CosmicEvent::State(1));
    state.workspace_announced(9, None);
    let after: Vec<(u32, Option<u32>)> =
        state.workspaces.iter().map(|w| (w.ext, w.cosmic)).collect();
    assert_eq!(after[..3], before[..]);
    assert!(state.workspaces[1].removed);
}

#[test]
fn workspaces_are_listed_in_the_order_of_their_coordinates() {
    let mut state = desktop();
    assert_eq!(listed(&state), vec!["1", "2", "3"]);
    add(&mut state, 4, "also 2", "", vec![1], false);
    add(&mut state, 5, "below 1", "", vec![0, 5], false);
    add(&mut state, 6, "nowhere", "", vec![], false);
    assert_eq!(listed(&state), vec!["nowhere", "1", "below 1", "2", "also 2", "3"]);
    state.workspace_event(2, WorkspaceEvent::Removed);
    assert_eq!(listed(&state), vec!["nowhere", "1", "below 1", "also 2", "3"]);
}

#[test]
fn recorded_names_are_applied() {
    let mut state = desktop();
    state.apply_names(&NameMap::load("Coding\tws-1\nGhost\tws-9\n"));
    assert_eq!(listed(&state), vec!["Coding", "2", "3"]);
}

#[test]
fn workspaces_are_found_by_name_or_by_recorded_id() {
    let state = desktop();
    let map = NameMap::load("Coding\tws-1\nGhost\tws-9\nBlank\t\n");
    assert_eq!(state.find(&map, "coding"), Some(1));
    assert_eq!(state.find(&map, "3"), Some(0));
    assert_eq!(state.find(&map, "Ghost"), None);
    assert_eq!(state.find(&map, "Blank"), None);
    assert_eq!(state.find(&map, "Chat"), None);
}

#[test]
fn the_trailing_free_workspace_is_the_last_by_coordinates() {
    let mut state = desktop();
    assert_eq!(state.trailing_workspace(), Some(0));
    state.cosmic_event(103, CosmicEvent::State(1));
    assert_eq!(state.trailing_workspace(), Some(2));
    add(&mut state, 4, "twin", "", vec![1], false);
    assert_eq!(state.trailing_workspace(), Some(3));
    state.workspace_event(4, WorkspaceEvent::Removed);
    state.workspace_event(2, WorkspaceEvent::Removed);
    assert_eq!(state.trailing_workspace(), None);
}

#[test]
fn a_known_workspace_is_only_activated() {
    let mut state = desktop();
    let step = tasks::goto_workspace(&mut state, "Coding", GotoStage::Name(Naming::Start), Reply::Done);
    let stage = match step {
        Step::Ask(stage, Action::ReadNames) => stage,
        _ => panic!("the names are not read"),
    };
    let step = tasks::goto_workspace(&mut state, "Coding", stage, names("coding\tws-1\n"));
    let stage = match step {
        Step::Ask(stage, Action::Activate(1)) => stage,
        _ => panic!("the workspace is not activated"),
    };
    assert_eq!(stage.index(), None);
    let step = tasks::goto_workspace(&mut state, "Coding", stage, Reply::Done);
    assert!(matches!(step, Step::Finish(Ok(true))));
    let lost = Reply::Failed(Error::Wayland("lost".to_string()));
    let step = tasks::goto_workspace(&mut state, "Coding", GotoStage::Activate, lost);
    assert!(matches!(step, Step::Finish(Err(Error::Wayland(m))) if m == "lost"));
}

#[test]
fn a_new_name_pins_the_trailing_workspace_and_is_recorded() {
    let mut state = desktop();
    let start = GotoStage::Name(Naming::Find);
    let step = tasks::goto_workspace(&mut state, "Chat", start, names("Coding\tws-1\n"));
    let stage = match step {
        Step::Ask(stage, Action::Pin { index: 0, cosmic: 103, name }) => {
            assert_eq!(name, "Chat");
            stage
        }
        _ => panic!("the trailing workspace is not pinned"),
    };
    assert_eq!(stage.index(), Some(0));
    state.workspace_event(3, WorkspaceEvent::Id("ws-3".to_string()));
    let step = tasks::goto_workspace(&mut state, "Chat", stage, Reply::Done);
    let stage = match step {
        Step::Ask(stage, Action::ReadNames) => stage,
        _ => panic!("the names are not read again"),
    };
    let step = tasks::goto_workspace(&mut state, "Chat", stage, names("Coding\tws-1\n"));
    let (stage, written) = match step {
        Step::Ask(stage, Action::SaveNames(text)) => (stage, text),
        _ => panic!("the names are not written"),
    };
    assert_eq!(written, "Coding\tws-1\nChat\tws-3\n");
    let step = tasks::goto_workspace(&mut state, "Chat", stage, Reply::Done);
    let stage = match step {
        Step::Ask(stage, Action::Activate(3)) => stage,
        _ => panic!("the workspace is not activated"),
    };
    assert_eq!(state.workspaces[0].info.name, "Chat");
    let step = tasks::goto_workspace(&mut state, "Chat", stage, Reply::Done);
    assert!(matches!(step, Step::Finish(Ok(true))));
    // The name is used again in the same session.
    let again = tasks::ensure(&mut state, "chat", Naming::Find, names(&written));
    assert!(matches!(again, Ensured::Ready(0)));
    // Whoever comes next finds it under the name, in any case, and only activates it.
    let mut later = desktop_with_id();
    let find = GotoStage::Name(Naming::Find);
    let step = tasks::goto_workspace(&mut later, "chat", find, names(&written));
    assert!(matches!(step, Step::Ask(GotoStage::Activate, Action::Activate(3))));
    assert_eq!(desktop_with_id().find(&NameMap::load(&written), "CHAT"), Some(0));
}

fn desktop_with_id() -> State {
    let mut state = desktop();
    state.workspace_event(3, WorkspaceEvent::Id("ws-3".to_string()));
    state
}

#[test]
fn a_workspace_is_made_without_switching() {
    let mut state = desktop_with_id();
    let step =
        tasks::goto_workspace_no_switch(&mut state, "Chat", Naming::Start, Reply::Done);
    assert!(matches!(step, Step::Ask(Naming::Find, Action::ReadNames)));
    let step = tasks::goto_workspace_no_switch(&mut state, "Chat", Naming::Save(0), Reply::Done);
    assert!(matches!(step, Step::Finish(Ok(true))));
    assert_eq!(state.workspaces[0].info.name, "Chat");
    let denied = Reply::Failed(Error::Wayland("denied".to_string()));
    let step = tasks::goto_workspace_no_switch(&mut state, "Other", Naming::Save(0), denied);
    assert!(matches!(step, Step::Finish(Err(Error::Wayland(m))) if m == "denied"));
    assert_eq!(state.workspaces[0].info.name, "Chat");
}

#[test]
fn a_name_cannot_be_given_without_a_free_workspace() {
    let mut state = desktop();
    for cosmic in [102, 103] {
        state.cosmic_event(cosmic, CosmicEvent::State(1));
    }
    let step = tasks::goto_workspace_no_switch(&mut state, "Chat", Naming::Find, names(""));
    assert!(matches!(
        step,
        Step::Finish(Err(Error::Wayland(m))) if m == "no unpinned workspace left to name"
    ));
}

#[test]
fn a_name_cannot_be_given_without_pinning() {
    let mut state = desktop();
    state.workspaces[0].cosmic = None;
    let step = tasks::goto_workspace_no_switch(&mut state, "Chat", Naming::Find, names(""));
    assert!(matches!(
        step,
        Step::Finish(Err(Error::MissingGlobal("zcosmic_workspace_manager_v2 (v2+)")))
    ));
}

#[test]
fn a_workspace_without_an_id_was_not_pinned() {
    let mut state = desktop();
    let step = tasks::goto_workspace_no_switch(&mut state, "Chat", Naming::Pin(0), Reply::Done);
    assert!(matches!(
        step,
        Step::Finish(Err(Error::Wayland(m))) if m == "compositor did not pin the workspace"
    ));
    let lost = Reply::Failed(Error::Timeout(5));
    let step = tasks::goto_workspace_no_switch(&mut state, "Chat", Naming::Pin(0), lost);
    assert!(matches!(step, Step::Finish(Err(Error::Timeout(5)))));
}

fn settle(state: &mut State, follow: bool) -> Step<SendStage> {
    tasks::send_focused_to_workspace(state, "1", follow, SendStage::Settle(1), Reply::Done)
}

#[test]
fn the_focused_window_is_sent() {
    let mut state = desktop();
    let start = SendStage::Name(Naming::Start);
    let step = tasks::send_focused_to_workspace(&mut state, "1", false, start, Reply::Done);
    let stage = match step {
        Step::Ask(stage, Action::ReadNames) => stage,
        _ => panic!("the names are not read"),
    };
    let step = tasks::send_focused_to_workspace(&mut state, "1", false, stage, names(""));
    let stage = match step {
        Step::Ask(stage, Action::AwaitFocus) => stage,
        _ => panic!("the focus is not awaited"),
    };
    assert_eq!(stage.index(), Some(1));
    let step = tasks::send_focused_to_workspace(&mut state, "1", false, stage, Reply::Done);
    let stage = match step {
        Step::Ask(stage, Action::Move { window: 150, workspace: 1, output: 70 }) => stage,
        _ => panic!("the window is not moved"),
    };
    let step = tasks::send_focused_to_workspace(&mut state, "1", false, stage, Reply::Done);
    assert!(matches!(step, Step::Finish(Ok(true))));
}

#[test]
fn a_window_is_followed_if_that_is_asked_for() {
    let mut state = desktop();
    let moved = SendStage::Move(1);
    let step = tasks::send_focused_to_workspace(&mut state, "1", true, moved, Reply::Done);
    assert!(matches!(step, Step::Ask(SendStage::Activate, Action::Activate(1))));
    let last = SendStage::Activate;
    let step = tasks::send_focused_to_workspace(&mut state, "1", true, last, Reply::Done);
    assert!(matches!(step, Step::Finish(Ok(true))));
    for stage in [moved, last] {
        let lost = Reply::Failed(Error::NoOutputs);
        let step = tasks::send_focused_to_workspace(&mut state, "1", true, stage, lost);
        assert!(matches!(step, Step::Finish(Err(Error::NoOutputs))));
    }
}

#[test]
fn the_output_is_the_windows_or_the_groups_or_the_first() {
    let output = |step: Step<SendStage>| match step {
        Step::Ask(_, Action::Move { output, .. }) => output,
        _ => panic!("the window is not moved"),
    };
    let mut state = desktop();
    assert_eq!(output(settle(&mut state, false)), 70);
    state.group_announced(5);
    state.group_announced(6);
    state.group_event(6, GroupEvent::OutputEnter(71));
    assert_eq!(output(settle(&mut state, false)), 71);
    state.cosmic_top_event(150, CosmicTopEvent::OutputEnter(72));
    state.cosmic_top_event(150, CosmicTopEvent::OutputEnter(73));
    assert_eq!(output(settle(&mut state, false)), 72);
    state.cosmic_top_event(150, CosmicTopEvent::OutputLeave(72));
    assert_eq!(output(settle(&mut state, false)), 73);
}

#[test]
fn nothing_is_sent_without_a_focused_window() {
    let mut state = desktop();
    assert_eq!(state.focused_toplevel(), Some(0));
    state.top_event(50, TopEvent::AppId("menu.kando.Kando".to_string()));
    assert_eq!(state.focused_toplevel(), None);
    assert!(matches!(settle(&mut state, true), Step::Finish(Ok(false))));
    let mut state = desktop();
    state.top_event(50, TopEvent::Closed);
    assert!(matches!(settle(&mut state, true), Step::Finish(Ok(false))));
    let mut state = desktop();
    state.toplevels[0].cosmic = None;
    assert!(matches!(settle(&mut state, true), Step::Finish(Ok(false))));
}

#[test]
fn nothing_is_sent_without_an_output_or_the_manager() {
    let mut state = desktop();
    state.outputs.clear();
    assert!(matches!(settle(&mut state, true), Step::Finish(Err(Error::NoOutputs))));
    state.top_manager = false;
    let start = SendStage::Name(Naming::Start);
    let step = tasks::send_focused_to_workspace(&mut state, "1", true, start, Reply::Done);
    assert!(matches!(
        step,
        Step::Finish(Err(Error::MissingGlobal("zcosmic_toplevel_manager_v1 (v4+)")))
    ));
}

#[test]
fn a_workspace_is_unpinned_and_forgotten() {
    let state = desktop();
    let forget = |stage: ForgetStage, reply: Reply| {
        tasks::forget_workspace(&state, "coding", stage, reply)
    };
    assert!(matches!(
        forget(ForgetStage::Start, Reply::Done),
        Step::Ask(ForgetStage::Find, Action::ReadNames)
    ));
    assert!(matches!(
        forget(ForgetStage::Find, names("Coding\tws-1\n")),
        Step::Ask(ForgetStage::Unpin, Action::Unpin(Some(101)))
    ));
    assert!(matches!(forget(ForgetStage::Find, names("")), Step::Finish(Ok(false))));
    assert!(matches!(
        forget(ForgetStage::Unpin, Reply::Done),
        Step::Ask(ForgetStage::Drop, Action::ReadNames)
    ));
    match forget(ForgetStage::Drop, names("Coding\tws-1\nChat\tws-2\n")) {
        Step::Ask(ForgetStage::Save, Action::SaveNames(text)) => {
            assert_eq!(text, "Chat\tws-2\n");
            assert_eq!(state.find(&NameMap::load(&text), "coding"), None);
        }
        _ => panic!("the names are not written"),
    }
    assert!(matches!(forget(ForgetStage::Save, Reply::Done), Step::Finish(Ok(true))));
    for stage in [ForgetStage::Unpin, ForgetStage::Save, ForgetStage::Discard] {
        let lost = Reply::Failed(Error::NoOutputs);
        assert!(matches!(forget(stage, lost), Step::Finish(Err(Error::NoOutputs))));
    }
}

#[test]
fn a_name_is_forgotten_even_if_its_workspace_is_gone() {
    let state = desktop();
    let stale = names("Ghost\tws-9\nCoding\tws-1\n");
    match tasks::forget_workspace(&state, "ghost", ForgetStage::Find, stale) {
        Step::Ask(ForgetStage::Discard, Action::SaveNames(text)) => {
            assert_eq!(text, "Coding\tws-1\n");
        }
        _ => panic!("the name stays"),
    }
    let step = tasks::forget_workspace(&state, "ghost", ForgetStage::Discard, Reply::Done);
    assert!(matches!(step, Step::Finish(Ok(false))));
}
