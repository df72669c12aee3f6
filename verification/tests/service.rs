use kando_cosmic_helper::cli;
use kando_cosmic_helper::cli::Command;
use kando_cosmic_helper::dbus;
use kando_cosmic_helper::dbus::{remember_work_area, AreaStep, Helper, WorkAreaCache};
use kando_cosmic_helper::error::Error;
use kando_cosmic_helper::keyboard::KeyEvent;
use kando_cosmic_helper::pointer::{OutputInfo, PointerInfo, Rect};
use kando_cosmic_helper::session::Workspace;
use kando_cosmic_helper::toplevel::{StateChange, Toplevel};

const SECOND: u128 = 1_000_000_000;

fn pointer(output: &str, left: i32) -> PointerInfo {
    PointerInfo {
        x: 256,
        y: 512,
        output: OutputInfo {
            name: output.to_string(),
            x: 0,
            y: 0,
            width: 1920,
            height: 1080,
        },
        work_area: Rect { x: left, y: 0, width: 1900, height: 1080 },
        elapsed: 7,
    }
}

fn area(step: AreaStep) -> Option<Rect> {
    match step {
        AreaStep::Measure => None,
        AreaStep::Finish(outcome) => Some(outcome.unwrap().work_area),
    }
}

#[test]
fn a_measured_work_area_is_used_until_it_is_old() {
    let mut cache = WorkAreaCache::new();
    remember_work_area(&mut cache, &pointer("DP-1", 20), 100 * SECOND);
    let helper = Helper::new(500, cache);
    assert_eq!(helper.pointer_timeout, 500);
    let at = |now: u128| area(helper.pointer_with_work_area(Ok(pointer("DP-1", 0)), now));
    let measured = Some(Rect { x: 20, y: 0, width: 1900, height: 1080 });
    assert_eq!(at(100 * SECOND), measured);
    assert_eq!(at(50 * SECOND), measured);
    assert_eq!(at(700 * SECOND - 1), measured);
    assert_eq!(at(700 * SECOND), None);
    assert_eq!(area(helper.pointer_with_work_area(Ok(pointer("DP-2", 0)), 100 * SECOND)), None);
}

#[test]
fn what_is_measured_is_remembered() {
    let mut helper = Helper::new(500, WorkAreaCache::new());
    assert_eq!(area(helper.pointer_with_work_area(Ok(pointer("A", 0)), 0)), None);
    let found = helper.work_area_measured(Ok(pointer("A", 5)), SECOND).unwrap();
    assert_eq!(found.work_area.x, 5);
    helper.work_area_measured(Ok(pointer("B", 9)), SECOND).unwrap();
    let known = area(helper.pointer_with_work_area(Ok(pointer("A", 0)), 2 * SECOND));
    assert_eq!(known.unwrap().x, 5);
    let known = area(helper.pointer_with_work_area(Ok(pointer("B", 0)), 2 * SECOND));
    assert_eq!(known.unwrap().x, 9);
}

#[test]
fn failed_probes_are_handed_on() {
    let mut helper = Helper::new(500, WorkAreaCache::new());
    match helper.pointer_with_work_area(Err(Error::Timeout(500)), 0) {
        AreaStep::Finish(Err(Error::Timeout(500))) => {}
        _ => panic!("the failure is lost"),
    }
    assert!(matches!(
        helper.work_area_measured(Err(Error::NoOutputs), 0),
        Err(Error::NoOutputs)
    ));
}

fn window(app_id: &str, title: &str, activated: bool) -> Toplevel {
    Toplevel { title: title.to_string(), app_id: app_id.to_string(), activated }
}

#[test]
fn windows_are_told_by_title_and_application() {
    assert_eq!(
        dbus::get_focused_window(Some(window("app", "title", true))),
        ("title".to_string(), "app".to_string())
    );
    assert_eq!(dbus::get_focused_window(None), (String::new(), String::new()));
    let list = vec![window("a", "1", false), window("b", "2", true)];
    assert_eq!(
        dbus::get_open_windows(&list),
        vec![("1".to_string(), "a".to_string()), ("2".to_string(), "b".to_string())]
    );
}

#[test]
fn everything_for_a_menu_is_told_at_once() {
    let info = dbus::get_wm_info(Some(window("app", "title", true)), &pointer("DP-1", 20));
    assert_eq!((info.title.as_str(), info.app_id.as_str()), ("title", "app"));
    assert_eq!((info.x, info.y), (256, 512));
    assert_eq!(info.work_area, Rect { x: 20, y: 0, width: 1900, height: 1080 });
    let info = dbus::get_wm_info(None, &pointer("DP-1", 20));
    assert!(info.title.is_empty() && info.app_id.is_empty());
}

#[test]
fn calls_are_turned_into_keys() {
    assert_eq!(
        dbus::key_events(&vec![(38, true, 5), (39, false, 0)]),
        vec![
            KeyEvent { keycode: 38, down: true, delay_ms: 5 },
            KeyEvent { keycode: 39, down: false, delay_ms: 0 },
        ]
    );
}

#[test]
fn the_service_has_its_documented_names() {
    assert_eq!(dbus::BUS_NAME, "menu.kando.CosmicIntegration");
    assert_eq!(dbus::OBJECT_PATH, "/menu/kando/CosmicIntegration");
}

fn parse(line: &str) -> Option<Command> {
    let args: Vec<String> =
        line.split(' ').filter(|a| !a.is_empty()).map(|a| a.to_string()).collect();
    cli::parse(&args)
}

#[test]
fn the_daemon_is_the_default() {
    for (line, parent, timeout) in [
        ("", false, 500),
        ("daemon", false, 500),
        ("--exit-with-parent", true, 500),
        ("daemon --pointer-timeout-ms 20 --exit-with-parent", true, 20),
        ("--pointer-timeout-ms 20 --pointer-timeout-ms 30", false, 30),
    ] {
        match parse(line) {
            Some(Command::Daemon { exit_with_parent, pointer_timeout }) => {
                assert_eq!((exit_with_parent, pointer_timeout), (parent, timeout));
            }
            _ => panic!("{line}"),
        }
    }
    for line in ["daemon x", "--pointer-timeout-ms", "--pointer-timeout-ms x", "--help"] {
        assert!(parse(line).is_none());
    }
}

#[test]
fn simple_commands_are_read() {
    assert!(matches!(parse("setup"), Some(Command::Setup)));
    assert!(matches!(parse("doctor"), Some(Command::Doctor)));
    assert!(matches!(parse("windows"), Some(Command::Windows)));
    assert!(matches!(parse("focused"), Some(Command::Focused)));
    assert!(matches!(parse("pointer"), Some(Command::Pointer { timeout: 500 })));
    assert!(matches!(parse("pointer 70"), Some(Command::Pointer { timeout: 70 })));
    assert!(matches!(parse("pointer x"), Some(Command::Pointer { timeout: 500 })));
    assert!(matches!(parse("workarea 9"), Some(Command::WorkArea { timeout: 9 })));
    assert!(parse("nonsense").is_none());
    assert!(parse("-").is_none());
}

#[test]
fn commands_with_arguments_are_read() {
    match parse("move -1.5 2") {
        Some(Command::Move { dx, dy }) => assert_eq!((dx.as_str(), dy.as_str()), ("-1.5", "2")),
        _ => panic!("move"),
    }
    assert!(parse("move 1").is_none());
    match parse("focus app") {
        Some(Command::Focus { app_id, title }) => {
            assert_eq!((app_id.as_str(), title.as_str()), ("app", ""));
        }
        _ => panic!("focus"),
    }
    for (word, expected) in [
        ("fullscreen", StateChange::Fullscreen),
        ("unfullscreen", StateChange::Unfullscreen),
        ("maximize", StateChange::Maximize),
        ("unmaximize", StateChange::Unmaximize),
        ("toggle-maximize", StateChange::ToggleMaximize),
        ("minimize", StateChange::Minimize),
        ("unminimize", StateChange::Unminimize),
        ("toggle-sticky", StateChange::ToggleSticky),
        ("close", StateChange::Close),
    ] {
        match parse(&format!("state @focused any {word}")) {
            Some(Command::State { app_id, title, change }) => {
                assert_eq!((app_id.as_str(), title.as_str()), ("@focused", "any"));
                assert_eq!(change, expected);
            }
            _ => panic!("{word}"),
        }
    }
    assert!(parse("state app title").is_none());
    assert!(parse("state app title shrink").is_none());
}

#[test]
fn workspace_requests_are_read() {
    assert!(matches!(parse("workspace list"), Some(Command::ListWorkspaces)));
    assert!(matches!(parse("workspace goto Chat"), Some(Command::Goto(n)) if n == "Chat"));
    assert!(matches!(
        parse("workspace send Chat"),
        Some(Command::Send { name, follow: false }) if name == "Chat"
    ));
    assert!(matches!(
        parse("workspace take Chat"),
        Some(Command::Send { name, follow: true }) if name == "Chat"
    ));
    assert!(matches!(parse("workspace forget Chat"), Some(Command::Forget(n)) if n == "Chat"));
    for line in ["workspace", "workspace goto", "workspace drop Chat"] {
        assert!(parse(line).is_none());
    }
}

#[test]
fn keys_are_read_in_order() {
    match parse("keys 37:down 38:up:20 -4:down:x 39:up:1:2") {
        Some(Command::Keys(keys)) => assert_eq!(
            keys,
            vec![
                KeyEvent { keycode: 37, down: true, delay_ms: 0 },
                KeyEvent { keycode: 38, down: false, delay_ms: 20 },
                KeyEvent { keycode: -4, down: true, delay_ms: 0 },
                KeyEvent { keycode: 39, down: false, delay_ms: 1 },
            ]
        ),
        _ => panic!("keys"),
    }
    assert!(matches!(parse("keys"), Some(Command::Keys(keys)) if keys.is_empty()));
    for line in ["keys 37:down x:up", "keys 37", "keys 37:sideways", "keys :down"] {
        assert!(parse(line).is_none());
    }
}

#[test]
fn lists_are_printed_line_by_line() {
    assert_eq!(cli::window_line(&window("a\"b", "t", true)), "*\t\"a\\\"b\"\t\"t\"");
    assert_eq!(cli::window_line(&window("a", "t\n", false)), " \t\"a\"\t\"t\\n\"");
    assert_eq!(cli::focused_line(&Some(window("a", "t", true))), "\"a\"\t\"t\"");
    assert_eq!(cli::focused_line(&None), "(no focused toplevel)");
    let w = Workspace {
        name: "Chat".to_string(),
        id: "7".to_string(),
        active: true,
        ..Workspace::default()
    };
    assert_eq!(cli::workspace_line(&w), "*\t\"Chat\"\t\"7\"");
    assert_eq!(cli::marked_line(false, "x", "y"), " \tx\ty");
}
