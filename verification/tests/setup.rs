use kando_cosmic_helper::doctor;
use kando_cosmic_helper::doctor::Findings;
use kando_cosmic_helper::error::Error;
use kando_cosmic_helper::places;
use kando_cosmic_helper::ron::insert_ron_entry;
use kando_cosmic_helper::setup::{
    ask, confirm, setup, Places, SetupAction, SetupNext, SetupReply, SetupStage, Wizard,
};
use kando_cosmic_helper::shortcut;

const RULE_FILE: &str = "[
    (
        enabled: true,
        appid: \"menu.kando.Kando\",
        title: \"^Kando Menu$\",
    ),
]
";

fn line(t: &str) -> Option<String> {
    Some(t.to_string())
}

fn config() -> Vec<u8> {
    b"/home/kim/.config".to_vec()
}

fn rule_added(existing: &str) -> String {
    shortcut::write_rule(existing, "RULES").unwrap()
}

fn insert(existing: &str, entry: &str) -> Option<String> {
    insert_ron_entry(existing, entry, '[', ']')
}

#[test]
fn the_rule_file_reads_as_documented() {
    assert_eq!(rule_added(""), RULE_FILE);
    assert_eq!(rule_added(" \n"), RULE_FILE);
    assert_eq!(rule_added("[\n]\n"), RULE_FILE);
}

#[test]
fn a_file_that_holds_something_else_is_not_replaced() {
    for text in [
        "garbage",
        "[",
        "]",
        "] [",
        "{}",
        "x[y]z",
        "// see [docs]",
        "// see [docs]\n",
        "/* [a] */",
        "/* /* */ [a]",
        "#![enable(x)]",
        "#[a]",
        "/ [a]",
    ] {
        assert_eq!(insert(text, "b,\n"), None);
        let e = shortcut::write_rule(text, "/etc/rules").unwrap_err();
        assert_eq!(
            e.message(),
            "wayland error: /etc/rules: no closing bracket to add an entry before"
        );
    }
    let e = shortcut::write_shortcut("F5", "m", "[]", "KEYS").unwrap_err();
    assert_eq!(e.message(), "wayland error: KEYS: no closing bracket to add an entry before");
}

#[test]
fn what_stands_before_a_list_is_kept() {
    assert_eq!(
        insert("// mine\n[\n    1,\n]\n", "    2,\n").unwrap(),
        "// mine\n[\n    1,\n    2,\n]\n"
    );
    for start in [
        "// see [docs]\n",
        "/* a ] /* b */ [c] */ ",
        "#![enable(implicit_some)]\n",
        " \n// x\n/* y */#![enable(z)]// w\n",
        "/*/*/**/*/*/",
        "/**/",
    ] {
        assert_eq!(insert(&format!("{start}[a]"), "b,\n").unwrap(), format!("{start}[a,\nb,\n]\n"));
    }
}

#[test]
fn a_written_rule_is_present() {
    assert!(!shortcut::rule_present(&None));
    assert!(!shortcut::rule_present(&line("[\n]\n")));
    assert!(shortcut::rule_present(&Some(rule_added("[\n    (appid: \"x\")\n]"))));
}

#[test]
fn an_entry_goes_before_the_closing_bracket() {
    assert_eq!(insert("[a]", "b,\n").unwrap(), "[a,\nb,\n]\n");
    assert_eq!(insert("  [a,]  \n", "b,\n").unwrap(), "  [a,\nb,\n]\n");
    assert_eq!(insert("[x] y", "b,\n").unwrap(), "[x,\nb,\n]\n");
    assert_eq!(insert_ron_entry("{}", "b,\n", '{', '}').unwrap(), "{\nb,\n}\n");
}

#[test]
fn entries_follow_each_other() {
    let one = insert("[a]", "b,\n").unwrap();
    let two = insert(&one, "c,\n").unwrap();
    assert_eq!(two, insert("[a]", "b,\nc,\n").unwrap());
    assert_eq!(two, "[a,\nb,\nc,\n]\n");
}

#[test]
fn a_shortcut_is_written() {
    let text = shortcut::write_shortcut("Ctrl + Space", "COSMIC Menu", "", "KEYS").unwrap();
    assert_eq!(
        text,
        "{
    (
        modifiers: [
            Ctrl,
        ],
        key: \"space\",
        description: Some(\"Kando: COSMIC Menu\"),
    ): Spawn(\"kando --menu \\\"COSMIC Menu\\\"\"),
}
"
    );
    assert!(shortcut::shortcut_present(&Some(text)));
    assert!(!shortcut::shortcut_present(&line("{}")));
    assert!(!shortcut::shortcut_present(&None));
}

fn keys_of(combo: &str) -> (Vec<String>, String) {
    let text = shortcut::write_shortcut(combo, "m", "", "KEYS").unwrap();
    let mods = text
        .lines()
        .filter(|l| l.starts_with("            "))
        .map(|l| l.trim().trim_end_matches(',').to_string())
        .collect();
    let key = text.lines().find(|l| l.contains("key: ")).unwrap();
    (mods, key.split('"').nth(1).unwrap().to_string())
}

#[test]
fn shortcuts_are_read() {
    let of = |mods: &[&str], key: &str| {
        (mods.iter().map(|m| m.to_string()).collect::<Vec<String>>(), key.to_string())
    };
    assert_eq!(keys_of("Super+Shift+M"), of(&["Super", "Shift"], "m"));
    assert_eq!(keys_of("control+ALT+f12"), of(&["Ctrl", "Alt"], "F12"));
    assert_eq!(keys_of("meta+win+cmd+f"), of(&["Super", "Super", "Super"], "f"));
    assert_eq!(keys_of("F255"), of(&[], "F255"));
    assert_eq!(keys_of("F256"), of(&[], "f256"));
    assert_eq!(keys_of("foo"), of(&[], "foo"));
    assert_eq!(keys_of("a++b"), of(&[], "b"));
    assert_eq!(keys_of("Ä"), of(&[], "Ä"));
}

#[test]
fn a_shortcut_needs_a_key() {
    let e = shortcut::write_shortcut("Ctrl+\"Shift", "m", "", "KEYS");
    assert!(e.is_ok());
    for combo in ["Ctrl+Shift", "", " + "] {
        match shortcut::write_shortcut(combo, "m", "", "KEYS") {
            Err(Error::Wayland(m)) => assert_eq!(m, format!("no key in shortcut {combo:?}")),
            _ => panic!("the shortcut is taken"),
        }
    }
    let shown = shortcut::write_shortcut_shown("Alt", "<Alt>", "m", "", "KEYS");
    assert!(matches!(shown, Err(Error::Wayland(m)) if m == "no key in shortcut <Alt>"));
}

#[test]
fn files_that_cannot_be_written_are_named() {
    let e = shortcut::file_error("/etc/x", "denied");
    assert_eq!(e.message(), "wayland error: /etc/x: denied");
}

#[test]
fn the_configuration_is_where_the_environment_says() {
    let xdg = Some(b"/xdg".to_vec());
    let home = Some(b"/home/kim".to_vec());
    assert_eq!(places::config_home(xdg.clone(), home.clone()), b"/xdg".to_vec());
    assert_eq!(places::config_home(None, home), config());
    assert_eq!(places::config_home(None, Some(b"/".to_vec())), b"/.config".to_vec());
    assert_eq!(places::config_home(None, None), b"".to_vec());
    assert_eq!(places::config_home(Some(b"".to_vec()), None), b"".to_vec());
}

#[test]
fn the_files_are_below_the_configuration() {
    let text = |bytes: Vec<u8>| String::from_utf8(bytes).unwrap();
    assert_eq!(
        text(places::rule_path(&config())),
        "/home/kim/.config/cosmic/com.system76.CosmicSettings.WindowRules/v1/tiling_exception_custom"
    );
    assert_eq!(
        text(places::shortcuts_path(&config())),
        "/home/kim/.config/cosmic/com.system76.CosmicSettings.Shortcuts/v1/custom"
    );
    assert_eq!(
        text(places::names_path(&config())),
        "/home/kim/.config/kando-cosmic-helper/workspaces"
    );
    assert_eq!(text(places::names_path(&b"".to_vec())), "kando-cosmic-helper/workspaces");
}

#[test]
fn programs_are_looked_for_along_the_search_path() {
    let found: Vec<String> = places::on_path(&b"/bin::/usr/bin/".to_vec(), "kando")
        .into_iter()
        .map(|p| String::from_utf8(p).unwrap())
        .collect();
    assert_eq!(found, vec!["/bin/kando", "kando", "/usr/bin/kando"]);
    assert_eq!(places::on_path(&b"".to_vec(), "kando"), vec![b"kando".to_vec()]);
    assert_eq!(places::on_path(&b"/a".to_vec(), "/abs"), vec![b"/abs".to_vec()]);
}

fn all_well() -> Findings {
    let globals = [
        ("zwlr_layer_shell_v1", 1),
        ("ext_foreign_toplevel_list_v1", 1),
        ("zcosmic_toplevel_info_v1", 2),
        ("zcosmic_toplevel_manager_v1", 4),
        ("zwp_virtual_keyboard_manager_v1", 1),
        ("ext_workspace_manager_v1", 1),
        ("zcosmic_workspace_manager_v2", 2),
        ("wp_pointer_warp_v1", 1),
    ];
    Findings {
        desktop: "COSMIC".to_string(),
        globals: Ok(globals.iter().map(|(n, v)| (n.to_string(), *v)).collect()),
        kando: true,
        helper: true,
        rule_file: line(RULE_FILE),
        shortcuts_file: line("kando --menu"),
        rule_path: "~/rules".to_string(),
    }
}

fn report(f: &Findings) -> (Vec<String>, bool) {
    doctor::doctor(&doctor::checks(f))
}

#[test]
fn the_doctor_reports_what_is_there() {
    let (lines, ok) = report(&all_well());
    assert!(ok);
    assert_eq!(
        lines,
        vec![
            "✓ XDG_CURRENT_DESKTOP = \"COSMIC\"",
            "✓ zwlr_layer_shell_v1 (v1+)",
            "✓ ext_foreign_toplevel_list_v1 (v1+)",
            "✓ zcosmic_toplevel_info_v1 (v2+)",
            "✓ zcosmic_toplevel_manager_v1 (v4+)",
            "✓ zwp_virtual_keyboard_manager_v1 (v1+)",
            "✓ ext_workspace_manager_v1 (v1+)",
            "✓ zcosmic_workspace_manager_v2 (v2+)",
            "✓ wp_pointer_warp_v1 (v1+)",
            "✓ kando on $PATH",
            "✓ kando-cosmic-helper on $PATH",
            "✓ floating-window rule in ~/rules",
            "✓ a COSMIC custom shortcut running kando",
        ]
    );
}

#[test]
fn pointer_warping_is_optional() {
    let mut f = all_well();
    f.globals.as_mut().unwrap().pop();
    let (lines, ok) = report(&f);
    assert!(ok);
    assert_eq!(lines[8], "✗ wp_pointer_warp_v1 (v1+)");
    assert_eq!(lines[9], "    optional: pointer warping");
}

#[test]
fn everything_else_is_needed() {
    for i in 0..7 {
        let mut f = all_well();
        f.globals.as_mut().unwrap()[i].1 -= 1;
        assert!(!report(&f).1);
    }
    let broken = [
        Findings { desktop: "GNOME".to_string(), ..all_well() },
        Findings { kando: false, ..all_well() },
        Findings { helper: false, ..all_well() },
        Findings { rule_file: None, ..all_well() },
        Findings { shortcuts_file: line("{}"), ..all_well() },
    ];
    for f in broken {
        assert!(!report(&f).1);
    }
}

#[test]
fn an_unreachable_compositor_is_reported() {
    let f = Findings { globals: Err(Error::Connect("no socket".to_string())), ..all_well() };
    let (lines, ok) = report(&f);
    assert!(!ok);
    assert_eq!(lines[1], "✗ Wayland: cannot connect to Wayland display: no socket");
    assert_eq!(lines[2], "    Run this inside the COSMIC session.");
    let f = Findings { globals: Err(Error::Timeout(20)), desktop: String::new(), ..all_well() };
    let (lines, _) = report(&f);
    assert_eq!(lines[0], "✗ XDG_CURRENT_DESKTOP = \"\"");
    assert_eq!(lines[2], "✗ Wayland: no pointer enter event within 20ms");
}

#[test]
fn answers_are_read() {
    assert_eq!(ask(&line("  x y \n"), "d").unwrap(), "x y");
    assert_eq!(ask(&line(" \n"), "d").unwrap(), "d");
    match ask(&None, "d") {
        Err(Error::Wayland(m)) => assert_eq!(m, "stdin closed; setup aborted"),
        _ => panic!("a closed input is an answer"),
    }
    for (text, default_yes, yes) in [
        ("Y\n", false, true),
        ("yes", false, true),
        ("No\n", true, false),
        ("n", true, false),
        ("\n", true, true),
        ("\n", false, false),
        ("maybe", true, true),
        ("maybe", false, false),
    ] {
        assert_eq!(confirm(&line(text), default_yes).unwrap(), yes);
    }
    assert!(confirm(&None, true).is_err());
}

fn shown() -> Places {
    Places { rule: "RULES".to_string(), shortcuts: "KEYS".to_string() }
}

/// Runs the wizard on answers; returns what it printed and did, and how it ended.
fn run(rule: bool, answers: &[&str], failing: &[&str]) -> (Vec<String>, Result<(), String>) {
    let mut wizard = Wizard::new();
    let mut reply = SetupReply::Done;
    let mut seen: Vec<String> = Vec::new();
    let mut next = answers.iter();
    loop {
        let step = setup(&mut wizard, reply, &shown());
        seen.extend(step.say);
        let done = match step.next {
            SetupNext::Finish(outcome) => return (seen, outcome.map_err(|e| e.message())),
            SetupNext::Ask(SetupAction::Doctor) => "doctor".to_string(),
            SetupNext::Ask(SetupAction::CheckRule) => {
                reply = SetupReply::Rule(rule);
                continue;
            }
            SetupNext::Ask(SetupAction::Prompt(t)) => {
                seen.push(t);
                reply = SetupReply::Line(next.next().map(|a| a.to_string()));
                continue;
            }
            SetupNext::Ask(SetupAction::WriteRule) => "rule".to_string(),
            SetupNext::Ask(SetupAction::WriteShortcut { combo, menu }) => {
                format!("shortcut {combo} {menu}")
            }
            SetupNext::Ask(SetupAction::MakeWorkspace(name)) => format!("make {name}"),
        };
        reply = if failing.contains(&done.as_str()) {
            SetupReply::Failed(Error::NoOutputs)
        } else {
            SetupReply::Done
        };
        seen.push(done);
    }
}

const CLOSING: [&str; 6] = [
    "",
    "Done. Next:",
    "  - (re)start Kando; it spawns kando-cosmic-helper itself",
    "  - press the shortcut, or run: kando --menu \"COSMIC Menu\"",
    "  - mouse buttons: divert one in Solaar and add a rule executing the same command",
    "  - re-check any time with: kando-cosmic-helper doctor",
];

#[test]
fn the_wizard_does_what_is_confirmed() {
    let (seen, outcome) =
        run(false, &["\n", "y", "\n", "Super+m", "yes", "A, b ,,"], &["make b"]);
    assert!(outcome.is_ok());
    let mut expected = vec![
        "Kando COSMIC integration setup",
        "",
        "doctor",
        "",
        "Add the floating-window rule for Kando's menu? [Y/n]: ",
        "rule",
        "  wrote RULES",
        "Add a COSMIC keyboard shortcut that opens a Kando menu? [Y/n]: ",
        "  Menu name [COSMIC Menu]: ",
        "  Shortcut (e.g. Ctrl+Space, Super+m) [Ctrl+Space]: ",
        "shortcut Super+m COSMIC Menu",
        "  wrote KEYS (COSMIC reloads it immediately)",
        "Create named workspaces for the example menu? [Y/n]: ",
        "  Names, comma separated [Coding, Browsing, Files, Chat, Media]: ",
        "make A",
        "  workspace \"A\" ready",
        "make b",
        "  workspace \"b\": compositor reported no outputs",
    ];
    expected.extend(CLOSING);
    assert_eq!(seen, expected);
}

#[test]
fn the_wizard_does_nothing_that_is_declined() {
    let (seen, outcome) = run(true, &["n", "no"], &[]);
    assert!(outcome.is_ok());
    let mut expected = vec![
        "Kando COSMIC integration setup",
        "",
        "doctor",
        "",
        "Add a COSMIC keyboard shortcut that opens a Kando menu? [Y/n]: ",
        "Create named workspaces for the example menu? [Y/n]: ",
    ];
    expected.extend(CLOSING);
    assert_eq!(seen, expected);
    let (seen, _) = run(false, &["n", "n", "n"], &[]);
    assert!(!seen.contains(&"rule".to_string()));
}

#[test]
fn the_wizard_makes_the_default_workspaces() {
    let (seen, _) = run(true, &["n", "", ""], &[]);
    let made: Vec<&String> = seen.iter().filter(|s| s.starts_with("make ")).collect();
    assert_eq!(made, vec!["make Coding", "make Browsing", "make Files", "make Chat", "make Media"]);
}

#[test]
fn a_closed_input_aborts_the_wizard() {
    let all = ["y", "y", "menu", "F5", "y", "a"];
    for n in 0..all.len() {
        let (seen, outcome) = run(false, &all[..n], &[]);
        assert_eq!(outcome, Err("wayland error: stdin closed; setup aborted".to_string()));
        assert_eq!(seen.last().unwrap(), "");
    }
}

#[test]
fn the_wizard_ends_where_writing_fails() {
    let (_, outcome) = run(false, &["y"], &["rule"]);
    assert_eq!(outcome, Err("compositor reported no outputs".to_string()));
    let (_, outcome) = run(true, &["y", "m", "F5"], &["shortcut F5 m"]);
    assert_eq!(outcome, Err("compositor reported no outputs".to_string()));
    let wizard = Wizard::new();
    assert_eq!(wizard.stage, SetupStage::Start);
}
