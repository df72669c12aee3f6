//! Checking whether everything that the helper needs is there.

pub use crate::error::{Error, ErrorView};
use crate::error;
use crate::keyboard;
use crate::number;
use crate::pointer;
use crate::session;
use crate::shortcut;
use crate::text;
use vstd::prelude::*;

verus! {

/// What was found out about the session.
pub struct Findings {
    /// The name of the desktop; empty if the environment has none.
    pub desktop: String,
    /// The interfaces that the compositor offers, with their versions.
    pub globals: Result<Vec<(String, u32)>, Error>,
    /// Whether `kando` is on the search path.
    pub kando: bool,
    /// Whether `kando-cosmic-helper` is on the search path.
    pub helper: bool,
    /// The file of tiling exceptions, if it can be read.
    pub rule_file: Option<String>,
    /// The file of shortcuts, if it can be read.
    pub shortcuts_file: Option<String>,
    /// How the path of the file of tiling exceptions is shown.
    pub rule_path: String,
}

/// One thing that was checked.
pub struct Check {
    pub ok: bool,
    pub label: String,
    /// What it is needed for, or what to do about it.
    pub hint: &'static str,
}

/// What a `Check` says.
#[verifier::ext_equal]
pub struct CheckView {
    pub ok: bool,
    pub label: Seq<char>,
    pub hint: Seq<char>,
}

impl View for Check {
    type V = CheckView;

    open spec fn view(&self) -> CheckView {
        CheckView { ok: self.ok, label: self.label@, hint: self.hint@ }
    }
}

/// What a list of checks says.
pub open spec fn check_views(checks: Seq<Check>) -> Seq<CheckView> {
    checks.map_values(|c: Check| c@)
}

/// An interface that is needed: its name, its least version, and what it is needed for.
pub type Need = (Seq<char>, u32, Seq<char>);

/// The interfaces that are needed.
pub open spec fn needs() -> Seq<Need> {
    seq![
        ("zwlr_layer_shell_v1"@, 1, "needed for the pointer position"@),
        ("ext_foreign_toplevel_list_v1"@, 1, "needed for the window list"@),
        ("zcosmic_toplevel_info_v1"@, 2, "needed for the focused window"@),
        ("zcosmic_toplevel_manager_v1"@, 4, "needed for window actions and workspaces"@),
        ("zwp_virtual_keyboard_manager_v1"@, 1, "needed for key simulation"@),
        ("ext_workspace_manager_v1"@, 1, "needed for named workspaces"@),
        ("zcosmic_workspace_manager_v2"@, 2, "needed for pinning workspaces"@),
        ("wp_pointer_warp_v1"@, 1, "optional: pointer warping"@),
    ]
}

/// Whether an interface is offered in at least a version.
pub open spec fn offered(globals: Seq<(String, u32)>, name: Seq<char>, least: u32) -> bool {
    exists|i: int|
        0 <= i < globals.len() && (#[trigger] globals[i]).0@ == name && globals[i].1 >= least
}

/// The check for an interface.
pub open spec fn interface_check(globals: Seq<(String, u32)>, need: Need) -> CheckView {
    CheckView {
        ok: offered(globals, need.0, need.1),
        label: need.0 + " (v"@ + number::decimal(need.1 as nat) + "+)"@,
        hint: need.2,
    }
}

/// The checks for the compositor; `trouble` is the message of the error if it cannot be
/// reached.
pub open spec fn compositor_checks(
    globals: Result<Vec<(String, u32)>, Error>,
    trouble: Seq<char>,
) -> Seq<CheckView> {
    match globals {
        Ok(globals) => needs().map_values(|n: Need| interface_check(globals@, n)),
        Err(_) => seq![
            CheckView {
                ok: false,
                label: "Wayland: "@ + trouble,
                hint: "Run this inside the COSMIC session."@,
            },
        ],
    }
}

/// The check for the desktop; `shown` is its name between quotes.
pub open spec fn desktop_check(desktop: Seq<char>, shown: Seq<char>) -> CheckView {
    CheckView {
        ok: text::same_letters(desktop, "cosmic"@),
        label: "XDG_CURRENT_DESKTOP = "@ + shown,
        hint: "Kando selects the COSMIC backend only when this is \"COSMIC\"."@,
    }
}

/// The checks for the programs and the configuration files.
pub open spec fn installation_checks(f: Findings) -> Seq<CheckView> {
    seq![
        CheckView {
            ok: f.kando,
            label: "kando on $PATH"@,
            hint: "Install Kando (deb, AppImage, ...); the Flatpak has no COSMIC backend yet."@,
        },
        CheckView {
            ok: f.helper,
            label: "kando-cosmic-helper on $PATH"@,
            hint: "Run `make install`."@,
        },
        CheckView {
            ok: shortcut::has_rule(shortcut::text_view(f.rule_file)),
            label: "floating-window rule in "@ + f.rule_path@,
            hint: "Without it cosmic-comp tiles the menu window. `setup` or `make rule` adds it."@,
        },
        CheckView {
            ok: shortcut::has_shortcut(shortcut::text_view(f.shortcuts_file)),
            label: "a COSMIC custom shortcut running kando"@,
            hint: "COSMIC has no GlobalShortcuts portal; `setup` adds one."@,
        },
    ]
}

/// All the checks.
pub open spec fn all_checks(f: Findings, shown: Seq<char>, trouble: Seq<char>) -> Seq<CheckView> {
    seq![desktop_check(f.desktop@, shown)] + compositor_checks(f.globals, trouble)
        + installation_checks(f)
}

fn has(globals: &Vec<(String, u32)>, name: &str, least: u32) -> (r: bool)
    ensures
        r == offered(globals@, name@, least),
{
    let mut i: usize = 0;
    while i < globals.len()
        invariant
            i <= globals@.len(),
            forall|j: int|
                0 <= j < i ==> !((#[trigger] globals@[j]).0@ == name@ && globals@[j].1 >= least),
        decreases globals@.len() - i,
    {
        if text::same(&globals[i].0, name) && globals[i].1 >= least {
            return true;
        }
        i += 1;
    }
    false
}

fn check_interface(
    globals: &Vec<(String, u32)>,
    name: &'static str,
    least: u32,
    hint: &'static str,
) -> (r: Check)
    ensures
        r@ == interface_check(globals@, (name@, least, hint@)),
{
    let mut label = name.to_owned();
    label.append(" (v");
    label.append(&number::unsigned_text(least as u64));
    label.append("+)");
    Check { ok: has(globals, name, least), label, hint }
}

fn check_compositor(globals: &Result<Vec<(String, u32)>, Error>, trouble: &str) -> (r: Vec<Check>)
    ensures
        check_views(r@) == compositor_checks(*globals, trouble@),
{
    let mut r: Vec<Check> = Vec::new();
    match globals {
        Ok(g) => {
            r.push(check_interface(g, "zwlr_layer_shell_v1", 1, "needed for the pointer position"));
            r.push(
                check_interface(
                    g,
                    "ext_foreign_toplevel_list_v1",
                    1,
                    "needed for the window list",
                ),
            );
            r.push(
                check_interface(
                    g,
                    "zcosmic_toplevel_info_v1",
                    2,
                    "needed for the focused window",
                ),
            );
            r.push(
                check_interface(
                    g,
                    "zcosmic_toplevel_manager_v1",
                    4,
                    "needed for window actions and workspaces",
                ),
            );
            r.push(
                check_interface(
                    g,
                    "zwp_virtual_keyboard_manager_v1",
                    1,
                    "needed for key simulation",
                ),
            );
            r.push(
                check_interface(g, "ext_workspace_manager_v1", 1, "needed for named workspaces"),
            );
            r.push(
                check_interface(
                    g,
                    "zcosmic_workspace_manager_v2",
                    2,
                    "needed for pinning workspaces",
                ),
            );
            r.push(check_interface(g, "wp_pointer_warp_v1", 1, "optional: pointer warping"));
        },
        Err(_) => {
            r.push(
                Check {
                    ok: false,
                    label: error::joined("Wayland: ", trouble),
                    hint: "Run this inside the COSMIC session.",
                },
            );
        },
    }
    assert(check_views(r@) =~= compositor_checks(*globals, trouble@));
    r
}

/// The checks, given how the name of the desktop is shown and the message of the error if the
/// compositor cannot be reached.
pub fn checks_shown(f: &Findings, shown: &str, trouble: &str) -> (r: Vec<Check>)
    ensures
        check_views(r@) == all_checks(*f, shown@, trouble@),
{
    let mut r: Vec<Check> = Vec::new();
    r.push(
        Check {
            ok: text::eq_ignore_ascii_case(&f.desktop, "cosmic"),
            label: error::joined("XDG_CURRENT_DESKTOP = ", shown),
            hint: "Kando selects the COSMIC backend only when this is \"COSMIC\".",
        },
    );
    let ghost first = check_views(r@);
    assert(first =~= seq![desktop_check(f.desktop@, shown@)]);
    let mut compositor = check_compositor(&f.globals, trouble);
    let ghost second = check_views(compositor@);
    r.append(&mut compositor);
    assert(check_views(r@) =~= first + second);
    r.push(
        Check {
            ok: f.kando,
            label: "kando on $PATH".to_owned(),
            hint: "Install Kando (deb, AppImage, ...); the Flatpak has no COSMIC backend yet.",
        },
    );
    r.push(
        Check {
            ok: f.helper,
            label: "kando-cosmic-helper on $PATH".to_owned(),
            hint: "Run `make install`.",
        },
    );
    r.push(
        Check {
            ok: shortcut::rule_present(&f.rule_file),
            label: error::joined("floating-window rule in ", &f.rule_path),
            hint: "Without it cosmic-comp tiles the menu window. `setup` or `make rule` adds it.",
        },
    );
    r.push(
        Check {
            ok: shortcut::shortcut_present(&f.shortcuts_file),
            label: "a COSMIC custom shortcut running kando".to_owned(),
            hint: "COSMIC has no GlobalShortcuts portal; `setup` adds one.",
        },
    );
    assert(check_views(r@) =~= first + second + installation_checks(*f));
    r
}

/// The checks.
pub fn checks(f: &Findings) -> (r: Vec<Check>)
    ensures
        check_views(r@) == all_checks(
            *f,
            shortcut::quoted_text(f.desktop@),
            match f.globals {
                Ok(_) => seq![],
                Err(e) => error::full_message(e@),
            },
        ),
{
    let trouble = match &f.globals {
        Ok(_) => String::new(),
        Err(e) => e.message(),
    };
    assert(f.globals is Ok ==> trouble@ =~= seq![]);
    checks_shown(f, &shortcut::quoted(&f.desktop), &trouble)
}

/// The lines for a check: its mark and label, and the hint if it failed.
pub open spec fn check_lines(c: CheckView) -> Seq<Seq<char>> {
    if c.ok {
        seq!["✓ "@ + c.label]
    } else {
        seq!["✗ "@ + c.label, "    "@ + c.hint]
    }
}

/// The lines for a list of checks.
pub open spec fn report_lines(checks: Seq<CheckView>) -> Seq<Seq<char>>
    decreases checks.len(),
{
    if checks.len() == 0 {
        seq![]
    } else {
        report_lines(checks.drop_last()) + check_lines(checks.last())
    }
}

/// Whether everything is there that is not optional.
pub open spec fn is_healthy(checks: Seq<CheckView>) -> bool {
    forall|i: int|
        0 <= i < checks.len() ==> (#[trigger] checks[i]).ok || text::begins_with(
            checks[i].hint,
            "optional"@,
        )
}

/// The lines that report the checks, and whether everything is there that is not optional.
pub fn doctor(checks: &Vec<Check>) -> (r: (Vec<String>, bool))
    ensures
        text::views(r.0@) == report_lines(check_views(checks@)),
        r.1 == is_healthy(check_views(checks@)),
{
    let ghost all = check_views(checks@);
    let mut lines: Vec<String> = Vec::new();
    let mut ok = true;
    let mut i: usize = 0;
    assert(all.take(0) =~= seq![]);
    assert(text::views(lines@) =~= report_lines(all.take(0)));
    while i < checks.len()
        invariant
            i <= checks@.len(),
            all == check_views(checks@),
            text::views(lines@) == report_lines(all.take(i as int)),
            ok == is_healthy(all.take(i as int)),
        decreases checks@.len() - i,
    {
        let c = &checks[i];
        let ghost before = text::views(lines@);
        let ghost healthy = ok;
        proof {
            assert(all.take(i + 1).drop_last() =~= all.take(i as int));
            assert(all.take(i + 1).last() == c@);
        }
        if c.ok {
            lines.push(error::joined("✓ ", &c.label));
        } else {
            lines.push(error::joined("✗ ", &c.label));
            lines.push(error::joined("    ", c.hint));
            ok = ok && text::starts_with(c.hint, "optional");
        }
        assert(text::views(lines@) =~= before + check_lines(c@));
        proof {
            let more = all.take(i + 1);
            let fewer = all.take(i as int);
            assert forall|j: int| 0 <= j < fewer.len() implies more[j] == #[trigger] fewer[j] by {
            }
            assert(more[i as int] == c@);
            if is_healthy(more) {
                assert forall|j: int| 0 <= j < fewer.len() implies (#[trigger] fewer[j]).ok
                    || text::begins_with(fewer[j].hint, "optional"@) by {
                    assert(more[j] == fewer[j]);
                }
            }
            if healthy && (c.ok || text::begins_with(c@.hint, "optional"@)) {
                assert forall|j: int| 0 <= j < more.len() implies (#[trigger] more[j]).ok
                    || text::begins_with(more[j].hint, "optional"@) by {
                    if j < i {
                        assert(more[j] == fewer[j]);
                    }
                }
            }
        }
        i += 1;
    }
    assert(all.take(i as int) =~= all);
    (lines, ok)
}

proof fn lemma_hint_is_needed(hint: Seq<char>)
    requires
        hint.len() > 0,
        hint[0] != 'o',
    ensures
        !text::begins_with(hint, "optional"@),
{
    reveal_strlit("optional");
    if text::begins_with(hint, "optional"@) {
        assert(hint.subrange(0, 8)[0] == hint[0]);
    }
}

proof fn lemma_hints()
    ensures
        forall|i: int|
            0 <= i < 8 ==> (text::begins_with((#[trigger] needs()[i]).2, "optional"@) <==> i == 7),
{
    reveal_strlit("optional");
    reveal_strlit("needed for the pointer position");
    reveal_strlit("needed for the window list");
    reveal_strlit("needed for the focused window");
    reveal_strlit("needed for window actions and workspaces");
    reveal_strlit("needed for key simulation");
    reveal_strlit("needed for named workspaces");
    reveal_strlit("needed for pinning workspaces");
    reveal_strlit("optional: pointer warping");
    assert forall|i: int| 0 <= i < 8 implies (text::begins_with(
        (#[trigger] needs()[i]).2,
        "optional"@,
    ) <==> i == 7) by {
        if i == 7 {
            assert(needs()[7].2.subrange(0, 8) =~= "optional"@);
        } else {
            assert(needs()[i].2[0] == 'n');
            lemma_hint_is_needed(needs()[i].2);
        }
    }
}

/// All is well exactly if the desktop is COSMIC, its compositor can be reached and offers all
/// the interfaces but the one for pointer warping, both programs are there, and both
/// configuration files have their entries.
pub proof fn law_all_but_warping_is_needed(
    f: Findings,
    globals: Vec<(String, u32)>,
    shown: Seq<char>,
    trouble: Seq<char>,
)
    requires
        f.globals is Ok ==> f.globals == Ok::<_, Error>(globals),
    ensures
        is_healthy(all_checks(f, shown, trouble)) <==> {
            &&& text::same_letters(f.desktop@, "cosmic"@)
            &&& f.globals is Ok
            &&& forall|i: int|
                0 <= i < 7 ==> offered(globals@, (#[trigger] needs()[i]).0, needs()[i].1)
            &&& f.kando
            &&& f.helper
            &&& shortcut::has_rule(shortcut::text_view(f.rule_file))
            &&& shortcut::has_shortcut(shortcut::text_view(f.shortcuts_file))
        },
{
    let all = all_checks(f, shown, trouble);
    let middle = compositor_checks(f.globals, trouble);
    let last = installation_checks(f);
    let n = middle.len() as int;
    reveal_strlit("Kando selects the COSMIC backend only when this is \"COSMIC\".");
    reveal_strlit("Run this inside the COSMIC session.");
    reveal_strlit("Install Kando (deb, AppImage, ...); the Flatpak has no COSMIC backend yet.");
    reveal_strlit("Run `make install`.");
    reveal_strlit(
        "Without it cosmic-comp tiles the menu window. `setup` or `make rule` adds it.",
    );
    reveal_strlit("COSMIC has no GlobalShortcuts portal; `setup` adds one.");
    assert(all[0] == desktop_check(f.desktop@, shown));
    lemma_hint_is_needed(all[0].hint);
    assert forall|i: int| 0 <= i < 4 implies all[1 + n + i] == #[trigger] last[i]
        && !text::begins_with(last[i].hint, "optional"@) by {
        lemma_hint_is_needed(last[i].hint);
    }
    assert forall|i: int| 0 <= i < n implies all[1 + i] == #[trigger] middle[i] by {
    }
    lemma_hints();
    if f.globals is Err {
        lemma_hint_is_needed(middle[0].hint);
        assert(!all[1].ok);
    } else {
        assert forall|i: int| 0 <= i < 8 implies #[trigger] middle[i] == interface_check(
            globals@,
            needs()[i],
        ) by {
        }
    }
    let well = {
        &&& text::same_letters(f.desktop@, "cosmic"@)
        &&& f.globals is Ok
        &&& forall|i: int|
            0 <= i < 7 ==> offered(globals@, (#[trigger] needs()[i]).0, needs()[i].1)
        &&& f.kando
        &&& f.helper
        &&& shortcut::has_rule(shortcut::text_view(f.rule_file))
        &&& shortcut::has_shortcut(shortcut::text_view(f.shortcuts_file))
    };
    if is_healthy(all) {
        assert(last[0].ok && last[1].ok && last[2].ok && last[3].ok) by {
            assert(all[1 + n + 0] == last[0]);
            assert(all[1 + n + 1] == last[1]);
            assert(all[1 + n + 2] == last[2]);
            assert(all[1 + n + 3] == last[3]);
        }
        assert forall|i: int| 0 <= i < 7 implies offered(
            globals@,
            (#[trigger] needs()[i]).0,
            needs()[i].1,
        ) by {
            assert(all[1 + i] == middle[i]);
        }
        assert(well);
    }
    if well {
        assert(n == 8);
        assert forall|i: int| 0 <= i < all.len() implies (#[trigger] all[i]).ok
            || text::begins_with(all[i].hint, "optional"@) by {
            if 1 <= i < 9 {
                assert(all[i] == middle[i - 1]);
                if i < 8 {
                    assert(offered(globals@, needs()[i - 1].0, needs()[i - 1].1));
                } else {
                    assert(text::begins_with(needs()[7].2, "optional"@));
                }
            } else if i >= 9 {
                assert(all[i] == last[i - 9]);
            }
        }
    }
}

/// What the doctor asks of the compositor is what the library uses: an interface passes its
/// check in exactly the versions in which it is bound.
pub proof fn law_needs_are_what_is_bound(
    globals: Seq<(String, u32)>,
    i: int,
    version: u32,
    seat: bool,
    keys: keyboard::State,
)
    requires
        version >= 1,
    ensures
        needs().len() == 8,
        pointer::binding(seat, needs()[0].0, version) is Some <==> version >= needs()[0].1,
        session::binding(needs()[1].0, version) is Some <==> version >= needs()[1].1,
        session::binding(needs()[2].0, version) is Some <==> version >= needs()[2].1,
        session::binding(needs()[3].0, version) is Some <==> version >= needs()[3].1,
        keyboard::binding(keys, needs()[4].0, version) is Some <==> version >= needs()[4].1,
        session::binding(needs()[5].0, version) is Some <==> version >= needs()[5].1,
        session::binding(needs()[6].0, version) is Some <==> version >= needs()[6].1,
        pointer::binding(seat, needs()[7].0, version) is Some <==> version >= needs()[7].1,
        0 <= i < globals.len() ==> offered(globals, globals[i].0@, globals[i].1),
        0 <= i < globals.len() && globals[i].1 >= version ==> offered(
            globals,
            globals[i].0@,
            version,
        ),
{
    pointer::law_offered_versions_are_respected(seat, "wl_shm"@, version);
    keyboard::law_offered_versions_are_respected(keys, "wl_seat"@, version);
    session::law_offered_versions_are_respected("wl_output"@, version);
}

/// An interface that no global offers in a version new enough fails its check, whatever else is
/// offered, and the check names the interface and the version.
pub proof fn law_unoffered_interface_fails(globals: Seq<(String, u32)>, need: Need)
    ensures
        interface_check(globals, need).ok ==> exists|i: int|
            0 <= i < globals.len() && (#[trigger] globals[i]).0@ == need.0 && globals[i].1
                >= need.1,
        (forall|i: int|
            0 <= i < globals.len() && (#[trigger] globals[i]).0@ == need.0 ==> globals[i].1
                < need.1) ==> !interface_check(globals, need).ok,
        text::begins_with(interface_check(globals, need).label, need.0),
        text::occurs(number::decimal(need.1 as nat), interface_check(globals, need).label),
        interface_check(globals, need).hint == need.2,
{
    let label = need.0 + " (v"@ + number::decimal(need.1 as nat) + "+)"@;
    assert(label.subrange(0, need.0.len() as int) =~= need.0);
    let before = need.0 + " (v"@;
    let part = number::decimal(need.1 as nat);
    assert(label.subrange(before.len() as int, (before.len() + part.len()) as int) =~= part);
    assert(text::occurs_at(part, label, before.len() as int));
}

/// The report tells of each check in its turn: of one that passed in one line, of one that
/// failed in two, the second with what to do. All is well with one more check exactly if all
/// was well before it and it passed or is optional.
pub proof fn law_checks_are_reported_in_turn(checks: Seq<CheckView>, c: CheckView)
    ensures
        report_lines(seq![]).len() == 0,
        c.ok ==> report_lines(checks.push(c)) == report_lines(checks).push("✓ "@ + c.label),
        !c.ok ==> report_lines(checks.push(c)) == report_lines(checks).push("✗ "@ + c.label).push(
            "    "@ + c.hint,
        ),
        is_healthy(seq![]),
        c.ok ==> (is_healthy(checks.push(c)) <==> is_healthy(checks)),
        !c.ok && text::begins_with(c.hint, "optional"@) ==> (is_healthy(checks.push(c))
            <==> is_healthy(checks)),
        !c.ok && !text::begins_with(c.hint, "optional"@) ==> !is_healthy(checks.push(c)),
{
    let more = checks.push(c);
    assert(more.drop_last() =~= checks);
    assert(report_lines(more) =~= report_lines(checks) + check_lines(c));
    assert(more[checks.len() as int] == c);
    assert(forall|i: int| 0 <= i < checks.len() ==> more[i] == checks[i]);
    if is_healthy(more) {
        assert forall|i: int| 0 <= i < checks.len() implies (#[trigger] checks[i]).ok
            || text::begins_with(checks[i].hint, "optional"@) by {
            assert(more[i] == checks[i]);
        }
    }
}

/// The checks come in a fixed order: the desktop, the compositor, the programs and the files.
/// Each passes by what was found of it and by nothing else; a compositor that cannot be reached
/// is one failed check, which tells the trouble.
pub proof fn law_checks_tell_what_was_found(
    f: Findings,
    globals: Vec<(String, u32)>,
    shown: Seq<char>,
    trouble: Seq<char>,
    i: int,
)
    requires
        f.globals is Ok ==> f.globals == Ok::<_, Error>(globals),
    ensures
        ({
            let all = all_checks(f, shown, trouble);
            let n: int = if f.globals is Ok { 8 } else { 1 };
            &&& all.len() == n + 5
            &&& all[0].ok <==> text::same_letters(f.desktop@, "cosmic"@)
            &&& all[0].label == "XDG_CURRENT_DESKTOP = "@ + shown
            &&& f.globals is Ok && 0 <= i < 8 ==> all[1 + i] == interface_check(
                globals@,
                needs()[i],
            )
            &&& f.globals is Err ==> !all[1].ok && all[1].label == "Wayland: "@ + trouble
            &&& all[1 + n].ok <==> f.kando
            &&& all[2 + n].ok <==> f.helper
            &&& all[3 + n].ok <==> shortcut::has_rule(shortcut::text_view(f.rule_file))
            &&& all[4 + n].ok <==> shortcut::has_shortcut(shortcut::text_view(f.shortcuts_file))
            &&& all[3 + n].label == "floating-window rule in "@ + f.rule_path@
        }),
{
    let middle = compositor_checks(f.globals, trouble);
    if f.globals is Ok {
        assert(middle.len() == 8);
        assert(0 <= i < 8 ==> middle[i] == interface_check(globals@, needs()[i]));
    }
}

} // verus!
