//! The wizard for first-time configuration.
//!
//! It is a machine: it takes the reply to its last action, and gives lines to print and the
//! next action.

pub use crate::error::{Error, ErrorView};
use crate::error;
use crate::shortcut;
use crate::text;
use vstd::prelude::*;

verus! {

/// How the paths of the files that the wizard writes are shown.
pub struct Places {
    pub rule: String,
    pub shortcuts: String,
}

/// What came of an action.
pub enum SetupReply {
    Done,
    Failed(Error),
    /// The line that was read; nothing if the input is closed.
    Line(Option<String>),
    /// Whether the floating-window rule is there.
    Rule(bool),
}

/// What a `SetupReply` says.
#[verifier::ext_equal]
pub enum SetupReplyView {
    Done,
    Failed(ErrorView),
    Line(Option<Seq<char>>),
    Rule(bool),
}

impl View for SetupReply {
    type V = SetupReplyView;

    open spec fn view(&self) -> SetupReplyView {
        match self {
            SetupReply::Done => SetupReplyView::Done,
            SetupReply::Failed(e) => SetupReplyView::Failed(e@),
            SetupReply::Line(line) => SetupReplyView::Line(shortcut::text_view(*line)),
            SetupReply::Rule(present) => SetupReplyView::Rule(*present),
        }
    }
}

/// What the wizard needs done.
pub enum SetupAction {
    /// Run the checks and print their report.
    Doctor,
    /// Find out whether the floating-window rule is there.
    CheckRule,
    /// Print a prompt and read a line.
    Prompt(String),
    /// Add the floating-window rule to its file.
    WriteRule,
    /// Add a shortcut that opens a menu to its file.
    WriteShortcut { combo: String, menu: String },
    /// Make sure of the workspace with a name.
    MakeWorkspace(String),
}

/// What a `SetupAction` says.
#[verifier::ext_equal]
pub enum SetupActionView {
    Doctor,
    CheckRule,
    Prompt(Seq<char>),
    WriteRule,
    WriteShortcut { combo: Seq<char>, menu: Seq<char> },
    MakeWorkspace(Seq<char>),
}

impl View for SetupAction {
    type V = SetupActionView;

    open spec fn view(&self) -> SetupActionView {
        match self {
            SetupAction::Doctor => SetupActionView::Doctor,
            SetupAction::CheckRule => SetupActionView::CheckRule,
            SetupAction::Prompt(t) => SetupActionView::Prompt(t@),
            SetupAction::WriteRule => SetupActionView::WriteRule,
            SetupAction::WriteShortcut { combo, menu } => SetupActionView::WriteShortcut {
                combo: combo@,
                menu: menu@,
            },
            SetupAction::MakeWorkspace(name) => SetupActionView::MakeWorkspace(name@),
        }
    }
}

/// What the wizard is waiting for.
#[derive(Debug, Clone, Copy, PartialEq, Eq, Structural)]
pub enum SetupStage {
    Start,
    Examined,
    RuleChecked,
    RuleConfirm,
    RuleWritten,
    ShortcutConfirm,
    Menu,
    Combo,
    ShortcutWritten,
    WorkspacesConfirm,
    Names,
    /// The workspace with this index among the names is being made.
    Making(usize),
}

/// The wizard: what it is waiting for, and what it has been told.
pub struct Wizard {
    pub stage: SetupStage,
    pub menu: String,
    pub names: Vec<String>,
}

/// What a `Wizard` holds.
#[verifier::ext_equal]
pub struct WizardView {
    pub stage: SetupStage,
    pub menu: Seq<char>,
    pub names: Seq<Seq<char>>,
}

impl View for Wizard {
    type V = WizardView;

    open spec fn view(&self) -> WizardView {
        WizardView { stage: self.stage, menu: self.menu@, names: text::views(self.names@) }
    }
}

/// How the wizard goes on: lines to print, and then an action or the end.
pub struct SetupStep {
    pub say: Vec<String>,
    pub next: SetupNext,
}

/// An action, or the end.
pub enum SetupNext {
    Ask(SetupAction),
    Finish(Result<(), Error>),
}

/// What a `SetupStep` says.
#[verifier::ext_equal]
pub struct SetupStepView {
    pub say: Seq<Seq<char>>,
    pub next: SetupNextView,
}

/// What a `SetupNext` says.
#[verifier::ext_equal]
pub enum SetupNextView {
    Ask(SetupActionView),
    Finish(Result<(), ErrorView>),
}

impl View for SetupNext {
    type V = SetupNextView;

    open spec fn view(&self) -> SetupNextView {
        match self {
            SetupNext::Ask(action) => SetupNextView::Ask(action@),
            SetupNext::Finish(Ok(_)) => SetupNextView::Finish(Ok(())),
            SetupNext::Finish(Err(e)) => SetupNextView::Finish(Err(e@)),
        }
    }
}

impl View for SetupStep {
    type V = SetupStepView;

    open spec fn view(&self) -> SetupStepView {
        SetupStepView { say: text::views(self.say@), next: self.next@ }
    }
}

/// What was answered to a prompt: an empty line takes the default, and a closed input aborts
/// the wizard.
pub open spec fn answer(line: Option<Seq<char>>, default: Seq<char>) -> Result<
    Seq<char>,
    ErrorView,
> {
    match line {
        Some(t) => if text::trim(t).len() == 0 {
            Ok(default)
        } else {
            Ok(text::trim(t))
        },
        None => Err(ErrorView::Wayland("stdin closed; setup aborted"@)),
    }
}

/// What was answered to a question; what is neither yes nor no takes the default.
pub open spec fn yes_or_no(line: Option<Seq<char>>, default_yes: bool) -> Result<bool, ErrorView> {
    match answer(line, default_choice(default_yes)) {
        Ok(a) => {
            let a = text::lowercase(a);
            if a == "y"@ || a == "yes"@ {
                Ok(true)
            } else if a == "n"@ || a == "no"@ {
                Ok(false)
            } else {
                Ok(default_yes)
            }
        },
        Err(e) => Err(e),
    }
}

/// How the default of a question is shown.
pub open spec fn default_choice(default_yes: bool) -> Seq<char> {
    if default_yes {
        "Y/n"@
    } else {
        "y/N"@
    }
}

/// A prompt with its default.
pub open spec fn prompt(question: Seq<char>, default: Seq<char>) -> Seq<char> {
    question + " ["@ + default + "]: "@
}

/// The line that is answered to a prompt; a reply that brings none is a closed input.
pub open spec fn line_in(reply: SetupReplyView) -> Option<Seq<char>> {
    match reply {
        SetupReplyView::Line(line) => line,
        _ => None,
    }
}

/// The line that reports the making of a workspace; `shown` is its name between quotes, and
/// `trouble` the message if it failed.
pub open spec fn workspace_line(shown: Seq<char>, trouble: Option<Seq<char>>) -> Seq<char> {
    match trouble {
        None => "  workspace "@ + shown + " ready"@,
        Some(message) => "  workspace "@ + shown + ": "@ + message,
    }
}

/// The last lines.
pub open spec fn closing_lines() -> Seq<Seq<char>> {
    seq![
        ""@,
        "Done. Next:"@,
        "  - (re)start Kando; it spawns kando-cosmic-helper itself"@,
        "  - press the shortcut, or run: kando --menu \"COSMIC Menu\""@,
        "  - mouse buttons: divert one in Solaar and add a rule executing the same command"@,
        "  - re-check any time with: kando-cosmic-helper doctor"@,
    ]
}

/// The prompt that is waited for at a stage.
pub open spec fn stage_prompt(stage: SetupStage) -> Seq<char> {
    match stage {
        SetupStage::RuleConfirm => prompt(
            "Add the floating-window rule for Kando's menu?"@,
            "Y/n"@,
        ),
        SetupStage::ShortcutConfirm => prompt(
            "Add a COSMIC keyboard shortcut that opens a Kando menu?"@,
            "Y/n"@,
        ),
        SetupStage::Menu => prompt("  Menu name"@, "COSMIC Menu"@),
        SetupStage::Combo => prompt("  Shortcut (e.g. Ctrl+Space, Super+m)"@, "Ctrl+Space"@),
        SetupStage::WorkspacesConfirm => prompt(
            "Create named workspaces for the example menu?"@,
            "Y/n"@,
        ),
        _ => prompt("  Names, comma separated"@, "Coding, Browsing, Files, Chat, Media"@),
    }
}

/// The wizard prompts for what a stage waits for.
pub open spec fn prompting(w: WizardView, say: Seq<Seq<char>>, stage: SetupStage) -> (
    WizardView,
    SetupStepView,
) {
    (
        WizardView { stage, ..w },
        SetupStepView { say, next: SetupNextView::Ask(SetupActionView::Prompt(stage_prompt(stage))) },
    )
}

/// The wizard asks for an action and waits at a stage.
pub open spec fn acting(
    w: WizardView,
    say: Seq<Seq<char>>,
    stage: SetupStage,
    action: SetupActionView,
) -> (WizardView, SetupStepView) {
    (WizardView { stage, ..w }, SetupStepView { say, next: SetupNextView::Ask(action) })
}

/// The wizard ends.
pub open spec fn ending(
    w: WizardView,
    say: Seq<Seq<char>>,
    outcome: Result<(), ErrorView>,
) -> (WizardView, SetupStepView) {
    (w, SetupStepView { say, next: SetupNextView::Finish(outcome) })
}

/// The wizard makes the workspace with an index, or ends behind the last.
pub open spec fn making(w: WizardView, say: Seq<Seq<char>>, i: int) -> (WizardView, SetupStepView) {
    if i < w.names.len() {
        acting(
            w,
            say,
            SetupStage::Making(i as usize),
            SetupActionView::MakeWorkspace(w.names[i]),
        )
    } else {
        ending(w, say + closing_lines(), Ok(()))
    }
}

/// How the wizard goes on.
pub open spec fn setup_step(
    w: WizardView,
    reply: SetupReplyView,
    rule: Seq<char>,
    shortcuts: Seq<char>,
) -> (WizardView, SetupStepView) {
    let aborted = |e: ErrorView| ending(w, seq![seq![]], Err(e));
    let yes = yes_or_no(line_in(reply), true);
    match w.stage {
        SetupStage::Start => acting(
            w,
            seq!["Kando COSMIC integration setup"@, ""@],
            SetupStage::Examined,
            SetupActionView::Doctor,
        ),
        SetupStage::Examined => acting(
            w,
            seq![""@],
            SetupStage::RuleChecked,
            SetupActionView::CheckRule,
        ),
        SetupStage::RuleChecked => if reply == SetupReplyView::Rule(true) {
            prompting(w, seq![], SetupStage::ShortcutConfirm)
        } else {
            prompting(w, seq![], SetupStage::RuleConfirm)
        },
        SetupStage::RuleConfirm => match yes {
            Ok(true) => acting(w, seq![], SetupStage::RuleWritten, SetupActionView::WriteRule),
            Ok(false) => prompting(w, seq![], SetupStage::ShortcutConfirm),
            Err(e) => aborted(e),
        },
        SetupStage::RuleWritten => match reply {
            SetupReplyView::Failed(e) => ending(w, seq![], Err(e)),
            _ => prompting(w, seq!["  wrote "@ + rule], SetupStage::ShortcutConfirm),
        },
        SetupStage::ShortcutConfirm => match yes {
            Ok(true) => prompting(w, seq![], SetupStage::Menu),
            Ok(false) => prompting(w, seq![], SetupStage::WorkspacesConfirm),
            Err(e) => aborted(e),
        },
        SetupStage::Menu => match answer(line_in(reply), "COSMIC Menu"@) {
            Ok(menu) => prompting(WizardView { menu, ..w }, seq![], SetupStage::Combo),
            Err(e) => aborted(e),
        },
        SetupStage::Combo => match answer(line_in(reply), "Ctrl+Space"@) {
            Ok(combo) => acting(
                w,
                seq![],
                SetupStage::ShortcutWritten,
                SetupActionView::WriteShortcut { combo, menu: w.menu },
            ),
            Err(e) => aborted(e),
        },
        SetupStage::ShortcutWritten => match reply {
            SetupReplyView::Failed(e) => ending(w, seq![], Err(e)),
            _ => prompting(
                w,
                seq!["  wrote "@ + shortcuts + " (COSMIC reloads it immediately)"@],
                SetupStage::WorkspacesConfirm,
            ),
        },
        SetupStage::WorkspacesConfirm => match yes {
            Ok(true) => prompting(w, seq![], SetupStage::Names),
            Ok(false) => ending(w, closing_lines(), Ok(())),
            Err(e) => aborted(e),
        },
        SetupStage::Names => match answer(
            line_in(reply),
            "Coding, Browsing, Files, Chat, Media"@,
        ) {
            Ok(names) => making(
                WizardView { names: text::pieces(names, ','), ..w },
                seq![],
                0,
            ),
            Err(e) => aborted(e),
        },
        SetupStage::Making(i) => if i < w.names.len() {
            making(
                w,
                seq![
                    workspace_line(
                        shortcut::quoted_text(w.names[i as int]),
                        match reply {
                            SetupReplyView::Failed(e) => Some(error::full_message(e)),
                            _ => None,
                        },
                    ),
                ],
                i + 1,
            )
        } else {
            making(w, seq![], i as int)
        },
    }
}

/// What was answered to a prompt.
pub fn ask(line: &Option<String>, default: &str) -> (r: Result<String, Error>)
    ensures
        match r {
            Ok(t) => answer(shortcut::text_view(*line), default@) == Ok::<_, ErrorView>(t@),
            Err(e) => answer(shortcut::text_view(*line), default@) == Err::<Seq<char>, _>(e@),
        },
{
    match line {
        Some(t) => {
            let t = text::trimmed(t);
            if t.as_str().is_empty() {
                Ok(default.to_owned())
            } else {
                Ok(t)
            }
        },
        None => Err(Error::Wayland("stdin closed; setup aborted".to_owned())),
    }
}

/// What was answered to a question.
pub fn confirm(line: &Option<String>, default_yes: bool) -> (r: Result<bool, Error>)
    ensures
        match r {
            Ok(b) => yes_or_no(shortcut::text_view(*line), default_yes) == Ok::<_, ErrorView>(b),
            Err(e) => yes_or_no(shortcut::text_view(*line), default_yes) == Err::<bool, _>(e@),
        },
{
    let choice = if default_yes {
        "Y/n"
    } else {
        "y/N"
    };
    match ask(line, choice) {
        Ok(a) => {
            let a = text::to_ascii_lowercase(&a);
            if text::same(&a, "y") || text::same(&a, "yes") {
                Ok(true)
            } else if text::same(&a, "n") || text::same(&a, "no") {
                Ok(false)
            } else {
                Ok(default_yes)
            }
        },
        Err(e) => Err(e),
    }
}

/// A prompt with its default.
pub fn prompt_text(question: &str, default: &str) -> (r: String)
    ensures
        r@ == prompt(question@, default@),
{
    let mut r = question.to_owned();
    r.append(" [");
    r.append(default);
    r.append("]: ");
    r
}

/// The line that reports the making of a workspace, given its name between quotes and the
/// message if it failed.
pub fn workspace_report(shown: &str, trouble: &Option<String>) -> (r: String)
    ensures
        r@ == workspace_line(shown@, shortcut::text_view(*trouble)),
{
    let mut r = "  workspace ".to_owned();
    r.append(shown);
    match trouble {
        None => r.append(" ready"),
        Some(message) => {
            r.append(": ");
            r.append(message);
        },
    }
    r
}

fn prompt_at(stage: SetupStage) -> (r: SetupNext)
    ensures
        r@ == SetupNextView::Ask(SetupActionView::Prompt(stage_prompt(stage))),
{
    let t = match stage {
        SetupStage::RuleConfirm => prompt_text(
            "Add the floating-window rule for Kando's menu?",
            "Y/n",
        ),
        SetupStage::ShortcutConfirm => prompt_text(
            "Add a COSMIC keyboard shortcut that opens a Kando menu?",
            "Y/n",
        ),
        SetupStage::Menu => prompt_text("  Menu name", "COSMIC Menu"),
        SetupStage::Combo => prompt_text("  Shortcut (e.g. Ctrl+Space, Super+m)", "Ctrl+Space"),
        SetupStage::WorkspacesConfirm => prompt_text(
            "Create named workspaces for the example menu?",
            "Y/n",
        ),
        _ => prompt_text("  Names, comma separated", "Coding, Browsing, Files, Chat, Media"),
    };
    SetupNext::Ask(SetupAction::Prompt(t))
}

fn line_of(reply: SetupReply) -> (r: Option<String>)
    ensures
        shortcut::text_view(r) == line_in(reply@),
{
    match reply {
        SetupReply::Line(line) => line,
        _ => None,
    }
}

fn failure_of(reply: SetupReply) -> (r: Option<Error>)
    ensures
        match r {
            Some(e) => reply@ == SetupReplyView::Failed(e@),
            None => !(reply@ is Failed),
        },
{
    match reply {
        SetupReply::Failed(e) => Some(e),
        _ => None,
    }
}

fn no_lines() -> (r: Vec<String>)
    ensures
        text::views(r@) == Seq::<Seq<char>>::empty(),
{
    let r: Vec<String> = Vec::new();
    assert(text::views(r@) =~= seq![]);
    r
}

fn one_line(line: String) -> (r: Vec<String>)
    ensures
        text::views(r@) == seq![line@],
{
    let mut r: Vec<String> = Vec::new();
    r.push(line);
    assert(text::views(r@) =~= seq![line@]);
    r
}

fn abort(e: Error) -> (r: SetupStep)
    ensures
        r@ == (SetupStepView { say: seq![seq![]], next: SetupNextView::Finish(Err(e@)) }),
{
    let none = String::new();
    assert(none@ =~= seq![]);
    SetupStep { say: one_line(none), next: SetupNext::Finish(Err(e)) }
}

fn with_closing_lines(mut say: Vec<String>) -> (r: Vec<String>)
    ensures
        text::views(r@) == text::views(say@) + closing_lines(),
{
    let ghost before = text::views(say@);
    say.push("".to_owned());
    say.push("Done. Next:".to_owned());
    say.push("  - (re)start Kando; it spawns kando-cosmic-helper itself".to_owned());
    say.push("  - press the shortcut, or run: kando --menu \"COSMIC Menu\"".to_owned());
    say.push(
        "  - mouse buttons: divert one in Solaar and add a rule executing the same command".to_owned(),
    );
    say.push("  - re-check any time with: kando-cosmic-helper doctor".to_owned());
    assert(text::views(say@) =~= before + closing_lines());
    say
}

impl Wizard {
    /// A wizard that has not begun yet.
    pub fn new() -> (r: Wizard)
        ensures
            r@ == (WizardView { stage: SetupStage::Start, menu: seq![], names: seq![] }),
    {
        let r = Wizard { stage: SetupStage::Start, menu: String::new(), names: no_lines() };
        assert(r@ =~= (WizardView { stage: SetupStage::Start, menu: seq![], names: seq![] }));
        r
    }

    fn prompt(&mut self, say: Vec<String>, stage: SetupStage) -> (r: SetupStep)
        ensures
            (final(self)@, r@) == prompting(old(self)@, text::views(say@), stage),
    {
        self.stage = stage;
        SetupStep { say, next: prompt_at(stage) }
    }

    fn act(&mut self, say: Vec<String>, stage: SetupStage, action: SetupAction) -> (r: SetupStep)
        ensures
            (final(self)@, r@) == acting(old(self)@, text::views(say@), stage, action@),
    {
        self.stage = stage;
        SetupStep { say, next: SetupNext::Ask(action) }
    }

    fn make(&mut self, say: Vec<String>, i: usize) -> (r: SetupStep)
        ensures
            (final(self)@, r@) == making(old(self)@, text::views(say@), i as int),
    {
        if i < self.names.len() {
            let name = self.names[i].clone();
            assert(self@.names[i as int] == name@);
            self.act(say, SetupStage::Making(i), SetupAction::MakeWorkspace(name))
        } else {
            SetupStep { say: with_closing_lines(say), next: SetupNext::Finish(Ok(())) }
        }
    }
}

/// Goes on with the first-time setup.
pub fn setup(wizard: &mut Wizard, reply: SetupReply, places: &Places) -> (r: SetupStep)
    ensures
        (final(wizard)@, r@) == setup_step(
            old(wizard)@,
            reply@,
            places.rule@,
            places.shortcuts@,
        ),
{
    let stage = wizard.stage;
    match stage {
        SetupStage::Start => {
            let mut say: Vec<String> = Vec::new();
            say.push("Kando COSMIC integration setup".to_owned());
            say.push("".to_owned());
            assert(text::views(say@) =~= seq!["Kando COSMIC integration setup"@, ""@]);
            wizard.act(say, SetupStage::Examined, SetupAction::Doctor)
        },
        SetupStage::Examined => wizard.act(
            one_line("".to_owned()),
            SetupStage::RuleChecked,
            SetupAction::CheckRule,
        ),
        SetupStage::RuleChecked => match reply {
            SetupReply::Rule(true) => wizard.prompt(no_lines(), SetupStage::ShortcutConfirm),
            _ => wizard.prompt(no_lines(), SetupStage::RuleConfirm),
        },
        SetupStage::RuleConfirm => match confirm(&line_of(reply), true) {
            Ok(true) => wizard.act(no_lines(), SetupStage::RuleWritten, SetupAction::WriteRule),
            Ok(false) => wizard.prompt(no_lines(), SetupStage::ShortcutConfirm),
            Err(e) => abort(e),
        },
        SetupStage::RuleWritten => match failure_of(reply) {
            Some(e) => SetupStep { say: no_lines(), next: SetupNext::Finish(Err(e)) },
            None => wizard.prompt(
                one_line(error::joined("  wrote ", &places.rule)),
                SetupStage::ShortcutConfirm,
            ),
        },
        SetupStage::ShortcutConfirm => match confirm(&line_of(reply), true) {
            Ok(true) => wizard.prompt(no_lines(), SetupStage::Menu),
            Ok(false) => wizard.prompt(no_lines(), SetupStage::WorkspacesConfirm),
            Err(e) => abort(e),
        },
        SetupStage::Menu => match ask(&line_of(reply), "COSMIC Menu") {
            Ok(menu) => {
                wizard.menu = menu;
                wizard.prompt(no_lines(), SetupStage::Combo)
            },
            Err(e) => abort(e),
        },
        SetupStage::Combo => match ask(&line_of(reply), "Ctrl+Space") {
            Ok(combo) => {
                let menu = wizard.menu.clone();
                wizard.act(
                    no_lines(),
                    SetupStage::ShortcutWritten,
                    SetupAction::WriteShortcut { combo, menu },
                )
            },
            Err(e) => abort(e),
        },
        SetupStage::ShortcutWritten => match failure_of(reply) {
            Some(e) => SetupStep { say: no_lines(), next: SetupNext::Finish(Err(e)) },
            None => {
                let mut line = error::joined("  wrote ", &places.shortcuts);
                line.append(" (COSMIC reloads it immediately)");
                wizard.prompt(one_line(line), SetupStage::WorkspacesConfirm)
            },
        },
        SetupStage::WorkspacesConfirm => match confirm(&line_of(reply), true) {
            Ok(true) => wizard.prompt(no_lines(), SetupStage::Names),
            Ok(false) => {
                let say = with_closing_lines(no_lines());
                assert(text::views(say@) =~= closing_lines());
                SetupStep { say, next: SetupNext::Finish(Ok(())) }
            },
            Err(e) => abort(e),
        },
        SetupStage::Names => match ask(&line_of(reply), "Coding, Browsing, Files, Chat, Media") {
            Ok(names) => {
                wizard.names = text::trimmed_pieces(&names, ',');
                wizard.make(no_lines(), 0)
            },
            Err(e) => abort(e),
        },
        SetupStage::Making(i) => if i < wizard.names.len() {
            let trouble = match failure_of(reply) {
                Some(e) => Some(e.message()),
                None => None,
            };
            assert(wizard@.names[i as int] == wizard.names@[i as int]@);
            let shown = shortcut::quoted(&wizard.names[i]);
            wizard.make(one_line(workspace_report(&shown, &trouble)), i + 1)
        } else {
            wizard.make(no_lines(), i)
        },
    }
}

/// A closed input never changes anything: at every prompt it ends the wizard with an error
/// instead of taking the default.
pub proof fn law_closed_input_aborts(w: WizardView, rule: Seq<char>, shortcuts: Seq<char>)
    requires
        w.stage is RuleConfirm || w.stage is ShortcutConfirm || w.stage is Menu || w.stage is Combo
            || w.stage is WorkspacesConfirm || w.stage is Names,
    ensures
        setup_step(w, SetupReplyView::Line(None), rule, shortcuts).1.next
            == SetupNextView::Finish(
            Err(ErrorView::Wayland("stdin closed; setup aborted"@)),
        ),
        setup_step(w, SetupReplyView::Line(None), rule, shortcuts).1.say.len() == 1,
        setup_step(w, SetupReplyView::Line(None), rule, shortcuts).1.say[0].len() == 0,
{
}

/// A rule that is there already is not asked for, and not written again.
pub proof fn law_present_rule_is_left_alone(
    w: WizardView,
    reply: SetupReplyView,
    rule: Seq<char>,
    shortcuts: Seq<char>,
)
    ensures
        setup_step(w, reply, rule, shortcuts).1.next == SetupNextView::Ask(
            SetupActionView::WriteRule,
        ) ==> w.stage == SetupStage::RuleConfirm,
        setup_step(w, reply, rule, shortcuts).0.stage == SetupStage::RuleConfirm && w.stage
            != SetupStage::RuleConfirm ==> w.stage == SetupStage::RuleChecked && reply
            != SetupReplyView::Rule(true),
{
}

/// Each of the names is made in its turn, and the wizard ends behind the last one even if
/// some of them failed.
pub proof fn law_every_name_has_its_turn(
    w: WizardView,
    reply: SetupReplyView,
    i: usize,
    rule: Seq<char>,
    shortcuts: Seq<char>,
)
    requires
        w.stage == SetupStage::Making(i),
        i < w.names.len() <= usize::MAX,
    ensures
        i + 1 < w.names.len() ==> {
            let (after, step) = setup_step(w, reply, rule, shortcuts);
            &&& after.stage == SetupStage::Making((i + 1) as usize)
            &&& step.next == SetupNextView::Ask(SetupActionView::MakeWorkspace(w.names[i + 1]))
        },
        i + 1 == w.names.len() ==> setup_step(w, reply, rule, shortcuts).1.next
            == SetupNextView::Finish(Ok(())),
{
}

/// An answer is what was typed, whatever white space is around it; nothing typed, or nothing
/// but white space, is the default; and a closed input is no answer at all.
pub proof fn law_nothing_typed_is_the_default(
    before: Seq<char>,
    typed: Seq<char>,
    after: Seq<char>,
    default: Seq<char>,
)
    requires
        forall|i: int| 0 <= i < before.len() ==> text::white_space(#[trigger] before[i]),
        forall|i: int| 0 <= i < after.len() ==> text::white_space(#[trigger] after[i]),
        typed.len() > 0 ==> !text::white_space(typed[0]) && !text::white_space(typed.last()),
    ensures
        typed.len() > 0 ==> answer(Some(before + typed + after), default) == Ok::<_, ErrorView>(
            typed,
        ),
        typed.len() == 0 ==> answer(Some(before + typed + after), default) == Ok::<_, ErrorView>(
            default,
        ),
        answer(None, default) is Err,
{
    text::law_white_space_around_is_trimmed(before, typed, after);
}

/// A question is answered with yes by `y` or `yes` and with no by `n` or `no`, in whatever case
/// and whatever the default is; anything else is the default, and so is nothing. A closed input
/// is neither.
pub proof fn law_yes_is_yes_and_no_is_no(line: Seq<char>, default_yes: bool)
    ensures
        ({
            let t = text::trim(line);
            let yes = text::same_letters(t, "y"@) || text::same_letters(t, "yes"@);
            let no = text::same_letters(t, "n"@) || text::same_letters(t, "no"@);
            &&& yes ==> yes_or_no(Some(line), default_yes) == Ok::<_, ErrorView>(true)
            &&& no ==> yes_or_no(Some(line), default_yes) == Ok::<_, ErrorView>(false)
            &&& !yes && !no ==> yes_or_no(Some(line), default_yes) == Ok::<_, ErrorView>(
                default_yes,
            )
            &&& t.len() == 0 ==> !yes && !no
        }),
        yes_or_no(None, default_yes) is Err,
{
    reveal_strlit("y");
    reveal_strlit("yes");
    reveal_strlit("n");
    reveal_strlit("no");
    reveal_strlit("Y/n");
    reveal_strlit("y/N");
    let t = text::trim(line);
    assert(text::lowercase("y"@) =~= "y"@);
    assert(text::lowercase("yes"@) =~= "yes"@);
    assert(text::lowercase("n"@) =~= "n"@);
    assert(text::lowercase("no"@) =~= "no"@);
    assert("yes"@[1] == 'e');
    assert(text::lowercase("Y/n"@)[1] == '/');
    assert(text::lowercase("y/N"@)[1] == '/');
    assert("y"@[0] != "n"@[0]);
    assert("yes"@.len() == 3 && "no"@.len() == 2 && "y"@.len() == 1 && "n"@.len() == 1);
    assert(text::lowercase("Y/n"@).len() == 3 && text::lowercase("y/N"@).len() == 3);
    assert(text::lowercase(t).len() == t.len());
}

/// Every prompt shows, in brackets behind its question, the default that an empty line takes.
pub proof fn law_shown_default_is_taken(
    w: WizardView,
    blank: Seq<char>,
    rule: Seq<char>,
    shortcuts: Seq<char>,
)
    requires
        text::trim(blank).len() == 0,
    ensures
        ({
            let (after, step) = setup_step(
                WizardView { stage: SetupStage::Menu, ..w },
                SetupReplyView::Line(Some(blank)),
                rule,
                shortcuts,
            );
            &&& stage_prompt(SetupStage::Menu) == "  Menu name"@ + " ["@ + after.menu + "]: "@
            &&& after.menu == "COSMIC Menu"@
            &&& after.stage == SetupStage::Combo
        }),
        ({
            let (after, step) = setup_step(
                WizardView { stage: SetupStage::Combo, ..w },
                SetupReplyView::Line(Some(blank)),
                rule,
                shortcuts,
            );
            &&& step.next matches SetupNextView::Ask(SetupActionView::WriteShortcut { combo, menu })
            &&& stage_prompt(SetupStage::Combo) == "  Shortcut (e.g. Ctrl+Space, Super+m)"@ + " ["@
                + combo + "]: "@
            &&& combo == "Ctrl+Space"@
            &&& menu == w.menu
        }),
        ({
            let (after, step) = setup_step(
                WizardView { stage: SetupStage::Names, ..w },
                SetupReplyView::Line(Some(blank)),
                rule,
                shortcuts,
            );
            let default = "Coding, Browsing, Files, Chat, Media"@;
            &&& stage_prompt(SetupStage::Names) == "  Names, comma separated"@ + " ["@ + default
                + "]: "@
            &&& after.names == text::pieces(default, ',')
        }),
        setup_step(
            WizardView { stage: SetupStage::RuleConfirm, ..w },
            SetupReplyView::Line(Some(blank)),
            rule,
            shortcuts,
        ).1.next == SetupNextView::Ask(SetupActionView::WriteRule),
        stage_prompt(SetupStage::RuleConfirm) == "Add the floating-window rule for Kando's menu?"@
            + " ["@ + "Y/n"@ + "]: "@,
        setup_step(
            WizardView { stage: SetupStage::ShortcutConfirm, ..w },
            SetupReplyView::Line(Some(blank)),
            rule,
            shortcuts,
        ).0.stage == SetupStage::Menu,
        stage_prompt(SetupStage::ShortcutConfirm)
            == "Add a COSMIC keyboard shortcut that opens a Kando menu?"@ + " ["@ + "Y/n"@ + "]: "@,
        setup_step(
            WizardView { stage: SetupStage::WorkspacesConfirm, ..w },
            SetupReplyView::Line(Some(blank)),
            rule,
            shortcuts,
        ).0.stage == SetupStage::Names,
        stage_prompt(SetupStage::WorkspacesConfirm)
            == "Create named workspaces for the example menu?"@ + " ["@ + "Y/n"@ + "]: "@,
{
    law_yes_is_yes_and_no_is_no(blank, true);
    let default = "Coding, Browsing, Files, Chat, Media"@;
    let named = WizardView { stage: SetupStage::Names, ..w };
    let step = setup_step(named, SetupReplyView::Line(Some(blank)), rule, shortcuts);
    assert(step.0.names == text::pieces(default, ','));
}

/// What is typed for the menu and then for the keys is what the shortcut is written with.
pub proof fn law_typed_shortcut_is_written(
    w: WizardView,
    menu: Seq<char>,
    combo: Seq<char>,
    rule: Seq<char>,
    shortcuts: Seq<char>,
)
    requires
        w.stage is Menu,
        text::trim(menu).len() > 0,
        text::trim(combo).len() > 0,
    ensures
        ({
            let (asked, step) = setup_step(
                w,
                SetupReplyView::Line(Some(menu)),
                rule,
                shortcuts,
            );
            let (after, last) = setup_step(
                asked,
                SetupReplyView::Line(Some(combo)),
                rule,
                shortcuts,
            );
            &&& step.next == SetupNextView::Ask(
                SetupActionView::Prompt(stage_prompt(SetupStage::Combo)),
            )
            &&& last.next == SetupNextView::Ask(
                SetupActionView::WriteShortcut { combo: text::trim(combo), menu: text::trim(menu) },
            )
            &&& after.stage is ShortcutWritten
        }),
{
}

/// Each question leads on as it is answered: a yes to what it asks for, a no to the next
/// question, and the last no to the end.
pub proof fn law_answers_decide(
    w: WizardView,
    reply: SetupReplyView,
    yes: bool,
    rule: Seq<char>,
    shortcuts: Seq<char>,
)
    requires
        yes_or_no(line_in(reply), true) == Ok::<_, ErrorView>(yes),
    ensures
        ({
            let (after, step) = setup_step(w, reply, rule, shortcuts);
            let ask = |stage: SetupStage|
                SetupNextView::Ask(SetupActionView::Prompt(stage_prompt(stage)));
            &&& w.stage is RuleConfirm && yes ==> after.stage is RuleWritten && step.next
                == SetupNextView::Ask(SetupActionView::WriteRule)
            &&& w.stage is RuleConfirm && !yes ==> after.stage is ShortcutConfirm && step.next
                == ask(SetupStage::ShortcutConfirm)
            &&& w.stage is ShortcutConfirm && yes ==> after.stage is Menu && step.next == ask(
                SetupStage::Menu,
            )
            &&& w.stage is ShortcutConfirm && !yes ==> after.stage is WorkspacesConfirm
                && step.next == ask(SetupStage::WorkspacesConfirm)
            &&& w.stage is WorkspacesConfirm && yes ==> after.stage is Names && step.next == ask(
                SetupStage::Names,
            )
            &&& w.stage is WorkspacesConfirm && !yes ==> step.next == SetupNextView::Finish(Ok(()))
        }),
{
}

/// The wizard begins with the doctor's report, then looks for the rule; it asks for the rule
/// only where it is not there, and for the shortcut otherwise.
pub proof fn law_wizard_examines_first(
    w: WizardView,
    reply: SetupReplyView,
    rule: Seq<char>,
    shortcuts: Seq<char>,
)
    ensures
        ({
            let (after, step) = setup_step(w, reply, rule, shortcuts);
            &&& w.stage is Start ==> after.stage is Examined && step.next == SetupNextView::Ask(
                SetupActionView::Doctor,
            )
            &&& w.stage is Examined ==> after.stage is RuleChecked && step.next
                == SetupNextView::Ask(SetupActionView::CheckRule)
            &&& w.stage is RuleChecked ==> after.stage == if reply == SetupReplyView::Rule(true) {
                SetupStage::ShortcutConfirm
            } else {
                SetupStage::RuleConfirm
            }
            &&& w.stage is RuleChecked ==> step.next == SetupNextView::Ask(
                SetupActionView::Prompt(stage_prompt(after.stage)),
            )
        }),
{
}

/// What could not be written ends the wizard with the reason; what was written is told with
/// its place, and the next question follows.
pub proof fn law_failed_writing_ends_the_wizard(
    w: WizardView,
    reply: SetupReplyView,
    rule: Seq<char>,
    shortcuts: Seq<char>,
)
    requires
        w.stage is RuleWritten || w.stage is ShortcutWritten,
    ensures
        ({
            let (after, step) = setup_step(w, reply, rule, shortcuts);
            let next = if w.stage is RuleWritten {
                SetupStage::ShortcutConfirm
            } else {
                SetupStage::WorkspacesConfirm
            };
            let place = if w.stage is RuleWritten {
                rule
            } else {
                shortcuts
            };
            &&& reply matches SetupReplyView::Failed(e) ==> step.next == SetupNextView::Finish(
                Err(e),
            ) && step.say.len() == 0
            &&& !(reply is Failed) ==> after.stage == next && step.next == SetupNextView::Ask(
                SetupActionView::Prompt(stage_prompt(next)),
            ) && step.say.len() == 1 && text::begins_with(step.say[0], "  wrote "@ + place)
        }),
{
    let said = "  wrote "@ + rule;
    assert(said.subrange(0, said.len() as int) =~= said);
    let told = "  wrote "@ + shortcuts + " (COSMIC reloads it immediately)"@;
    let start = "  wrote "@ + shortcuts;
    assert(told.subrange(0, start.len() as int) =~= start);
}

/// The names that are made are those typed between commas, without white space around and
/// without empty ones; the first is made first, and without any the wizard is over.
pub proof fn law_typed_names_are_made(
    w: WizardView,
    typed: Seq<char>,
    rule: Seq<char>,
    shortcuts: Seq<char>,
)
    requires
        w.stage is Names,
        text::trim(typed).len() > 0,
    ensures
        ({
            let (after, step) = setup_step(
                w,
                SetupReplyView::Line(Some(typed)),
                rule,
                shortcuts,
            );
            let names = text::pieces(text::trim(typed), ',');
            &&& after.names == names
            &&& after.menu == w.menu
            &&& names.len() > 0 ==> after.stage == SetupStage::Making(0) && step.next
                == SetupNextView::Ask(SetupActionView::MakeWorkspace(names[0]))
            &&& names.len() == 0 ==> step.next == SetupNextView::Finish(Ok(()))
        }),
{
}

/// The wizard ends well only after the last question was answered with no, without any name to
/// make, or behind the last name. It writes only what was agreed to, and makes only names that
/// were given.
pub proof fn law_wizard_does_only_what_was_agreed(
    w: WizardView,
    reply: SetupReplyView,
    rule: Seq<char>,
    shortcuts: Seq<char>,
)
    ensures
        ({
            let (after, step) = setup_step(w, reply, rule, shortcuts);
            let agreed = yes_or_no(line_in(reply), true);
            &&& step.next == SetupNextView::Finish(Ok(())) ==> {
                ||| w.stage is WorkspacesConfirm && agreed == Ok::<_, ErrorView>(false)
                ||| w.stage is Names && after.names.len() == 0
                ||| w.stage matches SetupStage::Making(i) && i + 1 >= w.names.len()
            }
            &&& step.next == SetupNextView::Finish(Ok(())) ==> step.say.len() >= 6 && step.say[
                step.say.len() - 5] == "Done. Next:"@
            &&& step.next matches SetupNextView::Ask(action) ==> match action {
                SetupActionView::Doctor => w.stage is Start,
                SetupActionView::CheckRule => w.stage is Examined,
                SetupActionView::Prompt(_) => true,
                SetupActionView::WriteRule => w.stage is RuleConfirm && agreed == Ok::<
                    _,
                    ErrorView,
                >(true),
                SetupActionView::WriteShortcut { menu, .. } => w.stage is Combo && menu == w.menu,
                SetupActionView::MakeWorkspace(name) => after.names.contains(name),
            }
            &&& !(w.stage is Menu) ==> after.menu == w.menu
            &&& !(w.stage is Names) ==> after.names == w.names
        }),
{
    let (after, step) = setup_step(w, reply, rule, shortcuts);
    if let SetupNextView::Ask(SetupActionView::MakeWorkspace(name)) = step.next {
        if let SetupStage::Making(i) = w.stage {
            if i < w.names.len() {
                assert(after.names[i + 1] == name);
            } else {
                assert(after.names[i as int] == name);
            }
        } else {
            assert(after.names[0] == name);
        }
    }
}

/// A workspace that was made is told as ready, and one that was not is told with what went
/// wrong; either way under its own name, and the message is that of the failure.
pub proof fn law_made_names_are_told(
    w: WizardView,
    reply: SetupReplyView,
    i: usize,
    rule: Seq<char>,
    shortcuts: Seq<char>,
)
    requires
        w.stage == SetupStage::Making(i),
        i < w.names.len(),
    ensures
        ({
            let say = setup_step(w, reply, rule, shortcuts).1.say;
            let shown = shortcut::quoted_text(w.names[i as int]);
            &&& say.len() >= 1
            &&& reply matches SetupReplyView::Failed(e) ==> say[0] == "  workspace "@ + shown
                + ": "@ + error::full_message(e)
            &&& !(reply is Failed) ==> say[0] == "  workspace "@ + shown + " ready"@
        }),
{
}

/// Only a line that was read is an answer.
pub proof fn law_only_a_line_is_an_answer(reply: SetupReplyView, line: Option<Seq<char>>)
    ensures
        line_in(SetupReplyView::Line(line)) == line,
        !(reply is Line) ==> line_in(reply) is None,
{
}

/// A prompt is its question with the default in brackets behind it, and the line on a workspace
/// has its name and what became of it, whatever these are.
pub proof fn law_lines_tell_their_parts(
    question: Seq<char>,
    default: Seq<char>,
    shown: Seq<char>,
    message: Seq<char>,
)
    ensures
        prompt(question, default).len() == question.len() + default.len() + 5,
        text::begins_with(prompt(question, default), question),
        text::occurs("["@ + default + "]"@, prompt(question, default)),
        workspace_line(shown, None) == "  workspace "@ + shown + " ready"@,
        workspace_line(shown, Some(message)) == "  workspace "@ + shown + ": "@ + message,
{
    let p = prompt(question, default);
    let part = "["@ + default + "]"@;
    reveal_strlit(" [");
    reveal_strlit("[");
    reveal_strlit("]");
    reveal_strlit("]: ");
    assert(p.subrange(0, question.len() as int) =~= question);
    let at = question.len() as int + 1;
    assert(p.subrange(at, at + part.len()) =~= part);
    assert(text::occurs_at(part, p, at));
}

} // verus!
