//! Going to, filling and forgetting the named workspaces.
//!
//! The compositor neither creates nor renames workspaces on request, but it always keeps an
//! empty one at the end and gives a pinned one a stable id. So a new name pins the trailing
//! workspace, and the name is recorded with its id.
//!
//! Each task is a machine: it takes the reply to its last action and gives the next one. The
//! state it is given is the one that the compositor's events have led to by then.

pub use crate::error::{Error, ErrorView};
use crate::names;
use crate::names::NameMap;
use crate::search;
use crate::session;
use crate::session::{GroupView, State, StateView, TopView, WorkspaceView, WsEntryView};
use crate::text;
use crate::toplevel;
use crate::workspace;
use vstd::prelude::*;

verus! {

/// What came of an action.
pub enum Reply {
    /// The text that the names are kept in; it is empty if there is none.
    Names(String),
    Done,
    Failed(Error),
}

/// What a `Reply` says.
#[verifier::ext_equal]
pub enum ReplyView {
    Names(Seq<char>),
    Done,
    Failed(ErrorView),
}

impl View for Reply {
    type V = ReplyView;

    open spec fn view(&self) -> ReplyView {
        match self {
            Reply::Names(text) => ReplyView::Names(text@),
            Reply::Done => ReplyView::Done,
            Reply::Failed(e) => ReplyView::Failed(e@),
        }
    }
}

/// What a task needs done.
pub enum Action {
    /// Read the text that the names are kept in.
    ReadNames,
    /// Ask for the workspace with the COSMIC handle to have the name, pin it, commit, and wait
    /// for it to have an id. That the wait fails is no failure of the action.
    Pin { index: usize, cosmic: u32, name: String },
    /// Write the text that the names are kept in.
    SaveNames(String),
    /// Activate the workspace with the handle, and commit.
    Activate(u32),
    /// Wait for a window that is not Kando's to have the focus.
    AwaitFocus,
    /// Move the window with the COSMIC handle to the workspace on the output.
    Move { window: u32, workspace: u32, output: u32 },
    /// Unpin the workspace with the COSMIC handle, if it has one, and commit.
    Unpin(Option<u32>),
}

/// What an `Action` says.
#[verifier::ext_equal]
pub enum ActionView {
    ReadNames,
    Pin { index: usize, cosmic: u32, name: Seq<char> },
    SaveNames(Seq<char>),
    Activate(u32),
    AwaitFocus,
    Move { window: u32, workspace: u32, output: u32 },
    Unpin(Option<u32>),
}

impl View for Action {
    type V = ActionView;

    open spec fn view(&self) -> ActionView {
        match self {
            Action::ReadNames => ActionView::ReadNames,
            Action::Pin { index, cosmic, name } => ActionView::Pin {
                index: *index,
                cosmic: *cosmic,
                name: name@,
            },
            Action::SaveNames(text) => ActionView::SaveNames(text@),
            Action::Activate(ext) => ActionView::Activate(*ext),
            Action::AwaitFocus => ActionView::AwaitFocus,
            Action::Move { window, workspace, output } => ActionView::Move {
                window: *window,
                workspace: *workspace,
                output: *output,
            },
            Action::Unpin(cosmic) => ActionView::Unpin(*cosmic),
        }
    }
}

/// How a task goes on: it asks for an action and waits at a stage, or it is over. It ends with
/// `true` if it did something, and the session is closed unless it ends in an error.
pub enum Step<S> {
    Ask(S, Action),
    Finish(Result<bool, Error>),
}

/// What a `Step` says.
#[verifier::ext_equal]
#[verifier::reject_recursive_types(S)]
pub enum StepView<S> {
    Ask(S, ActionView),
    Finish(Result<bool, ErrorView>),
}

impl<S> View for Step<S> {
    type V = StepView<S>;

    open spec fn view(&self) -> StepView<S> {
        match self {
            Step::Ask(stage, action) => StepView::Ask(*stage, action@),
            Step::Finish(Ok(done)) => StepView::Finish(Ok(*done)),
            Step::Finish(Err(e)) => StepView::Finish(Err(e@)),
        }
    }
}

/// How far the search for the workspace under a name has come. The index is that of the
/// workspace that is being given the name.
#[derive(Clone, Copy, PartialEq, Eq, Structural)]
pub enum Naming {
    Start,
    /// The names are being read.
    Find,
    /// The workspace is being pinned.
    Pin(usize),
    /// The names are being read once more.
    Record(usize),
    /// The names are being written.
    Save(usize),
}

/// How far the way to a workspace has come.
#[derive(Clone, Copy, PartialEq, Eq, Structural)]
pub enum GotoStage {
    Name(Naming),
    Activate,
}

/// How far sending a window to a workspace has come. The index is that of the workspace.
#[derive(Clone, Copy, PartialEq, Eq, Structural)]
pub enum SendStage {
    Name(Naming),
    Settle(usize),
    Move(usize),
    Activate,
}

/// How far forgetting a workspace has come.
#[derive(Clone, Copy, PartialEq, Eq, Structural)]
pub enum ForgetStage {
    Start,
    Find,
    Unpin,
    Drop,
    Save,
    /// The names are being written without one whose workspace is gone.
    Discard,
}

impl Naming {
    /// Whether the stage belongs to a state: its index is that of a workspace.
    pub open spec fn fits(self, s: StateView) -> bool {
        match self {
            Naming::Start | Naming::Find => true,
            Naming::Pin(i) | Naming::Record(i) | Naming::Save(i) => i < s.workspaces.len(),
        }
    }

    /// The index of the workspace that is being given the name, if there is one yet.
    pub fn index(&self) -> (r: Option<usize>)
        ensures
            forall|s: StateView|
                #[trigger]
                self.fits(s) <==> (r matches Some(i) ==> i < s.workspaces.len()),
    {
        match self {
            Naming::Start | Naming::Find => None,
            Naming::Pin(i) | Naming::Record(i) | Naming::Save(i) => Some(*i),
        }
    }
}

impl GotoStage {
    /// Whether the stage belongs to a state.
    pub open spec fn fits(self, s: StateView) -> bool {
        match self {
            GotoStage::Name(naming) => naming.fits(s),
            GotoStage::Activate => true,
        }
    }

    /// The index of the workspace that the stage is about, if there is one.
    pub fn index(&self) -> (r: Option<usize>)
        ensures
            forall|s: StateView|
                #[trigger]
                self.fits(s) <==> (r matches Some(i) ==> i < s.workspaces.len()),
    {
        match self {
            GotoStage::Name(naming) => {
                let r = naming.index();
                assert forall|s: StateView| #[trigger]
                    self.fits(s) <==> (r matches Some(i) ==> i < s.workspaces.len()) by {
                    assert(naming.fits(s) == self.fits(s));
                }
                r
            },
            GotoStage::Activate => None,
        }
    }
}

impl SendStage {
    /// Whether the stage belongs to a state.
    pub open spec fn fits(self, s: StateView) -> bool {
        match self {
            SendStage::Name(naming) => naming.fits(s),
            SendStage::Settle(i) | SendStage::Move(i) => i < s.workspaces.len(),
            SendStage::Activate => true,
        }
    }

    /// The index of the workspace that the stage is about, if there is one.
    pub fn index(&self) -> (r: Option<usize>)
        ensures
            forall|s: StateView|
                #[trigger]
                self.fits(s) <==> (r matches Some(i) ==> i < s.workspaces.len()),
    {
        match self {
            SendStage::Name(naming) => {
                let r = naming.index();
                assert forall|s: StateView| #[trigger]
                    self.fits(s) <==> (r matches Some(i) ==> i < s.workspaces.len()) by {
                    assert(naming.fits(s) == self.fits(s));
                }
                r
            },
            SendStage::Settle(i) | SendStage::Move(i) => Some(*i),
            SendStage::Activate => None,
        }
    }
}

/// The names that a reply brings; none if it brings no text.
pub open spec fn names_in(reply: ReplyView) -> Seq<names::Entry> {
    match reply {
        ReplyView::Names(text) => names::parsed(text),
        _ => names::parsed(seq![]),
    }
}

/// What the search for the workspace under a name has come to: its index, the next action, or
/// an error.
pub enum Ensured {
    Ready(usize),
    Ask(Naming, Action),
    Fail(Error),
}

/// What an `Ensured` says.
#[verifier::ext_equal]
pub enum EnsuredView {
    Ready(usize),
    Ask(Naming, ActionView),
    Fail(ErrorView),
}

impl View for Ensured {
    type V = EnsuredView;

    open spec fn view(&self) -> EnsuredView {
        match self {
            Ensured::Ready(i) => EnsuredView::Ready(*i),
            Ensured::Ask(stage, action) => EnsuredView::Ask(*stage, action@),
            Ensured::Fail(e) => EnsuredView::Fail(e@),
        }
    }
}

/// A state in which a workspace has a name.
pub open spec fn with_name(s: StateView, i: int, name: Seq<char>) -> StateView {
    let w = s.workspaces[i];
    StateView {
        workspaces: s.workspaces.update(
            i,
            WsEntryView { info: WorkspaceView { name, ..w.info }, ..w },
        ),
        ..s
    }
}

/// How the search for the workspace under a name goes on. One that is found is taken;
/// otherwise the trailing free workspace is pinned, and the name is recorded with its id.
pub open spec fn ensured(
    s: StateView,
    name: Seq<char>,
    stage: Naming,
    reply: ReplyView,
) -> EnsuredView {
    match stage {
        Naming::Start => EnsuredView::Ask(Naming::Find, ActionView::ReadNames),
        Naming::Find => match workspace::found(s.workspaces, names_in(reply), name) {
            Some(i) => EnsuredView::Ready(i as usize),
            None => match workspace::trailing(s.workspaces) {
                Some(i) => match s.workspaces[i].cosmic {
                    Some(cosmic) => EnsuredView::Ask(
                        Naming::Pin(i as usize),
                        ActionView::Pin { index: i as usize, cosmic, name },
                    ),
                    None => EnsuredView::Fail(
                        ErrorView::MissingGlobal("zcosmic_workspace_manager_v2 (v2+)"@),
                    ),
                },
                None => EnsuredView::Fail(
                    ErrorView::Wayland("no unpinned workspace left to name"@),
                ),
            },
        },
        Naming::Pin(i) => match reply {
            ReplyView::Failed(e) => EnsuredView::Fail(e),
            _ => if s.workspaces[i as int].info.id.len() == 0 {
                EnsuredView::Fail(ErrorView::Wayland("compositor did not pin the workspace"@))
            } else {
                EnsuredView::Ask(Naming::Record(i), ActionView::ReadNames)
            },
        },
        Naming::Record(i) => EnsuredView::Ask(
            Naming::Save(i),
            ActionView::SaveNames(
                names::rendered(
                    names::with_entry(names_in(reply), name, s.workspaces[i as int].info.id),
                ),
            ),
        ),
        Naming::Save(i) => match reply {
            ReplyView::Failed(e) => EnsuredView::Fail(e),
            _ => EnsuredView::Ready(i),
        },
    }
}

/// The state that the search for the workspace under a name leaves behind: once the name has
/// been recorded, the workspace has it.
pub open spec fn after_ensured(
    s: StateView,
    name: Seq<char>,
    stage: Naming,
    reply: ReplyView,
) -> StateView {
    match stage {
        Naming::Save(i) => match reply {
            ReplyView::Failed(_) => s,
            _ => with_name(s, i as int, name),
        },
        _ => s,
    }
}

/// How the way to a workspace goes on.
pub open spec fn goto_step(
    s: StateView,
    name: Seq<char>,
    stage: GotoStage,
    reply: ReplyView,
) -> StepView<GotoStage> {
    match stage {
        GotoStage::Name(naming) => match ensured(s, name, naming, reply) {
            EnsuredView::Ready(i) => StepView::Ask(
                GotoStage::Activate,
                ActionView::Activate(s.workspaces[i as int].ext),
            ),
            EnsuredView::Ask(next, action) => StepView::Ask(GotoStage::Name(next), action),
            EnsuredView::Fail(e) => StepView::Finish(Err(e)),
        },
        GotoStage::Activate => match reply {
            ReplyView::Failed(e) => StepView::Finish(Err(e)),
            _ => StepView::Finish(Ok(true)),
        },
    }
}

/// How the making of a workspace goes on.
pub open spec fn no_switch_step(
    s: StateView,
    name: Seq<char>,
    stage: Naming,
    reply: ReplyView,
) -> StepView<Naming> {
    match ensured(s, name, stage, reply) {
        EnsuredView::Ready(_) => StepView::Finish(Ok(true)),
        EnsuredView::Ask(next, action) => StepView::Ask(next, action),
        EnsuredView::Fail(e) => StepView::Finish(Err(e)),
    }
}

/// Whether a group is shown on an output.
pub open spec fn has_output() -> spec_fn(GroupView) -> bool {
    |g: GroupView| g.outputs.len() > 0
}

/// The output that a window is moved on: the first it is shown on, otherwise the first that a
/// group of workspaces is shown on, otherwise the first there is.
pub open spec fn output_for(s: StateView, t: TopView) -> Option<u32> {
    if t.outputs.len() > 0 {
        Some(t.outputs[0])
    } else {
        match search::first(s.groups, has_output()) {
            Some(g) => Some(g.outputs[0]),
            None => if s.outputs.len() > 0 {
                Some(s.outputs[0])
            } else {
                None
            },
        }
    }
}

/// How sending a window to a workspace goes on.
pub open spec fn send_step(
    s: StateView,
    name: Seq<char>,
    follow: bool,
    stage: SendStage,
    reply: ReplyView,
) -> StepView<SendStage> {
    match stage {
        SendStage::Name(naming) => if naming == Naming::Start && !s.top_manager {
            StepView::Finish(Err(ErrorView::MissingGlobal("zcosmic_toplevel_manager_v1 (v4+)"@)))
        } else {
            match ensured(s, name, naming, reply) {
                EnsuredView::Ready(i) => StepView::Ask(
                    SendStage::Settle(i),
                    ActionView::AwaitFocus,
                ),
                EnsuredView::Ask(next, action) => StepView::Ask(SendStage::Name(next), action),
                EnsuredView::Fail(e) => StepView::Finish(Err(e)),
            }
        },
        SendStage::Settle(i) => match search::first(s.toplevels, session::is_users_focus()) {
            Some(t) => match t.cosmic {
                Some(window) => match output_for(s, t) {
                    Some(output) => StepView::Ask(
                        SendStage::Move(i),
                        ActionView::Move {
                            window,
                            workspace: s.workspaces[i as int].ext,
                            output,
                        },
                    ),
                    None => StepView::Finish(Err(ErrorView::NoOutputs)),
                },
                None => StepView::Finish(Ok(false)),
            },
            None => StepView::Finish(Ok(false)),
        },
        SendStage::Move(i) => match reply {
            ReplyView::Failed(e) => StepView::Finish(Err(e)),
            _ => if follow {
                StepView::Ask(
                    SendStage::Activate,
                    ActionView::Activate(s.workspaces[i as int].ext),
                )
            } else {
                StepView::Finish(Ok(true))
            },
        },
        SendStage::Activate => match reply {
            ReplyView::Failed(e) => StepView::Finish(Err(e)),
            _ => StepView::Finish(Ok(true)),
        },
    }
}

/// How forgetting a workspace goes on. The name is forgotten even if its workspace is gone.
pub open spec fn forget_step(
    s: StateView,
    name: Seq<char>,
    stage: ForgetStage,
    reply: ReplyView,
) -> StepView<ForgetStage> {
    match stage {
        ForgetStage::Start => StepView::Ask(ForgetStage::Find, ActionView::ReadNames),
        ForgetStage::Find => match workspace::found(s.workspaces, names_in(reply), name) {
            Some(i) => StepView::Ask(
                ForgetStage::Unpin,
                ActionView::Unpin(s.workspaces[i].cosmic),
            ),
            None => if names::id_of(names_in(reply), name) is Some {
                StepView::Ask(
                    ForgetStage::Discard,
                    ActionView::SaveNames(
                        names::rendered(names::without_name(names_in(reply), name)),
                    ),
                )
            } else {
                StepView::Finish(Ok(false))
            },
        },
        ForgetStage::Unpin => match reply {
            ReplyView::Failed(e) => StepView::Finish(Err(e)),
            _ => StepView::Ask(ForgetStage::Drop, ActionView::ReadNames),
        },
        ForgetStage::Drop => StepView::Ask(
            ForgetStage::Save,
            ActionView::SaveNames(names::rendered(names::without_name(names_in(reply), name))),
        ),
        ForgetStage::Save => match reply {
            ReplyView::Failed(e) => StepView::Finish(Err(e)),
            _ => StepView::Finish(Ok(true)),
        },
        ForgetStage::Discard => match reply {
            ReplyView::Failed(e) => StepView::Finish(Err(e)),
            _ => StepView::Finish(Ok(false)),
        },
    }
}

fn names_of(reply: &Reply) -> (r: NameMap)
    ensures
        r@ == names_in(reply@),
{
    match reply {
        Reply::Names(text) => NameMap::load(text),
        _ => {
            let none = String::new();
            assert(none@ =~= seq![]);
            NameMap::load(&none)
        },
    }
}

/// The error that a reply brings, if any.
fn failure_of(reply: Reply) -> (r: Option<Error>)
    ensures
        match r {
            Some(e) => reply@ == ReplyView::Failed(e@),
            None => !(reply@ is Failed),
        },
{
    match reply {
        Reply::Failed(e) => Some(e),
        _ => None,
    }
}

/// Goes on with the search for the workspace under a name.
pub fn ensure(state: &mut State, name: &str, stage: Naming, reply: Reply) -> (r: Ensured)
    requires
        stage.fits(old(state)@),
    ensures
        r@ == ensured(old(state)@, name@, stage, reply@),
        final(state)@ == after_ensured(old(state)@, name@, stage, reply@),
        match r {
            Ensured::Ready(i) => i < final(state)@.workspaces.len(),
            Ensured::Ask(next, _) => next.fits(final(state)@),
            Ensured::Fail(_) => true,
        },
{
    match stage {
        Naming::Start => Ensured::Ask(Naming::Find, Action::ReadNames),
        Naming::Find => {
            let map = names_of(&reply);
            if let Some(i) = state.find(&map, name) {
                return Ensured::Ready(i);
            }
            match state.trailing_workspace() {
                Some(i) => {
                    assert(state@.workspaces[i as int] == state.workspaces@[i as int]@);
                    match state.workspaces[i].cosmic {
                        Some(cosmic) => Ensured::Ask(
                            Naming::Pin(i),
                            Action::Pin { index: i, cosmic, name: name.to_owned() },
                        ),
                        None => Ensured::Fail(
                            Error::MissingGlobal("zcosmic_workspace_manager_v2 (v2+)"),
                        ),
                    }
                },
                None => Ensured::Fail(
                    Error::Wayland("no unpinned workspace left to name".to_owned()),
                ),
            }
        },
        Naming::Pin(i) => match failure_of(reply) {
            Some(e) => Ensured::Fail(e),
            None => {
                assert(state@.workspaces[i as int] == state.workspaces@[i as int]@);
                if state.workspaces[i].info.id.as_str().is_empty() {
                    Ensured::Fail(
                        Error::Wayland("compositor did not pin the workspace".to_owned()),
                    )
                } else {
                    Ensured::Ask(Naming::Record(i), Action::ReadNames)
                }
            },
        },
        Naming::Record(i) => {
            let mut map = names_of(&reply);
            assert(state@.workspaces[i as int] == state.workspaces@[i as int]@);
            map.set(name, &state.workspaces[i].info.id);
            Ensured::Ask(Naming::Save(i), Action::SaveNames(map.save()))
        },
        Naming::Save(i) => match failure_of(reply) {
            Some(e) => Ensured::Fail(e),
            None => {
                let ghost before = state@;
                state.workspaces[i].info.name = name.to_owned();
                assert(state@ =~= with_name(before, i as int, name@));
                Ensured::Ready(i)
            },
        },
    }
}

/// Goes on switching to the workspace with a name, which is created if there is none.
pub fn goto_workspace(state: &mut State, name: &str, stage: GotoStage, reply: Reply) -> (r: Step<
    GotoStage,
>)
    requires
        stage.fits(old(state)@),
    ensures
        r@ == goto_step(old(state)@, name@, stage, reply@),
        final(state)@ == match stage {
            GotoStage::Name(naming) => after_ensured(old(state)@, name@, naming, reply@),
            GotoStage::Activate => old(state)@,
        },
        r matches Step::Ask(next, _) ==> next.fits(final(state)@),
{
    match stage {
        GotoStage::Name(naming) => match ensure(state, name, naming, reply) {
            Ensured::Ready(i) => {
                assert(state@.workspaces[i as int] == state.workspaces@[i as int]@);
                Step::Ask(GotoStage::Activate, Action::Activate(state.workspaces[i].ext))
            },
            Ensured::Ask(next, action) => Step::Ask(GotoStage::Name(next), action),
            Ensured::Fail(e) => Step::Finish(Err(e)),
        },
        GotoStage::Activate => match failure_of(reply) {
            Some(e) => Step::Finish(Err(e)),
            None => Step::Finish(Ok(true)),
        },
    }
}

/// Goes on making sure of the workspace with a name, without switching to it.
pub fn goto_workspace_no_switch(
    state: &mut State,
    name: &str,
    stage: Naming,
    reply: Reply,
) -> (r: Step<Naming>)
    requires
        stage.fits(old(state)@),
    ensures
        r@ == no_switch_step(old(state)@, name@, stage, reply@),
        final(state)@ == after_ensured(old(state)@, name@, stage, reply@),
        r matches Step::Ask(next, _) ==> next.fits(final(state)@),
{
    match ensure(state, name, stage, reply) {
        Ensured::Ready(_) => Step::Finish(Ok(true)),
        Ensured::Ask(next, action) => Step::Ask(next, action),
        Ensured::Fail(e) => Step::Finish(Err(e)),
    }
}

fn output_of(state: &State, top: usize) -> (r: Option<u32>)
    requires
        top < state.toplevels@.len(),
    ensures
        r == output_for(state@, state@.toplevels[top as int]),
{
    assert(state@.toplevels[top as int] == state.toplevels@[top as int]@);
    if state.toplevels[top].outputs.len() > 0 {
        return Some(state.toplevels[top].outputs[0]);
    }
    let ghost groups = state@.groups;
    let mut i: usize = 0;
    while i < state.groups.len()
        invariant
            i <= state.groups@.len(),
            groups == state@.groups,
            top < state.toplevels@.len(),
            state@.toplevels[top as int].outputs.len() == 0,
            forall|j: int| 0 <= j < i ==> !has_output()(#[trigger] groups[j]),
        decreases state.groups@.len() - i,
    {
        assert(groups[i as int] == state.groups@[i as int]@);
        if state.groups[i].outputs.len() > 0 {
            proof {
                search::lemma_first_index_is(groups, has_output(), i as int);
            }
            return Some(state.groups[i].outputs[0]);
        }
        i += 1;
    }
    proof {
        search::lemma_first_index_is(groups, has_output(), i as int);
    }
    if state.outputs.len() > 0 {
        Some(state.outputs[0])
    } else {
        None
    }
}

/// Goes on moving the focused window to the workspace with a name, which is created if there
/// is none; with `follow`, the workspace is switched to as well. Ends with `false` if no
/// window has the focus.
pub fn send_focused_to_workspace(
    state: &mut State,
    name: &str,
    follow: bool,
    stage: SendStage,
    reply: Reply,
) -> (r: Step<SendStage>)
    requires
        stage.fits(old(state)@),
    ensures
        r@ == send_step(old(state)@, name@, follow, stage, reply@),
        final(state)@ == match stage {
            SendStage::Name(naming) => after_ensured(old(state)@, name@, naming, reply@),
            _ => old(state)@,
        },
        r matches Step::Ask(next, _) ==> next.fits(final(state)@),
{
    match stage {
        SendStage::Name(naming) => {
            if naming == Naming::Start && !state.top_manager {
                return Step::Finish(
                    Err(Error::MissingGlobal("zcosmic_toplevel_manager_v1 (v4+)")),
                );
            }
            match ensure(state, name, naming, reply) {
                Ensured::Ready(i) => Step::Ask(SendStage::Settle(i), Action::AwaitFocus),
                Ensured::Ask(next, action) => Step::Ask(SendStage::Name(next), action),
                Ensured::Fail(e) => Step::Finish(Err(e)),
            }
        },
        SendStage::Settle(i) => {
            let top = match state.focused_toplevel() {
                Some(top) => top,
                None => return Step::Finish(Ok(false)),
            };
            assert(state@.toplevels[top as int] == state.toplevels@[top as int]@);
            assert(state@.workspaces[i as int] == state.workspaces@[i as int]@);
            match state.toplevels[top].cosmic {
                Some(window) => match output_of(state, top) {
                    Some(output) => Step::Ask(
                        SendStage::Move(i),
                        Action::Move { window, workspace: state.workspaces[i].ext, output },
                    ),
                    None => Step::Finish(Err(Error::NoOutputs)),
                },
                None => Step::Finish(Ok(false)),
            }
        },
        SendStage::Move(i) => match failure_of(reply) {
            Some(e) => Step::Finish(Err(e)),
            None => if follow {
                assert(state@.workspaces[i as int] == state.workspaces@[i as int]@);
                Step::Ask(SendStage::Activate, Action::Activate(state.workspaces[i].ext))
            } else {
                Step::Finish(Ok(true))
            },
        },
        SendStage::Activate => match failure_of(reply) {
            Some(e) => Step::Finish(Err(e)),
            None => Step::Finish(Ok(true)),
        },
    }
}

/// Goes on unpinning the workspace with a name and forgetting the name. Ends with `false` if
/// there is no such workspace; a name that was recorded is forgotten all the same.
pub fn forget_workspace(state: &State, name: &str, stage: ForgetStage, reply: Reply) -> (r: Step<
    ForgetStage,
>)
    ensures
        r@ == forget_step(state@, name@, stage, reply@),
{
    match stage {
        ForgetStage::Start => Step::Ask(ForgetStage::Find, Action::ReadNames),
        ForgetStage::Find => {
            let mut map = names_of(&reply);
            match state.find(&map, name) {
                Some(i) => {
                    assert(state@.workspaces[i as int] == state.workspaces@[i as int]@);
                    Step::Ask(ForgetStage::Unpin, Action::Unpin(state.workspaces[i].cosmic))
                },
                None => if map.id_for(name).is_some() {
                    map.remove(name);
                    Step::Ask(ForgetStage::Discard, Action::SaveNames(map.save()))
                } else {
                    Step::Finish(Ok(false))
                },
            }
        },
        ForgetStage::Unpin => match failure_of(reply) {
            Some(e) => Step::Finish(Err(e)),
            None => Step::Ask(ForgetStage::Drop, Action::ReadNames),
        },
        ForgetStage::Drop => {
            let mut map = names_of(&reply);
            map.remove(name);
            Step::Ask(ForgetStage::Save, Action::SaveNames(map.save()))
        },
        ForgetStage::Save => match failure_of(reply) {
            Some(e) => Step::Finish(Err(e)),
            None => Step::Finish(Ok(true)),
        },
        ForgetStage::Discard => match failure_of(reply) {
            Some(e) => Step::Finish(Err(e)),
            None => Step::Finish(Ok(false)),
        },
    }
}

/// A workspace that can be found under a name is switched to at once: nothing is pinned,
/// recorded or renamed.
pub proof fn law_known_workspace_is_only_activated(
    s: StateView,
    name: Seq<char>,
    file: Seq<char>,
    i: int,
)
    requires
        workspace::found(s.workspaces, names::parsed(file), name) == Some(i),
        s.workspaces.len() <= usize::MAX,
    ensures
        goto_step(s, name, GotoStage::Name(Naming::Start), ReplyView::Done) == StepView::Ask(
            GotoStage::Name(Naming::Find),
            ActionView::ReadNames,
        ),
        goto_step(s, name, GotoStage::Name(Naming::Find), ReplyView::Names(file))
            == StepView::Ask(GotoStage::Activate, ActionView::Activate(s.workspaces[i].ext)),
        after_ensured(s, name, Naming::Find, ReplyView::Names(file)) == s,
{
    search::lemma_first_index(s.workspaces, workspace::answers_to(names::parsed(file), name));
}

/// A workspace is pinned only if none can be found under the name, and it is the trailing free
/// one: it is not removed and not pinned already.
pub proof fn law_only_the_trailing_workspace_is_pinned(
    s: StateView,
    name: Seq<char>,
    stage: Naming,
    reply: ReplyView,
    next: Naming,
    index: usize,
    cosmic: u32,
    given: Seq<char>,
)
    requires
        ensured(s, name, stage, reply) == EnsuredView::Ask(
            next,
            ActionView::Pin { index, cosmic, name: given },
        ),
        s.workspaces.len() <= usize::MAX,
    ensures
        given == name,
        workspace::found(s.workspaces, names_in(reply), name) is None,
        workspace::is_trailing(s.workspaces, index as int),
        workspace::is_free(s.workspaces[index as int]),
        s.workspaces[index as int].cosmic == Some(cosmic),
{
    let i = workspace::trailing(s.workspaces)->0;
    workspace::law_trailing_is_unique(s.workspaces, i);
}

/// Whether the workspace at an index is the first that can stand for a name: it is there, it
/// has the id, and no earlier one that is there has the name, up to case, or the id.
pub open spec fn stands_first(
    workspaces: Seq<WsEntryView>,
    k: int,
    id: Seq<char>,
    name: Seq<char>,
) -> bool {
    &&& 0 <= k < workspaces.len() <= usize::MAX
    &&& !workspaces[k].removed
    &&& workspaces[k].info.id == id
    &&& forall|j: int|
        0 <= j < k && !(#[trigger] workspaces[j]).removed ==> !text::same_letters(
            workspaces[j].info.name,
            name,
        ) && workspaces[j].info.id != id
}

/// A workspace that has been given a name is found under it ever after, in whatever case it is
/// spelled: in any later state, whoever reads what was written finds the workspace with the
/// recorded id, and going there only activates it.
pub proof fn law_new_name_is_found_again(
    s: StateView,
    name: Seq<char>,
    i: usize,
    file: Seq<char>,
    text: Seq<char>,
    spelled: Seq<char>,
    later: StateView,
    k: int,
)
    requires
        i < s.workspaces.len(),
        ensured(s, name, Naming::Pin(i), ReplyView::Done) == EnsuredView::Ask(
            Naming::Record(i),
            ActionView::ReadNames,
        ),
        ensured(s, name, Naming::Record(i), ReplyView::Names(file)) == EnsuredView::Ask(
            Naming::Save(i),
            ActionView::SaveNames(text),
        ),
        names::storable((name, s.workspaces[i as int].info.id)),
        text::same_letters(spelled, name),
        stands_first(later.workspaces, k, s.workspaces[i as int].info.id, spelled),
    ensures
        s.workspaces[i as int].info.id.len() > 0,
        names::id_of(names::parsed(text), spelled) == Some(s.workspaces[i as int].info.id),
        workspace::found(later.workspaces, names::parsed(text), spelled) == Some(k),
        goto_step(later, spelled, GotoStage::Name(Naming::Find), ReplyView::Names(text))
            == StepView::Ask(
            GotoStage::Activate,
            ActionView::Activate(later.workspaces[k].ext),
        ),
        after_ensured(later, spelled, Naming::Find, ReplyView::Names(text)) == later,
{
    let id = s.workspaces[i as int].info.id;
    names::law_recorded_name_is_found(file, name, id, spelled);
    let wanted = workspace::answers_to(names::parsed(text), spelled);
    assert(wanted(later.workspaces[k]));
    assert forall|j: int| 0 <= j < k implies !wanted(#[trigger] later.workspaces[j]) by {
    }
    search::lemma_first_index_is(later.workspaces, wanted, k);
}

/// To name a workspace twice is to name it once: if nothing has been heard since the first time
/// ended, the second time, in whatever case the name is spelled, ends with the same workspace
/// after reading the names; nothing is pinned, written or renamed. The workspace must still be
/// there, and none before it may be found under the name.
pub proof fn law_naming_twice_is_naming_once(
    s: StateView,
    name: Seq<char>,
    i: usize,
    file: Seq<char>,
    text: Seq<char>,
    saved: ReplyView,
    spelled: Seq<char>,
    reply: ReplyView,
)
    requires
        i < s.workspaces.len() <= usize::MAX,
        ensured(s, name, Naming::Pin(i), ReplyView::Done) == EnsuredView::Ask(
            Naming::Record(i),
            ActionView::ReadNames,
        ),
        ensured(s, name, Naming::Record(i), ReplyView::Names(file)) == EnsuredView::Ask(
            Naming::Save(i),
            ActionView::SaveNames(text),
        ),
        ensured(s, name, Naming::Save(i), saved) == EnsuredView::Ready(i),
        text::same_letters(spelled, name),
        !s.workspaces[i as int].removed,
        forall|j: int|
            0 <= j < i ==> !workspace::answers_to(names::parsed(text), spelled)(
                #[trigger] s.workspaces[j],
            ),
    ensures
        ({
            let after = after_ensured(s, name, Naming::Save(i), saved);
            let id = s.workspaces[i as int].info.id;
            let map = names::with_entry(names::parsed(file), name, id);
            &&& after.workspaces[i as int].info.name == name
            &&& after.workspaces[i as int].info.id == id
            &&& id.len() > 0
            &&& text == names::rendered(map)
            &&& names::id_of(map, spelled) == Some(id)
            &&& names::storable((name, id)) ==> names::id_of(names::parsed(text), spelled) == Some(
                id,
            )
            &&& ensured(after, spelled, Naming::Start, reply) == EnsuredView::Ask(
                Naming::Find,
                ActionView::ReadNames,
            )
            &&& ensured(after, spelled, Naming::Find, ReplyView::Names(text))
                == EnsuredView::Ready(i)
            &&& after_ensured(after, spelled, Naming::Find, ReplyView::Names(text)) == after
        }),
{
    let after = after_ensured(s, name, Naming::Save(i), saved);
    let id = s.workspaces[i as int].info.id;
    names::law_set_is_found(names::parsed(file), name, id, spelled);
    if names::storable((name, id)) {
        names::law_recorded_name_is_found(file, name, id, spelled);
    }
    let wanted = workspace::answers_to(names::parsed(text), spelled);
    assert(wanted(after.workspaces[i as int]));
    assert forall|j: int| 0 <= j < i implies !wanted(#[trigger] after.workspaces[j]) by {
        assert(after.workspaces[j] == s.workspaces[j]);
    }
    search::lemma_first_index_is(after.workspaces, wanted, i as int);
}

/// To go twice is to pin once: after a first way to a new name has ended well, a second way, in
/// a later state and from the names that the first one wrote, asks for nothing but to read them
/// and to activate the workspace with the recorded id.
pub proof fn law_second_way_only_activates(
    s: StateView,
    name: Seq<char>,
    i: usize,
    file: Seq<char>,
    text: Seq<char>,
    spelled: Seq<char>,
    later: StateView,
    k: int,
    reply: ReplyView,
)
    requires
        i < s.workspaces.len(),
        goto_step(s, name, GotoStage::Name(Naming::Pin(i)), ReplyView::Done) == StepView::Ask(
            GotoStage::Name(Naming::Record(i)),
            ActionView::ReadNames,
        ),
        goto_step(s, name, GotoStage::Name(Naming::Record(i)), ReplyView::Names(file))
            == StepView::Ask(GotoStage::Name(Naming::Save(i)), ActionView::SaveNames(text)),
        names::storable((name, s.workspaces[i as int].info.id)),
        text::same_letters(spelled, name),
        stands_first(later.workspaces, k, s.workspaces[i as int].info.id, spelled),
    ensures
        goto_step(s, name, GotoStage::Name(Naming::Save(i)), ReplyView::Done) == StepView::Ask(
            GotoStage::Activate,
            ActionView::Activate(s.workspaces[i as int].ext),
        ),
        goto_step(later, spelled, GotoStage::Name(Naming::Start), reply) == StepView::Ask(
            GotoStage::Name(Naming::Find),
            ActionView::ReadNames,
        ),
        goto_step(later, spelled, GotoStage::Name(Naming::Find), ReplyView::Names(text))
            == StepView::Ask(
            GotoStage::Activate,
            ActionView::Activate(later.workspaces[k].ext),
        ),
        later.workspaces[k].info.id == s.workspaces[i as int].info.id,
        goto_step(later, spelled, GotoStage::Activate, ReplyView::Done) == StepView::<
            GotoStage,
        >::Finish(Ok(true)),
{
    law_new_name_is_found_again(s, name, i, file, text, spelled, later, k);
}

/// A way to a workspace that was found is found again: in any later state, from the same names,
/// the first workspace that can be found under the name is the one with the name and the id
/// that were found before, unless an earlier one can be found under it by then.
pub proof fn law_found_workspace_is_found_again(
    s: StateView,
    name: Seq<char>,
    file: Seq<char>,
    i: int,
    later: StateView,
    k: int,
)
    requires
        workspace::found(s.workspaces, names::parsed(file), name) == Some(i),
        0 <= k < later.workspaces.len() <= usize::MAX,
        !later.workspaces[k].removed,
        later.workspaces[k].info.name == s.workspaces[i].info.name,
        later.workspaces[k].info.id == s.workspaces[i].info.id,
        forall|j: int|
            0 <= j < k ==> !workspace::answers_to(names::parsed(file), name)(
                #[trigger] later.workspaces[j],
            ),
    ensures
        goto_step(later, name, GotoStage::Name(Naming::Find), ReplyView::Names(file))
            == StepView::Ask(
            GotoStage::Activate,
            ActionView::Activate(later.workspaces[k].ext),
        ),
        after_ensured(later, name, Naming::Find, ReplyView::Names(file)) == later,
{
    let wanted = workspace::answers_to(names::parsed(file), name);
    search::lemma_first_index(s.workspaces, wanted);
    assert(wanted(s.workspaces[i]));
    assert(wanted(later.workspaces[k]));
    search::lemma_first_index_is(later.workspaces, wanted, k);
}

/// Whatever forgetting a workspace writes, the name is gone from it: afterwards only a
/// workspace to which the compositor gives that name can still be found under it.
pub proof fn law_forgotten_name_is_gone(
    s: StateView,
    name: Seq<char>,
    stage: ForgetStage,
    file: Seq<char>,
    next: ForgetStage,
    text: Seq<char>,
    later: StateView,
    i: int,
)
    requires
        forget_step(s, name, stage, ReplyView::Names(file)) == StepView::Ask(
            next,
            ActionView::SaveNames(text),
        ),
    ensures
        names::id_of(names::parsed(text), name) is None,
        workspace::found(later.workspaces, names::parsed(text), name) == Some(i)
            ==> text::same_letters(later.workspaces[i].info.name, name),
{
    names::law_forgotten_name_is_not_found(file, name);
    search::lemma_first_index(
        later.workspaces,
        workspace::answers_to(names::parsed(text), name),
    );
}

/// A recorded name never stays because its workspace is gone: once the names have been read,
/// either its workspace is unpinned and the names are read for writing, or they are written
/// without it at once. The task ends well only after writing.
pub proof fn law_recorded_name_is_forgotten(
    s: StateView,
    name: Seq<char>,
    file: Seq<char>,
    reply: ReplyView,
)
    requires
        names::id_of(names::parsed(file), name) is Some,
    ensures
        match forget_step(s, name, ForgetStage::Find, ReplyView::Names(file)) {
            StepView::Ask(ForgetStage::Unpin, ActionView::Unpin(_)) => true,
            StepView::Ask(ForgetStage::Discard, ActionView::SaveNames(text)) => names::id_of(
                names::parsed(text),
                name,
            ) is None,
            _ => false,
        },
        match forget_step(s, name, ForgetStage::Unpin, reply) {
            StepView::Ask(next, action) => next == ForgetStage::Drop && action
                == ActionView::ReadNames,
            StepView::Finish(outcome) => outcome is Err,
        },
        forget_step(s, name, ForgetStage::Drop, reply) matches StepView::Ask(
            ForgetStage::Save,
            ActionView::SaveNames(_),
        ),
{
    names::law_forgotten_name_is_not_found(file, name);
}

/// Only an open window that has the focus and is not Kando's is ever moved.
pub proof fn law_only_the_focused_window_is_moved(
    s: StateView,
    name: Seq<char>,
    follow: bool,
    stage: SendStage,
    reply: ReplyView,
    next: SendStage,
    window: u32,
    workspace: u32,
    output: u32,
)
    requires
        send_step(s, name, follow, stage, reply) == StepView::Ask(
            next,
            ActionView::Move { window, workspace, output },
        ),
    ensures
        exists|k: int|
            0 <= k < s.toplevels.len() && (#[trigger] s.toplevels[k]).cosmic == Some(window)
                && !s.toplevels[k].closed && s.toplevels[k].activated && s.toplevels[k].app_id
                != toplevel::kando_app_id(),
{
    search::lemma_first_index(s.toplevels, session::is_users_focus());
    let k = search::first_index(s.toplevels, session::is_users_focus());
    assert(s.toplevels[k].cosmic == Some(window));
}

/// A window is sent without switching to its workspace unless that is asked for.
pub proof fn law_sending_alone_does_not_switch(
    s: StateView,
    name: Seq<char>,
    stage: SendStage,
    reply: ReplyView,
    next: SendStage,
    workspace: u32,
)
    ensures
        send_step(s, name, false, stage, reply) != StepView::Ask(
            next,
            ActionView::Activate(workspace),
        ),
{
}

/// Whether a workspace can stand for a name by itself: it is there, and it has the name, up to
/// case, or an id that the name is recorded with.
pub open spec fn stands_for(w: WsEntryView, file: Seq<char>, name: Seq<char>) -> bool {
    &&& !w.removed
    &&& text::same_letters(w.info.name, name) || (w.info.id.len() > 0 && names::id_of(
        names::parsed(file),
        name,
    ) == Some(w.info.id))
}

proof fn lemma_found_is(s: StateView, name: Seq<char>, file: Seq<char>, i: int)
    requires
        0 <= i <= s.workspaces.len(),
        i < s.workspaces.len() ==> stands_for(s.workspaces[i], file, name),
        forall|j: int| 0 <= j < i ==> !stands_for(#[trigger] s.workspaces[j], file, name),
    ensures
        workspace::found(s.workspaces, names::parsed(file), name) == if i < s.workspaces.len() {
            Some(i)
        } else {
            None::<int>
        },
{
    let wanted = workspace::answers_to(names::parsed(file), name);
    assert forall|j: int| 0 <= j < i implies !wanted(#[trigger] s.workspaces[j]) by {
        assert(!stands_for(s.workspaces[j], file, name));
    }
    search::lemma_first_index_is(s.workspaces, wanted, i);
}

/// The first workspace that stands for a name by its own name or by the recorded id is the one
/// that the name leads to, whatever is done with it: going activates it, sending awaits the
/// window for it, making is over, and forgetting unpins it.
pub proof fn law_name_leads_to_the_first_that_stands_for_it(
    s: StateView,
    name: Seq<char>,
    follow: bool,
    file: Seq<char>,
    i: usize,
)
    requires
        i < s.workspaces.len() <= usize::MAX,
        stands_for(s.workspaces[i as int], file, name),
        forall|j: int| 0 <= j < i ==> !stands_for(#[trigger] s.workspaces[j], file, name),
    ensures
        ensured(s, name, Naming::Find, ReplyView::Names(file)) == EnsuredView::Ready(i),
        goto_step(s, name, GotoStage::Name(Naming::Find), ReplyView::Names(file))
            == StepView::Ask(
            GotoStage::Activate,
            ActionView::Activate(s.workspaces[i as int].ext),
        ),
        no_switch_step(s, name, Naming::Find, ReplyView::Names(file)) == StepView::<
            Naming,
        >::Finish(Ok(true)),
        send_step(s, name, follow, SendStage::Name(Naming::Find), ReplyView::Names(file))
            == StepView::Ask(SendStage::Settle(i), ActionView::AwaitFocus),
        forget_step(s, name, ForgetStage::Find, ReplyView::Names(file)) == StepView::Ask(
            ForgetStage::Unpin,
            ActionView::Unpin(s.workspaces[i as int].cosmic),
        ),
{
    lemma_found_is(s, name, file, i as int);
}

/// If no workspace stands for a name, going, sending and making pin the trailing free workspace
/// under that name, or fail for want of one or of its COSMIC handle. Forgetting then writes the
/// names without this one if it was recorded, and otherwise ends with nothing done.
pub proof fn law_unknown_name_takes_the_trailing_workspace(
    s: StateView,
    name: Seq<char>,
    follow: bool,
    file: Seq<char>,
    i: usize,
)
    requires
        s.workspaces.len() <= usize::MAX,
        forall|j: int|
            0 <= j < s.workspaces.len() ==> !stands_for(#[trigger] s.workspaces[j], file, name),
    ensures
        ({
            let step = ensured(s, name, Naming::Find, ReplyView::Names(file));
            let last = s.workspaces[i as int];
            &&& workspace::is_trailing(s.workspaces, i as int) && last.cosmic is Some ==> step
                == EnsuredView::Ask(
                Naming::Pin(i),
                ActionView::Pin { index: i, cosmic: last.cosmic->0, name },
            )
            &&& workspace::is_trailing(s.workspaces, i as int) && last.cosmic is None ==> step
                == EnsuredView::Fail(
                ErrorView::MissingGlobal("zcosmic_workspace_manager_v2 (v2+)"@),
            )
            &&& (forall|j: int|
                0 <= j < s.workspaces.len() ==> !workspace::is_free(#[trigger] s.workspaces[j]))
                ==> step == EnsuredView::Fail(
                ErrorView::Wayland("no unpinned workspace left to name"@),
            )
            &&& !(step is Ready)
        }),
        ({
            let step = forget_step(s, name, ForgetStage::Find, ReplyView::Names(file));
            if names::id_of(names::parsed(file), name) is Some {
                step matches StepView::Ask(ForgetStage::Discard, ActionView::SaveNames(_))
            } else {
                step == StepView::<ForgetStage>::Finish(Ok(false))
            }
        }),
{
    lemma_found_is(s, name, file, s.workspaces.len() as int);
    workspace::law_trailing_is_unique(s.workspaces, i as int);
}

/// A name is looked up before anything is done for it: every task on a workspace begins by
/// reading the names, whatever the state, except that sending a window is refused at once
/// without the manager of windows.
pub proof fn law_tasks_begin_by_reading_the_names(
    s: StateView,
    name: Seq<char>,
    follow: bool,
    reply: ReplyView,
)
    ensures
        goto_step(s, name, GotoStage::Name(Naming::Start), reply) == StepView::Ask(
            GotoStage::Name(Naming::Find),
            ActionView::ReadNames,
        ),
        no_switch_step(s, name, Naming::Start, reply) == StepView::Ask(
            Naming::Find,
            ActionView::ReadNames,
        ),
        forget_step(s, name, ForgetStage::Start, reply) == StepView::Ask(
            ForgetStage::Find,
            ActionView::ReadNames,
        ),
        s.top_manager ==> send_step(s, name, follow, SendStage::Name(Naming::Start), reply)
            == StepView::Ask(SendStage::Name(Naming::Find), ActionView::ReadNames),
        !s.top_manager ==> send_step(s, name, follow, SendStage::Name(Naming::Start), reply)
            == StepView::<SendStage>::Finish(
            Err(ErrorView::MissingGlobal("zcosmic_toplevel_manager_v1 (v4+)"@)),
        ),
{
}

/// A reply that brings no text brings no names, and so does an empty text.
pub proof fn law_only_a_text_brings_names(reply: ReplyView)
    ensures
        !(reply is Names) ==> names_in(reply).len() == 0,
        names_in(ReplyView::Names(seq![])).len() == 0,
        reply matches ReplyView::Names(text) ==> names_in(reply) == names::parsed(text),
{
    let none = Seq::<char>::empty();
    names::law_lines_are_read_apart(none, none, none, none);
    assert(names::parsed(none).len() == 0);
}

/// A workspace that has been pinned is recorded under the name with the id it has got: the
/// names are read again, and what is written holds the new name for that id, in whatever case
/// it is spelled, and every other name as it was, unless that stood for the same id. Only when
/// that has been written is the workspace ready. Without an id nothing is recorded.
pub proof fn law_pinned_workspace_is_recorded(
    s: StateView,
    name: Seq<char>,
    i: usize,
    file: Seq<char>,
    reply: ReplyView,
    spelled: Seq<char>,
    other: Seq<char>,
)
    requires
        i < s.workspaces.len(),
        !(reply is Failed),
        names::storable((name, s.workspaces[i as int].info.id)),
        text::same_letters(spelled, name),
        !text::same_letters(other, name),
    ensures
        ({
            let id = s.workspaces[i as int].info.id;
            &&& id.len() > 0 ==> ensured(s, name, Naming::Pin(i), reply) == EnsuredView::Ask(
                Naming::Record(i),
                ActionView::ReadNames,
            )
            &&& id.len() == 0 ==> ensured(s, name, Naming::Pin(i), reply) == EnsuredView::Fail(
                ErrorView::Wayland("compositor did not pin the workspace"@),
            )
            &&& ensured(s, name, Naming::Record(i), ReplyView::Names(file)) matches
                EnsuredView::Ask(next, ActionView::SaveNames(text))
            &&& next == Naming::Save(i)
            &&& names::id_of(names::parsed(text), spelled) == Some(id)
            &&& names::id_of(names::parsed(file), other) != Some(id) ==> names::id_of(
                names::parsed(text),
                other,
            ) == names::id_of(names::parsed(file), other)
        }),
        ensured(s, name, Naming::Save(i), reply) == EnsuredView::Ready(i),
{
    let id = s.workspaces[i as int].info.id;
    names::law_recorded_name_is_found(file, name, id, spelled);
    names::law_other_names_stay_in_the_file(file, name, id, other);
}

/// The search for a workspace ends only with one that was found or whose name has just been
/// written, and it asks for nothing but reading, pinning and writing, each at its own stage and
/// all for one workspace.
pub proof fn law_naming_goes_one_way(
    s: StateView,
    name: Seq<char>,
    stage: Naming,
    reply: ReplyView,
    i: usize,
    next: Naming,
    action: ActionView,
)
    ensures
        ensured(s, name, stage, reply) == EnsuredView::Ready(i) ==> stage is Find || (stage
            == Naming::Save(i) && !(reply is Failed)),
        ensured(s, name, stage, reply) == EnsuredView::Ask(next, action) ==> match next {
            Naming::Start => false,
            Naming::Find => stage is Start && action is ReadNames,
            Naming::Pin(k) => stage is Find && (action matches ActionView::Pin {
                index,
                name: given,
                ..
            } && index == k && given == name),
            Naming::Record(k) => stage == Naming::Pin(k) && action is ReadNames && !(reply
                is Failed),
            Naming::Save(k) => stage == Naming::Record(k) && action is SaveNames,
        },
{
}

/// Only the workspace whose name has just been written has its name changed, and to that name;
/// nothing else changes on the way, whatever fails.
pub proof fn law_only_the_named_workspace_is_renamed(
    s: StateView,
    name: Seq<char>,
    stage: Naming,
    reply: ReplyView,
    j: int,
)
    requires
        stage.fits(s),
        0 <= j < s.workspaces.len(),
    ensures
        ({
            let after = after_ensured(s, name, stage, reply);
            let w = after.workspaces[j];
            let renamed = !(reply is Failed) && (stage matches Naming::Save(i) && i == j);
            &&& renamed ==> w.info.name == name
            &&& !renamed ==> w.info.name == s.workspaces[j].info.name
            &&& w.info == (WorkspaceView { name: w.info.name, ..s.workspaces[j].info })
            &&& w == (WsEntryView { info: w.info, ..s.workspaces[j] })
            &&& after.workspaces.len() == s.workspaces.len()
            &&& after == (StateView { workspaces: after.workspaces, ..s })
        }),
{
}

/// Going to a workspace ends well only after it was activated, and it activates only the
/// workspace that the search ended with; making one ends well as soon as the search does.
pub proof fn law_going_ends_with_activating(
    s: StateView,
    name: Seq<char>,
    stage: GotoStage,
    reply: ReplyView,
    naming: Naming,
    i: usize,
    done: bool,
)
    ensures
        goto_step(s, name, stage, reply) == StepView::<GotoStage>::Finish(Ok(done)) ==> done
            && stage is Activate && !(reply is Failed),
        !(reply is Failed) ==> goto_step(s, name, GotoStage::Activate, reply) == StepView::<
            GotoStage,
        >::Finish(Ok(true)),
        ensured(s, name, naming, reply) == EnsuredView::Ready(i) ==> goto_step(
            s,
            name,
            GotoStage::Name(naming),
            reply,
        ) == StepView::Ask(
            GotoStage::Activate,
            ActionView::Activate(s.workspaces[i as int].ext),
        ),
        ensured(s, name, naming, reply) is Ready <==> no_switch_step(s, name, naming, reply)
            == StepView::<Naming>::Finish(Ok(true)),
        no_switch_step(s, name, naming, reply) == StepView::<Naming>::Finish(Ok(done)) ==> done,
{
}

/// While the search goes on, every task asks for what the search asks for, and fails as the
/// search fails.
pub proof fn law_tasks_follow_the_search(
    s: StateView,
    name: Seq<char>,
    follow: bool,
    naming: Naming,
    reply: ReplyView,
    next: Naming,
    action: ActionView,
    e: ErrorView,
)
    requires
        naming != Naming::Start,
    ensures
        ensured(s, name, naming, reply) == EnsuredView::Ask(next, action) ==> {
            &&& goto_step(s, name, GotoStage::Name(naming), reply) == StepView::Ask(
                GotoStage::Name(next),
                action,
            )
            &&& no_switch_step(s, name, naming, reply) == StepView::Ask(next, action)
            &&& send_step(s, name, follow, SendStage::Name(naming), reply) == StepView::Ask(
                SendStage::Name(next),
                action,
            )
        },
        ensured(s, name, naming, reply) == EnsuredView::Fail(e) ==> {
            &&& goto_step(s, name, GotoStage::Name(naming), reply) == StepView::<
                GotoStage,
            >::Finish(Err(e))
            &&& no_switch_step(s, name, naming, reply) == StepView::<Naming>::Finish(Err(e))
            &&& send_step(s, name, follow, SendStage::Name(naming), reply) == StepView::<
                SendStage,
            >::Finish(Err(e))
        },
{
}

/// Sending ends with success only after a window has been moved. While the workspace is being
/// found or named it never ends well; as soon as that has come to a workspace, found or newly
/// recorded, the focus is awaited for that one; a window is moved only then, and only to it;
/// and only a window that was moved is followed.
pub proof fn law_sending_succeeds_only_after_moving(
    s: StateView,
    name: Seq<char>,
    follow: bool,
    stage: SendStage,
    reply: ReplyView,
    naming: Naming,
    i: usize,
)
    ensures
        send_step(s, name, follow, SendStage::Name(naming), reply) matches StepView::Finish(outcome)
            ==> outcome is Err,
        ensured(s, name, naming, reply) == EnsuredView::Ready(i) ==> send_step(
            s,
            name,
            follow,
            SendStage::Name(naming),
            reply,
        ) == StepView::Ask(SendStage::Settle(i), ActionView::AwaitFocus),
        send_step(s, name, follow, stage, reply) == StepView::<SendStage>::Finish(Ok(true)) ==> !(
        reply is Failed) && (stage is Activate || (stage is Move && !follow)),
        send_step(s, name, follow, stage, reply) == StepView::<SendStage>::Finish(Ok(false))
            ==> stage is Settle,
        send_step(s, name, follow, stage, reply) matches StepView::Ask(next, action) ==> match next
        {
            SendStage::Name(n) => (stage matches SendStage::Name(m) && (m is Start || ensured(
                s,
                name,
                m,
                reply,
            ) == EnsuredView::Ask(n, action))),
            SendStage::Settle(k) => action is AwaitFocus && (stage matches SendStage::Name(m)
                && ensured(s, name, m, reply) == EnsuredView::Ready(k)),
            SendStage::Move(k) => stage == SendStage::Settle(k) && (action matches
                ActionView::Move { workspace, .. } && workspace == s.workspaces[k as int].ext),
            SendStage::Activate => follow && !(reply is Failed) && (stage matches
                SendStage::Move(k) && action == ActionView::Activate(s.workspaces[k as int].ext)),
        },
{
}

/// The output that a window is moved on is the first that it is shown on; if it is shown on
/// none, the first of the first group of workspaces that is shown anywhere; and otherwise the
/// first there is. There is none only if there is no output anywhere.
pub proof fn law_window_is_moved_on_its_own_output(s: StateView, t: TopView, g: int)
    ensures
        t.outputs.len() > 0 ==> output_for(s, t) == Some(t.outputs[0]),
        t.outputs.len() == 0 && 0 <= g < s.groups.len() && s.groups[g].outputs.len() > 0 && (forall|
            j: int,
        |
            0 <= j < g ==> (#[trigger] s.groups[j]).outputs.len() == 0) ==> output_for(s, t)
            == Some(s.groups[g].outputs[0]),
        t.outputs.len() == 0 && (forall|j: int|
            0 <= j < s.groups.len() ==> (#[trigger] s.groups[j]).outputs.len() == 0)
            && s.outputs.len() > 0 ==> output_for(s, t) == Some(s.outputs[0]),
        output_for(s, t) is None <==> t.outputs.len() == 0 && s.outputs.len() == 0 && (forall|
            j: int,
        |
            0 <= j < s.groups.len() ==> (#[trigger] s.groups[j]).outputs.len() == 0),
{
    let p = has_output();
    search::lemma_first_index(s.groups, p);
    let i = search::first_index(s.groups, p);
    if i < s.groups.len() {
        assert(p(s.groups[i]));
    } else {
        assert forall|j: int| 0 <= j < s.groups.len() implies (#[trigger] s.groups[j]).outputs.len()
            == 0 by {
            assert(!p(s.groups[j]));
        }
    }
    if 0 <= g < s.groups.len() && s.groups[g].outputs.len() > 0 && (forall|j: int|
        0 <= j < g ==> (#[trigger] s.groups[j]).outputs.len() == 0) {
        assert forall|j: int| 0 <= j < g implies !p(#[trigger] s.groups[j]) by {
        }
        search::lemma_first_index_is(s.groups, p, g);
    }
}

/// Once the focus has settled, the first open window that has it and is not Kando's is moved to
/// the workspace that was found, if it can be moved. A window without a COSMIC handle is left,
/// and without an output the move fails. If no window of the user's has the focus, nothing is
/// moved.
pub proof fn law_focused_window_is_sent(
    s: StateView,
    name: Seq<char>,
    follow: bool,
    i: usize,
    reply: ReplyView,
    k: int,
)
    requires
        i < s.workspaces.len(),
        0 <= k <= s.toplevels.len(),
        k < s.toplevels.len() ==> !s.toplevels[k].closed && s.toplevels[k].activated
            && s.toplevels[k].app_id != "menu.kando.Kando"@,
        forall|j: int|
            0 <= j < k && !(#[trigger] s.toplevels[j]).closed && s.toplevels[j].activated
                ==> s.toplevels[j].app_id == "menu.kando.Kando"@,
    ensures
        ({
            let step = send_step(s, name, follow, SendStage::Settle(i), reply);
            let t = s.toplevels[k];
            &&& k == s.toplevels.len() ==> step == StepView::<SendStage>::Finish(Ok(false))
            &&& k < s.toplevels.len() && t.cosmic is None ==> step == StepView::<
                SendStage,
            >::Finish(Ok(false))
            &&& k < s.toplevels.len() && t.cosmic is Some && output_for(s, t) is Some ==> step
                == StepView::Ask(
                SendStage::Move(i),
                ActionView::Move {
                    window: t.cosmic->0,
                    workspace: s.workspaces[i as int].ext,
                    output: output_for(s, t)->0,
                },
            )
            &&& k < s.toplevels.len() && t.cosmic is Some && output_for(s, t) is None ==> step
                == StepView::<SendStage>::Finish(Err(ErrorView::NoOutputs))
        }),
{
    let p = session::is_users_focus();
    assert forall|j: int| 0 <= j < k implies !p(#[trigger] s.toplevels[j]) by {
    }
    search::lemma_first_index_is(s.toplevels, p, k);
}

/// A window that was moved is followed to its workspace exactly if that is asked for, and then
/// the sending has succeeded.
pub proof fn law_moved_window_is_followed_if_asked(
    s: StateView,
    name: Seq<char>,
    i: usize,
    reply: ReplyView,
)
    requires
        i < s.workspaces.len(),
        !(reply is Failed),
    ensures
        send_step(s, name, true, SendStage::Move(i), reply) == StepView::Ask(
            SendStage::Activate,
            ActionView::Activate(s.workspaces[i as int].ext),
        ),
        send_step(s, name, true, SendStage::Activate, reply) == StepView::<SendStage>::Finish(
            Ok(true),
        ),
        send_step(s, name, false, SendStage::Move(i), reply) == StepView::<SendStage>::Finish(
            Ok(true),
        ),
{
}

/// What fails after the names have been found ends the task with that failure, at every stage
/// that asks the compositor for something or writes.
pub proof fn law_failures_end_the_task(
    s: StateView,
    name: Seq<char>,
    follow: bool,
    i: usize,
    e: ErrorView,
)
    ensures
        ensured(s, name, Naming::Pin(i), ReplyView::Failed(e)) == EnsuredView::Fail(e),
        ensured(s, name, Naming::Save(i), ReplyView::Failed(e)) == EnsuredView::Fail(e),
        goto_step(s, name, GotoStage::Activate, ReplyView::Failed(e)) == StepView::<
            GotoStage,
        >::Finish(Err(e)),
        send_step(s, name, follow, SendStage::Move(i), ReplyView::Failed(e)) == StepView::<
            SendStage,
        >::Finish(Err(e)),
        send_step(s, name, follow, SendStage::Activate, ReplyView::Failed(e)) == StepView::<
            SendStage,
        >::Finish(Err(e)),
        forget_step(s, name, ForgetStage::Unpin, ReplyView::Failed(e)) == StepView::<
            ForgetStage,
        >::Finish(Err(e)),
        forget_step(s, name, ForgetStage::Save, ReplyView::Failed(e)) == StepView::<
            ForgetStage,
        >::Finish(Err(e)),
        forget_step(s, name, ForgetStage::Discard, ReplyView::Failed(e)) == StepView::<
            ForgetStage,
        >::Finish(Err(e)),
{
}

/// Forgetting ends with success only when a workspace was found and the names have been written
/// without its name; what is written keeps every other name as it was. It ends with nothing
/// done only if no workspace was found.
pub proof fn law_forgetting_keeps_other_names(
    s: StateView,
    name: Seq<char>,
    stage: ForgetStage,
    reply: ReplyView,
    file: Seq<char>,
    other: Seq<char>,
)
    requires
        !text::same_letters(other, name),
    ensures
        forget_step(s, name, stage, reply) == StepView::<ForgetStage>::Finish(Ok(true)) ==> stage
            is Save && !(reply is Failed),
        forget_step(s, name, stage, reply) == StepView::<ForgetStage>::Finish(Ok(false)) ==> {
            ||| stage is Discard && !(reply is Failed)
            ||| stage is Find && workspace::found(s.workspaces, names_in(reply), name) is None
                && names::id_of(names_in(reply), name) is None
        },
        forget_step(s, name, stage, ReplyView::Names(file)) matches StepView::Ask(
            next,
            ActionView::SaveNames(text),
        ) ==> {
            &&& next == if stage is Drop { ForgetStage::Save } else { ForgetStage::Discard }
            &&& names::id_of(names::parsed(text), name) is None
            &&& names::id_of(names::parsed(text), other) == names::id_of(
                names::parsed(file),
                other,
            )
        },
        !(reply is Failed) ==> {
            &&& forget_step(s, name, ForgetStage::Unpin, reply) == StepView::Ask(
                ForgetStage::Drop,
                ActionView::ReadNames,
            )
            &&& forget_step(s, name, ForgetStage::Save, reply) == StepView::<ForgetStage>::Finish(
                Ok(true),
            )
            &&& forget_step(s, name, ForgetStage::Discard, reply) == StepView::<
                ForgetStage,
            >::Finish(Ok(false))
        },
        forget_step(s, name, ForgetStage::Drop, ReplyView::Names(file)) matches StepView::Ask(
            ForgetStage::Save,
            ActionView::SaveNames(_),
        ),
{
    names::law_forgotten_name_is_not_found(file, name);
    names::law_other_names_stay_in_the_file(file, name, seq![], other);
}

/// Names that could not be read are no names: whatever reply comes in place of a text, the
/// tasks go on as they do with an empty one.
pub proof fn law_unread_names_are_no_names(
    s: StateView,
    name: Seq<char>,
    i: usize,
    reply: ReplyView,
)
    requires
        !(reply is Names),
    ensures
        ensured(s, name, Naming::Find, reply) == ensured(
            s,
            name,
            Naming::Find,
            ReplyView::Names(seq![]),
        ),
        ensured(s, name, Naming::Record(i), reply) == ensured(
            s,
            name,
            Naming::Record(i),
            ReplyView::Names(seq![]),
        ),
        forget_step(s, name, ForgetStage::Find, reply) == forget_step(
            s,
            name,
            ForgetStage::Find,
            ReplyView::Names(seq![]),
        ),
        forget_step(s, name, ForgetStage::Drop, reply) == forget_step(
            s,
            name,
            ForgetStage::Drop,
            ReplyView::Names(seq![]),
        ),
{
}

/// What happened in one step of sending: the state that it was taken in, its stage, and the
/// reply that it got.
pub struct Sent {
    pub state: StateView,
    pub stage: SendStage,
    pub reply: ReplyView,
}

/// The step that was taken then.
pub open spec fn sent_step(name: Seq<char>, follow: bool, m: Sent) -> StepView<SendStage> {
    send_step(m.state, name, follow, m.stage, m.reply)
}

/// Whether these are the steps of one sending from its beginning on: each one asks for the
/// stage of the next.
pub open spec fn is_sending(name: Seq<char>, follow: bool, run: Seq<Sent>) -> bool {
    &&& run.len() > 0
    &&& run[0].stage == SendStage::Name(Naming::Start)
    &&& forall|j: int, k: int|
        #![trigger run[j], run[k]]
        0 <= j && k == j + 1 && k < run.len() ==> (sent_step(name, follow, run[j]) matches
            StepView::Ask(next, _) && next == run[k].stage)
}

/// Whatever the compositor tells meanwhile and whatever it replies, a sending that ends with
/// success has asked for a window to be moved, and if the window was to be followed, it has
/// asked for a workspace to be activated after that.
pub proof fn law_every_successful_sending_moves_a_window(
    name: Seq<char>,
    follow: bool,
    run: Seq<Sent>,
) -> (k: int)
    requires
        is_sending(name, follow, run),
        sent_step(name, follow, run.last()) == StepView::<SendStage>::Finish(Ok(true)),
    ensures
        0 <= k < run.len() - 1,
        sent_step(name, follow, run[k]) matches StepView::Ask(_, ActionView::Move { .. }),
        follow ==> k + 1 < run.len() - 1 && (sent_step(name, follow, run[k + 1]) matches
            StepView::Ask(_, ActionView::Activate(_))),
{
    let n = run.len() - 1;
    assert(run[n] == run.last());
    if run[n].stage is Activate {
        assert(sent_step(name, follow, run[n - 1]) matches StepView::Ask(next, _) && next
            == run[n].stage);
        assert(run[n - 1].stage is Move);
        assert(sent_step(name, follow, run[n - 2]) matches StepView::Ask(next, _) && next
            == run[n - 1].stage);
        n - 2
    } else {
        assert(run[n].stage is Move);
        assert(sent_step(name, follow, run[n - 1]) matches StepView::Ask(next, _) && next
            == run[n].stage);
        n - 1
    }
}

/// What happened in one step of going.
pub struct Gone {
    pub state: StateView,
    pub stage: GotoStage,
    pub reply: ReplyView,
}

/// The step that was taken then.
pub open spec fn gone_step(name: Seq<char>, m: Gone) -> StepView<GotoStage> {
    goto_step(m.state, name, m.stage, m.reply)
}

/// Whether these are the steps of one way to a workspace from its beginning on.
pub open spec fn is_going(name: Seq<char>, run: Seq<Gone>) -> bool {
    &&& run.len() > 0
    &&& run[0].stage == GotoStage::Name(Naming::Start)
    &&& forall|j: int, k: int|
        #![trigger run[j], run[k]]
        0 <= j && k == j + 1 && k < run.len() ==> (gone_step(name, run[j]) matches StepView::Ask(
            next,
            _,
        ) && next == run[k].stage)
}

/// A way that ends well has just asked for a workspace to be activated, the one that the search
/// for the name had come to; and it never ends with nothing done.
pub proof fn law_every_successful_way_activates_a_workspace(
    name: Seq<char>,
    run: Seq<Gone>,
    done: bool,
)
    requires
        is_going(name, run),
        gone_step(name, run.last()) == StepView::<GotoStage>::Finish(Ok(done)),
    ensures
        done,
        run.len() > 2,
        ({
            let before = run[run.len() - 2];
            &&& before.stage matches GotoStage::Name(naming)
            &&& ensured(before.state, name, naming, before.reply) matches EnsuredView::Ready(i)
            &&& gone_step(name, before) == StepView::Ask(
                GotoStage::Activate,
                ActionView::Activate(before.state.workspaces[i as int].ext),
            )
        }),
{
    let n = run.len() - 1;
    assert(run[n] == run.last());
    assert(gone_step(name, run[n - 1]) matches StepView::Ask(next, _) && next == run[n].stage);
    if n == 1 {
        assert(run[0].stage == GotoStage::Name(Naming::Start));
    }
}

/// What happened in one step of forgetting.
pub struct Forgotten {
    pub state: StateView,
    pub stage: ForgetStage,
    pub reply: ReplyView,
}

/// The step that was taken then.
pub open spec fn forgotten_step(name: Seq<char>, m: Forgotten) -> StepView<ForgetStage> {
    forget_step(m.state, name, m.stage, m.reply)
}

/// Whether these are the steps of one forgetting from its beginning on.
pub open spec fn is_forgetting(name: Seq<char>, run: Seq<Forgotten>) -> bool {
    &&& run.len() > 0
    &&& run[0].stage == ForgetStage::Start
    &&& forall|j: int, k: int|
        #![trigger run[j], run[k]]
        0 <= j && k == j + 1 && k < run.len() ==> (forgotten_step(name, run[j]) matches
            StepView::Ask(next, _) && next == run[k].stage)
}

/// A forgetting that ends with success has read the names, asked for a workspace to be
/// unpinned, read the names once more, and written them; one that ends with nothing done has
/// unpinned nothing.
pub proof fn law_every_successful_forgetting_unpins_and_writes(
    name: Seq<char>,
    run: Seq<Forgotten>,
    done: bool,
)
    requires
        is_forgetting(name, run),
        forgotten_step(name, run.last()) == StepView::<ForgetStage>::Finish(Ok(done)),
    ensures
        forgotten_step(name, run[0]) == StepView::Ask(ForgetStage::Find, ActionView::ReadNames),
        done ==> {
            &&& run.len() == 5
            &&& forgotten_step(name, run[1]) matches StepView::Ask(_, ActionView::Unpin(_))
            &&& forgotten_step(name, run[2]) matches StepView::Ask(_, ActionView::ReadNames)
            &&& forgotten_step(name, run[3]) matches StepView::Ask(_, ActionView::SaveNames(_))
        },
        !done ==> run.len() <= 3 && (run.len() == 3 ==> (forgotten_step(name, run[1]) matches
            StepView::Ask(_, ActionView::SaveNames(_)))),
{
    let n = run.len() - 1;
    assert(run[n] == run.last());
    assert(n > 0);
    assert(run[1].stage is Find);
    if n > 1 {
        assert(forgotten_step(name, run[1]) matches StepView::Ask(next, _) && next
            == run[2].stage);
        if n > 2 {
            assert(forgotten_step(name, run[2]) matches StepView::Ask(next, _) && next
                == run[3].stage);
            if n > 3 {
                assert(forgotten_step(name, run[3]) matches StepView::Ask(next, _) && next
                    == run[4].stage);
                if n > 4 {
                    assert(run[4].stage is Save);
                    assert(forgotten_step(name, run[4]) matches StepView::Ask(next, _) && next
                        == run[5].stage);
                }
            }
        }
    }
}

/// Whatever the name is, a workspace that has got an id is recorded with it, and one that has
/// got none is not; what is written are the names just read, with this one given to the id.
pub proof fn law_pinning_leads_to_recording(
    s: StateView,
    name: Seq<char>,
    i: usize,
    reply: ReplyView,
)
    requires
        i < s.workspaces.len(),
    ensures
        !(reply is Failed) && s.workspaces[i as int].info.id.len() > 0 ==> ensured(
            s,
            name,
            Naming::Pin(i),
            reply,
        ) == EnsuredView::Ask(Naming::Record(i), ActionView::ReadNames),
        !(reply is Failed) && s.workspaces[i as int].info.id.len() == 0 ==> ensured(
            s,
            name,
            Naming::Pin(i),
            reply,
        ) is Fail,
        ensured(s, name, Naming::Record(i), reply) matches EnsuredView::Ask(
            next,
            ActionView::SaveNames(text),
        ) && next == Naming::Save(i) && text == names::rendered(
            names::with_entry(names_in(reply), name, s.workspaces[i as int].info.id),
        ),
        !(reply is Failed) ==> ensured(s, name, Naming::Save(i), reply) == EnsuredView::Ready(i),
{
}

} // verus!
