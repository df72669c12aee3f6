//! What the compositor tells of workspaces and of the windows on them.

use crate::error::{Error, ErrorView};
use crate::number;
use crate::search;
use crate::text;
use crate::toplevel;
use crate::wire;
use crate::wire::WindowState;
use vstd::prelude::*;

verus! {

/// How many milliseconds to wait for a description of the workspaces and windows.
pub const SYNC_TIMEOUT: u64 = 1500;

/// How many milliseconds to wait for the focus to return to the user's window.
pub const FOCUS_SETTLE_TIMEOUT: u64 = 700;

/// A workspace.
#[derive(Debug)]
pub struct Workspace {
    pub name: String,
    pub id: String,
    pub coordinates: Vec<u32>,
    pub active: bool,
    /// The bits of the requests that COSMIC offers for it.
    pub cosmic_caps: u32,
    /// Its COSMIC flags.
    pub cosmic_state: u32,
}

/// What a `Workspace` holds.
#[verifier::ext_equal]
pub struct WorkspaceView {
    pub name: Seq<char>,
    pub id: Seq<char>,
    pub coordinates: Seq<u32>,
    pub active: bool,
    pub cosmic_caps: u32,
    pub cosmic_state: u32,
}

impl View for Workspace {
    type V = WorkspaceView;

    open spec fn view(&self) -> WorkspaceView {
        WorkspaceView {
            name: self.name@,
            id: self.id@,
            coordinates: self.coordinates@,
            active: self.active,
            cosmic_caps: self.cosmic_caps,
            cosmic_state: self.cosmic_state,
        }
    }
}

/// A workspace of which nothing is known yet.
pub open spec fn unknown_workspace() -> WorkspaceView {
    WorkspaceView {
        name: seq![],
        id: seq![],
        coordinates: seq![],
        active: false,
        cosmic_caps: 0,
        cosmic_state: 0,
    }
}

impl Default for Workspace {
    fn default() -> (r: Self)
        ensures
            r@ == unknown_workspace(),
    {
        Workspace {
            name: String::new(),
            id: String::new(),
            coordinates: Vec::new(),
            active: false,
            cosmic_caps: 0,
            cosmic_state: 0,
        }
    }
}

impl Clone for Workspace {
    fn clone(&self) -> (r: Self)
        ensures
            r@ == self@,
    {
        let r = Workspace {
            name: self.name.clone(),
            id: self.id.clone(),
            coordinates: self.coordinates.clone(),
            active: self.active,
            cosmic_caps: self.cosmic_caps,
            cosmic_state: self.cosmic_state,
        };
        assert(r@ =~= self@);
        r
    }
}

/// A workspace and what is known of it beside its description.
pub struct WsEntry {
    pub info: Workspace,
    /// The object id of its handle.
    pub ext: u32,
    /// The object id of its COSMIC handle.
    pub cosmic: Option<u32>,
    pub removed: bool,
}

/// What a `WsEntry` holds.
#[verifier::ext_equal]
pub struct WsEntryView {
    pub info: WorkspaceView,
    pub ext: u32,
    pub cosmic: Option<u32>,
    pub removed: bool,
}

impl View for WsEntry {
    type V = WsEntryView;

    open spec fn view(&self) -> WsEntryView {
        WsEntryView {
            info: self.info@,
            ext: self.ext,
            cosmic: self.cosmic,
            removed: self.removed,
        }
    }
}

/// A group of workspaces, and the outputs it is shown on, all by their object ids.
pub struct Group {
    pub handle: u32,
    pub outputs: Vec<u32>,
    pub workspaces: Vec<u32>,
    pub can_create: bool,
}

/// What a `Group` holds.
#[verifier::ext_equal]
pub struct GroupView {
    pub handle: u32,
    pub outputs: Seq<u32>,
    pub workspaces: Seq<u32>,
    pub can_create: bool,
}

impl View for Group {
    type V = GroupView;

    open spec fn view(&self) -> GroupView {
        GroupView {
            handle: self.handle,
            outputs: self.outputs@,
            workspaces: self.workspaces@,
            can_create: self.can_create,
        }
    }
}

/// A window, and the outputs it is shown on.
pub struct Top {
    pub ext: u32,
    pub cosmic: Option<u32>,
    pub app_id: String,
    pub title: String,
    pub activated: bool,
    pub outputs: Vec<u32>,
    pub closed: bool,
}

/// What a `Top` holds.
#[verifier::ext_equal]
pub struct TopView {
    pub ext: u32,
    pub cosmic: Option<u32>,
    pub app_id: Seq<char>,
    pub title: Seq<char>,
    pub activated: bool,
    pub outputs: Seq<u32>,
    pub closed: bool,
}

impl View for Top {
    type V = TopView;

    open spec fn view(&self) -> TopView {
        TopView {
            ext: self.ext,
            cosmic: self.cosmic,
            app_id: self.app_id@,
            title: self.title@,
            activated: self.activated,
            outputs: self.outputs@,
            closed: self.closed,
        }
    }
}

/// Workspaces and windows as far as the compositor has told of them.
pub struct State {
    pub ws_manager: bool,
    pub cosmic_ws_manager: bool,
    pub top_manager: bool,
    pub top_list: bool,
    pub top_info: bool,
    pub outputs: Vec<u32>,
    pub groups: Vec<Group>,
    pub workspaces: Vec<WsEntry>,
    pub toplevels: Vec<Top>,
    pub ws_done: bool,
    pub top_done: bool,
}

/// What a `State` holds.
#[verifier::ext_equal]
pub struct StateView {
    pub ws_manager: bool,
    pub cosmic_ws_manager: bool,
    pub top_manager: bool,
    pub top_list: bool,
    pub top_info: bool,
    pub outputs: Seq<u32>,
    pub groups: Seq<GroupView>,
    pub workspaces: Seq<WsEntryView>,
    pub toplevels: Seq<TopView>,
    pub ws_done: bool,
    pub top_done: bool,
}

impl View for State {
    type V = StateView;

    open spec fn view(&self) -> StateView {
        StateView {
            ws_manager: self.ws_manager,
            cosmic_ws_manager: self.cosmic_ws_manager,
            top_manager: self.top_manager,
            top_list: self.top_list,
            top_info: self.top_info,
            outputs: self.outputs@,
            groups: self.groups@.map_values(|g: Group| g@),
            workspaces: self.workspaces@.map_values(|w: WsEntry| w@),
            toplevels: self.toplevels@.map_values(|t: Top| t@),
            ws_done: self.ws_done,
            top_done: self.top_done,
        }
    }
}

/// A state in which nothing has been heard of the compositor yet.
pub open spec fn silent() -> StateView {
    StateView {
        ws_manager: false,
        cosmic_ws_manager: false,
        top_manager: false,
        top_list: false,
        top_info: false,
        outputs: seq![],
        groups: seq![],
        workspaces: seq![],
        toplevels: seq![],
        ws_done: false,
        top_done: false,
    }
}

/// A global of the compositor that is used for workspaces.
#[derive(Debug, Clone, Copy, PartialEq, Eq, Structural)]
pub enum Global {
    Output,
    WsManager,
    CosmicWsManager,
    TopManager,
    TopList,
    TopInfo,
}

/// A global to bind, and the version to bind it with.
#[derive(Debug, Clone, Copy, PartialEq, Eq, Structural)]
pub struct Binding {
    pub global: Global,
    pub version: u32,
}

/// What the compositor says of a group of workspaces.
pub enum GroupEvent {
    Capabilities(u32),
    OutputEnter(u32),
    OutputLeave(u32),
    WorkspaceEnter(u32),
    WorkspaceLeave(u32),
}

/// What the compositor says of a workspace.
pub enum WorkspaceEvent {
    Id(String),
    Name(String),
    Coordinates(Vec<u32>),
    State(u32),
    Removed,
}

/// What COSMIC says of a workspace.
pub enum CosmicEvent {
    Capabilities(u32),
    State(u32),
}

/// What the compositor says of a window.
pub enum TopEvent {
    Title(String),
    AppId(String),
    Closed,
}

/// What COSMIC says of a window.
pub enum CosmicTopEvent {
    States(Vec<u32>),
    OutputEnter(u32),
    OutputLeave(u32),
}

/// Which global an announced interface is bound as; COSMIC's are taken from the version on
/// that has the requests needed.
pub open spec fn binding(interface: Seq<char>, version: u32) -> Option<Binding> {
    if interface == "wl_output"@ {
        Some(Binding { global: Global::Output, version: number::least(version, 4) })
    } else if interface == "ext_workspace_manager_v1"@ {
        Some(Binding { global: Global::WsManager, version: 1 })
    } else if interface == "zcosmic_workspace_manager_v2"@ && version >= 2 {
        Some(Binding { global: Global::CosmicWsManager, version: 2 })
    } else if interface == "zcosmic_toplevel_manager_v1"@ && version >= 4 {
        Some(Binding { global: Global::TopManager, version: 4 })
    } else if interface == "ext_foreign_toplevel_list_v1"@ {
        Some(Binding { global: Global::TopList, version: 1 })
    } else if interface == "zcosmic_toplevel_info_v1"@ && version >= 2 {
        Some(Binding { global: Global::TopInfo, version: number::least(version, 3) })
    } else {
        None
    }
}

/// The state after a global has been bound.
pub open spec fn with_global(s: StateView, global: Global) -> StateView {
    match global {
        Global::Output => s,
        Global::WsManager => StateView { ws_manager: true, ..s },
        Global::CosmicWsManager => StateView { cosmic_ws_manager: true, ..s },
        Global::TopManager => StateView { top_manager: true, ..s },
        Global::TopList => StateView { top_list: true, ..s },
        Global::TopInfo => StateView { top_info: true, ..s },
    }
}

/// Whether a number is not `id`.
pub open spec fn other_than(id: u32) -> spec_fn(u32) -> bool {
    |o: u32| o != id
}

/// Whether a group has a handle.
pub open spec fn is_group(handle: u32) -> spec_fn(GroupView) -> bool {
    |g: GroupView| g.handle == handle
}

/// Whether a workspace has a handle.
pub open spec fn is_workspace(ext: u32) -> spec_fn(WsEntryView) -> bool {
    |w: WsEntryView| w.ext == ext
}

/// Whether a workspace has a COSMIC handle.
pub open spec fn is_cosmic_workspace(cosmic: u32) -> spec_fn(WsEntryView) -> bool {
    |w: WsEntryView| w.cosmic == Some(cosmic)
}

/// Whether a window has a handle.
pub open spec fn is_top(ext: u32) -> spec_fn(TopView) -> bool {
    |t: TopView| t.ext == ext
}

/// Whether a window has a COSMIC handle.
pub open spec fn is_cosmic_top(cosmic: u32) -> spec_fn(TopView) -> bool {
    |t: TopView| t.cosmic == Some(cosmic)
}

/// A sequence with its first element that has a property replaced; the same if none has it.
pub open spec fn with_first<T>(s: Seq<T>, p: spec_fn(T) -> bool, f: spec_fn(T) -> T) -> Seq<T> {
    let i = search::first_index(s, p);
    if i < s.len() {
        s.update(i, f(s[i]))
    } else {
        s
    }
}

/// A group after an event.
pub open spec fn group_after(event: GroupEvent) -> spec_fn(GroupView) -> GroupView {
    |g: GroupView|
        match event {
            GroupEvent::Capabilities(raw) => GroupView {
                can_create: raw == wire::GROUP_CREATE_WORKSPACE,
                ..g
            },
            GroupEvent::OutputEnter(id) => GroupView { outputs: g.outputs.push(id), ..g },
            GroupEvent::OutputLeave(id) => GroupView {
                outputs: g.outputs.filter(other_than(id)),
                ..g
            },
            GroupEvent::WorkspaceEnter(id) => GroupView { workspaces: g.workspaces.push(id), ..g },
            GroupEvent::WorkspaceLeave(id) => GroupView {
                workspaces: g.workspaces.filter(other_than(id)),
                ..g
            },
        }
}

/// A workspace after an event.
pub open spec fn workspace_after(event: WorkspaceEvent) -> spec_fn(WsEntryView) -> WsEntryView {
    |w: WsEntryView|
        match event {
            WorkspaceEvent::Id(id) => WsEntryView {
                info: WorkspaceView { id: id@, ..w.info },
                ..w
            },
            WorkspaceEvent::Name(name) => WsEntryView {
                info: WorkspaceView { name: name@, ..w.info },
                ..w
            },
            WorkspaceEvent::Coordinates(coordinates) => WsEntryView {
                info: WorkspaceView { coordinates: coordinates@, ..w.info },
                ..w
            },
            WorkspaceEvent::State(raw) => WsEntryView {
                info: WorkspaceView {
                    active: wire::known(raw, wire::WORKSPACE_FLAGS) is Some && raw
                        & wire::WORKSPACE_ACTIVE != 0,
                    ..w.info
                },
                ..w
            },
            WorkspaceEvent::Removed => WsEntryView { removed: true, ..w },
        }
}

/// A workspace after an event from COSMIC; numbers with unknown bits count as none.
pub open spec fn cosmic_after(event: CosmicEvent) -> spec_fn(WsEntryView) -> WsEntryView {
    |w: WsEntryView|
        match event {
            CosmicEvent::Capabilities(raw) => WsEntryView {
                info: WorkspaceView {
                    cosmic_caps: match wire::known(raw, wire::COSMIC_WORKSPACE_REQUESTS) {
                        Some(flags) => flags,
                        None => 0,
                    },
                    ..w.info
                },
                ..w
            },
            CosmicEvent::State(raw) => WsEntryView {
                info: WorkspaceView {
                    cosmic_state: if raw == wire::PINNED {
                        wire::PINNED
                    } else {
                        0
                    },
                    ..w.info
                },
                ..w
            },
        }
}

/// A window after an event.
pub open spec fn top_after(event: TopEvent) -> spec_fn(TopView) -> TopView {
    |t: TopView|
        match event {
            TopEvent::Title(title) => TopView { title: title@, ..t },
            TopEvent::AppId(app_id) => TopView { app_id: app_id@, ..t },
            TopEvent::Closed => TopView { closed: true, ..t },
        }
}

/// A window after an event from COSMIC.
pub open spec fn cosmic_top_after(event: CosmicTopEvent) -> spec_fn(TopView) -> TopView {
    |t: TopView|
        match event {
            CosmicTopEvent::States(states) => TopView {
                activated: states@.contains(wire::window_state_code(WindowState::Activated)),
                ..t
            },
            CosmicTopEvent::OutputEnter(id) => TopView { outputs: t.outputs.push(id), ..t },
            CosmicTopEvent::OutputLeave(id) => TopView {
                outputs: t.outputs.filter(other_than(id)),
                ..t
            },
        }
}

/// A group that has just been announced.
pub open spec fn new_group(handle: u32) -> GroupView {
    GroupView { handle, outputs: seq![], workspaces: seq![], can_create: false }
}

/// A workspace that has just been announced.
pub open spec fn new_workspace(ext: u32, cosmic: Option<u32>) -> WsEntryView {
    WsEntryView { info: unknown_workspace(), ext, cosmic, removed: false }
}

/// A window that has just been announced.
pub open spec fn new_top(ext: u32, cosmic: Option<u32>) -> TopView {
    TopView {
        ext,
        cosmic,
        app_id: seq![],
        title: seq![],
        activated: false,
        outputs: seq![],
        closed: false,
    }
}

/// Whether an open window that is not Kando's has the focus.
pub open spec fn is_users_focus() -> spec_fn(TopView) -> bool {
    |t: TopView| !t.closed && t.activated && t.app_id != toplevel::kando_app_id()
}

fn without(v: &Vec<u32>, id: u32) -> (r: Vec<u32>)
    ensures
        r@ == v@.filter(other_than(id)),
{
    let mut r: Vec<u32> = Vec::new();
    let mut i: usize = 0;
    proof {
        reveal(Seq::filter);
    }
    assert(v@.take(0).filter(other_than(id)) =~= r@);
    while i < v.len()
        invariant
            i <= v@.len(),
            r@ == v@.take(i as int).filter(other_than(id)),
        decreases v@.len() - i,
    {
        proof {
            reveal(Seq::filter);
        }
        assert(v@.take(i + 1).drop_last() =~= v@.take(i as int));
        if v[i] != id {
            r.push(v[i]);
        }
        i += 1;
    }
    assert(v@.take(i as int) =~= v@);
    r
}

impl State {
    /// A state in which nothing has been heard of the compositor yet.
    pub fn new() -> (r: State)
        ensures
            r@ == silent(),
    {
        let r = State {
            ws_manager: false,
            cosmic_ws_manager: false,
            top_manager: false,
            top_list: false,
            top_info: false,
            outputs: Vec::new(),
            groups: Vec::new(),
            workspaces: Vec::new(),
            toplevels: Vec::new(),
            ws_done: false,
            top_done: false,
        };
        assert(r@ =~= silent());
        r
    }

    /// The compositor announced a global.
    pub fn global(&mut self, interface: &str, version: u32) -> (r: Option<Binding>)
        ensures
            r == binding(interface@, version),
            final(self)@ == match r {
                Some(b) => with_global(old(self)@, b.global),
                None => old(self)@,
            },
    {
        if text::same(interface, "wl_output") {
            Some(Binding { global: Global::Output, version: number::lesser(version, 4) })
        } else if text::same(interface, "ext_workspace_manager_v1") {
            self.ws_manager = true;
            Some(Binding { global: Global::WsManager, version: 1 })
        } else if text::same(interface, "zcosmic_workspace_manager_v2") && version >= 2 {
            self.cosmic_ws_manager = true;
            Some(Binding { global: Global::CosmicWsManager, version: 2 })
        } else if text::same(interface, "zcosmic_toplevel_manager_v1") && version >= 4 {
            self.top_manager = true;
            Some(Binding { global: Global::TopManager, version: 4 })
        } else if text::same(interface, "ext_foreign_toplevel_list_v1") {
            self.top_list = true;
            Some(Binding { global: Global::TopList, version: 1 })
        } else if text::same(interface, "zcosmic_toplevel_info_v1") && version >= 2 {
            self.top_info = true;
            Some(Binding { global: Global::TopInfo, version: number::lesser(version, 3) })
        } else {
            None
        }
    }

    /// An output has been bound.
    pub fn output_bound(&mut self, id: u32)
        ensures
            final(self)@ == (StateView { outputs: old(self)@.outputs.push(id), ..old(self)@ }),
    {
        self.outputs.push(id);
    }

    /// The compositor announced a group of workspaces.
    pub fn group_announced(&mut self, handle: u32)
        ensures
            final(self)@ == (StateView {
                groups: old(self)@.groups.push(new_group(handle)),
                ..old(self)@
            }),
    {
        let group = Group {
            handle,
            outputs: Vec::new(),
            workspaces: Vec::new(),
            can_create: false,
        };
        assert(group@ =~= new_group(handle));
        self.groups.push(group);
        assert(self@.groups =~= old(self)@.groups.push(new_group(handle)));
    }

    /// The compositor announced a workspace; `cosmic` is its COSMIC handle, if it was asked
    /// for.
    pub fn workspace_announced(&mut self, ext: u32, cosmic: Option<u32>)
        ensures
            final(self)@ == (StateView {
                workspaces: old(self)@.workspaces.push(new_workspace(ext, cosmic)),
                ..old(self)@
            }),
    {
        self.workspaces.push(
            WsEntry { info: Workspace::default(), ext, cosmic, removed: false },
        );
        assert(self@.workspaces =~= old(self)@.workspaces.push(new_workspace(ext, cosmic)));
    }

    /// The compositor announced a window; `cosmic` is its COSMIC handle, if it was asked for.
    pub fn toplevel_announced(&mut self, ext: u32, cosmic: Option<u32>)
        ensures
            final(self)@ == (StateView {
                toplevels: old(self)@.toplevels.push(new_top(ext, cosmic)),
                ..old(self)@
            }),
    {
        let top = Top {
            ext,
            cosmic,
            app_id: String::new(),
            title: String::new(),
            activated: false,
            outputs: Vec::new(),
            closed: false,
        };
        assert(top@ =~= new_top(ext, cosmic));
        self.toplevels.push(top);
        assert(self@.toplevels =~= old(self)@.toplevels.push(new_top(ext, cosmic)));
    }

    /// The compositor has told of every workspace.
    pub fn workspaces_told(&mut self)
        ensures
            final(self)@ == (StateView { ws_done: true, ..old(self)@ }),
    {
        self.ws_done = true;
    }

    /// The compositor has told of every window.
    pub fn toplevels_told(&mut self)
        ensures
            final(self)@ == (StateView { top_done: true, ..old(self)@ }),
    {
        self.top_done = true;
    }

    /// The compositor told something of a group; groups that are not known are ignored.
    pub fn group_event(&mut self, handle: u32, event: GroupEvent)
        ensures
            final(self)@ == (StateView {
                groups: with_first(old(self)@.groups, is_group(handle), group_after(event)),
                ..old(self)@
            }),
    {
        let ghost groups = self@.groups;
        let mut i: usize = 0;
        while i < self.groups.len() && self.groups[i].handle != handle
            invariant
                i <= self.groups@.len(),
                *self == *old(self),
                groups == self@.groups,
                forall|j: int| 0 <= j < i ==> !is_group(handle)(#[trigger] groups[j]),
            decreases self.groups@.len() - i,
        {
            assert(groups[i as int] == self.groups@[i as int]@);
            i += 1;
        }
        proof {
            if i < self.groups@.len() {
                assert(groups[i as int] == self.groups@[i as int]@);
            }
            search::lemma_first_index_is(groups, is_group(handle), i as int);
        }
        if i < self.groups.len() {
            match event {
                GroupEvent::Capabilities(raw) => {
                    self.groups[i].can_create = wire::can_create_workspace(raw);
                },
                GroupEvent::OutputEnter(id) => self.groups[i].outputs.push(id),
                GroupEvent::OutputLeave(id) => {
                    let outputs = without(&self.groups[i].outputs, id);
                    self.groups[i].outputs = outputs;
                },
                GroupEvent::WorkspaceEnter(id) => self.groups[i].workspaces.push(id),
                GroupEvent::WorkspaceLeave(id) => {
                    let workspaces = without(&self.groups[i].workspaces, id);
                    self.groups[i].workspaces = workspaces;
                },
            }
            assert(self@.groups[i as int] =~= group_after(event)(groups[i as int]));
        }
        assert(self@.groups =~= with_first(groups, is_group(handle), group_after(event)));
    }

    fn workspace_index(&self, ext: u32) -> (r: usize)
        ensures
            r == search::first_index(self@.workspaces, is_workspace(ext)),
            r <= self.workspaces@.len(),
    {
        let ghost workspaces = self@.workspaces;
        let mut i: usize = 0;
        while i < self.workspaces.len() && self.workspaces[i].ext != ext
            invariant
                i <= self.workspaces@.len(),
                workspaces == self@.workspaces,
                forall|j: int| 0 <= j < i ==> !is_workspace(ext)(#[trigger] workspaces[j]),
            decreases self.workspaces@.len() - i,
        {
            assert(workspaces[i as int] == self.workspaces@[i as int]@);
            i += 1;
        }
        proof {
            if i < self.workspaces@.len() {
                assert(workspaces[i as int] == self.workspaces@[i as int]@);
            }
            search::lemma_first_index_is(workspaces, is_workspace(ext), i as int);
        }
        i
    }

    /// The compositor told something of a workspace; workspaces that are not known are
    /// ignored.
    pub fn workspace_event(&mut self, ext: u32, event: WorkspaceEvent)
        ensures
            final(self)@ == (StateView {
                workspaces: with_first(
                    old(self)@.workspaces,
                    is_workspace(ext),
                    workspace_after(event),
                ),
                ..old(self)@
            }),
    {
        let ghost workspaces = self@.workspaces;
        let i = self.workspace_index(ext);
        if i < self.workspaces.len() {
            match event {
                WorkspaceEvent::Id(id) => self.workspaces[i].info.id = id,
                WorkspaceEvent::Name(name) => self.workspaces[i].info.name = name,
                WorkspaceEvent::Coordinates(coordinates) => {
                    self.workspaces[i].info.coordinates = coordinates;
                },
                WorkspaceEvent::State(raw) => {
                    self.workspaces[i].info.active = wire::is_active(raw);
                },
                WorkspaceEvent::Removed => self.workspaces[i].removed = true,
            }
            assert(self@.workspaces[i as int] =~= workspace_after(event)(workspaces[i as int]));
        }
        assert(self@.workspaces =~= with_first(
            workspaces,
            is_workspace(ext),
            workspace_after(event),
        ));
    }

    /// COSMIC told something of a workspace; workspaces that are not known are ignored.
    pub fn cosmic_event(&mut self, cosmic: u32, event: CosmicEvent)
        ensures
            final(self)@ == (StateView {
                workspaces: with_first(
                    old(self)@.workspaces,
                    is_cosmic_workspace(cosmic),
                    cosmic_after(event),
                ),
                ..old(self)@
            }),
    {
        let ghost workspaces = self@.workspaces;
        let mut i: usize = 0;
        while i < self.workspaces.len() && !(self.workspaces[i].cosmic == Some(cosmic))
            invariant
                i <= self.workspaces@.len(),
                *self == *old(self),
                workspaces == self@.workspaces,
                forall|j: int|
                    0 <= j < i ==> !is_cosmic_workspace(cosmic)(#[trigger] workspaces[j]),
            decreases self.workspaces@.len() - i,
        {
            assert(workspaces[i as int] == self.workspaces@[i as int]@);
            i += 1;
        }
        proof {
            if i < self.workspaces@.len() {
                assert(workspaces[i as int] == self.workspaces@[i as int]@);
            }
            search::lemma_first_index_is(workspaces, is_cosmic_workspace(cosmic), i as int);
        }
        if i < self.workspaces.len() {
            match event {
                CosmicEvent::Capabilities(raw) => {
                    self.workspaces[i].info.cosmic_caps = wire::cosmic_requests(raw);
                },
                CosmicEvent::State(raw) => {
                    self.workspaces[i].info.cosmic_state = wire::cosmic_state(raw);
                },
            }
            assert(self@.workspaces[i as int] =~= cosmic_after(event)(workspaces[i as int]));
        }
        assert(self@.workspaces =~= with_first(
            workspaces,
            is_cosmic_workspace(cosmic),
            cosmic_after(event),
        ));
    }

    /// The compositor told something of a window; windows that are not known are ignored.
    pub fn top_event(&mut self, ext: u32, event: TopEvent)
        ensures
            final(self)@ == (StateView {
                toplevels: with_first(old(self)@.toplevels, is_top(ext), top_after(event)),
                ..old(self)@
            }),
    {
        let ghost toplevels = self@.toplevels;
        let mut i: usize = 0;
        while i < self.toplevels.len() && self.toplevels[i].ext != ext
            invariant
                i <= self.toplevels@.len(),
                *self == *old(self),
                toplevels == self@.toplevels,
                forall|j: int| 0 <= j < i ==> !is_top(ext)(#[trigger] toplevels[j]),
            decreases self.toplevels@.len() - i,
        {
            assert(toplevels[i as int] == self.toplevels@[i as int]@);
            i += 1;
        }
        proof {
            if i < self.toplevels@.len() {
                assert(toplevels[i as int] == self.toplevels@[i as int]@);
            }
            search::lemma_first_index_is(toplevels, is_top(ext), i as int);
        }
        if i < self.toplevels.len() {
            match event {
                TopEvent::Title(title) => self.toplevels[i].title = title,
                TopEvent::AppId(app_id) => self.toplevels[i].app_id = app_id,
                TopEvent::Closed => self.toplevels[i].closed = true,
            }
            assert(self@.toplevels[i as int] =~= top_after(event)(toplevels[i as int]));
        }
        assert(self@.toplevels =~= with_first(toplevels, is_top(ext), top_after(event)));
    }

    /// COSMIC told something of a window; windows that are not known are ignored.
    pub fn cosmic_top_event(&mut self, cosmic: u32, event: CosmicTopEvent)
        ensures
            final(self)@ == (StateView {
                toplevels: with_first(
                    old(self)@.toplevels,
                    is_cosmic_top(cosmic),
                    cosmic_top_after(event),
                ),
                ..old(self)@
            }),
    {
        let ghost toplevels = self@.toplevels;
        let mut i: usize = 0;
        while i < self.toplevels.len() && !(self.toplevels[i].cosmic == Some(cosmic))
            invariant
                i <= self.toplevels@.len(),
                *self == *old(self),
                toplevels == self@.toplevels,
                forall|j: int| 0 <= j < i ==> !is_cosmic_top(cosmic)(#[trigger] toplevels[j]),
            decreases self.toplevels@.len() - i,
        {
            assert(toplevels[i as int] == self.toplevels@[i as int]@);
            i += 1;
        }
        proof {
            if i < self.toplevels@.len() {
                assert(toplevels[i as int] == self.toplevels@[i as int]@);
            }
            search::lemma_first_index_is(toplevels, is_cosmic_top(cosmic), i as int);
        }
        if i < self.toplevels.len() {
            match event {
                CosmicTopEvent::States(states) => {
                    self.toplevels[i].activated = wire::has_state(&states, WindowState::Activated);
                },
                CosmicTopEvent::OutputEnter(id) => self.toplevels[i].outputs.push(id),
                CosmicTopEvent::OutputLeave(id) => {
                    let outputs = without(&self.toplevels[i].outputs, id);
                    self.toplevels[i].outputs = outputs;
                },
            }
            assert(self@.toplevels[i as int] =~= cosmic_top_after(event)(toplevels[i as int]));
        }
        assert(self@.toplevels =~= with_first(
            toplevels,
            is_cosmic_top(cosmic),
            cosmic_top_after(event),
        ));
    }

    /// Fails if the compositor cannot list workspaces and windows.
    pub fn check_globals(&self) -> (r: Result<(), Error>)
        ensures
            match r {
                Ok(_) => self.ws_manager && self.top_list && self.top_info,
                Err(e) => {
                    ||| !self.ws_manager && e@ == ErrorView::MissingGlobal(
                        "ext_workspace_manager_v1"@,
                    )
                    ||| self.ws_manager && !(self.top_list && self.top_info) && e@
                        == ErrorView::MissingGlobal(
                        "ext_foreign_toplevel_list_v1 / zcosmic_toplevel_info_v1"@,
                    )
                },
            },
    {
        if !self.ws_manager {
            return Err(Error::MissingGlobal("ext_workspace_manager_v1"));
        }
        if !self.top_list || !self.top_info {
            return Err(
                Error::MissingGlobal("ext_foreign_toplevel_list_v1 / zcosmic_toplevel_info_v1"),
            );
        }
        Ok(())
    }

    /// Whether the compositor has told of every workspace and every window.
    pub fn is_synced(&self) -> (r: bool)
        ensures
            r == (self.ws_done && self.top_done),
    {
        self.ws_done && self.top_done
    }

    /// The index of the window that has the focus beside Kando's own, if any.
    pub fn focused_toplevel(&self) -> (r: Option<usize>)
        ensures
            ({
                let i = search::first_index(self@.toplevels, is_users_focus());
                match r {
                    Some(k) => k == i && i < self@.toplevels.len(),
                    None => i == self@.toplevels.len(),
                }
            }),
    {
        let ghost toplevels = self@.toplevels;
        let mut i: usize = 0;
        while i < self.toplevels.len()
            invariant
                i <= self.toplevels@.len(),
                toplevels == self@.toplevels,
                forall|j: int| 0 <= j < i ==> !is_users_focus()(#[trigger] toplevels[j]),
            decreases self.toplevels@.len() - i,
        {
            assert(toplevels[i as int] == self.toplevels@[i as int]@);
            let t = &self.toplevels[i];
            if !t.closed && t.activated && !toplevel::is_kando(&t.app_id) {
                proof {
                    search::lemma_first_index_is(toplevels, is_users_focus(), i as int);
                }
                return Some(i);
            }
            i += 1;
        }
        proof {
            search::lemma_first_index_is(toplevels, is_users_focus(), i as int);
        }
        None
    }
}

/// Events never take a workspace away from its place: there are at least as many as before,
/// each with the handles it had, and one that was removed stays removed.
pub proof fn law_events_keep_workspaces(
    workspaces: Seq<WsEntryView>,
    handle: u32,
    told: WorkspaceEvent,
    cosmic_told: CosmicEvent,
    announced: WsEntryView,
)
    ensures
        kept(workspaces, with_first(workspaces, is_workspace(handle), workspace_after(told))),
        kept(
            workspaces,
            with_first(workspaces, is_cosmic_workspace(handle), cosmic_after(cosmic_told)),
        ),
        kept(workspaces, workspaces.push(announced)),
{
    search::lemma_first_index(workspaces, is_workspace(handle));
    search::lemma_first_index(workspaces, is_cosmic_workspace(handle));
}

/// Whether every workspace has kept its place, its handles and its removal.
pub open spec fn kept(earlier: Seq<WsEntryView>, later: Seq<WsEntryView>) -> bool {
    &&& earlier.len() <= later.len()
    &&& forall|i: int|
        #![trigger earlier[i]]
        #![trigger later[i]]
        0 <= i < earlier.len() ==> later[i].ext == earlier[i].ext && later[i].cosmic
            == earlier[i].cosmic && (earlier[i].removed ==> later[i].removed)
}

/// An event reaches the first that it is meant for, and no other; if there is none, it changes
/// nothing.
pub proof fn law_event_reaches_the_first_it_is_meant_for<T>(
    s: Seq<T>,
    p: spec_fn(T) -> bool,
    f: spec_fn(T) -> T,
    k: int,
    j: int,
)
    requires
        0 <= k <= s.len(),
        k < s.len() ==> p(s[k]),
        forall|i: int| 0 <= i < k ==> !p(#[trigger] s[i]),
        0 <= j < s.len(),
    ensures
        with_first(s, p, f).len() == s.len(),
        j == k ==> with_first(s, p, f)[j] == f(s[j]),
        j != k ==> with_first(s, p, f)[j] == s[j],
        k == s.len() ==> with_first(s, p, f) == s,
{
    search::lemma_first_index_is(s, p, k);
}

/// Everything is known by its own handle: a group, a workspace and a window by the one they
/// were announced with, a workspace and a window also by their COSMIC handle if they have one.
pub proof fn law_handles_tell_apart(
    g: GroupView,
    w: WsEntryView,
    t: TopView,
    handle: u32,
)
    ensures
        is_group(handle)(g) <==> g.handle == handle,
        is_workspace(handle)(w) <==> w.ext == handle,
        is_cosmic_workspace(handle)(w) <==> w.cosmic is Some && w.cosmic->0 == handle,
        is_top(handle)(t) <==> t.ext == handle,
        is_cosmic_top(handle)(t) <==> t.cosmic is Some && t.cosmic->0 == handle,
{
}

proof fn lemma_left(ids: Seq<u32>, id: u32, other: u32)
    ensures
        ids.push(other).filter(other_than(id)) == if other == id {
            ids.filter(other_than(id))
        } else {
            ids.filter(other_than(id)).push(other)
        },
        Seq::<u32>::empty().filter(other_than(id)).len() == 0,
{
    reveal(Seq::filter);
    assert(ids.push(other).drop_last() =~= ids);
}

proof fn lemma_left_members(ids: Seq<u32>, id: u32, other: u32)
    ensures
        ids.filter(other_than(id)).contains(other) <==> ids.contains(other) && other != id,
        !ids.contains(id) ==> ids.filter(other_than(id)) == ids,
    decreases ids.len(),
{
    if ids.len() == 0 {
        lemma_left(ids, id, id);
        assert(ids =~= Seq::empty());
        assert(ids.filter(other_than(id)) =~= ids);
    } else {
        let front = ids.drop_last();
        let last = ids.last();
        assert(ids =~= front.push(last));
        lemma_left(front, id, last);
        lemma_left_members(front, id, other);
        let kept = front.filter(other_than(id));
        assert(kept.push(last).contains(other) <==> kept.contains(other) || other == last) by {
            if kept.contains(other) {
                let i = choose|i: int| 0 <= i < kept.len() && kept[i] == other;
                assert(kept.push(last)[i] == other);
            }
            assert(kept.push(last)[kept.len() as int] == last);
        }
        assert(ids.contains(other) <==> front.contains(other) || other == last) by {
            if front.contains(other) {
                let i = choose|i: int| 0 <= i < front.len() && front[i] == other;
                assert(ids[i] == other);
            }
            assert(ids[ids.len() - 1] == last);
        }
        if !ids.contains(id) {
            assert(ids[ids.len() - 1] == last);
            assert(!front.contains(id)) by {
                if front.contains(id) {
                    let i = choose|i: int| 0 <= i < front.len() && front[i] == id;
                    assert(ids[i] == id);
                }
            }
        }
    }
}

/// An output or a workspace that enters a group comes last in it, one that leaves is gone from
/// it however often it had entered, and the others stay in their order: what enters and leaves
/// again leaves the group as it was. The group can create workspaces exactly if that is what
/// was told of it last. Nothing else of the group changes.
pub proof fn law_groups_hold_what_has_entered(g: GroupView, id: u32, other: u32, raw: u32)
    ensures
        ({
            let entered = group_after(GroupEvent::OutputEnter(id))(g);
            let left = group_after(GroupEvent::OutputLeave(id))(g);
            &&& entered == (GroupView { outputs: g.outputs.push(id), ..g })
            &&& left == (GroupView { outputs: left.outputs, ..g })
            &&& left.outputs.contains(other) <==> g.outputs.contains(other) && other != id
            &&& !g.outputs.contains(id) ==> left == g && group_after(
                GroupEvent::OutputLeave(id),
            )(entered) == g
        }),
        ({
            let entered = group_after(GroupEvent::WorkspaceEnter(id))(g);
            let left = group_after(GroupEvent::WorkspaceLeave(id))(g);
            &&& entered == (GroupView { workspaces: g.workspaces.push(id), ..g })
            &&& left == (GroupView { workspaces: left.workspaces, ..g })
            &&& left.workspaces.contains(other) <==> g.workspaces.contains(other) && other != id
            &&& !g.workspaces.contains(id) ==> left == g && group_after(
                GroupEvent::WorkspaceLeave(id),
            )(entered) == g
        }),
        ({
            let told = group_after(GroupEvent::Capabilities(raw))(g);
            &&& told.can_create <==> raw == 1
            &&& told == (GroupView { can_create: told.can_create, ..g })
        }),
{
    lemma_left_members(g.outputs, id, other);
    lemma_left(g.outputs, id, id);
    lemma_left_members(g.workspaces, id, other);
    lemma_left(g.workspaces, id, id);
}

/// What is told of a workspace changes the property that is told and no other. It is active
/// exactly if that is among what is told of its state and nothing unknown is; it is pinned
/// exactly if that is all that is told. One that was removed stays removed.
pub proof fn law_told_properties_are_kept_apart(
    w: WsEntryView,
    id: String,
    name: String,
    coordinates: Vec<u32>,
    raw: u32,
)
    ensures
        workspace_after(WorkspaceEvent::Id(id))(w) == (WsEntryView {
            info: WorkspaceView { id: id@, ..w.info },
            ..w
        }),
        workspace_after(WorkspaceEvent::Name(name))(w) == (WsEntryView {
            info: WorkspaceView { name: name@, ..w.info },
            ..w
        }),
        workspace_after(WorkspaceEvent::Coordinates(coordinates))(w) == (WsEntryView {
            info: WorkspaceView { coordinates: coordinates@, ..w.info },
            ..w
        }),
        ({
            let told = workspace_after(WorkspaceEvent::State(raw))(w);
            &&& told.info.active <==> raw <= 7 && raw % 2 == 1
            &&& told == (WsEntryView {
                info: WorkspaceView { active: told.info.active, ..w.info },
                ..w
            })
        }),
        workspace_after(WorkspaceEvent::Removed)(w) == (WsEntryView { removed: true, ..w }),
        ({
            let told = cosmic_after(CosmicEvent::Capabilities(raw))(w);
            &&& raw <= 7 ==> told.info.cosmic_caps == raw
            &&& raw > 7 ==> told.info.cosmic_caps == 0
            &&& told == (WsEntryView {
                info: WorkspaceView { cosmic_caps: told.info.cosmic_caps, ..w.info },
                ..w
            })
        }),
        ({
            let told = cosmic_after(CosmicEvent::State(raw))(w);
            &&& told.info.cosmic_state % 2 == 1 <==> raw == 1
            &&& told.info.cosmic_state <= 1
            &&& told == (WsEntryView {
                info: WorkspaceView { cosmic_state: told.info.cosmic_state, ..w.info },
                ..w
            })
        }),
{
    wire::law_flags_are_known_together(raw, 7);
    assert(raw & 1 != 0 <==> raw % 2 == 1) by (bit_vector);
}

/// What is told of a window changes the property that is told and no other. It has the focus
/// exactly if that is among the states told last; an output that it enters comes last among its
/// own, and one that it leaves is gone. A window that was closed stays closed.
pub proof fn law_windows_hold_what_is_told(
    t: TopView,
    title: String,
    app_id: String,
    states: Vec<u32>,
    id: u32,
    other: u32,
)
    ensures
        top_after(TopEvent::Title(title))(t) == (TopView { title: title@, ..t }),
        top_after(TopEvent::AppId(app_id))(t) == (TopView { app_id: app_id@, ..t }),
        top_after(TopEvent::Closed)(t) == (TopView { closed: true, ..t }),
        ({
            let told = cosmic_top_after(CosmicTopEvent::States(states))(t);
            &&& told.activated <==> states@.contains(2)
            &&& told == (TopView { activated: told.activated, ..t })
        }),
        ({
            let entered = cosmic_top_after(CosmicTopEvent::OutputEnter(id))(t);
            let left = cosmic_top_after(CosmicTopEvent::OutputLeave(id))(t);
            &&& entered == (TopView { outputs: t.outputs.push(id), ..t })
            &&& left == (TopView { outputs: left.outputs, ..t })
            &&& left.outputs.contains(other) <==> t.outputs.contains(other) && other != id
            &&& !t.outputs.contains(id) ==> left == t && cosmic_top_after(
                CosmicTopEvent::OutputLeave(id),
            )(entered) == t
        }),
{
    lemma_left_members(t.outputs, id, other);
    lemma_left(t.outputs, id, id);
}

/// A window is the user's focus exactly if it is open, has the focus, and is not Kando's.
pub proof fn law_users_focus_is_not_kando(t: TopView)
    ensures
        is_users_focus()(t) ==> !t.closed && t.activated,
        t.app_id == "menu.kando.Kando"@ ==> !is_users_focus()(t),
        !t.closed && t.activated && t.app_id != "menu.kando.Kando"@ ==> is_users_focus()(t),
{
}

/// What has just been announced is there, with its handles and nothing else: a group without
/// outputs and workspaces, a workspace that is neither removed nor pinned nor active, an open
/// window without the focus.
pub proof fn law_new_things_are_bare(ext: u32, cosmic: Option<u32>)
    ensures
        ({
            let g = new_group(ext);
            g.handle == ext && g.outputs.len() == 0 && g.workspaces.len() == 0 && !g.can_create
        }),
        ({
            let w = new_workspace(ext, cosmic);
            &&& w.ext == ext && w.cosmic == cosmic && !w.removed
            &&& w.info.name.len() == 0 && w.info.id.len() == 0 && w.info.coordinates.len() == 0
            &&& !w.info.active && w.info.cosmic_caps == 0 && w.info.cosmic_state == 0
        }),
        ({
            let t = new_top(ext, cosmic);
            &&& t.ext == ext && t.cosmic == cosmic && !t.closed && !t.activated
            &&& t.app_id.len() == 0 && t.title.len() == 0 && t.outputs.len() == 0
        }),
{
}

/// No version of an interface is asked for that is newer than the compositor offers, and none
/// that is newer than is understood; the COSMIC interfaces are left alone in versions that are
/// too old.
pub proof fn law_offered_versions_are_respected(interface: Seq<char>, version: u32)
    requires
        version >= 1,
    ensures
        binding(interface, version) matches Some(b) ==> {
            let known: u32 = match b.global {
                Global::Output => 4,
                Global::WsManager => 1,
                Global::CosmicWsManager => 2,
                Global::TopManager => 4,
                Global::TopList => 1,
                Global::TopInfo => 3,
            };
            &&& 1 <= b.version <= version
            &&& b.version <= known
            &&& b.version == version || b.version == known
            &&& interface == match b.global {
                Global::Output => "wl_output"@,
                Global::WsManager => "ext_workspace_manager_v1"@,
                Global::CosmicWsManager => "zcosmic_workspace_manager_v2"@,
                Global::TopManager => "zcosmic_toplevel_manager_v1"@,
                Global::TopList => "ext_foreign_toplevel_list_v1"@,
                Global::TopInfo => "zcosmic_toplevel_info_v1"@,
            }
        },
        binding("wl_output"@, version) is Some,
        binding("ext_workspace_manager_v1"@, version) is Some,
        binding("zcosmic_workspace_manager_v2"@, version) is Some <==> version >= 2,
        binding("zcosmic_toplevel_manager_v1"@, version) is Some <==> version >= 4,
        binding("ext_foreign_toplevel_list_v1"@, version) is Some,
        binding("zcosmic_toplevel_info_v1"@, version) is Some <==> version >= 2,
{
    reveal_strlit("wl_output");
    reveal_strlit("ext_workspace_manager_v1");
    reveal_strlit("zcosmic_workspace_manager_v2");
    reveal_strlit("zcosmic_toplevel_manager_v1");
    reveal_strlit("ext_foreign_toplevel_list_v1");
    reveal_strlit("zcosmic_toplevel_info_v1");
    assert("wl_output"@.len() == 9);
    assert("ext_workspace_manager_v1"@.len() == 24);
    assert("zcosmic_workspace_manager_v2"@.len() == 28);
    assert("zcosmic_toplevel_manager_v1"@.len() == 27);
    assert("ext_foreign_toplevel_list_v1"@.len() == 28);
    assert("zcosmic_toplevel_info_v1"@.len() == 24);
    assert("ext_workspace_manager_v1"@[0] != "zcosmic_toplevel_info_v1"@[0]);
    assert("ext_foreign_toplevel_list_v1"@[0] != "zcosmic_workspace_manager_v2"@[0]);
}

/// What has been bound is known from then on, and nothing else is learnt from it.
pub proof fn law_bound_globals_are_known(s: StateView, global: Global)
    ensures
        ({
            let t = with_global(s, global);
            &&& t.ws_manager <==> s.ws_manager || global is WsManager
            &&& t.cosmic_ws_manager <==> s.cosmic_ws_manager || global is CosmicWsManager
            &&& t.top_manager <==> s.top_manager || global is TopManager
            &&& t.top_list <==> s.top_list || global is TopList
            &&& t.top_info <==> s.top_info || global is TopInfo
            &&& t.outputs == s.outputs
            &&& t.groups == s.groups
            &&& t.workspaces == s.workspaces
            &&& t.toplevels == s.toplevels
            &&& t.ws_done == s.ws_done
            &&& t.top_done == s.top_done
        }),
{
}

/// A session that has heard nothing knows nothing.
pub proof fn law_silent_session_knows_nothing()
    ensures
        ({
            let s = silent();
            &&& !s.ws_manager && !s.cosmic_ws_manager && !s.top_manager && !s.top_list
            &&& !s.top_info && !s.ws_done && !s.top_done
            &&& s.outputs.len() == 0 && s.groups.len() == 0
            &&& s.workspaces.len() == 0 && s.toplevels.len() == 0
        }),
{
}

} // verus!
