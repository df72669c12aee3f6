//! The open windows: listing them, finding the focused one, and changing one.

pub use crate::error::{Error, ErrorView};
use crate::number;
use crate::search;
use crate::text;
use crate::wire;
use crate::wire::WindowState;
use vstd::prelude::*;

verus! {

/// How many milliseconds to wait for the first description of the windows.
pub const DONE_TIMEOUT: u64 = 1000;

/// A window.
#[derive(Debug)]
pub struct Toplevel {
    pub title: String,
    pub app_id: String,
    pub activated: bool,
}

/// What a `Toplevel` holds.
#[verifier::ext_equal]
pub struct ToplevelView {
    pub title: Seq<char>,
    pub app_id: Seq<char>,
    pub activated: bool,
}

impl View for Toplevel {
    type V = ToplevelView;

    open spec fn view(&self) -> ToplevelView {
        ToplevelView { title: self.title@, app_id: self.app_id@, activated: self.activated }
    }
}

/// A window of which nothing is known yet.
pub open spec fn unknown_toplevel() -> ToplevelView {
    ToplevelView { title: seq![], app_id: seq![], activated: false }
}

impl Default for Toplevel {
    fn default() -> (r: Self)
        ensures
            r@ == unknown_toplevel(),
    {
        Toplevel { title: String::new(), app_id: String::new(), activated: false }
    }
}

impl Clone for Toplevel {
    fn clone(&self) -> (r: Self)
        ensures
            r@ == self@,
    {
        Toplevel {
            title: self.title.clone(),
            app_id: self.app_id.clone(),
            activated: self.activated,
        }
    }
}

/// A window and what is known of it beside its description.
pub struct Entry {
    pub info: Toplevel,
    /// The object id of its handle.
    pub ext: u32,
    /// The object id of its COSMIC handle.
    pub cosmic: Option<u32>,
    pub closed: bool,
    pub maximized: bool,
    pub sticky: bool,
    /// Whether it has been maximized for covering the work area.
    pub covered: bool,
}

/// What an `Entry` holds.
#[verifier::ext_equal]
pub struct EntryView {
    pub info: ToplevelView,
    pub ext: u32,
    pub cosmic: Option<u32>,
    pub closed: bool,
    pub maximized: bool,
    pub sticky: bool,
    pub covered: bool,
}

impl View for Entry {
    type V = EntryView;

    open spec fn view(&self) -> EntryView {
        EntryView {
            info: self.info@,
            ext: self.ext,
            cosmic: self.cosmic,
            closed: self.closed,
            maximized: self.maximized,
            sticky: self.sticky,
            covered: self.covered,
        }
    }
}

/// A global of the compositor that is used for windows.
#[derive(Debug, Clone, Copy, PartialEq, Eq, Structural)]
pub enum Global {
    Seat,
    List,
    Info,
    Manager,
}

/// A global to bind, and the version to bind it with.
#[derive(Debug, Clone, Copy, PartialEq, Eq, Structural)]
pub struct Binding {
    pub global: Global,
    pub version: u32,
}

/// What the compositor says of a window.
pub enum HandleEvent {
    Title(String),
    AppId(String),
    Closed,
}

/// A change of the state of a window, as it is asked for on the command line.
#[derive(Debug, Clone, Copy, PartialEq, Eq, Structural)]
pub enum StateChange {
    Fullscreen,
    Unfullscreen,
    Maximize,
    Unmaximize,
    ToggleMaximize,
    Minimize,
    Unminimize,
    ToggleSticky,
    Close,
}

/// A request to the compositor to change a window.
#[derive(Debug, Clone, Copy, PartialEq, Eq, Structural)]
pub enum WindowRequest {
    SetFullscreen,
    UnsetFullscreen,
    SetMaximized,
    UnsetMaximized,
    SetMinimized,
    UnsetMinimized,
    SetSticky,
    UnsetSticky,
    Close,
}

/// The windows as far as the compositor has told of them.
pub struct State {
    pub seat: bool,
    pub list: bool,
    pub info: bool,
    pub manager: bool,
    pub entries: Vec<Entry>,
    /// Whether the compositor has told the first state of every window.
    pub done: bool,
}

/// What a `State` holds.
#[verifier::ext_equal]
pub struct StateView {
    pub seat: bool,
    pub list: bool,
    pub info: bool,
    pub manager: bool,
    pub entries: Seq<EntryView>,
    pub done: bool,
}

impl View for State {
    type V = StateView;

    open spec fn view(&self) -> StateView {
        StateView {
            seat: self.seat,
            list: self.list,
            info: self.info,
            manager: self.manager,
            entries: self.entries@.map_values(|e: Entry| e@),
            done: self.done,
        }
    }
}

/// Which global an announced interface is bound as. Only the first seat is bound, and COSMIC's
/// information on windows takes its second version.
pub open spec fn binding(seat: bool, interface: Seq<char>, version: u32) -> Option<Binding> {
    if interface == "wl_seat"@ {
        if seat {
            None
        } else {
            Some(Binding { global: Global::Seat, version: number::least(version, 5) })
        }
    } else if interface == "ext_foreign_toplevel_list_v1"@ {
        Some(Binding { global: Global::List, version: 1 })
    } else if interface == "zcosmic_toplevel_info_v1"@ {
        if version >= 2 {
            Some(Binding { global: Global::Info, version: number::least(version, 3) })
        } else {
            None
        }
    } else if interface == "zcosmic_toplevel_manager_v1"@ {
        Some(Binding { global: Global::Manager, version: number::least(version, 4) })
    } else {
        None
    }
}

/// The state after a global has been bound.
pub open spec fn with_global(s: StateView, global: Global) -> StateView {
    match global {
        Global::Seat => StateView { seat: true, ..s },
        Global::List => StateView { list: true, ..s },
        Global::Info => StateView { info: true, ..s },
        Global::Manager => StateView { manager: true, ..s },
    }
}

/// A window that has just been announced.
pub open spec fn new_entry(ext: u32, cosmic: Option<u32>) -> EntryView {
    EntryView {
        info: unknown_toplevel(),
        ext,
        cosmic,
        closed: false,
        maximized: false,
        sticky: false,
        covered: false,
    }
}

/// Whether an entry has a handle.
pub open spec fn has_handle(ext: u32) -> spec_fn(EntryView) -> bool {
    |e: EntryView| e.ext == ext
}

/// Whether an entry has a COSMIC handle.
pub open spec fn has_cosmic(cosmic: u32) -> spec_fn(EntryView) -> bool {
    |e: EntryView| e.cosmic == Some(cosmic)
}

/// An entry after an event on its handle.
pub open spec fn told(e: EntryView, event: HandleEvent) -> EntryView {
    match event {
        HandleEvent::Title(title) => EntryView {
            info: ToplevelView { title: title@, ..e.info },
            ..e
        },
        HandleEvent::AppId(app_id) => EntryView {
            info: ToplevelView { app_id: app_id@, ..e.info },
            ..e
        },
        HandleEvent::Closed => EntryView { closed: true, ..e },
    }
}

/// An entry after its states have been told.
pub open spec fn in_states(e: EntryView, states: Seq<u32>) -> EntryView {
    EntryView {
        info: ToplevelView {
            activated: states.contains(wire::window_state_code(WindowState::Activated)),
            ..e.info
        },
        maximized: states.contains(wire::window_state_code(WindowState::Maximized)),
        sticky: states.contains(wire::window_state_code(WindowState::Sticky)),
        ..e
    }
}

/// Whether a window is open.
pub open spec fn is_open() -> spec_fn(EntryView) -> bool {
    |e: EntryView| !e.closed
}

/// The descriptions of the open windows, in the order in which the compositor announced them.
pub open spec fn open_windows(entries: Seq<EntryView>) -> Seq<ToplevelView> {
    entries.filter(is_open()).map_values(|e: EntryView| e.info)
}

/// Whether a window has the focus.
pub open spec fn is_focused() -> spec_fn(ToplevelView) -> bool {
    |t: ToplevelView| t.activated
}

/// Whether an open window has an application id and a title; an empty one fits any.
pub open spec fn fits(app_id: Seq<char>, title: Seq<char>) -> spec_fn(EntryView) -> bool {
    |e: EntryView|
        !e.closed && (app_id.len() == 0 || e.info.app_id == app_id) && (title.len() == 0
            || e.info.title == title)
}

/// The application id of Kando's own windows.
pub open spec fn kando_app_id() -> Seq<char> {
    "menu.kando.Kando"@
}

/// Whether an open window that is not Kando's has the focus.
pub open spec fn is_users_focus() -> spec_fn(EntryView) -> bool {
    |e: EntryView| !e.closed && e.info.activated && e.info.app_id != kando_app_id()
}

/// The window that a change is asked for: with `@focused` the one that has the focus beside
/// Kando's, otherwise the first that fits.
pub open spec fn selected(
    entries: Seq<EntryView>,
    app_id: Seq<char>,
    title: Seq<char>,
) -> Option<EntryView> {
    if app_id == "@focused"@ {
        search::first(entries, is_users_focus())
    } else {
        search::first(entries, fits(app_id, title))
    }
}

/// The request for a change of a window; a toggle asks for the opposite of its state.
pub open spec fn request_for(change: StateChange, e: EntryView) -> WindowRequest {
    match change {
        StateChange::Fullscreen => WindowRequest::SetFullscreen,
        StateChange::Unfullscreen => WindowRequest::UnsetFullscreen,
        StateChange::Maximize => WindowRequest::SetMaximized,
        StateChange::Unmaximize => WindowRequest::UnsetMaximized,
        StateChange::ToggleMaximize => if e.maximized {
            WindowRequest::UnsetMaximized
        } else {
            WindowRequest::SetMaximized
        },
        StateChange::Minimize => WindowRequest::SetMinimized,
        StateChange::Unminimize => WindowRequest::UnsetMinimized,
        StateChange::ToggleSticky => if e.sticky {
            WindowRequest::UnsetSticky
        } else {
            WindowRequest::SetSticky
        },
        StateChange::Close => WindowRequest::Close,
    }
}

/// Whether a window shall be maximized for covering the work area: it is the wanted one, and
/// it has not been asked for before.
pub open spec fn is_due(app_id: Seq<char>, title: Seq<char>) -> spec_fn(EntryView) -> bool {
    |e: EntryView|
        !e.closed && !e.covered && e.cosmic is Some && e.info.app_id == app_id && e.info.title
            == title
}

/// An entry after the due windows have been asked for.
pub open spec fn after_cover(e: EntryView, app_id: Seq<char>, title: Seq<char>) -> EntryView {
    if is_due(app_id, title)(e) {
        EntryView { covered: true, ..e }
    } else {
        e
    }
}

/// Whether a window is one of Kando's own.
pub fn is_kando(app_id: &str) -> (r: bool)
    ensures
        r == (app_id@ == kando_app_id()),
{
    text::same(app_id, "menu.kando.Kando")
}

/// Whether a change of the window with an application id waits for the focus to return to the
/// user's window, which it does shortly after Kando's menu has closed.
pub fn waits_for_focus(app_id: &str) -> (r: bool)
    ensures
        r == (app_id@ == "@focused"@),
{
    text::same(app_id, "@focused")
}

fn fits_entry(e: &Entry, app_id: &str, title: &str) -> (r: bool)
    ensures
        r == fits(app_id@, title@)(e@),
{
    !e.closed && (app_id.is_empty() || text::same(&e.info.app_id, app_id)) && (title.is_empty()
        || text::same(&e.info.title, title))
}

impl State {
    /// Windows of which nothing has been heard yet.
    pub fn new() -> (r: State)
        ensures
            r@ == (StateView {
                seat: false,
                list: false,
                info: false,
                manager: false,
                entries: seq![],
                done: false,
            }),
    {
        let r = State {
            seat: false,
            list: false,
            info: false,
            manager: false,
            entries: Vec::new(),
            done: false,
        };
        assert(r@.entries =~= seq![]);
        r
    }

    /// The compositor announced a global.
    pub fn global(&mut self, interface: &str, version: u32) -> (r: Option<Binding>)
        ensures
            r == binding(old(self).seat, interface@, version),
            final(self)@ == match r {
                Some(b) => with_global(old(self)@, b.global),
                None => old(self)@,
            },
    {
        if text::same(interface, "wl_seat") {
            if self.seat {
                return None;
            }
            self.seat = true;
            Some(Binding { global: Global::Seat, version: number::lesser(version, 5) })
        } else if text::same(interface, "ext_foreign_toplevel_list_v1") {
            self.list = true;
            Some(Binding { global: Global::List, version: 1 })
        } else if text::same(interface, "zcosmic_toplevel_info_v1") {
            if version < 2 {
                return None;
            }
            self.info = true;
            Some(Binding { global: Global::Info, version: number::lesser(version, 3) })
        } else if text::same(interface, "zcosmic_toplevel_manager_v1") {
            self.manager = true;
            Some(Binding { global: Global::Manager, version: number::lesser(version, 4) })
        } else {
            None
        }
    }

    /// The compositor announced a window; `cosmic` is its COSMIC handle, if it was asked for.
    pub fn announced(&mut self, ext: u32, cosmic: Option<u32>)
        ensures
            final(self)@ == (StateView {
                entries: old(self)@.entries.push(new_entry(ext, cosmic)),
                ..old(self)@
            }),
    {
        self.entries.push(
            Entry {
                info: Toplevel::default(),
                ext,
                cosmic,
                closed: false,
                maximized: false,
                sticky: false,
                covered: false,
            },
        );
        assert(self@.entries =~= old(self)@.entries.push(new_entry(ext, cosmic)));
    }

    /// The compositor told something of a window; windows that are not known are ignored.
    pub fn handle_event(&mut self, ext: u32, event: HandleEvent)
        ensures
            ({
                let i = search::first_index(old(self)@.entries, has_handle(ext));
                final(self)@ == if i < old(self)@.entries.len() {
                    StateView {
                        entries: old(self)@.entries.update(i, told(old(self)@.entries[i], event)),
                        ..old(self)@
                    }
                } else {
                    old(self)@
                }
            }),
    {
        let ghost before = self@.entries;
        let mut i: usize = 0;
        while i < self.entries.len() && self.entries[i].ext != ext
            invariant
                i <= self.entries@.len(),
                *self == *old(self),
                before == self@.entries,
                forall|j: int| 0 <= j < i ==> !has_handle(ext)(#[trigger] before[j]),
            decreases self.entries@.len() - i,
        {
            assert(before[i as int] == self.entries@[i as int]@);
            i += 1;
        }
        if i < self.entries.len() {
            assert(before[i as int] == self.entries@[i as int]@);
            proof {
                search::lemma_first_index_is(before, has_handle(ext), i as int);
            }
            match event {
                HandleEvent::Title(title) => self.entries[i].info.title = title,
                HandleEvent::AppId(app_id) => self.entries[i].info.app_id = app_id,
                HandleEvent::Closed => self.entries[i].closed = true,
            }
            assert(self@.entries =~= before.update(i as int, told(before[i as int], event)));
        } else {
            proof {
                search::lemma_first_index_is(before, has_handle(ext), i as int);
            }
        }
    }

    /// The compositor told the states of a window; windows that are not known are ignored.
    pub fn states_told(&mut self, cosmic: u32, states: &Vec<u32>)
        ensures
            ({
                let i = search::first_index(old(self)@.entries, has_cosmic(cosmic));
                final(self)@ == if i < old(self)@.entries.len() {
                    StateView {
                        entries: old(self)@.entries.update(
                            i,
                            in_states(old(self)@.entries[i], states@),
                        ),
                        ..old(self)@
                    }
                } else {
                    old(self)@
                }
            }),
    {
        let ghost before = self@.entries;
        let mut i: usize = 0;
        while i < self.entries.len() && !(self.entries[i].cosmic == Some(cosmic))
            invariant
                i <= self.entries@.len(),
                *self == *old(self),
                before == self@.entries,
                forall|j: int| 0 <= j < i ==> !has_cosmic(cosmic)(#[trigger] before[j]),
            decreases self.entries@.len() - i,
        {
            assert(before[i as int] == self.entries@[i as int]@);
            i += 1;
        }
        if i < self.entries.len() {
            assert(before[i as int] == self.entries@[i as int]@);
            proof {
                search::lemma_first_index_is(before, has_cosmic(cosmic), i as int);
            }
            self.entries[i].info.activated = wire::has_state(states, WindowState::Activated);
            self.entries[i].maximized = wire::has_state(states, WindowState::Maximized);
            self.entries[i].sticky = wire::has_state(states, WindowState::Sticky);
            assert(self@.entries =~= before.update(i as int, in_states(before[i as int], states@)));
        } else {
            proof {
                search::lemma_first_index_is(before, has_cosmic(cosmic), i as int);
            }
        }
    }

    /// The compositor has told the first state of every window.
    pub fn all_told(&mut self)
        ensures
            final(self)@ == (StateView { done: true, ..old(self)@ }),
    {
        self.done = true;
    }

    /// Fails if the compositor cannot list windows.
    pub fn check_globals(&self) -> (r: Result<(), Error>)
        ensures
            match r {
                Ok(_) => self.list && self.info,
                Err(e) => {
                    ||| !self.list && e@ == ErrorView::MissingGlobal(
                        "ext_foreign_toplevel_list_v1"@,
                    )
                    ||| self.list && !self.info && e@ == ErrorView::MissingGlobal(
                        "zcosmic_toplevel_info_v1 (v2+)"@,
                    )
                },
            },
    {
        if !self.list {
            return Err(Error::MissingGlobal("ext_foreign_toplevel_list_v1"));
        }
        if !self.info {
            return Err(Error::MissingGlobal("zcosmic_toplevel_info_v1 (v2+)"));
        }
        Ok(())
    }

    fn first_fit(&self, app_id: &str, title: &str) -> (r: usize)
        ensures
            r == search::first_index(self@.entries, fits(app_id@, title@)),
            r <= self.entries@.len(),
    {
        let ghost entries = self@.entries;
        let mut i: usize = 0;
        while i < self.entries.len() && !fits_entry(&self.entries[i], app_id, title)
            invariant
                i <= self.entries@.len(),
                entries == self@.entries,
                forall|j: int| 0 <= j < i ==> !fits(app_id@, title@)(#[trigger] entries[j]),
            decreases self.entries@.len() - i,
        {
            assert(entries[i as int] == self.entries@[i as int]@);
            i += 1;
        }
        proof {
            if i < self.entries@.len() {
                assert(entries[i as int] == self.entries@[i as int]@);
            }
            search::lemma_first_index_is(entries, fits(app_id@, title@), i as int);
        }
        i
    }

    fn first_users_focus(&self) -> (r: usize)
        ensures
            r == search::first_index(self@.entries, is_users_focus()),
            r <= self.entries@.len(),
    {
        let ghost entries = self@.entries;
        let mut i: usize = 0;
        while i < self.entries.len() && !(!self.entries[i].closed && self.entries[i].info.activated
            && !is_kando(&self.entries[i].info.app_id))
            invariant
                i <= self.entries@.len(),
                entries == self@.entries,
                forall|j: int| 0 <= j < i ==> !is_users_focus()(#[trigger] entries[j]),
            decreases self.entries@.len() - i,
        {
            assert(entries[i as int] == self.entries@[i as int]@);
            i += 1;
        }
        proof {
            if i < self.entries@.len() {
                assert(entries[i as int] == self.entries@[i as int]@);
            }
            search::lemma_first_index_is(entries, is_users_focus(), i as int);
        }
        i
    }

    /// Whether a window that is not Kando's has the focus.
    pub fn has_users_focus(&self) -> (r: bool)
        ensures
            r == (search::first(self@.entries, is_users_focus()) is Some),
    {
        self.first_users_focus() < self.entries.len()
    }

    /// Which windows to maximize now so that they cover the work area: those with the
    /// application id and the title that have not been asked for before.
    pub fn auto_maximize(&mut self, app_id: &str, title: &str) -> (r: Vec<u32>)
        ensures
            r@ == old(self)@.entries.filter(is_due(app_id@, title@)).map_values(
                |e: EntryView| e.cosmic->0,
            ),
            final(self)@ == (StateView {
                entries: old(self)@.entries.map_values(
                    |e: EntryView| after_cover(e, app_id@, title@),
                ),
                ..old(self)@
            }),
    {
        let ghost before = self@.entries;
        let ghost due = is_due(app_id@, title@);
        let ghost handle = |e: EntryView| e.cosmic->0;
        let ghost after = before.map_values(|e: EntryView| after_cover(e, app_id@, title@));
        let mut r: Vec<u32> = Vec::new();
        let mut i: usize = 0;
        proof {
            reveal(Seq::filter);
        }
        assert(r@ =~= before.take(0).filter(due).map_values(handle));
        while i < self.entries.len()
            invariant
                i <= self.entries@.len(),
                due == is_due(app_id@, title@),
                handle == (|e: EntryView| e.cosmic->0),
                before == old(self)@.entries,
                after == before.map_values(|e: EntryView| after_cover(e, app_id@, title@)),
                self.seat == old(self).seat,
                self.list == old(self).list,
                self.info == old(self).info,
                self.manager == old(self).manager,
                self.done == old(self).done,
                self@.entries.len() == before.len(),
                forall|j: int| 0 <= j < i ==> self@.entries[j] == #[trigger] after[j],
                forall|j: int| i <= j < before.len() ==> self@.entries[j] == #[trigger] before[j],
                r@ == before.take(i as int).filter(due).map_values(handle),
            decreases self.entries@.len() - i,
        {
            proof {
                reveal(Seq::filter);
            }
            assert(before.take(i + 1).drop_last() =~= before.take(i as int));
            assert(before[i as int] == self@.entries[i as int]);
            assert(before[i as int] == self.entries@[i as int]@);
            let ghost earlier = before.take(i as int).filter(due);
            let mine = !self.entries[i].closed && !self.entries[i].covered && text::same(
                &self.entries[i].info.app_id,
                app_id,
            ) && text::same(&self.entries[i].info.title, title);
            if mine {
                if let Some(cosmic) = self.entries[i].cosmic {
                    r.push(cosmic);
                    assert(earlier.push(before[i as int]).map_values(handle) =~= earlier.map_values(
                        handle,
                    ).push(cosmic));
                    self.entries[i].covered = true;
                }
            }
            assert(self.entries@[i as int]@ == after[i as int]);
            i += 1;
        }
        assert(before.take(i as int) =~= before);
        assert(self@.entries =~= after);
        r
    }
}

/// The open windows, in the order in which the compositor announced them.
pub fn list_toplevels(state: &State) -> (r: Vec<Toplevel>)
    ensures
        r@.map_values(|t: Toplevel| t@) == open_windows(state@.entries),
{
    let ghost entries = state@.entries;
    let ghost info = |e: EntryView| e.info;
    let mut r: Vec<Toplevel> = Vec::new();
    let mut i: usize = 0;
    proof {
        reveal(Seq::filter);
    }
    assert(r@.map_values(|t: Toplevel| t@) =~= entries.take(0).filter(is_open()).map_values(info));
    while i < state.entries.len()
        invariant
            i <= state.entries@.len(),
            entries == state@.entries,
            info == (|e: EntryView| e.info),
            r@.map_values(|t: Toplevel| t@) == entries.take(i as int).filter(is_open()).map_values(
                info,
            ),
        decreases state.entries@.len() - i,
    {
        proof {
            reveal(Seq::filter);
        }
        assert(entries.take(i + 1).drop_last() =~= entries.take(i as int));
        assert(entries[i as int] == state.entries@[i as int]@);
        let ghost earlier = entries.take(i as int).filter(is_open());
        let ghost before = r@.map_values(|t: Toplevel| t@);
        if !state.entries[i].closed {
            let t = state.entries[i].info.clone();
            r.push(t);
            assert(r@.map_values(|t: Toplevel| t@) =~= before.push(t@));
            assert(earlier.push(entries[i as int]).map_values(info) =~= earlier.map_values(
                info,
            ).push(t@));
        }
        i += 1;
    }
    assert(entries.take(i as int) =~= entries);
    r
}

/// The open window that has the focus, if any.
pub fn focused_toplevel(state: &State) -> (r: Option<Toplevel>)
    ensures
        match r {
            Some(t) => search::first(open_windows(state@.entries), is_focused()) == Some(t@),
            None => search::first(open_windows(state@.entries), is_focused()) is None,
        },
{
    let list = list_toplevels(state);
    let ghost all = list@.map_values(|t: Toplevel| t@);
    let mut i: usize = 0;
    while i < list.len()
        invariant
            i <= list@.len(),
            all == list@.map_values(|t: Toplevel| t@),
            all == open_windows(state@.entries),
            forall|j: int| 0 <= j < i ==> !is_focused()(#[trigger] all[j]),
        decreases list@.len() - i,
    {
        assert(all[i as int] == list@[i as int]@);
        if list[i].activated {
            proof {
                search::lemma_first_index_is(all, is_focused(), i as int);
            }
            return Some(list[i].clone());
        }
        i += 1;
    }
    proof {
        search::lemma_first_index_is(all, is_focused(), i as int);
    }
    None
}

/// The COSMIC handle of the window to activate: the first open one that has the application id
/// and the title, where an empty one fits any.
pub fn focus_toplevel(state: &State, app_id: &str, title: &str) -> (r: Result<Option<u32>, Error>)
    ensures
        match r {
            Ok(handle) => state.manager && state.seat && handle == match search::first(
                state@.entries,
                fits(app_id@, title@),
            ) {
                Some(e) => e.cosmic,
                None => None,
            },
            Err(e) => {
                ||| !state.manager && e@ == ErrorView::MissingGlobal("zcosmic_toplevel_manager_v1"@)
                ||| state.manager && !state.seat && e@ == ErrorView::MissingGlobal("wl_seat"@)
            },
        },
{
    if !state.manager {
        return Err(Error::MissingGlobal("zcosmic_toplevel_manager_v1"));
    }
    if !state.seat {
        return Err(Error::MissingGlobal("wl_seat"));
    }
    let i = state.first_fit(app_id, title);
    if i < state.entries.len() {
        assert(state@.entries[i as int] == state.entries@[i as int]@);
        Ok(state.entries[i].cosmic)
    } else {
        Ok(None)
    }
}

/// The COSMIC handle of the window to change, and the request that changes it.
pub fn set_toplevel_state(
    state: &State,
    app_id: &str,
    title: &str,
    change: StateChange,
) -> (r: Result<Option<(u32, WindowRequest)>, Error>)
    ensures
        match r {
            Ok(request) => state.manager && request == match selected(
                state@.entries,
                app_id@,
                title@,
            ) {
                Some(e) => match e.cosmic {
                    Some(cosmic) => Some((cosmic, request_for(change, e))),
                    None => None,
                },
                None => None,
            },
            Err(e) => !state.manager && e@ == ErrorView::MissingGlobal(
                "zcosmic_toplevel_manager_v1"@,
            ),
        },
{
    if !state.manager {
        return Err(Error::MissingGlobal("zcosmic_toplevel_manager_v1"));
    }
    let i = if text::same(app_id, "@focused") {
        state.first_users_focus()
    } else {
        state.first_fit(app_id, title)
    };
    if i == state.entries.len() {
        return Ok(None);
    }
    assert(state@.entries[i as int] == state.entries@[i as int]@);
    let cosmic = match state.entries[i].cosmic {
        Some(cosmic) => cosmic,
        None => return Ok(None),
    };
    let request = match change {
        StateChange::Fullscreen => WindowRequest::SetFullscreen,
        StateChange::Unfullscreen => WindowRequest::UnsetFullscreen,
        StateChange::Maximize => WindowRequest::SetMaximized,
        StateChange::Unmaximize => WindowRequest::UnsetMaximized,
        StateChange::ToggleMaximize => if state.entries[i].maximized {
            WindowRequest::UnsetMaximized
        } else {
            WindowRequest::SetMaximized
        },
        StateChange::Minimize => WindowRequest::SetMinimized,
        StateChange::Unminimize => WindowRequest::UnsetMinimized,
        StateChange::ToggleSticky => if state.entries[i].sticky {
            WindowRequest::UnsetSticky
        } else {
            WindowRequest::SetSticky
        },
        StateChange::Close => WindowRequest::Close,
    };
    Ok(Some((cosmic, request)))
}

/// A window is listed exactly if it is open.
pub proof fn law_open_windows_are_listed(entries: Seq<EntryView>, t: ToplevelView)
    ensures
        open_windows(entries).contains(t) <==> exists|i: int|
            0 <= i < entries.len() && !(#[trigger] entries[i]).closed && entries[i].info == t,
{
    let list = open_windows(entries);
    let kept = entries.filter(is_open());
    if list.contains(t) {
        let k = choose|k: int| 0 <= k < list.len() && list[k] == t;
        entries.lemma_filter_pred(is_open(), k);
        assert(kept.contains(kept[k]));
        entries.lemma_filter_contains_rev(is_open(), kept[k]);
        let i = choose|i: int| 0 <= i < entries.len() && entries[i] == kept[k];
        assert(!entries[i].closed && entries[i].info == t);
    }
    if exists|i: int|
        0 <= i < entries.len() && !(#[trigger] entries[i]).closed && entries[i].info == t {
        let i = choose|i: int|
            0 <= i < entries.len() && !(#[trigger] entries[i]).closed && entries[i].info == t;
        entries.lemma_filter_contains(is_open(), i);
        let k = choose|k: int| 0 <= k < kept.len() && kept[k] == entries[i];
        assert(list[k] == t);
    }
}

/// What is selected as the focused window is open, has the focus, and is not Kando's.
pub proof fn law_kando_is_never_the_focused_window(entries: Seq<EntryView>, title: Seq<char>)
    ensures
        selected(entries, "@focused"@, title) matches Some(e) ==> !e.closed && e.info.activated
            && e.info.app_id != kando_app_id(),
{
    search::lemma_first_index(entries, is_users_focus());
}

/// A window is maximized for covering the work area only once: asking again right after asks
/// for nothing.
pub proof fn law_windows_are_covered_once(
    entries: Seq<EntryView>,
    app_id: Seq<char>,
    title: Seq<char>,
)
    ensures
        entries.map_values(|e: EntryView| after_cover(e, app_id, title)).filter(
            is_due(app_id, title),
        ).len() == 0,
{
    let after = entries.map_values(|e: EntryView| after_cover(e, app_id, title));
    let due = is_due(app_id, title);
    assert forall|i: int| 0 <= i < after.len() implies !due(#[trigger] after[i]) by {
    }
    after.lemma_all_neg_filter_empty(due);
}

/// A window fits what is asked for exactly if it is open and has every property that is given:
/// an empty application id or title asks for nothing. So an open window always fits its own
/// application id and title, and to give both is to ask for each.
pub proof fn law_window_fits_its_own_description(
    e: EntryView,
    app_id: Seq<char>,
    title: Seq<char>,
)
    ensures
        !e.closed ==> fits(e.info.app_id, e.info.title)(e),
        !e.closed ==> fits(e.info.app_id, seq![])(e),
        !e.closed ==> fits(seq![], e.info.title)(e),
        !e.closed ==> fits(seq![], seq![])(e),
        e.closed ==> !fits(app_id, title)(e),
        app_id.len() > 0 && e.info.app_id != app_id ==> !fits(app_id, title)(e),
        title.len() > 0 && e.info.title != title ==> !fits(app_id, title)(e),
        app_id.len() > 0 && title.len() > 0 ==> (fits(app_id, title)(e) <==> !e.closed
            && e.info.app_id == app_id && e.info.title == title),
        fits(app_id, title)(e) <==> fits(app_id, seq![])(e) && fits(seq![], title)(e),
{
}

/// Whoever asks for the application id and the title of an open window finds an open window
/// with both, and it is the first such: a window that comes before it and is open differs in
/// what is asked for.
pub proof fn law_described_window_is_found(entries: Seq<EntryView>, k: int)
    requires
        0 <= k < entries.len(),
        !entries[k].closed,
    ensures
        ({
            let app_id = entries[k].info.app_id;
            let title = entries[k].info.title;
            exists|i: int|
                {
                    &&& 0 <= i <= k
                    &&& search::first(entries, fits(app_id, title)) == Some(#[trigger] entries[i])
                    &&& !entries[i].closed
                    &&& app_id.len() > 0 ==> entries[i].info.app_id == app_id
                    &&& title.len() > 0 ==> entries[i].info.title == title
                    &&& forall|j: int|
                        0 <= j < i && !(#[trigger] entries[j]).closed ==> {
                            ||| app_id.len() > 0 && entries[j].info.app_id != app_id
                            ||| title.len() > 0 && entries[j].info.title != title
                        }
                }
        }),
{
    let p = fits(entries[k].info.app_id, entries[k].info.title);
    search::lemma_first_index(entries, p);
    let i = search::first_index(entries, p);
    assert(p(entries[k]));
    assert(search::first(entries, p) == Some(entries[i]));
    assert forall|j: int| 0 <= j < i && !(#[trigger] entries[j]).closed implies {
        ||| entries[k].info.app_id.len() > 0 && entries[j].info.app_id != entries[k].info.app_id
        ||| entries[k].info.title.len() > 0 && entries[j].info.title != entries[k].info.title
    } by {
        assert(!p(entries[j]));
    }
}

/// No window is found exactly if every one is closed or differs in what is asked for.
pub proof fn law_no_window_is_found_only_if_none_fits(
    entries: Seq<EntryView>,
    app_id: Seq<char>,
    title: Seq<char>,
)
    ensures
        search::first(entries, fits(app_id, title)) is None <==> forall|j: int|
            0 <= j < entries.len() && !(#[trigger] entries[j]).closed ==> {
                ||| app_id.len() > 0 && entries[j].info.app_id != app_id
                ||| title.len() > 0 && entries[j].info.title != title
            },
{
    let p = fits(app_id, title);
    search::lemma_first_index(entries, p);
    let i = search::first_index(entries, p);
    if i == entries.len() {
        assert forall|j: int| 0 <= j < entries.len() && !(#[trigger] entries[j]).closed implies {
            ||| app_id.len() > 0 && entries[j].info.app_id != app_id
            ||| title.len() > 0 && entries[j].info.title != title
        } by {
            assert(!p(entries[j]));
        }
    } else {
        assert(p(entries[i]));
    }
}

/// The window whose state changes is the first open one that has the focus and is not Kando's
/// if `@focused` is asked for, whatever the title, and otherwise the one that is found by its
/// application id and title.
pub proof fn law_focused_is_a_word_of_its_own(
    entries: Seq<EntryView>,
    app_id: Seq<char>,
    title: Seq<char>,
    k: int,
)
    requires
        0 <= k < entries.len(),
        !entries[k].closed,
    ensures
        app_id != "@focused"@ ==> selected(entries, app_id, title) == search::first(
            entries,
            fits(app_id, title),
        ),
        entries[k].info.activated && entries[k].info.app_id != "menu.kando.Kando"@ ==> {
            &&& selected(entries, "@focused"@, title) matches Some(e)
            &&& !e.closed && e.info.activated && e.info.app_id != "menu.kando.Kando"@
        },
        entries[k].info.activated && entries[k].info.app_id != "menu.kando.Kando"@ && (forall|
            j: int,
        |
            0 <= j < k && !(#[trigger] entries[j]).closed && entries[j].info.activated
                ==> entries[j].info.app_id == "menu.kando.Kando"@) ==> selected(
            entries,
            "@focused"@,
            title,
        ) == Some(entries[k]),
{
    let p = is_users_focus();
    search::lemma_first_index(entries, p);
    let i = search::first_index(entries, p);
    if entries[k].info.activated && entries[k].info.app_id != "menu.kando.Kando"@ {
        assert(p(entries[k]));
        assert(p(entries[i]));
        if forall|j: int|
            0 <= j < k && !(#[trigger] entries[j]).closed && entries[j].info.activated
                ==> entries[j].info.app_id == "menu.kando.Kando"@ {
            assert forall|j: int| 0 <= j < k implies !p(#[trigger] entries[j]) by {
            }
            search::lemma_first_index_is(entries, p, k);
        }
    }
}

/// What a window is once a request has been met, as far as its entry tells.
pub open spec fn after_request(e: EntryView, request: WindowRequest) -> EntryView {
    match request {
        WindowRequest::SetMaximized => EntryView { maximized: true, ..e },
        WindowRequest::UnsetMaximized => EntryView { maximized: false, ..e },
        WindowRequest::SetSticky => EntryView { sticky: true, ..e },
        WindowRequest::UnsetSticky => EntryView { sticky: false, ..e },
        WindowRequest::Close => EntryView { closed: true, ..e },
        _ => e,
    }
}

/// Toggling asks for the opposite of the one state it is about, whatever the others are:
/// maximizing is undone exactly if the window is maximized, sticking exactly if it is sticky.
/// Toggling twice, with the request met in between, gives back the first state.
pub proof fn law_toggling_turns_one_state_over(e: EntryView, other: EntryView)
    ensures
        request_for(StateChange::ToggleMaximize, e) == WindowRequest::UnsetMaximized
            <==> e.maximized,
        request_for(StateChange::ToggleMaximize, e) == WindowRequest::SetMaximized
            <==> !e.maximized,
        request_for(StateChange::ToggleSticky, e) == WindowRequest::UnsetSticky <==> e.sticky,
        request_for(StateChange::ToggleSticky, e) == WindowRequest::SetSticky <==> !e.sticky,
        other.maximized == e.maximized ==> request_for(StateChange::ToggleMaximize, other)
            == request_for(StateChange::ToggleMaximize, e),
        other.sticky == e.sticky ==> request_for(StateChange::ToggleSticky, other) == request_for(
            StateChange::ToggleSticky,
            e,
        ),
        ({
            let once = after_request(e, request_for(StateChange::ToggleMaximize, e));
            let twice = after_request(once, request_for(StateChange::ToggleMaximize, once));
            &&& once == (EntryView { maximized: !e.maximized, ..e })
            &&& twice == e
        }),
        ({
            let once = after_request(e, request_for(StateChange::ToggleSticky, e));
            let twice = after_request(once, request_for(StateChange::ToggleSticky, once));
            &&& once == (EntryView { sticky: !e.sticky, ..e })
            &&& twice == e
        }),
{
}

/// A change that is no toggle asks for the one request of its name, whatever the window's
/// states are: what is to be maximized ends maximized, what is to be unmaximized does not.
pub proof fn law_plain_changes_ignore_the_states(e: EntryView)
    ensures
        request_for(StateChange::Fullscreen, e) == WindowRequest::SetFullscreen,
        request_for(StateChange::Unfullscreen, e) == WindowRequest::UnsetFullscreen,
        request_for(StateChange::Maximize, e) == WindowRequest::SetMaximized,
        request_for(StateChange::Unmaximize, e) == WindowRequest::UnsetMaximized,
        request_for(StateChange::Minimize, e) == WindowRequest::SetMinimized,
        request_for(StateChange::Unminimize, e) == WindowRequest::UnsetMinimized,
        request_for(StateChange::Close, e) == WindowRequest::Close,
        after_request(e, request_for(StateChange::Maximize, e)).maximized,
        !after_request(e, request_for(StateChange::Unmaximize, e)).maximized,
        after_request(e, request_for(StateChange::Close, e)).closed,
{
}

/// The states that the compositor tells of a window are the window's states, each by itself:
/// one counts exactly if its own number is among those told, in whatever order and however
/// often, and nothing else of the window changes.
pub proof fn law_told_states_count(e: EntryView, states: Seq<u32>, told: Seq<u32>)
    ensures
        in_states(e, states).maximized <==> states.contains(0),
        in_states(e, states).info.activated <==> states.contains(2),
        in_states(e, states).sticky <==> states.contains(4),
        in_states(in_states(e, told), states) == in_states(e, states),
        in_states(e, states).info.title == e.info.title,
        in_states(e, states).info.app_id == e.info.app_id,
        in_states(e, states).ext == e.ext,
        in_states(e, states).cosmic == e.cosmic,
        in_states(e, states).closed == e.closed,
        in_states(e, states).covered == e.covered,
{
}

/// What the compositor tells of a window changes the property that it names and no other, and
/// the last word on a property stands. A window that is closed stays closed.
pub proof fn law_told_properties_are_kept_apart(e: EntryView, title: String, app_id: String)
    ensures
        ({
            let t = told(e, HandleEvent::Title(title));
            &&& t.info.title == title@
            &&& t == (EntryView { info: ToplevelView { title: t.info.title, ..e.info }, ..e })
            &&& told(t, HandleEvent::AppId(app_id)) == told(
                told(e, HandleEvent::AppId(app_id)),
                HandleEvent::Title(title),
            )
            &&& t.closed == e.closed
        }),
        ({
            let t = told(e, HandleEvent::AppId(app_id));
            &&& t.info.app_id == app_id@
            &&& t == (EntryView { info: ToplevelView { app_id: t.info.app_id, ..e.info }, ..e })
            &&& t.closed == e.closed
        }),
        told(e, HandleEvent::Closed).closed,
        told(e, HandleEvent::Closed) == (EntryView { closed: true, ..e }),
        !is_open()(told(e, HandleEvent::Closed)),
{
}

/// A window is asked to cover the screen exactly if it is open, has not been asked before, can
/// be asked, and has exactly the application id and the title that are given; asking marks it
/// and changes nothing else.
pub proof fn law_only_the_named_window_is_covered(
    e: EntryView,
    app_id: Seq<char>,
    title: Seq<char>,
)
    ensures
        is_due(app_id, title)(e) ==> !e.closed && !e.covered && e.cosmic is Some && e.info.app_id
            == app_id && e.info.title == title,
        !e.closed && !e.covered && e.cosmic is Some ==> is_due(e.info.app_id, e.info.title)(e),
        after_cover(e, app_id, title).covered <==> e.covered || is_due(app_id, title)(e),
        after_cover(e, app_id, title) == (EntryView {
            covered: after_cover(e, app_id, title).covered,
            ..e
        }),
        !is_due(app_id, title)(after_cover(e, app_id, title)),
{
}

/// No version of an interface is asked for that is newer than the compositor offers, and none
/// that is newer than is understood. The second seat is left alone, the others are not; the
/// interface that tells of windows is left alone in its first version only.
pub proof fn law_offered_versions_are_respected(seat: bool, interface: Seq<char>, version: u32)
    requires
        version >= 1,
    ensures
        binding(seat, interface, version) matches Some(b) ==> {
            &&& 1 <= b.version <= version
            &&& b.version <= match b.global {
                Global::Seat => 5u32,
                Global::List => 1u32,
                Global::Info => 3u32,
                Global::Manager => 4u32,
            }
            &&& b.version == version || b.version == match b.global {
                Global::Seat => 5u32,
                Global::List => 1u32,
                Global::Info => 3u32,
                Global::Manager => 4u32,
            }
            &&& interface == match b.global {
                Global::Seat => "wl_seat"@,
                Global::List => "ext_foreign_toplevel_list_v1"@,
                Global::Info => "zcosmic_toplevel_info_v1"@,
                Global::Manager => "zcosmic_toplevel_manager_v1"@,
            }
            &&& b.global is Seat ==> !seat
            &&& b.global is Info ==> version >= 2
        },
        binding(seat, "wl_seat"@, version) is Some <==> !seat,
        binding(seat, "ext_foreign_toplevel_list_v1"@, version) is Some,
        binding(seat, "zcosmic_toplevel_info_v1"@, version) is Some <==> version >= 2,
        binding(seat, "zcosmic_toplevel_manager_v1"@, version) is Some,
{
    reveal_strlit("wl_seat");
    reveal_strlit("ext_foreign_toplevel_list_v1");
    reveal_strlit("zcosmic_toplevel_info_v1");
    reveal_strlit("zcosmic_toplevel_manager_v1");
    assert("wl_seat"@.len() == 7);
    assert("ext_foreign_toplevel_list_v1"@.len() == 28);
    assert("zcosmic_toplevel_info_v1"@.len() == 24);
    assert("zcosmic_toplevel_manager_v1"@.len() == 27);
}

/// What has been bound is known from then on, and nothing else is learnt from it.
pub proof fn law_bound_globals_are_known(s: StateView, global: Global)
    ensures
        ({
            let t = with_global(s, global);
            &&& t.seat <==> s.seat || global is Seat
            &&& t.list <==> s.list || global is List
            &&& t.info <==> s.info || global is Info
            &&& t.manager <==> s.manager || global is Manager
            &&& t.entries == s.entries
            &&& t.done == s.done
        }),
{
}

/// The windows are listed in the order in which they were announced: one more window comes last
/// if it is open, and changes nothing if it is closed.
pub proof fn law_windows_are_listed_in_order(entries: Seq<EntryView>, e: EntryView)
    ensures
        open_windows(seq![]).len() == 0,
        !e.closed ==> open_windows(entries.push(e)) == open_windows(entries).push(e.info),
        e.closed ==> open_windows(entries.push(e)) == open_windows(entries),
{
    reveal(Seq::filter);
    assert(entries.push(e).drop_last() =~= entries);
    assert(open_windows(entries.push(e)) =~= if e.closed {
        open_windows(entries)
    } else {
        open_windows(entries).push(e.info)
    });
}

/// The focused window is the first in the list that has the focus, whoever's it is; there is
/// none exactly if none in the list has it.
pub proof fn law_focused_window_is_listed(entries: Seq<EntryView>, k: int)
    ensures
        ({
            let list = open_windows(entries);
            let focused = search::first(list, is_focused());
            &&& focused matches Some(t) ==> t.activated && list.contains(t)
            &&& focused is None <==> forall|j: int|
                0 <= j < list.len() ==> !(#[trigger] list[j]).activated
            &&& 0 <= k < list.len() && list[k].activated && (forall|j: int|
                0 <= j < k ==> !(#[trigger] list[j]).activated) ==> focused == Some(list[k])
        }),
{
    let list = open_windows(entries);
    let p = is_focused();
    search::lemma_first_index(list, p);
    let i = search::first_index(list, p);
    if i < list.len() {
        assert(list.contains(list[i]));
    } else {
        assert forall|j: int| 0 <= j < list.len() implies !(#[trigger] list[j]).activated by {
            assert(!p(list[j]));
        }
    }
    if 0 <= k < list.len() && list[k].activated && (forall|j: int|
        0 <= j < k ==> !(#[trigger] list[j]).activated) {
        assert forall|j: int| 0 <= j < k implies !p(#[trigger] list[j]) by {
        }
        search::lemma_first_index_is(list, p, k);
    }
}

/// A window that has just been announced is open, has no title, no application id, no state,
/// and has never been asked to cover the screen. Every window is known by its own handles.
pub proof fn law_new_window_is_open(ext: u32, cosmic: Option<u32>, handle: u32, known: EntryView)
    ensures
        ({
            let e = new_entry(ext, cosmic);
            &&& is_open()(e)
            &&& e.info.title.len() == 0 && e.info.app_id.len() == 0
            &&& !e.info.activated && !e.maximized && !e.sticky && !e.covered
            &&& e.ext == ext && e.cosmic == cosmic
        }),
        has_handle(handle)(known) <==> known.ext == handle,
        has_cosmic(handle)(known) <==> known.cosmic is Some && known.cosmic->0 == handle,
{
}

} // verus!
