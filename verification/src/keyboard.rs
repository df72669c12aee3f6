//! Simulating key presses with a virtual keyboard.
//!
//! The virtual keyboard gets the seat's own keymap. The modifiers that a key changes are
//! worked out with the same keymap and reported along with it.

pub use crate::error::{Error, ErrorView};
use crate::error;
use crate::number;
use crate::search;
use crate::text;
use crate::wire;
use vstd::prelude::*;

verus! {

/// One key that goes down or up. `keycode` is the X11 keycode, which is that of the kernel
/// plus eight.
#[derive(Debug, Clone, Copy, PartialEq, Eq, Structural)]
pub struct KeyEvent {
    pub keycode: i32,
    pub down: bool,
    pub delay_ms: i32,
}

/// A global of the compositor that is used for typing.
#[derive(Debug, Clone, Copy, PartialEq, Eq, Structural)]
pub enum Global {
    Seat,
    Manager,
}

/// A global to bind, and the version to bind it with.
#[derive(Debug, Clone, Copy, PartialEq, Eq, Structural)]
pub struct Binding {
    pub global: Global,
    pub version: u32,
}

/// What the compositor has offered for typing.
#[derive(Debug, Clone, Copy, PartialEq, Eq, Structural)]
pub struct State {
    pub seat: bool,
    pub manager: bool,
    pub keymap: bool,
}

/// Which global an announced interface is bound as. Only the first seat is bound.
pub open spec fn binding(s: State, interface: Seq<char>, version: u32) -> Option<Binding> {
    if interface == "wl_seat"@ && !s.seat {
        Some(Binding { global: Global::Seat, version: number::least(version, 7) })
    } else if interface == "zwp_virtual_keyboard_manager_v1"@ {
        Some(Binding { global: Global::Manager, version: 1 })
    } else {
        None
    }
}

/// The state after a global has been bound.
pub open spec fn with_global(s: State, global: Global) -> State {
    match global {
        Global::Seat => State { seat: true, ..s },
        Global::Manager => State { manager: true, ..s },
    }
}

/// The modifiers and the layout that the keymap's state holds.
#[derive(Debug, Clone, Copy, PartialEq, Eq, Structural)]
pub struct Masks {
    pub depressed: u32,
    pub latched: u32,
    pub locked: u32,
    pub layout: u32,
}

/// What came of an action.
pub enum KeyReply {
    Done,
    Failed(Error),
    /// The keymap could not be mapped into memory.
    CannotMap(String),
    /// The keymap could not be compiled.
    CannotCompile,
    /// The key has been entered into the keymap's state. `changed` are the parts of it that
    /// this changed, `masks` is what it holds now, and `elapsed` is how many milliseconds ago
    /// typing began.
    Updated { changed: u32, masks: Masks, elapsed: u128 },
}

/// What a `KeyReply` says.
#[verifier::ext_equal]
pub enum KeyReplyView {
    Done,
    Failed(ErrorView),
    CannotMap(Seq<char>),
    CannotCompile,
    Updated { changed: u32, masks: Masks, elapsed: u128 },
}

impl View for KeyReply {
    type V = KeyReplyView;

    open spec fn view(&self) -> KeyReplyView {
        match self {
            KeyReply::Done => KeyReplyView::Done,
            KeyReply::Failed(e) => KeyReplyView::Failed(e@),
            KeyReply::CannotMap(why) => KeyReplyView::CannotMap(why@),
            KeyReply::CannotCompile => KeyReplyView::CannotCompile,
            KeyReply::Updated { changed, masks, elapsed } => KeyReplyView::Updated {
                changed: *changed,
                masks: *masks,
                elapsed: *elapsed,
            },
        }
    }
}

/// How far typing has come; the index is that of the key at hand.
#[derive(Debug, Clone, Copy, PartialEq, Eq, Structural)]
pub enum KeyStage {
    Start,
    /// The compositor is being asked for its globals.
    Globals,
    /// The seat is being asked for its keymap.
    Keymap,
    /// The virtual keyboard is being made.
    Create,
    /// The key is being entered into the keymap's state.
    Update(usize),
    /// The key is being sent.
    Send(usize),
}

/// What typing needs done.
#[derive(Debug, Clone, Copy, PartialEq, Eq, Structural)]
pub enum KeyAction {
    /// Connect to the compositor and ask for its globals.
    Connect,
    /// Ask the seat for its keymap.
    FetchKeymap,
    /// Make a virtual keyboard with the seat's keymap, and compile the keymap.
    CreateKeyboard,
    /// Sleep for this many milliseconds, then enter the key, by its X11 keycode, into the
    /// keymap's state.
    Update { sleep: u64, keycode: u32, down: bool },
    /// Send the modifiers, if there are any to send, and then the key, by the kernel's code.
    Send { modifiers: Option<Masks>, time: u32, code: u32, value: u32 },
}

/// How typing goes on: it asks for an action and waits at a stage, or it is over. At the end
/// the virtual keyboard is destroyed if there is one.
pub enum KeyStep {
    Ask(KeyStage, KeyAction),
    Finish { destroy: bool, outcome: Result<(), Error> },
}

/// What a `KeyStep` says.
#[verifier::ext_equal]
pub enum KeyStepView {
    Ask(KeyStage, KeyAction),
    Finish { destroy: bool, outcome: Result<(), ErrorView> },
}

impl View for KeyStep {
    type V = KeyStepView;

    open spec fn view(&self) -> KeyStepView {
        match self {
            KeyStep::Ask(stage, action) => KeyStepView::Ask(*stage, *action),
            KeyStep::Finish { destroy, outcome: Ok(_) } => KeyStepView::Finish {
                destroy: *destroy,
                outcome: Ok(()),
            },
            KeyStep::Finish { destroy, outcome: Err(e) } => KeyStepView::Finish {
                destroy: *destroy,
                outcome: Err(e@),
            },
        }
    }
}

/// Whether a key has no kernel code: X11 keycodes begin at eight.
pub open spec fn is_invalid() -> spec_fn(KeyEvent) -> bool {
    |k: KeyEvent| k.keycode < 8
}

/// The error for a key that has no kernel code.
pub open spec fn invalid_keycode(keycode: i32) -> ErrorView {
    ErrorView::Wayland("invalid X11 keycode "@ + number::signed_decimal(keycode as int))
}

/// Whether the virtual keyboard is ready at a stage.
pub open spec fn is_typing(stage: KeyStage) -> bool {
    stage is Update || stage is Send
}

/// The step that begins with the key at an index; there the end is reached behind the last.
pub open spec fn key_at(keys: Seq<KeyEvent>, i: int) -> KeyStepView {
    if i < keys.len() {
        KeyStepView::Ask(
            KeyStage::Update(i as usize),
            KeyAction::Update {
                sleep: if keys[i].delay_ms > 0 {
                    keys[i].delay_ms as u64
                } else {
                    0
                },
                keycode: keys[i].keycode as u32,
                down: keys[i].down,
            },
        )
    } else {
        KeyStepView::Finish { destroy: true, outcome: Ok(()) }
    }
}

/// How typing goes on after the replies that do not fail.
pub open spec fn key_step_on(
    keys: Seq<KeyEvent>,
    s: State,
    stage: KeyStage,
    reply: KeyReplyView,
) -> KeyStepView {
    match stage {
        KeyStage::Start => KeyStepView::Ask(KeyStage::Globals, KeyAction::Connect),
        KeyStage::Globals => if !s.seat {
            KeyStepView::Finish {
                destroy: false,
                outcome: Err(ErrorView::MissingGlobal("wl_seat"@)),
            }
        } else if !s.manager {
            KeyStepView::Finish {
                destroy: false,
                outcome: Err(ErrorView::MissingGlobal("zwp_virtual_keyboard_manager_v1"@)),
            }
        } else {
            KeyStepView::Ask(KeyStage::Keymap, KeyAction::FetchKeymap)
        },
        KeyStage::Keymap => if !s.keymap {
            KeyStepView::Finish {
                destroy: false,
                outcome: Err(ErrorView::Wayland("seat did not provide an xkb keymap"@)),
            }
        } else {
            KeyStepView::Ask(KeyStage::Create, KeyAction::CreateKeyboard)
        },
        KeyStage::Create => key_at(keys, 0),
        KeyStage::Update(i) => match reply {
            KeyReplyView::Updated { changed, masks, elapsed } => if i < keys.len() {
                KeyStepView::Ask(
                    KeyStage::Send(i),
                    KeyAction::Send {
                        modifiers: if changed != 0 {
                            Some(masks)
                        } else {
                            None
                        },
                        time: (elapsed % 0x1_0000_0000) as u32,
                        code: (keys[i as int].keycode - 8) as u32,
                        value: if keys[i as int].down {
                            1
                        } else {
                            0
                        },
                    },
                )
            } else {
                key_at(keys, i as int)
            },
            _ => key_at(keys, i as int),
        },
        KeyStage::Send(i) => key_at(keys, i + 1),
    }
}

/// How typing goes on. Keys without a kernel code are refused before anything is done.
pub open spec fn key_step(
    keys: Seq<KeyEvent>,
    s: State,
    stage: KeyStage,
    reply: KeyReplyView,
) -> KeyStepView {
    match search::first(keys, is_invalid()) {
        Some(bad) => KeyStepView::Finish {
            destroy: is_typing(stage),
            outcome: Err(invalid_keycode(bad.keycode)),
        },
        None => match reply {
            KeyReplyView::Failed(e) => KeyStepView::Finish {
                destroy: is_typing(stage),
                outcome: Err(e),
            },
            KeyReplyView::CannotMap(why) => KeyStepView::Finish {
                destroy: is_typing(stage),
                outcome: Err(ErrorView::Wayland("cannot map keymap: "@ + why)),
            },
            KeyReplyView::CannotCompile => KeyStepView::Finish {
                destroy: is_typing(stage),
                outcome: Err(ErrorView::Wayland("cannot compile keymap"@)),
            },
            _ => key_step_on(keys, s, stage, reply),
        },
    }
}

impl State {
    /// A state in which nothing has been offered yet.
    pub fn new() -> (r: State)
        ensures
            r == (State { seat: false, manager: false, keymap: false }),
    {
        State { seat: false, manager: false, keymap: false }
    }

    /// The compositor announced a global.
    pub fn global(&mut self, interface: &str, version: u32) -> (r: Option<Binding>)
        ensures
            r == binding(*old(self), interface@, version),
            *final(self) == match r {
                Some(b) => with_global(*old(self), b.global),
                None => *old(self),
            },
    {
        if text::same(interface, "wl_seat") && !self.seat {
            self.seat = true;
            Some(Binding { global: Global::Seat, version: number::lesser(version, 7) })
        } else if text::same(interface, "zwp_virtual_keyboard_manager_v1") {
            self.manager = true;
            Some(Binding { global: Global::Manager, version: 1 })
        } else {
            None
        }
    }

    /// The seat offered a keymap; returns whether it is of the format that is used.
    pub fn keymap_told(&mut self, format: u32) -> (r: bool)
        ensures
            r == (format == wire::KEYMAP_XKB_V1),
            *final(self) == (State { keymap: old(self).keymap || r, ..*old(self) }),
    {
        let known = format == wire::xkb_v1_code();
        if known {
            self.keymap = true;
        }
        known
    }
}

fn next_key(keys: &[KeyEvent], i: usize) -> (r: KeyStep)
    ensures
        r@ == key_at(keys@, i as int),
{
    if i < keys.len() {
        let key = keys[i];
        let sleep: u64 = if key.delay_ms > 0 {
            key.delay_ms as u64
        } else {
            0
        };
        KeyStep::Ask(
            KeyStage::Update(i),
            KeyAction::Update { sleep, keycode: key.keycode as u32, down: key.down },
        )
    } else {
        KeyStep::Finish { destroy: true, outcome: Ok(()) }
    }
}

fn fail(stage: KeyStage, e: Error) -> (r: KeyStep)
    ensures
        r@ == (KeyStepView::Finish { destroy: is_typing(stage), outcome: Err(e@) }),
{
    let destroy = match stage {
        KeyStage::Update(_) | KeyStage::Send(_) => true,
        _ => false,
    };
    KeyStep::Finish { destroy, outcome: Err(e) }
}

/// Goes on typing keys, in their order.
pub fn simulate_keys(keys: &[KeyEvent], state: &State, stage: KeyStage, reply: KeyReply) -> (r:
    KeyStep)
    ensures
        r@ == key_step(keys@, *state, stage, reply@),
{
    let mut i: usize = 0;
    while i < keys.len()
        invariant
            i <= keys@.len(),
            forall|j: int| 0 <= j < i ==> !is_invalid()(#[trigger] keys@[j]),
        decreases keys@.len() - i,
    {
        if keys[i].keycode < 8 {
            proof {
                search::lemma_first_index_is(keys@, is_invalid(), i as int);
            }
            let why = error::joined(
                "invalid X11 keycode ",
                &number::signed_text(keys[i].keycode),
            );
            return fail(stage, Error::Wayland(why));
        }
        i += 1;
    }
    proof {
        search::lemma_first_index_is(keys@, is_invalid(), i as int);
    }
    let updated: Option<(u32, Masks, u128)> = match reply {
        KeyReply::Failed(e) => return fail(stage, e),
        KeyReply::CannotMap(why) => {
            return fail(stage, Error::Wayland(error::joined("cannot map keymap: ", &why)));
        },
        KeyReply::CannotCompile => {
            return fail(stage, Error::Wayland("cannot compile keymap".to_owned()));
        },
        KeyReply::Done => None,
        KeyReply::Updated { changed, masks, elapsed } => Some((changed, masks, elapsed)),
    };
    match stage {
        KeyStage::Start => KeyStep::Ask(KeyStage::Globals, KeyAction::Connect),
        KeyStage::Globals => if !state.seat {
            fail(stage, Error::MissingGlobal("wl_seat"))
        } else if !state.manager {
            fail(stage, Error::MissingGlobal("zwp_virtual_keyboard_manager_v1"))
        } else {
            KeyStep::Ask(KeyStage::Keymap, KeyAction::FetchKeymap)
        },
        KeyStage::Keymap => if !state.keymap {
            fail(stage, Error::Wayland("seat did not provide an xkb keymap".to_owned()))
        } else {
            KeyStep::Ask(KeyStage::Create, KeyAction::CreateKeyboard)
        },
        KeyStage::Create => next_key(keys, 0),
        KeyStage::Update(i) => match updated {
            Some((changed, masks, elapsed)) => if i < keys.len() {
                let key = keys[i];
                assert(!is_invalid()(keys@[i as int]));
                let value: u32 = if key.down {
                    1
                } else {
                    0
                };
                KeyStep::Ask(
                    KeyStage::Send(i),
                    KeyAction::Send {
                        modifiers: if changed != 0 {
                            Some(masks)
                        } else {
                            None
                        },
                        time: (elapsed % 0x1_0000_0000) as u32,
                        code: (key.keycode - 8) as u32,
                        value,
                    },
                )
            } else {
                next_key(keys, i)
            },
            None => next_key(keys, i),
        },
        KeyStage::Send(i) => if i < keys.len() {
            next_key(keys, i + 1)
        } else {
            next_key(keys, i)
        },
    }
}

/// If one key has no kernel code, nothing is done at all, whatever stage is asked: the only
/// outcome is the error for the first such key.
pub proof fn law_invalid_keys_are_refused(
    keys: Seq<KeyEvent>,
    s: State,
    stage: KeyStage,
    reply: KeyReplyView,
    i: int,
)
    requires
        0 <= i < keys.len(),
        keys[i].keycode < 8,
        forall|j: int| 0 <= j < i ==> (#[trigger] keys[j]).keycode >= 8,
    ensures
        key_step(keys, s, stage, reply) matches KeyStepView::Finish {
            outcome,
            ..
        } && outcome == Err::<(), ErrorView>(invalid_keycode(keys[i].keycode)),
{
    search::lemma_first_index_is(keys, is_invalid(), i);
}

/// Each key is entered, then sent under its kernel code, and then the next one has its turn,
/// until the last has been sent.
pub proof fn law_keys_are_sent_in_order(
    keys: Seq<KeyEvent>,
    s: State,
    i: usize,
    changed: u32,
    masks: Masks,
    elapsed: u128,
)
    requires
        i < keys.len() <= usize::MAX,
        forall|j: int| 0 <= j < keys.len() ==> (#[trigger] keys[j]).keycode >= 8,
    ensures
        key_step(keys, s, KeyStage::Create, KeyReplyView::Done) == key_at(keys, 0),
        key_at(keys, i as int) matches KeyStepView::Ask(stage, _) && stage == KeyStage::Update(i),
        key_step(keys, s, KeyStage::Update(i), KeyReplyView::Updated { changed, masks, elapsed })
            matches KeyStepView::Ask(stage, KeyAction::Send { modifiers, code, value, .. })
            && stage == KeyStage::Send(i) && code + 8 == keys[i as int].keycode && (value == 1
            <==> keys[i as int].down) && (modifiers matches Some(m) ==> m == masks) && (
        modifiers is None <==> changed == 0),
        key_step(keys, s, KeyStage::Send(i), KeyReplyView::Done) == if i + 1 < keys.len() {
            key_at(keys, i + 1)
        } else {
            KeyStepView::Finish { destroy: true, outcome: Ok(()) }
        },
{
    search::lemma_first_index_is(keys, is_invalid(), keys.len() as int);
}

/// What is entered into the keymap's state is the key that is then sent, whatever its delay:
/// every key begins with its own code and its own direction, after exactly its own delay if
/// that is positive and at once otherwise; and what is sent for it has the kernel code and the
/// direction that were entered.
pub proof fn law_keys_are_entered_as_they_are_sent(
    keys: Seq<KeyEvent>,
    s: State,
    i: usize,
    changed: u32,
    masks: Masks,
    elapsed: u128,
    reply: KeyReplyView,
)
    requires
        i < keys.len() <= usize::MAX,
        reply is Done || reply is Updated,
        forall|j: int| 0 <= j < keys.len() ==> (#[trigger] keys[j]).keycode >= 8,
    ensures
        ({
            let begun = if i == 0 {
                key_step(keys, s, KeyStage::Create, reply)
            } else {
                key_step(keys, s, KeyStage::Send((i - 1) as usize), reply)
            };
            let sent = key_step(
                keys,
                s,
                KeyStage::Update(i),
                KeyReplyView::Updated { changed, masks, elapsed },
            );
            let key = keys[i as int];
            &&& begun == key_at(keys, i as int)
            &&& begun matches KeyStepView::Ask(stage, KeyAction::Update { sleep, keycode, down })
            &&& stage == KeyStage::Update(i)
            &&& keycode == key.keycode
            &&& down == key.down
            &&& key.delay_ms >= 0 ==> sleep == key.delay_ms
            &&& key.delay_ms < 0 ==> sleep == 0
            &&& sent matches KeyStepView::Ask(next, KeyAction::Send { code, value, .. })
            &&& next == KeyStage::Send(i)
            &&& code + 8 == keycode
            &&& value == if down { 1u32 } else { 0u32 }
            &&& key_step(keys, s, KeyStage::Update(i), KeyReplyView::Done) == begun
        }),
{
    search::lemma_first_index_is(keys, is_invalid(), keys.len() as int);
}

/// The modifiers go out with a key exactly if entering it changed them, and all of them do. The
/// time that a key is sent with is that of the typing, as far as the counter goes: it starts
/// again once it is full.
pub proof fn law_modifiers_and_time_go_with_the_key(
    keys: Seq<KeyEvent>,
    s: State,
    i: usize,
    changed: u32,
    masks: Masks,
    elapsed: u128,
)
    requires
        i < keys.len() <= usize::MAX,
        forall|j: int| 0 <= j < keys.len() ==> (#[trigger] keys[j]).keycode >= 8,
    ensures
        key_step(keys, s, KeyStage::Update(i), KeyReplyView::Updated { changed, masks, elapsed })
            matches KeyStepView::Ask(_, KeyAction::Send { modifiers, time, .. }) && (changed > 0
            ==> modifiers == Some(masks)) && (changed == 0 ==> modifiers is None) && (elapsed
            <= u32::MAX ==> time == elapsed) && (elapsed - time) % 0x1_0000_0000 == 0,
{
    search::lemma_first_index_is(keys, is_invalid(), keys.len() as int);
}

/// Typing ends well only once every key has been sent, and only then or after a failure with a
/// virtual keyboard in place is that keyboard destroyed.
pub proof fn law_typing_ends_after_the_last_key(
    keys: Seq<KeyEvent>,
    s: State,
    stage: KeyStage,
    reply: KeyReplyView,
    destroy: bool,
    outcome: Result<(), ErrorView>,
)
    requires
        key_step(keys, s, stage, reply) == (KeyStepView::Finish { destroy, outcome }),
    ensures
        outcome is Ok ==> destroy && match stage {
            KeyStage::Create => keys.len() == 0,
            KeyStage::Update(i) => i >= keys.len(),
            KeyStage::Send(i) => i + 1 >= keys.len(),
            _ => false,
        },
        outcome is Ok ==> forall|j: int| 0 <= j < keys.len() ==> (#[trigger] keys[j]).keycode >= 8,
        outcome is Err ==> (destroy <==> stage is Update || stage is Send),
        reply is Failed || reply is CannotMap || reply is CannotCompile ==> outcome is Err,
        outcome is Err ==> {
            ||| exists|j: int| 0 <= j < keys.len() && (#[trigger] keys[j]).keycode < 8
            ||| reply is Failed || reply is CannotMap || reply is CannotCompile
            ||| stage is Globals && !(s.seat && s.manager)
            ||| stage is Keymap && !s.keymap
        },
{
    search::lemma_first_index(keys, is_invalid());
    let i = search::first_index(keys, is_invalid());
    if i < keys.len() {
        assert(keys[i].keycode < 8);
    } else {
        assert forall|j: int| 0 <= j < keys.len() implies (#[trigger] keys[j]).keycode >= 8 by {
            assert(!is_invalid()(keys[j]));
        }
    }
}

/// With keys that can all be sent, typing connects, fetches the keymap and makes the keyboard,
/// in this order, and only with what each needs: a seat, the manager of virtual keyboards, and
/// a keymap. What is missing is named, and what failed is handed on.
pub proof fn law_typing_is_prepared_in_order(
    keys: Seq<KeyEvent>,
    s: State,
    reply: KeyReplyView,
    stage: KeyStage,
    e: ErrorView,
    why: Seq<char>,
)
    requires
        reply is Done || reply is Updated,
        forall|j: int| 0 <= j < keys.len() ==> (#[trigger] keys[j]).keycode >= 8,
    ensures
        key_step(keys, s, KeyStage::Start, reply) == KeyStepView::Ask(
            KeyStage::Globals,
            KeyAction::Connect,
        ),
        s.seat && s.manager ==> key_step(keys, s, KeyStage::Globals, reply)
            == KeyStepView::Ask(KeyStage::Keymap, KeyAction::FetchKeymap),
        !s.seat ==> key_step(keys, s, KeyStage::Globals, reply) == (
        KeyStepView::Finish {
            destroy: false,
            outcome: Err(ErrorView::MissingGlobal("wl_seat"@)),
        }),
        s.seat && !s.manager ==> key_step(keys, s, KeyStage::Globals, reply) == (
        KeyStepView::Finish {
            destroy: false,
            outcome: Err(ErrorView::MissingGlobal("zwp_virtual_keyboard_manager_v1"@)),
        }),
        keys.len() == 0 ==> key_step(keys, s, KeyStage::Create, reply) == (KeyStepView::Finish {
            destroy: true,
            outcome: Ok(()),
        }),
        s.keymap ==> key_step(keys, s, KeyStage::Keymap, reply) == KeyStepView::Ask(
            KeyStage::Create,
            KeyAction::CreateKeyboard,
        ),
        !s.keymap ==> key_step(keys, s, KeyStage::Keymap, reply) == (
        KeyStepView::Finish {
            destroy: false,
            outcome: Err(ErrorView::Wayland("seat did not provide an xkb keymap"@)),
        }),
        key_step(keys, s, stage, KeyReplyView::Failed(e)) matches KeyStepView::Finish {
            outcome,
            ..
        } && outcome == Err::<(), ErrorView>(e),
        key_step(keys, s, stage, KeyReplyView::CannotMap(why)) matches KeyStepView::Finish {
            outcome,
            ..
        } && outcome == Err::<(), ErrorView>(ErrorView::Wayland("cannot map keymap: "@ + why)),
        key_step(keys, s, stage, KeyReplyView::CannotCompile) matches KeyStepView::Finish {
            outcome,
            ..
        } && outcome == Err::<(), ErrorView>(ErrorView::Wayland("cannot compile keymap"@)),
{
    search::lemma_first_index_is(keys, is_invalid(), keys.len() as int);
}

/// The message on a key that has no kernel code ends with the key's number, sign and all.
pub proof fn law_refused_key_is_named(keycode: i32)
    ensures
        invalid_keycode(keycode) matches ErrorView::Wayland(m) && text::begins_with(
            m,
            "invalid X11 keycode "@,
        ) && number::signed_value(m.skip("invalid X11 keycode "@.len() as int)) == Some(
            keycode as int,
        ),
{
    number::law_numbers_are_read_back(0, keycode as int);
    let start = "invalid X11 keycode "@;
    let m = start + number::signed_decimal(keycode as int);
    assert(m.subrange(0, start.len() as int) =~= start);
    assert(m.skip(start.len() as int) =~= number::signed_decimal(keycode as int));
}

/// No version of an interface is asked for that is newer than the compositor offers, and none
/// that is newer than is understood. Only the first seat is bound.
pub proof fn law_offered_versions_are_respected(s: State, interface: Seq<char>, version: u32)
    requires
        version >= 1,
    ensures
        binding(s, interface, version) matches Some(b) ==> {
            &&& 1 <= b.version <= version
            &&& b.global is Seat ==> interface == "wl_seat"@ && !s.seat && b.version <= 7 && (
            b.version == version || b.version == 7)
            &&& b.global is Manager ==> interface == "zwp_virtual_keyboard_manager_v1"@
                && b.version == 1
        },
        binding(s, "wl_seat"@, version) is Some <==> !s.seat,
        binding(s, "zwp_virtual_keyboard_manager_v1"@, version) is Some,
{
    reveal_strlit("wl_seat");
    reveal_strlit("zwp_virtual_keyboard_manager_v1");
    assert("wl_seat"@.len() == 7);
    assert("zwp_virtual_keyboard_manager_v1"@.len() == 31);
}

/// What has been bound is known from then on, and nothing else is learnt from it.
pub proof fn law_bound_globals_are_known(s: State, global: Global)
    ensures
        ({
            let t = with_global(s, global);
            &&& t.seat <==> s.seat || global is Seat
            &&& t.manager <==> s.manager || global is Manager
            &&& t.keymap == s.keymap
        }),
{
}

} // verus!
