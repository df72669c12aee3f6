//! The numbers that the compositor sends for sets of flags and lists of states.
//!
//! Which flags a protocol knows is what the protocol crates were generated with. A value with
//! a flag that they do not know counts as no value.

use cosmic_protocols::toplevel_info::v1::client::zcosmic_toplevel_handle_v1;
use cosmic_protocols::workspace::v2::client::zcosmic_workspace_handle_v2;
use vstd::prelude::*;
use wayland_client::protocol::{wl_keyboard, wl_seat};
use wayland_protocols::ext::workspace::v1::client::{
    ext_workspace_group_handle_v1, ext_workspace_handle_v1,
};

verus! {

/// The seat flag for a pointer.
pub const SEAT_POINTER: u32 = 1;

/// The seat flag for a touch screen.
pub const SEAT_TOUCH: u32 = 4;

/// All seat flags: pointer, keyboard and touch.
pub const SEAT_FLAGS: u32 = 7;

/// The only workspace group flag: new workspaces can be asked for.
pub const GROUP_CREATE_WORKSPACE: u32 = 1;

/// The workspace flag for the one that is shown.
pub const WORKSPACE_ACTIVE: u32 = 1;

/// All workspace flags: active, urgent and hidden.
pub const WORKSPACE_FLAGS: u32 = 7;

/// The bits of all the requests that a COSMIC workspace may offer.
pub const COSMIC_WORKSPACE_REQUESTS: u32 = 7;

/// The only COSMIC workspace flag: the workspace is pinned.
pub const PINNED: u32 = 1;

/// The value itself, if all its bits are among the known ones.
pub open spec fn known(raw: u32, flags: u32) -> Option<u32> {
    if raw & !flags == 0 {
        Some(raw)
    } else {
        None
    }
}

/// `wl_seat::Capability::from_bits` accepts a number whose bits are all seat flags, and keeps
/// its bits.
#[verifier::external_body]
fn seat_flags(raw: u32) -> (r: Option<u32>)
    ensures
        r == known(raw, SEAT_FLAGS),
{
    match wl_seat::Capability::from_bits(raw) {
        Some(flags) => Some(flags.bits()),
        None => None,
    }
}

/// `ext_workspace_group_handle_v1::GroupCapabilities::from_bits` accepts a number whose bits
/// are all group flags, and keeps its bits.
#[verifier::external_body]
fn group_flags(raw: u32) -> (r: Option<u32>)
    ensures
        r == known(raw, GROUP_CREATE_WORKSPACE),
{
    match ext_workspace_group_handle_v1::GroupCapabilities::from_bits(raw) {
        Some(flags) => Some(flags.bits()),
        None => None,
    }
}

/// `ext_workspace_handle_v1::State::from_bits` accepts a number whose bits are all workspace
/// flags, and keeps its bits.
#[verifier::external_body]
fn workspace_flags(raw: u32) -> (r: Option<u32>)
    ensures
        r == known(raw, WORKSPACE_FLAGS),
{
    match ext_workspace_handle_v1::State::from_bits(raw) {
        Some(flags) => Some(flags.bits()),
        None => None,
    }
}

/// `zcosmic_workspace_handle_v2::WorkspaceCapabilities::from_bits` accepts a number whose bits
/// all belong to a request, and keeps its bits.
#[verifier::external_body]
fn cosmic_request_flags(raw: u32) -> (r: Option<u32>)
    ensures
        r == known(raw, COSMIC_WORKSPACE_REQUESTS),
{
    match zcosmic_workspace_handle_v2::WorkspaceCapabilities::from_bits(raw) {
        Some(flags) => Some(flags.bits()),
        None => None,
    }
}

/// `zcosmic_workspace_handle_v2::State::from_bits` accepts a number whose only bit is the flag
/// for a pinned workspace, or none, and keeps its bits.
#[verifier::external_body]
fn cosmic_state_flags(raw: u32) -> (r: Option<u32>)
    ensures
        r == known(raw, PINNED),
{
    match zcosmic_workspace_handle_v2::State::from_bits(raw) {
        Some(flags) => Some(flags.bits()),
        None => None,
    }
}

/// A state of a window.
#[derive(Clone, Copy, PartialEq, Eq, Structural)]
pub enum WindowState {
    Maximized,
    Minimized,
    Activated,
    Fullscreen,
    Sticky,
}

/// The number that stands for a window state on the wire.
pub open spec fn window_state_code(state: WindowState) -> u32 {
    match state {
        WindowState::Maximized => 0,
        WindowState::Minimized => 1,
        WindowState::Activated => 2,
        WindowState::Fullscreen => 3,
        WindowState::Sticky => 4,
    }
}

/// The discriminants of `zcosmic_toplevel_handle_v1::State` are the protocol's numbers.
#[verifier::external_body]
pub(crate) fn code_of(state: WindowState) -> (r: u32)
    ensures
        r == window_state_code(state),
{
    match state {
        WindowState::Maximized => zcosmic_toplevel_handle_v1::State::Maximized as u32,
        WindowState::Minimized => zcosmic_toplevel_handle_v1::State::Minimized as u32,
        WindowState::Activated => zcosmic_toplevel_handle_v1::State::Activated as u32,
        WindowState::Fullscreen => zcosmic_toplevel_handle_v1::State::Fullscreen as u32,
        WindowState::Sticky => zcosmic_toplevel_handle_v1::State::Sticky as u32,
    }
}

/// The number of the `xkb_v1` keymap format.
pub const KEYMAP_XKB_V1: u32 = 1;

/// The discriminant of `wl_keyboard::KeymapFormat::XkbV1` is the protocol's number.
#[verifier::external_body]
pub(crate) fn xkb_v1_code() -> (r: u32)
    ensures
        r == KEYMAP_XKB_V1,
{
    wl_keyboard::KeymapFormat::XkbV1 as u32
}

/// Whether a seat has a pointer and whether it has a touch screen; nothing if the number has
/// a flag that is not known.
pub fn seat_devices(raw: u32) -> (r: Option<(bool, bool)>)
    ensures
        r == match known(raw, SEAT_FLAGS) {
            Some(flags) => Some((flags & SEAT_POINTER != 0, flags & SEAT_TOUCH != 0)),
            None => None::<(bool, bool)>,
        },
{
    match seat_flags(raw) {
        Some(flags) => Some((flags & SEAT_POINTER != 0, flags & SEAT_TOUCH != 0)),
        None => None,
    }
}

/// Whether a workspace group can be asked for a new workspace.
pub fn can_create_workspace(raw: u32) -> (r: bool)
    ensures
        r <==> raw == GROUP_CREATE_WORKSPACE,
{
    match group_flags(raw) {
        Some(flags) => {
            assert(flags & !1u32 == 0 ==> (flags & 1 != 0 <==> flags == 1)) by (bit_vector);
            flags & GROUP_CREATE_WORKSPACE != 0
        },
        None => {
            assert(raw == 1 ==> raw & !1u32 == 0) by (bit_vector);
            false
        },
    }
}

/// Whether a workspace is the one that is shown.
pub fn is_active(raw: u32) -> (r: bool)
    ensures
        r <==> known(raw, WORKSPACE_FLAGS) is Some && raw & WORKSPACE_ACTIVE != 0,
{
    match workspace_flags(raw) {
        Some(flags) => flags & WORKSPACE_ACTIVE != 0,
        None => false,
    }
}

/// The bits of the requests that a COSMIC workspace offers; none if one is not known.
pub fn cosmic_requests(raw: u32) -> (r: u32)
    ensures
        r == match known(raw, COSMIC_WORKSPACE_REQUESTS) {
            Some(flags) => flags,
            None => 0,
        },
{
    match cosmic_request_flags(raw) {
        Some(flags) => flags,
        None => 0,
    }
}

/// The COSMIC flags of a workspace; none if one is not known.
pub fn cosmic_state(raw: u32) -> (r: u32)
    ensures
        r == if raw == PINNED {
            PINNED
        } else {
            0
        },
{
    assert(raw & !1u32 == 0 <==> raw == 0 || raw == 1) by (bit_vector);
    match cosmic_state_flags(raw) {
        Some(flags) => flags,
        None => 0,
    }
}

/// The number that four bytes denote, with the least significant one first or last.
pub open spec fn word(b: Seq<u8>, little: bool) -> u32 {
    (if little {
        b[0] + 0x100 * b[1] + 0x10000 * b[2] + 0x1000000 * b[3]
    } else {
        b[3] + 0x100 * b[2] + 0x10000 * b[1] + 0x1000000 * b[0]
    }) as u32
}

/// `u32::from_ne_bytes` reads four bytes in the byte order of the machine. Which of the two
/// orders that is depends on the machine.
#[verifier::external_body]
fn native_word(bytes: [u8; 4]) -> (r: u32)
    ensures
        r == word(bytes@, true) || r == word(bytes@, false),
{
    u32::from_ne_bytes(bytes)
}

/// The words that an array holds in a byte order; bytes behind the last full word are left
/// out.
pub open spec fn words_of(raw: Seq<u8>, little: bool) -> Seq<u32> {
    Seq::new(raw.len() / 4, |i: int| word(raw.subrange(4 * i, 4 * i + 4), little))
}

/// The words that an array holds in a byte order.
pub fn words_in(raw: &Vec<u8>, little: bool) -> (r: Vec<u32>)
    ensures
        r@ == words_of(raw@, little),
{
    let count = raw.len() / 4;
    let mut r: Vec<u32> = Vec::new();
    let mut i: usize = 0;
    while i < count
        invariant
            i <= count,
            count == raw@.len() / 4,
            raw@.len() <= usize::MAX,
            r@.len() == i,
            forall|j: int| 0 <= j < i ==> #[trigger] r@[j] == words_of(raw@, little)[j],
        decreases count - i,
    {
        let at = 4 * i;
        let (a, b, c, d) = if little {
            (raw[at], raw[at + 1], raw[at + 2], raw[at + 3])
        } else {
            (raw[at + 3], raw[at + 2], raw[at + 1], raw[at])
        };
        let n: u32 = a as u32 + 0x100 * b as u32 + 0x10000 * c as u32 + 0x1000000 * d as u32;
        assert(n == word(raw@.subrange(4 * i, 4 * i + 4), little));
        r.push(n);
        i += 1;
    }
    assert(r@ =~= words_of(raw@, little));
    r
}

/// The words that an array holds. The compositor writes them in the byte order of the
/// machine, and it is not said which of the two that is.
pub fn words(raw: &Vec<u8>) -> (r: Vec<u32>)
    ensures
        r@ == words_of(raw@, true) || r@ == words_of(raw@, false),
{
    words_in(raw, native_word([1, 0, 0, 0]) == 1)
}

/// Whether a list of states holds a state.
pub fn has_state(states: &Vec<u32>, state: WindowState) -> (r: bool)
    ensures
        r == states@.contains(window_state_code(state)),
{
    let code = code_of(state);
    let mut i: usize = 0;
    while i < states.len()
        invariant
            i <= states@.len(),
            code == window_state_code(state),
            forall|j: int| 0 <= j < i ==> states@[j] != code,
        decreases states@.len() - i,
    {
        if states[i] == code {
            assert(states@[i as int] == code);
            return true;
        }
        i += 1;
    }
    false
}

/// Flags are known exactly if each of them is: adding no flag to a known set leaves it known,
/// and one unknown flag makes the whole unknown. What is known is told as it is.
pub proof fn law_flags_are_known_together(raw: u32, flags: u32)
    ensures
        known(raw, flags) is Some <==> raw & flags == raw,
        known(raw, flags) matches Some(r) ==> r == raw,
        known(0, flags) == Some(0u32),
        known(flags, flags) == Some(flags),
        flags == 7 ==> (known(raw, flags) is Some <==> raw <= 7),
        flags == 1 ==> (known(raw, flags) is Some <==> raw <= 1),
{
    assert(raw & !flags == 0 <==> raw & flags == raw) by (bit_vector);
    assert(0u32 & !flags == 0) by (bit_vector);
    assert(flags & !flags == 0) by (bit_vector);
    assert(raw & !7u32 == 0 <==> raw <= 7) by (bit_vector);
    assert(raw & !1u32 == 0 <==> raw <= 1) by (bit_vector);
}

/// The states of a window have numbers of their own: no two share one.
pub proof fn law_window_states_are_told_apart(a: WindowState, b: WindowState)
    ensures
        window_state_code(a) == window_state_code(b) <==> a == b,
        window_state_code(a) < 5,
{
}

proof fn lemma_four_digits(a: int, b: int, c: int, d: int)
    requires
        0 <= a < 0x100,
        0 <= b < 0x100,
        0 <= c < 0x100,
        0 <= d < 0x100,
    ensures
        ({
            let n = a + 0x100 * b + 0x1_0000 * c + 0x100_0000 * d;
            &&& 0 <= n <= u32::MAX
            &&& n % 0x100 == a
            &&& n / 0x100 % 0x100 == b
            &&& n / 0x1_0000 % 0x100 == c
            &&& n / 0x100_0000 == d
        }),
{
    let n = a + 0x100 * b + 0x1_0000 * c + 0x100_0000 * d;
    assert(n / 0x100 == b + 0x100 * c + 0x1_0000 * d);
    assert(n / 0x1_0000 == c + 0x100 * d);
}

/// A word has the value of its bytes as digits of a number to the base of two hundred and
/// fifty-six, from the last or from the first; so the bytes in the other order, read the other
/// way, give the same word, and no two words have the same bytes.
pub proof fn law_words_are_their_bytes(b: Seq<u8>, c: Seq<u8>, little: bool)
    requires
        b.len() == 4,
        c.len() == 4,
    ensures
        word(b, little) == word(b.reverse(), !little),
        word(b, true) % 0x100 == b[0],
        word(b, true) / 0x100 % 0x100 == b[1],
        word(b, true) / 0x1_0000 % 0x100 == b[2],
        word(b, true) / 0x100_0000 == b[3],
        word(b, little) == word(c, little) ==> b == c,
{
    assert(b.reverse()[0] == b[3] && b.reverse()[1] == b[2] && b.reverse()[2] == b[1]
        && b.reverse()[3] == b[0]);
    lemma_four_digits(b[0] as int, b[1] as int, b[2] as int, b[3] as int);
    if little {
        lemma_four_digits(c[0] as int, c[1] as int, c[2] as int, c[3] as int);
    } else {
        lemma_four_digits(b[3] as int, b[2] as int, b[1] as int, b[0] as int);
        lemma_four_digits(c[3] as int, c[2] as int, c[1] as int, c[0] as int);
    }
    if word(b, little) == word(c, little) {
        assert(b =~= c);
    }
}

/// Words are read one after the other, four bytes each; what is left at the end and makes no
/// word is ignored.
pub proof fn law_words_are_read_one_after_the_other(
    first: Seq<u8>,
    rest: Seq<u8>,
    little: bool,
)
    requires
        first.len() == 4,
    ensures
        words_of(first + rest, little) == seq![word(first, little)] + words_of(rest, little),
        rest.len() < 4 ==> words_of(rest, little).len() == 0,
{
    let raw = first + rest;
    assert(raw.len() / 4 == 1 + rest.len() / 4);
    assert forall|i: int| 0 <= i < raw.len() / 4 implies #[trigger] words_of(raw, little)[i] == (
    seq![word(first, little)] + words_of(rest, little))[i] by {
        if i == 0 {
            assert(raw.subrange(0, 4) =~= first);
        } else {
            assert(raw.subrange(4 * i, 4 * i + 4) =~= rest.subrange(
                4 * (i - 1),
                4 * (i - 1) + 4,
            ));
        }
    }
    assert(words_of(raw, little) =~= seq![word(first, little)] + words_of(rest, little));
}

/// A seat tells of its devices by one flag each, whatever its other flags are; one with flags
/// that are not known tells nothing.
pub proof fn law_seat_flags_tell_devices(raw: u32)
    ensures
        known(raw, SEAT_FLAGS) is Some <==> raw <= 7,
        known(raw, SEAT_FLAGS) matches Some(flags) ==> (flags & SEAT_POINTER != 0 <==> raw % 2
            == 1) && (flags & SEAT_TOUCH != 0 <==> raw / 4 % 2 == 1),
{
    law_flags_are_known_together(raw, 7);
    assert(raw & 1 != 0 <==> raw % 2 == 1) by (bit_vector);
    assert(raw & 4 != 0 <==> raw / 4 % 2 == 1) by (bit_vector);
}

} // verus!
