//! A probe for the pointer, from the first answer of the compositor to the result.
//!
//! Each method takes what has just happened and says what is to be done next; the last step is
//! always `ProbeStep::Finish`.

use crate::error::{Error, ErrorView};
use crate::pointer;
use crate::pointer::{
    Hit, OutputInfo, OutputView, Overlay, OverlayKind, PointerInfo, PointerView, Rect, State,
    StateView,
};
use crate::search;
use vstd::prelude::*;

verus! {

/// What a probe is made for.
#[derive(Debug, Clone, Copy, PartialEq, Eq, Structural)]
pub enum Purpose {
    /// To tell where the pointer is.
    Position,
    /// To measure the work area as well.
    WorkArea,
    /// To move the pointer.
    Move,
}

/// How many milliseconds a probe waits for the pointer to enter the work area overlay.
pub const WORK_AREA_TIMEOUT: u64 = 1000;

/// An overlay to map.
#[derive(Debug, Clone, Copy, PartialEq, Eq, Structural)]
pub struct Plan {
    pub output_id: u32,
    pub kind: OverlayKind,
    /// -1 covers panels, 0 makes room for them.
    pub exclusive_zone: i32,
    /// Whether it takes the keyboard focus.
    pub keyboard: bool,
}

/// Where to move the pointer to, relative to a surface, in 256ths of a pixel.
#[derive(Debug, Clone, Copy, PartialEq, Eq, Structural)]
pub struct Warp {
    pub surface: u32,
    pub x: i64,
    pub y: i64,
    pub serial: u32,
}

/// What a probe does next.
pub enum ProbeStep {
    /// Have these outputs described logically, then let the compositor catch up.
    Describe(Vec<u32>),
    /// Get the devices, map the overlays in this order, and wait until the pointer is known.
    Cover { pointer: bool, touch: bool, keyboard: bool, overlays: Vec<Plan> },
    /// Destroy these overlays, and wait until the pointer has entered what is below them.
    Uncover(Vec<Overlay>),
    /// Tell where the pointer shall be, relative to the overlay that it is on.
    Aim,
    /// Move the pointer, then let the compositor catch up.
    Warp(Warp),
    /// The probe is over; if `unmap`, its overlays are taken away first.
    Finish { unmap: bool, outcome: Result<PointerInfo, Error> },
}

/// A probe for the pointer.
pub struct Probe {
    pub purpose: Purpose,
    /// How many milliseconds to wait for the pointer.
    pub timeout: u64,
    pub state: State,
    /// Whether the probe has got a pointer.
    pub pointer: bool,
    /// How the pointer entered the overlays.
    pub hit: Hit,
    /// The nanoseconds until it did.
    pub elapsed: u128,
}

/// What a `Probe` holds.
#[verifier::ext_equal]
pub struct ProbeView {
    pub purpose: Purpose,
    pub timeout: u64,
    pub state: StateView,
    pub pointer: bool,
    pub hit: Hit,
    pub elapsed: u128,
}

impl View for Probe {
    type V = ProbeView;

    open spec fn view(&self) -> ProbeView {
        ProbeView {
            purpose: self.purpose,
            timeout: self.timeout,
            state: self.state@,
            pointer: self.pointer,
            hit: self.hit,
            elapsed: self.elapsed,
        }
    }
}

/// A probe that has not begun.
pub open spec fn fresh(purpose: Purpose, timeout: u64) -> ProbeView {
    ProbeView {
        purpose,
        timeout,
        state: pointer::silent(),
        pointer: false,
        hit: Hit { output_id: 0, kind: OverlayKind::Full, x: 0, y: 0, serial: 0 },
        elapsed: 0,
    }
}

/// Whether `ids` lists the members of `outputs`, each once.
pub open spec fn lists(ids: Seq<u32>, outputs: Set<u32>) -> bool {
    ids.no_duplicates() && ids.to_set() == outputs
}

/// The overlays of one kind, one for each output.
pub open spec fn layer_of(ids: Seq<u32>, kind: OverlayKind, keyboard: bool) -> Seq<Plan> {
    ids.map_values(
        |id: u32|
            Plan {
                output_id: id,
                kind,
                exclusive_zone: match kind {
                    OverlayKind::Full => -1i32,
                    OverlayKind::WorkArea => 0i32,
                },
                keyboard: keyboard && kind == OverlayKind::Full,
            },
    )
}

/// The overlays that a probe maps. Later ones lie above earlier ones, so the full ones come
/// last and get the pointer first. To move the pointer takes the keyboard focus.
pub open spec fn overlays_for(purpose: Purpose, ids: Seq<u32>) -> Seq<Plan> {
    let keyboard = purpose == Purpose::Move;
    if purpose == Purpose::WorkArea {
        layer_of(ids, OverlayKind::WorkArea, keyboard) + layer_of(ids, OverlayKind::Full, keyboard)
    } else {
        layer_of(ids, OverlayKind::Full, keyboard)
    }
}

/// The whole number of pixels nearest to a number of 256ths; halves go away from zero.
pub open spec fn nearest(d: int) -> int {
    if d >= 0 {
        (d + 128) / 256
    } else {
        -((128 - d) / 256)
    }
}

/// The nearest number that an `i32` can hold.
pub open spec fn saturated(n: int) -> i32 {
    if n > i32::MAX {
        i32::MAX
    } else if n < i32::MIN {
        i32::MIN
    } else {
        n as i32
    }
}

/// Whether an overlay measures the work area of an output.
pub open spec fn measures(output_id: u32) -> spec_fn(Overlay) -> bool {
    |o: Overlay| o.kind == OverlayKind::WorkArea && o.output_id == output_id
}

/// Whether an overlay lies on an output.
pub open spec fn lies_on(output_id: u32) -> spec_fn(Overlay) -> bool {
    |o: Overlay| o.output_id == output_id
}

/// The work area of an output, as far as it was measured: its size is that of the work area
/// overlay, and its origin the place of the pointer, given among all outputs, less the place
/// where the pointer entered that overlay. Otherwise it is the output.
pub open spec fn work_area_of(p: ProbeView, output: OutputView, gx: int, gy: int) -> Rect {
    let whole = Rect { x: output.x, y: output.y, width: output.width, height: output.height };
    match search::first(p.state.overlays, measures(p.hit.output_id)) {
        Some(o) => if o.width > 0 && o.height > 0 {
            let sized = Rect { width: o.width as i32, height: o.height as i32, ..whole };
            match p.state.work_hit {
                Some(h) => if h.output_id == p.hit.output_id {
                    Rect {
                        x: saturated(nearest(gx - h.x)),
                        y: saturated(nearest(gy - h.y)),
                        ..sized
                    }
                } else {
                    sized
                },
                None => sized,
            }
        } else {
            whole
        },
        None => whole,
    }
}

/// How the pointer entered the overlays, with the place where it is now.
pub open spec fn current_hit(p: ProbeView) -> Hit {
    match p.state.hit {
        Some(hit) => hit,
        None => p.hit,
    }
}

/// The output that the pointer is on.
pub open spec fn current_output(p: ProbeView) -> OutputView {
    let id = current_hit(p).output_id;
    if p.state.outputs.contains_key(id) {
        p.state.outputs[id]
    } else {
        pointer::unknown_output()
    }
}

/// What a probe has found out: the pointer is at the origin of its output plus its place
/// relative to it.
pub open spec fn found(p: ProbeView) -> PointerView {
    let hit = current_hit(p);
    let output = current_output(p);
    let x = output.x * 256 + hit.x;
    let y = output.y * 256 + hit.y;
    PointerView {
        x: x as i64,
        y: y as i64,
        output,
        work_area: work_area_of(p, output, x, y),
        elapsed: p.elapsed,
    }
}

/// A place moved onto a side of a surface, both in 256ths of a pixel.
pub open spec fn onto(at: i64, size: u32) -> int {
    let end = if size == 0 {
        0
    } else {
        (size - 1) * 256
    };
    if at < 0 {
        0
    } else if at > end {
        end
    } else {
        at as int
    }
}

/// How a probe moves the pointer to a place, or why it cannot.
pub open spec fn warp_to(p: ProbeView, x: i64, y: i64) -> Result<Warp, ErrorView> {
    if !p.state.pointer_warp {
        Err(ErrorView::MissingGlobal("wp_pointer_warp_v1"@))
    } else if !p.pointer {
        Err(ErrorView::NoInputDevice)
    } else {
        match search::first(p.state.overlays, lies_on(p.hit.output_id)) {
            Some(o) => Ok(
                Warp {
                    surface: o.surface,
                    x: onto(x, o.width) as i64,
                    y: onto(y, o.height) as i64,
                    serial: p.hit.serial,
                },
            ),
            None => Err(ErrorView::Wayland("overlay vanished"@)),
        }
    }
}

/// Whether a step ends the probe with an error, before or after its overlays are mapped.
pub open spec fn fails(step: ProbeStep, mapped: bool, error: ErrorView) -> bool {
    &&& step matches ProbeStep::Finish { unmap, outcome }
    &&& unmap == mapped
    &&& outcome matches Err(e)
    &&& e@ == error
}

/// Whether a step ends the probe with what it has found out.
pub open spec fn succeeds(step: ProbeStep, info: PointerView) -> bool {
    &&& step matches ProbeStep::Finish { unmap, outcome }
    &&& unmap
    &&& outcome matches Ok(i)
    &&& i@ == info
}

/// A probe that tells where the pointer is. It waits at most `timeout` milliseconds.
pub fn query_pointer(timeout: u64) -> (r: Probe)
    ensures
        r@ == fresh(Purpose::Position, timeout),
{
    Probe::new(Purpose::Position, timeout)
}

/// A probe that also measures the work area of the output that the pointer is on.
pub fn query_pointer_and_work_area(timeout: u64) -> (r: Probe)
    ensures
        r@ == fresh(Purpose::WorkArea, timeout),
{
    Probe::new(Purpose::WorkArea, timeout)
}

/// A probe that moves the pointer and tells where it is then.
pub fn move_pointer(timeout: u64) -> (r: Probe)
    ensures
        r@ == fresh(Purpose::Move, timeout),
{
    Probe::new(Purpose::Move, timeout)
}

/// The ids of the outputs, in no particular order.
fn output_ids(state: &State) -> (r: Vec<u32>)
    ensures
        lists(r@, state@.outputs.dom()),
{
    let mut ids: Vec<u32> = Vec::new();
    let keys = state.outputs.keys();
    let ghost listed = vstd::std_specs::iter::IteratorSpec::remaining(&keys);
    for id in it: keys
        invariant
            it.seq() == listed,
            ids@ == listed.unref().take(it.index() as int),
    {
        ids.push(*id);
    }
    assert(listed.unref().take(listed.len() as int) =~= listed.unref());
    assert(ids@.no_duplicates()) by {
        assert forall|i: int, j: int| 0 <= i < j < ids@.len() implies ids@[i] != ids@[j] by {
            assert(listed[i] != listed[j]);
        }
    }
    assert(state@.outputs.dom() =~= state.outputs@.dom());
    ids
}

fn push_layer(plan: &mut Vec<Plan>, ids: &Vec<u32>, kind: OverlayKind, keyboard: bool)
    ensures
        final(plan)@ == old(plan)@ + layer_of(ids@, kind, keyboard),
{
    let zone: i32 = match kind {
        OverlayKind::Full => -1,
        OverlayKind::WorkArea => 0,
    };
    let keyboard = keyboard && kind == OverlayKind::Full;
    let mut i: usize = 0;
    while i < ids.len()
        invariant
            i <= ids@.len(),
            plan@.len() == old(plan)@.len() + i,
            plan@ =~= old(plan)@ + layer_of(ids@, kind, keyboard).take(i as int),
            keyboard ==> kind == OverlayKind::Full,
            zone == match kind {
                OverlayKind::Full => -1i32,
                OverlayKind::WorkArea => 0i32,
            },
        decreases ids@.len() - i,
    {
        plan.push(Plan { output_id: ids[i], kind, exclusive_zone: zone, keyboard });
        i += 1;
    }
    assert(plan@ =~= old(plan)@ + layer_of(ids@, kind, keyboard));
}

/// The overlays that a probe maps on the listed outputs.
pub fn plan(purpose: Purpose, ids: &Vec<u32>) -> (r: Vec<Plan>)
    ensures
        r@ == overlays_for(purpose, ids@),
{
    let keyboard = purpose == Purpose::Move;
    let mut r: Vec<Plan> = Vec::new();
    if purpose == Purpose::WorkArea {
        push_layer(&mut r, ids, OverlayKind::WorkArea, keyboard);
    }
    push_layer(&mut r, ids, OverlayKind::Full, keyboard);
    assert(r@ =~= overlays_for(purpose, ids@));
    r
}

/// The whole number of pixels nearest to a number of 256ths, as far as an `i32` goes.
fn rounded(d: i64) -> (r: i32)
    requires
        -0x100_0000_0000 <= d <= 0x100_0000_0000,
    ensures
        r == saturated(nearest(d as int)),
{
    let n: i64 = if d >= 0 {
        (d + 128) / 256
    } else {
        -((128 - d) / 256)
    };
    if n > i32::MAX as i64 {
        i32::MAX
    } else if n < i32::MIN as i64 {
        i32::MIN
    } else {
        n as i32
    }
}

fn clamped(at: i64, size: u32) -> (r: i64)
    ensures
        r == onto(at, size),
{
    let end: i64 = if size == 0 {
        0
    } else {
        (size as i64 - 1) * 256
    };
    if at < 0 {
        0
    } else if at > end {
        end
    } else {
        at
    }
}

impl Probe {
    fn new(purpose: Purpose, timeout: u64) -> (r: Probe)
        ensures
            r@ == fresh(purpose, timeout),
    {
        Probe {
            purpose,
            timeout,
            state: State::new(),
            pointer: false,
            hit: Hit { output_id: 0, kind: OverlayKind::Full, x: 0, y: 0, serial: 0 },
            elapsed: 0,
        }
    }

    /// The compositor has announced its globals, or that failed.
    pub fn globals_known(&self, synced: Result<(), Error>) -> (r: ProbeStep)
        ensures
            match synced {
                Err(e) => fails(r, false, e@),
                Ok(_) => match pointer::missing(self@.state) {
                    Some(e) => fails(r, false, e),
                    None => r matches ProbeStep::Describe(ids)
                        && if self@.state.xdg_output_manager {
                        lists(ids@, self@.state.outputs.dom())
                    } else {
                        ids@.len() == 0
                    },
                },
            },
    {
        if let Err(e) = synced {
            return ProbeStep::Finish { unmap: false, outcome: Err(e) };
        }
        if let Err(e) = self.state.check_globals() {
            return ProbeStep::Finish { unmap: false, outcome: Err(e) };
        }
        if self.state.xdg_output_manager {
            ProbeStep::Describe(output_ids(&self.state))
        } else {
            ProbeStep::Describe(Vec::new())
        }
    }

    /// The compositor has described its outputs and its seat, or that failed.
    pub fn geometry_known(&mut self, synced: Result<(), Error>) -> (r: ProbeStep)
        ensures
            match synced {
                Err(e) => fails(r, false, e@) && final(self)@ == old(self)@,
                Ok(_) => {
                    let s = old(self)@.state;
                    if !s.has_pointer && !s.has_touch {
                        fails(r, false, ErrorView::NoInputDevice) && final(self)@ == old(self)@
                    } else {
                        &&& r matches ProbeStep::Cover { pointer, touch, keyboard, overlays }
                        &&& pointer == s.has_pointer
                        &&& touch == s.has_touch
                        &&& keyboard == (old(self)@.purpose == Purpose::Move)
                        &&& exists|ids: Seq<u32>|
                            #![trigger overlays_for(old(self)@.purpose, ids)]
                            lists(ids, s.outputs.dom()) && overlays@ == overlays_for(
                                old(self)@.purpose,
                                ids,
                            )
                        &&& final(self)@ == ProbeView { pointer: s.has_pointer, ..old(self)@ }
                    }
                },
            },
    {
        if let Err(e) = synced {
            return ProbeStep::Finish { unmap: false, outcome: Err(e) };
        }
        if !self.state.has_pointer && !self.state.has_touch {
            return ProbeStep::Finish { unmap: false, outcome: Err(Error::NoInputDevice) };
        }
        let ids = output_ids(&self.state);
        let overlays = plan(self.purpose, &ids);
        self.pointer = self.state.has_pointer;
        ProbeStep::Cover {
            pointer: self.state.has_pointer,
            touch: self.state.has_touch,
            keyboard: self.purpose == Purpose::Move,
            overlays,
        }
    }

    /// The wait for the pointer is over: it has entered an overlay, or it has not.
    pub fn pointer_waited(&mut self, waited: Result<(), Error>, elapsed: u128) -> (r: ProbeStep)
        ensures
            match (waited, old(self)@.state.hit) {
                (Err(e), _) => fails(r, true, e@) && final(self)@ == (ProbeView {
                    elapsed,
                    ..old(self)@
                }),
                (Ok(_), None) => {
                    &&& fails(r, true, ErrorView::Timeout(old(self)@.timeout))
                    &&& final(self)@ == ProbeView { elapsed, ..old(self)@ }
                },
                (Ok(_), Some(hit)) => match old(self)@.purpose {
                    Purpose::Position => {
                        &&& final(self)@ == ProbeView { hit, elapsed, ..old(self)@ }
                        &&& succeeds(r, found(final(self)@))
                    },
                    Purpose::WorkArea => {
                        &&& r matches ProbeStep::Uncover(gone)
                        &&& gone@ == old(self)@.state.overlays.filter(is_full())
                        &&& final(self)@ == (ProbeView {
                            hit,
                            elapsed,
                            state: StateView {
                                overlays: old(self)@.state.overlays.filter(is_not_full()),
                                ..old(self)@.state
                            },
                            ..old(self)@
                        })
                    },
                    Purpose::Move => {
                        &&& r == ProbeStep::Aim
                        &&& final(self)@ == ProbeView { hit, elapsed, ..old(self)@ }
                    },
                },
            },
    {
        self.elapsed = elapsed;
        if let Err(e) = waited {
            return ProbeStep::Finish { unmap: true, outcome: Err(e) };
        }
        let hit = match self.state.hit {
            Some(hit) => hit,
            None => {
                return ProbeStep::Finish { unmap: true, outcome: Err(Error::Timeout(self.timeout)) };
            },
        };
        self.hit = hit;
        match self.purpose {
            Purpose::Position => ProbeStep::Finish { unmap: true, outcome: Ok(self.info()) },
            Purpose::WorkArea => ProbeStep::Uncover(self.measure_work_area()),
            Purpose::Move => ProbeStep::Aim,
        }
    }

    /// Takes away the full overlays, so that the pointer enters the work area overlay below,
    /// and tells which they were.
    fn measure_work_area(&mut self) -> (r: Vec<Overlay>)
        ensures
            r@ == old(self)@.state.overlays.filter(is_full()),
            final(self)@ == (ProbeView {
                state: StateView {
                    overlays: old(self)@.state.overlays.filter(is_not_full()),
                    ..old(self)@.state
                },
                ..old(self)@
            }),
    {
        let ghost all = self.state.overlays@;
        let mut gone: Vec<Overlay> = Vec::new();
        let mut remaining: Vec<Overlay> = Vec::new();
        let mut i: usize = 0;
        proof {
            reveal(Seq::filter);
        }
        while i < self.state.overlays.len()
            invariant
                i <= all.len(),
                all == self.state.overlays@,
                self@ == old(self)@,
                gone@ == all.take(i as int).filter(is_full()),
                remaining@ == all.take(i as int).filter(is_not_full()),
            decreases all.len() - i,
        {
            proof {
                reveal(Seq::filter);
            }
            assert(all.take(i + 1).drop_last() =~= all.take(i as int));
            let o = self.state.overlays[i];
            if o.kind == OverlayKind::Full {
                gone.push(o);
            } else {
                remaining.push(o);
            }
            i += 1;
        }
        assert(all.take(i as int) =~= all);
        self.state.overlays = remaining;
        gone
    }

    /// The wait for the pointer to enter the work area overlay is over, whether or not it has.
    pub fn work_area_waited(&self) -> (r: ProbeStep)
        ensures
            succeeds(r, found(self@)),
    {
        ProbeStep::Finish { unmap: true, outcome: Ok(self.info()) }
    }

    /// The place where the pointer shall be is known, relative to the overlay that it is on and
    /// in 256ths of a pixel. The pointer stays on its output.
    pub fn aimed(&self, x: i64, y: i64) -> (r: ProbeStep)
        ensures
            match warp_to(self@, x, y) {
                Ok(warp) => r == ProbeStep::Warp(warp),
                Err(e) => fails(r, true, e),
            },
    {
        match self.warp(x, y) {
            Ok(warp) => ProbeStep::Warp(warp),
            Err(e) => ProbeStep::Finish { unmap: true, outcome: Err(e) },
        }
    }

    fn warp(&self, x: i64, y: i64) -> (r: Result<Warp, Error>)
        ensures
            match warp_to(self@, x, y) {
                Ok(warp) => r == Ok::<Warp, Error>(warp),
                Err(e) => r matches Err(f) && f@ == e,
            },
    {
        if !self.state.pointer_warp {
            return Err(Error::MissingGlobal("wp_pointer_warp_v1"));
        }
        if !self.pointer {
            return Err(Error::NoInputDevice);
        }
        let ghost overlays = self.state.overlays@;
        let mut i: usize = 0;
        while i < self.state.overlays.len()
            invariant
                i <= self.state.overlays@.len(),
                overlays == self.state.overlays@,
                self.state.pointer_warp,
                self.pointer,
                forall|j: int| 0 <= j < i ==> !lies_on(self.hit.output_id)(#[trigger] overlays[j]),
            decreases self.state.overlays@.len() - i,
        {
            let o = self.state.overlays[i];
            if o.output_id == self.hit.output_id {
                proof {
                    search::lemma_first_index_is(overlays, lies_on(self.hit.output_id), i as int);
                }
                return Ok(
                    Warp {
                        surface: o.surface,
                        x: clamped(x, o.width),
                        y: clamped(y, o.height),
                        serial: self.hit.serial,
                    },
                );
            }
            i += 1;
        }
        proof {
            search::lemma_first_index_is(overlays, lies_on(self.hit.output_id), i as int);
        }
        Err(Error::Wayland("overlay vanished".to_owned()))
    }

    /// An overlay has been mapped as planned, with this surface and this layer surface.
    pub fn overlay_mapped(&mut self, plan: Plan, surface: u32, layer: u32)
        ensures
            final(self)@ == (ProbeView {
                state: StateView {
                    overlays: old(self)@.state.overlays.push(
                        Overlay {
                            output_id: plan.output_id,
                            kind: plan.kind,
                            surface,
                            layer,
                            buffered: false,
                            width: 0,
                            height: 0,
                        },
                    ),
                    ..old(self)@.state
                },
                ..old(self)@
            }),
    {
        self.state.overlays.push(
            Overlay {
                output_id: plan.output_id,
                kind: plan.kind,
                surface,
                layer,
                buffered: false,
                width: 0,
                height: 0,
            },
        );
    }

    /// Takes all the overlays away, and tells which they were.
    pub fn unmap(&mut self) -> (r: Vec<Overlay>)
        ensures
            r@ == old(self)@.state.overlays,
            final(self)@ == (ProbeView {
                state: StateView { overlays: seq![], ..old(self)@.state },
                ..old(self)@
            }),
    {
        let mut gone: Vec<Overlay> = Vec::new();
        std::mem::swap(&mut gone, &mut self.state.overlays);
        gone
    }

    /// The compositor has moved the pointer, or that failed.
    pub fn warped(&self, synced: Result<(), Error>) -> (r: ProbeStep)
        ensures
            match synced {
                Err(e) => fails(r, true, e@),
                Ok(_) => succeeds(r, found(self@)),
            },
    {
        match synced {
            Err(e) => ProbeStep::Finish { unmap: true, outcome: Err(e) },
            Ok(_) => ProbeStep::Finish { unmap: true, outcome: Ok(self.info()) },
        }
    }

    /// What the probe has found out.
    pub fn info(&self) -> (r: PointerInfo)
        ensures
            r@ == found(self@),
    {
        let hit = match self.state.hit {
            Some(hit) => hit,
            None => self.hit,
        };
        let output = match self.state.outputs.get(&hit.output_id) {
            Some(output) => output.clone(),
            None => OutputInfo::default(),
        };
        let x = output.x as i64 * 256 + hit.x as i64;
        let y = output.y as i64 * 256 + hit.y as i64;
        let work_area = self.work_area(&output, x, y);
        PointerInfo { x, y, output, work_area, elapsed: self.elapsed }
    }

    fn work_area(&self, output: &OutputInfo, gx: i64, gy: i64) -> (r: Rect)
        requires
            -0xff_8000_0000 <= gx <= 0xff_8000_0000,
            -0xff_8000_0000 <= gy <= 0xff_8000_0000,
        ensures
            r == work_area_of(self@, output@, gx as int, gy as int),
    {
        let mut rect = Rect {
            x: output.x,
            y: output.y,
            width: output.width,
            height: output.height,
        };
        let ghost overlays = self.state.overlays@;
        let ghost wanted = measures(self.hit.output_id);
        let mut i: usize = 0;
        while i < self.state.overlays.len() && !(self.state.overlays[i].kind
            == OverlayKind::WorkArea && self.state.overlays[i].output_id == self.hit.output_id)
            invariant
                i <= self.state.overlays@.len(),
                overlays == self.state.overlays@,
                wanted == measures(self.hit.output_id),
                forall|j: int| 0 <= j < i ==> !wanted(#[trigger] overlays[j]),
            decreases self.state.overlays@.len() - i,
        {
            i += 1;
        }
        proof {
            search::lemma_first_index_is(overlays, wanted, i as int);
        }
        if i < self.state.overlays.len() {
            let o = self.state.overlays[i];
            if o.width > 0 && o.height > 0 {
                rect.width = o.width as i32;
                rect.height = o.height as i32;
                if let Some(h) = self.state.work_hit {
                    if h.output_id == self.hit.output_id {
                        rect.x = rounded(gx - h.x as i64);
                        rect.y = rounded(gy - h.y as i64);
                    }
                }
            }
        }
        rect
    }
}

/// Whether an overlay is a full one.
pub open spec fn is_full() -> spec_fn(Overlay) -> bool {
    |o: Overlay| o.kind == OverlayKind::Full
}

/// Whether an overlay is not a full one.
pub open spec fn is_not_full() -> spec_fn(Overlay) -> bool {
    |o: Overlay| o.kind != OverlayKind::Full
}

/// Rounding to whole pixels is off by at most half a pixel.
pub proof fn law_rounding_is_near(d: int)
    ensures
        -128 <= 256 * nearest(d) - d <= 128,
{
}

/// The pointer is never moved off its output.
pub proof fn law_pointer_stays_on_output(p: ProbeView, x: i64, y: i64)
    ensures
        warp_to(p, x, y) matches Ok(warp) ==> {
            let o = search::first(p.state.overlays, lies_on(p.hit.output_id))->0;
            &&& 0 <= warp.x
            &&& 0 <= warp.y
            &&& o.width > 0 ==> warp.x <= (o.width - 1) * 256
            &&& o.height > 0 ==> warp.y <= (o.height - 1) * 256
        },
{
}

/// A place that lies on the output already is moved to as it is.
pub proof fn law_place_on_output_is_kept(p: ProbeView, x: i64, y: i64)
    requires
        warp_to(p, x, y) is Ok,
        ({
            let o = search::first(p.state.overlays, lies_on(p.hit.output_id))->0;
            0 <= x <= (o.width - 1) * 256 && 0 <= y <= (o.height - 1) * 256
        }),
    ensures
        warp_to(p, x, y)->Ok_0.x == x,
        warp_to(p, x, y)->Ok_0.y == y,
{
}

/// A pointer that is on an overlay of the size of its output lies within that output.
pub proof fn law_pointer_lies_on_its_output(p: ProbeView)
    requires
        0 <= current_hit(p).x < current_output(p).width * 256,
        0 <= current_hit(p).y < current_output(p).height * 256,
    ensures
        found(p).output.x * 256 <= found(p).x < (found(p).output.x + found(p).output.width) * 256,
        found(p).output.y * 256 <= found(p).y < (found(p).output.y + found(p).output.height) * 256,
{
}

/// Without a work area overlay of a size, the work area is the whole output.
pub proof fn law_unmeasured_work_area_is_the_output(p: ProbeView)
    requires
        search::first(p.state.overlays, measures(p.hit.output_id)) matches Some(o) ==> o.width == 0
            || o.height == 0,
    ensures
        found(p).work_area == (Rect {
            x: found(p).output.x,
            y: found(p).output.y,
            width: found(p).output.width,
            height: found(p).output.height,
        }),
{
}

/// Once the pointer has entered an overlay of a kind, later entries change nothing for that
/// kind.
pub proof fn law_first_entry_counts(s: StateView, surface: u32, x: i32, y: i32, serial: u32)
    ensures
        s.hit is Some ==> pointer::entered(s, surface, x, y, serial).hit == s.hit,
        s.work_hit is Some ==> pointer::entered(s, surface, x, y, serial).work_hit == s.work_hit,
{
}

/// A measured work area has the size of its overlay and lies where its overlay lies: whatever
/// the place of the pointer, the place where it entered the overlay leads back to the
/// overlay's origin.
pub proof fn law_work_area_is_where_its_overlay_lies(
    p: ProbeView,
    o: Overlay,
    h: Hit,
    left: i32,
    top: i32,
)
    requires
        search::first(p.state.overlays, measures(p.hit.output_id)) == Some(o),
        o.width > 0,
        o.height > 0,
        p.state.work_hit == Some(h),
        h.output_id == p.hit.output_id,
        h.x == found(p).x - left * 256,
        h.y == found(p).y - top * 256,
    ensures
        found(p).work_area == (Rect {
            x: left,
            y: top,
            width: o.width as i32,
            height: o.height as i32,
        }),
{
}

/// What is found out follows the pointer: after it has moved on the full overlay of the output
/// that it was found on, its place is the one that it has moved to.
pub proof fn law_motion_is_followed(p: ProbeView, x: i32, y: i32)
    requires
        p.state.hit is Some,
        pointer::is_on_output(p.state, current_hit(p).output_id),
    ensures
        ({
            let after = found(ProbeView { state: pointer::moved(p.state, x, y), ..p });
            &&& after.x == after.output.x * 256 + x
            &&& after.y == after.output.y * 256 + y
            &&& after.output == found(p).output
        }),
{
}

/// Once the full overlays are gone, motion changes nothing: places on a work area overlay are
/// never taken for places on the output.
pub proof fn law_motion_below_the_full_overlays_is_ignored(s: StateView, x: i32, y: i32)
    requires
        forall|i: int| 0 <= i < s.overlays.len() ==> (#[trigger] s.overlays[i]).kind
            != OverlayKind::Full,
    ensures
        pointer::moved(s, x, y) == s,
{
    if let Some(surface) = s.under {
        search::lemma_first_index(s.overlays, pointer::on_surface(surface));
    }
}

/// Rounding goes to the nearest whole pixel, and away from zero where two are as near; so it is
/// the same on both sides of zero, and whole pixels stay as they are.
pub proof fn law_rounding_is_even_handed(d: int, whole: int)
    ensures
        nearest(-d) == -nearest(d),
        nearest(256 * whole) == whole,
        d >= 0 ==> 256 * nearest(d) > d - 128,
        d <= 0 ==> 256 * nearest(d) < d + 128,
{
}

/// What does not fit becomes the nearest number that does, and what fits stays as it is.
pub proof fn law_saturating_is_nearest(n: int)
    ensures
        i32::MIN <= n <= i32::MAX ==> saturated(n) == n,
        n < i32::MIN ==> saturated(n) == i32::MIN,
        n > i32::MAX ==> saturated(n) == i32::MAX,
{
}

/// Every output is covered once for each kind of overlay that the purpose needs, in the order
/// in which the outputs are given: the work area is measured by overlays that make room for
/// panels, and above them, as always, are overlays that cover everything. Only one that the
/// pointer is to be moved on takes the keyboard.
pub proof fn law_every_output_is_covered(purpose: Purpose, ids: Seq<u32>, i: int)
    requires
        0 <= i < ids.len(),
    ensures
        ({
            let plans = overlays_for(purpose, ids);
            let under: int = if purpose is WorkArea { ids.len() as int } else { 0 };
            let full = plans[under + i];
            &&& plans.len() == under + ids.len()
            &&& full.output_id == ids[i]
            &&& full.kind is Full
            &&& full.exclusive_zone == -1
            &&& full.keyboard <==> purpose is Move
            &&& purpose is WorkArea ==> {
                &&& plans[i].output_id == ids[i]
                &&& plans[i].kind is WorkArea
                &&& plans[i].exclusive_zone == 0
                &&& !plans[i].keyboard
            }
        }),
{
}

/// Without outputs nothing is covered.
pub proof fn law_no_output_needs_no_overlay(purpose: Purpose)
    ensures
        overlays_for(purpose, seq![]).len() == 0,
{
}

/// A list of outputs is complete exactly if it holds each of them, each once, and nothing else.
pub proof fn law_listed_outputs_are_all(ids: Seq<u32>, outputs: Set<u32>, id: u32)
    requires
        lists(ids, outputs),
    ensures
        ids.contains(id) <==> outputs.contains(id),
        forall|i: int, j: int|
            0 <= i < ids.len() && 0 <= j < ids.len() && ids[i] == ids[j] ==> i == j,
{
    assert(ids.to_set().contains(id) <==> ids.contains(id));
}

/// The place that is found is counted from the origin of the output on which the pointer was
/// found, and the output is told as the compositor described it. The latest that is known of
/// the pointer counts, and what the probe noted before counts only without it. The time is
/// the probe's.
pub proof fn law_place_is_counted_from_the_output(p: ProbeView)
    ensures
        ({
            let hit = if p.state.hit is Some { p.state.hit->0 } else { p.hit };
            let q = found(p);
            &&& q.x - 256 * q.output.x == hit.x
            &&& q.y - 256 * q.output.y == hit.y
            &&& p.state.outputs.contains_key(hit.output_id) ==> q.output
                == p.state.outputs[hit.output_id]
            &&& !p.state.outputs.contains_key(hit.output_id) ==> q.output.x == 0 && q.output.y == 0
                && q.output.width == 0 && q.output.height == 0 && q.output.name.len() == 0
            &&& q.elapsed == p.elapsed
        }),
{
}

/// The work area has the size of the first overlay that measures it on the output that the
/// pointer was found on, if that has one. Its place is where the pointer is less where it is on
/// that overlay, to the nearest pixel; if the pointer never came onto it there, the place is
/// that of the output.
pub proof fn law_work_area_is_measured_by_its_overlay(p: ProbeView, k: int)
    requires
        0 <= k < p.state.overlays.len(),
        p.state.overlays[k].kind is WorkArea,
        p.state.overlays[k].output_id == p.hit.output_id,
        p.state.overlays[k].width > 0,
        p.state.overlays[k].height > 0,
        forall|j: int|
            0 <= j < k && (#[trigger] p.state.overlays[j]).kind is WorkArea
                ==> p.state.overlays[j].output_id != p.hit.output_id,
    ensures
        ({
            let q = found(p);
            let o = p.state.overlays[k];
            let area = q.work_area;
            let measured = p.state.work_hit matches Some(h) && h.output_id == p.hit.output_id;
            let h = p.state.work_hit->0;
            &&& o.width <= i32::MAX ==> area.width == o.width
            &&& o.height <= i32::MAX ==> area.height == o.height
            &&& !measured ==> area.x == q.output.x && area.y == q.output.y
            &&& measured ==> area.x == saturated(nearest(q.x - h.x)) && area.y == saturated(
                nearest(q.y - h.y),
            )
            &&& measured ==> {
                &&& area.x == i32::MIN || area.x == i32::MAX || -128 <= 256 * area.x - (q.x - h.x)
                    <= 128
                &&& area.y == i32::MIN || area.y == i32::MAX || -128 <= 256 * area.y - (q.y - h.y)
                    <= 128
            }
            &&& measured && -0x7f_ffff_0000 <= q.x - h.x <= 0x7f_ffff_0000 ==> -128 <= 256 * area.x
                - (q.x - h.x) <= 128
            &&& measured && -0x7f_ffff_0000 <= q.y - h.y <= 0x7f_ffff_0000 ==> -128 <= 256 * area.y
                - (q.y - h.y) <= 128
        }),
{
    let m = measures(p.hit.output_id);
    assert forall|j: int| 0 <= j < k implies !m(#[trigger] p.state.overlays[j]) by {
    }
    search::lemma_first_index_is(p.state.overlays, m, k);
}

/// The pointer is moved on the first overlay of the output that it was found on, with the
/// serial it came with. A place beyond an edge of that overlay becomes the edge, each way by
/// itself, and a place on it stays.
pub proof fn law_pointer_is_moved_on_its_overlay(p: ProbeView, x: i64, y: i64, k: int)
    requires
        p.state.pointer_warp,
        p.pointer,
        0 <= k < p.state.overlays.len(),
        p.state.overlays[k].output_id == p.hit.output_id,
        forall|j: int|
            0 <= j < k ==> (#[trigger] p.state.overlays[j]).output_id != p.hit.output_id,
    ensures
        ({
            let o = p.state.overlays[k];
            &&& warp_to(p, x, y) matches Ok(warp)
            &&& warp.surface == o.surface
            &&& warp.serial == p.hit.serial
            &&& x <= 0 || o.width == 0 ==> warp.x == 0
            &&& y <= 0 || o.height == 0 ==> warp.y == 0
            &&& x > 0 && o.width > 0 && x >= (o.width - 1) * 256 ==> warp.x == (o.width - 1) * 256
            &&& y > 0 && o.height > 0 && y >= (o.height - 1) * 256 ==> warp.y == (o.height - 1)
                * 256
            &&& 0 <= x <= (o.width - 1) * 256 ==> warp.x == x
            &&& 0 <= y <= (o.height - 1) * 256 ==> warp.y == y
        }),
{
    let l = lies_on(p.hit.output_id);
    assert forall|j: int| 0 <= j < k implies !l(#[trigger] p.state.overlays[j]) by {
    }
    search::lemma_first_index_is(p.state.overlays, l, k);
}

/// The pointer cannot be moved without the protocol for it, without a pointer, or without an
/// overlay on the output that it was found on, and it is said which: the first of these that is
/// wanting.
pub proof fn law_pointer_is_not_moved_without_means(p: ProbeView, x: i64, y: i64)
    ensures
        !p.state.pointer_warp ==> warp_to(p, x, y) == Err::<Warp, ErrorView>(
            ErrorView::MissingGlobal("wp_pointer_warp_v1"@),
        ),
        p.state.pointer_warp && !p.pointer ==> warp_to(p, x, y) == Err::<Warp, ErrorView>(
            ErrorView::NoInputDevice,
        ),
        p.state.pointer_warp && p.pointer && (forall|j: int|
            0 <= j < p.state.overlays.len() ==> (#[trigger] p.state.overlays[j]).output_id
                != p.hit.output_id) ==> warp_to(p, x, y) == Err::<Warp, ErrorView>(
            ErrorView::Wayland("overlay vanished"@),
        ),
{
    search::lemma_first_index(p.state.overlays, lies_on(p.hit.output_id));
}

/// A probe starts with nothing known: no global, no output, no overlay, no pointer, and no time
/// passed.
pub proof fn law_fresh_probe_knows_nothing(purpose: Purpose, timeout: u64)
    ensures
        ({
            let p = fresh(purpose, timeout);
            let s = p.state;
            &&& p.purpose == purpose && p.timeout == timeout && !p.pointer && p.elapsed == 0
            &&& !s.compositor && !s.shm && !s.seat && !s.layer_shell
            &&& !s.xdg_output_manager && !s.pointer_warp && !s.has_pointer && !s.has_touch
            &&& s.outputs.is_empty() && s.overlays.len() == 0
            &&& s.hit is None && s.work_hit is None && s.under is None
        }),
{
}

/// A probe that fails ends with that error and says whether its overlays have to be taken away;
/// one that succeeds ends with what was found, and takes its overlays away.
pub proof fn law_probes_end_one_way(
    step: ProbeStep,
    mapped: bool,
    e: ErrorView,
    other: ErrorView,
    info: PointerView,
)
    ensures
        fails(step, mapped, e) ==> !fails(step, !mapped, other) && !succeeds(step, info),
        fails(step, mapped, e) && fails(step, mapped, other) ==> e == other,
        fails(step, mapped, e) ==> (step matches ProbeStep::Finish { unmap, outcome } && outcome
            is Err && unmap == mapped),
        succeeds(step, info) ==> (step matches ProbeStep::Finish { unmap, outcome } && unmap
            && outcome is Ok),
        step matches ProbeStep::Finish { unmap, outcome: Err(f) } ==> fails(step, unmap, f@),
        step matches ProbeStep::Finish { unmap: true, outcome: Ok(i) } ==> succeeds(step, i@),
{
}

/// Every overlay is either full or not; taking the full ones away leaves the others in their
/// order.
pub proof fn law_full_overlays_are_taken_away(overlays: Seq<Overlay>, o: Overlay)
    ensures
        overlays.push(o).filter(is_full()) == if o.kind is Full {
            overlays.filter(is_full()).push(o)
        } else {
            overlays.filter(is_full())
        },
        overlays.push(o).filter(is_not_full()) == if o.kind is Full {
            overlays.filter(is_not_full())
        } else {
            overlays.filter(is_not_full()).push(o)
        },
{
    reveal(Seq::filter);
    assert(overlays.push(o).drop_last() =~= overlays);
}

} // verus!
