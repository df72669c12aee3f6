//! Where the pointer is, and where it is moved to, on a compositor without a pointer query.
//!
//! A transparent overlay is mapped on every output. The compositor tells whichever overlay is
//! under the pointer that the pointer has entered it, and where. That place, relative to the
//! overlay, and the position of its output give the place of the pointer. While an overlay has
//! the pointer, the pointer can be moved relative to it.
//!
//! Places come in 256ths of a pixel, which is what the protocol counts in.

use std::collections::HashMap;

pub use crate::error::{Error, ErrorView};
use crate::number;
use crate::search;
use crate::text;
use crate::wire;
use vstd::prelude::*;

verus! {

/// An output and where it lies among the others, in logical pixels.
#[derive(Debug)]
pub struct OutputInfo {
    pub name: String,
    pub x: i32,
    pub y: i32,
    pub width: i32,
    pub height: i32,
}

/// What an `OutputInfo` holds.
#[verifier::ext_equal]
pub struct OutputView {
    pub name: Seq<char>,
    pub x: i32,
    pub y: i32,
    pub width: i32,
    pub height: i32,
}

impl View for OutputInfo {
    type V = OutputView;

    open spec fn view(&self) -> OutputView {
        OutputView {
            name: self.name@,
            x: self.x,
            y: self.y,
            width: self.width,
            height: self.height,
        }
    }
}

/// An output of which nothing is known yet.
pub open spec fn unknown_output() -> OutputView {
    OutputView { name: seq![], x: 0, y: 0, width: 0, height: 0 }
}

impl Default for OutputInfo {
    fn default() -> (r: Self)
        ensures
            r@ == unknown_output(),
    {
        OutputInfo { name: String::new(), x: 0, y: 0, width: 0, height: 0 }
    }
}

impl Clone for OutputInfo {
    fn clone(&self) -> (r: Self)
        ensures
            r@ == self@,
    {
        OutputInfo {
            name: self.name.clone(),
            x: self.x,
            y: self.y,
            width: self.width,
            height: self.height,
        }
    }
}

/// A rectangle in logical pixels.
#[derive(Debug, Clone, Copy, PartialEq, Eq, Structural)]
pub struct Rect {
    pub x: i32,
    pub y: i32,
    pub width: i32,
    pub height: i32,
}

/// Where the pointer is.
#[derive(Debug)]
pub struct PointerInfo {
    /// The place among all outputs, in 256ths of a logical pixel.
    pub x: i64,
    pub y: i64,
    /// The output that the pointer is on.
    pub output: OutputInfo,
    /// The part of the output that no panel covers; the whole output if it could not be
    /// measured.
    pub work_area: Rect,
    /// The nanoseconds from mapping the overlays until the pointer entered one.
    pub elapsed: u128,
}

/// What a `PointerInfo` holds.
#[verifier::ext_equal]
pub struct PointerView {
    pub x: i64,
    pub y: i64,
    pub output: OutputView,
    pub work_area: Rect,
    pub elapsed: u128,
}

impl View for PointerInfo {
    type V = PointerView;

    open spec fn view(&self) -> PointerView {
        PointerView {
            x: self.x,
            y: self.y,
            output: self.output@,
            work_area: self.work_area,
            elapsed: self.elapsed,
        }
    }
}

/// What an overlay is there for.
#[derive(Debug, Clone, Copy, PartialEq, Eq, Structural)]
pub enum OverlayKind {
    /// Covers the whole output, so that places relative to it are relative to the output.
    Full,
    /// Makes room for panels, so that its size is that of the work area.
    WorkArea,
}

/// A mapped overlay.
#[derive(Debug, Clone, Copy, PartialEq, Eq, Structural)]
pub struct Overlay {
    pub output_id: u32,
    pub kind: OverlayKind,
    /// The object id of its surface.
    pub surface: u32,
    /// The object id of its layer surface.
    pub layer: u32,
    /// Whether it has a buffer.
    pub buffered: bool,
    pub width: u32,
    pub height: u32,
}

/// The pointer entered an overlay, or a finger was put on it.
#[derive(Debug, Clone, Copy, PartialEq, Eq, Structural)]
pub struct Hit {
    pub output_id: u32,
    pub kind: OverlayKind,
    /// The place relative to the overlay, in 256ths of a pixel.
    pub x: i32,
    pub y: i32,
    /// The serial of the event, which moving the pointer asks for.
    pub serial: u32,
}

/// A global of the compositor that the probe uses.
#[derive(Debug, Clone, Copy, PartialEq, Eq, Structural)]
pub enum Global {
    Compositor,
    Shm,
    Seat,
    LayerShell,
    XdgOutputManager,
    PointerWarp,
    Output,
}

/// A global to bind, and the version to bind it with.
#[derive(Debug, Clone, Copy, PartialEq, Eq, Structural)]
pub struct Binding {
    pub global: Global,
    pub version: u32,
}

/// What the compositor says of an output.
pub enum OutputEvent {
    Name(String),
    Geometry { x: i32, y: i32 },
}

/// What the compositor says of the logical form of an output.
pub enum LogicalEvent {
    Position { x: i32, y: i32 },
    Size { width: i32, height: i32 },
    Name(String),
}

/// What an overlay has to do once the compositor has given it a size.
#[derive(Debug, Clone, Copy, PartialEq, Eq, Structural)]
pub enum Configure {
    /// The overlay is not known, or there is no shared memory.
    Ignore,
    /// Make a buffer of this size in place of the one that it has, then show it.
    Allocate { width: u32, height: u32 },
    /// Show the buffer that it has.
    Show { width: u32, height: u32 },
}

/// How a buffer lies in memory, in bytes.
#[derive(Debug, Clone, Copy, PartialEq, Eq, Structural)]
pub struct BufferLayout {
    pub stride: u32,
    pub size: u32,
}

/// The compositor as far as the probe has heard of it.
pub struct State {
    pub compositor: bool,
    pub shm: bool,
    pub seat: bool,
    pub layer_shell: bool,
    pub xdg_output_manager: bool,
    pub pointer_warp: bool,
    pub outputs: HashMap<u32, OutputInfo>,
    pub has_pointer: bool,
    pub has_touch: bool,
    pub overlays: Vec<Overlay>,
    /// The pointer entered a full overlay.
    pub hit: Option<Hit>,
    /// The pointer entered a work area overlay, which takes that the full ones are gone.
    pub work_hit: Option<Hit>,
    /// The object id of the surface that the pointer entered last.
    pub under: Option<u32>,
}

/// What a `State` holds.
#[verifier::ext_equal]
pub struct StateView {
    pub compositor: bool,
    pub shm: bool,
    pub seat: bool,
    pub layer_shell: bool,
    pub xdg_output_manager: bool,
    pub pointer_warp: bool,
    pub outputs: Map<u32, OutputView>,
    pub has_pointer: bool,
    pub has_touch: bool,
    pub overlays: Seq<Overlay>,
    pub hit: Option<Hit>,
    pub work_hit: Option<Hit>,
    pub under: Option<u32>,
}

impl View for State {
    type V = StateView;

    open spec fn view(&self) -> StateView {
        StateView {
            compositor: self.compositor,
            shm: self.shm,
            seat: self.seat,
            layer_shell: self.layer_shell,
            xdg_output_manager: self.xdg_output_manager,
            pointer_warp: self.pointer_warp,
            outputs: self.outputs@.map_values(|o: OutputInfo| o@),
            has_pointer: self.has_pointer,
            has_touch: self.has_touch,
            overlays: self.overlays@,
            hit: self.hit,
            work_hit: self.work_hit,
            under: self.under,
        }
    }
}

/// The state of a compositor of which nothing has been heard yet.
pub open spec fn silent() -> StateView {
    StateView {
        compositor: false,
        shm: false,
        seat: false,
        layer_shell: false,
        xdg_output_manager: false,
        pointer_warp: false,
        outputs: Map::empty(),
        has_pointer: false,
        has_touch: false,
        overlays: seq![],
        hit: None,
        work_hit: None,
        under: None,
    }
}

/// Which global an announced interface is bound as; only the first seat is bound.
pub open spec fn binding(seat: bool, interface: Seq<char>, version: u32) -> Option<Binding> {
    if interface == "wl_compositor"@ {
        Some(Binding { global: Global::Compositor, version: number::least(version, 4) })
    } else if interface == "wl_shm"@ {
        Some(Binding { global: Global::Shm, version: 1 })
    } else if interface == "wl_seat"@ {
        if seat {
            None
        } else {
            Some(Binding { global: Global::Seat, version: number::least(version, 5) })
        }
    } else if interface == "zwlr_layer_shell_v1"@ {
        Some(Binding { global: Global::LayerShell, version: number::least(version, 4) })
    } else if interface == "zxdg_output_manager_v1"@ {
        Some(Binding { global: Global::XdgOutputManager, version: number::least(version, 3) })
    } else if interface == "wp_pointer_warp_v1"@ {
        Some(Binding { global: Global::PointerWarp, version: 1 })
    } else if interface == "wl_output"@ {
        Some(Binding { global: Global::Output, version: number::least(version, 4) })
    } else {
        None
    }
}

/// The state after a global has been bound; `id` is the number that it was announced with.
pub open spec fn with_global(s: StateView, id: u32, global: Global) -> StateView {
    match global {
        Global::Compositor => StateView { compositor: true, ..s },
        Global::Shm => StateView { shm: true, ..s },
        Global::Seat => StateView { seat: true, ..s },
        Global::LayerShell => StateView { layer_shell: true, ..s },
        Global::XdgOutputManager => StateView { xdg_output_manager: true, ..s },
        Global::PointerWarp => StateView { pointer_warp: true, ..s },
        Global::Output => StateView { outputs: s.outputs.insert(id, unknown_output()), ..s },
    }
}

/// The state after what is known of an output has changed; unknown outputs are ignored.
pub open spec fn with_output(s: StateView, id: u32, o: OutputView) -> StateView {
    if s.outputs.contains_key(id) {
        StateView { outputs: s.outputs.insert(id, o), ..s }
    } else {
        s
    }
}

/// What is known of an output after an event. Its geometry counts only where the compositor
/// does not describe logical outputs.
pub open spec fn described(o: OutputView, logical: bool, event: OutputEvent) -> OutputView {
    match event {
        OutputEvent::Name(name) => OutputView { name: name@, ..o },
        OutputEvent::Geometry { x, y } => if logical {
            o
        } else {
            OutputView { x, y, ..o }
        },
    }
}

/// What is known of an output after an event on its logical form. A name that it already has
/// is kept.
pub open spec fn described_logically(o: OutputView, event: LogicalEvent) -> OutputView {
    match event {
        LogicalEvent::Position { x, y } => OutputView { x, y, ..o },
        LogicalEvent::Size { width, height } => OutputView { width, height, ..o },
        LogicalEvent::Name(name) => if o.name.len() == 0 {
            OutputView { name: name@, ..o }
        } else {
            o
        },
    }
}

/// Whether an overlay has a surface.
pub open spec fn on_surface(surface: u32) -> spec_fn(Overlay) -> bool {
    |o: Overlay| o.surface == surface
}

/// The state after a surface has been hit, by the pointer or by a finger. The first hit counts,
/// for each kind of overlay; other surfaces are ignored.
pub open spec fn touched(s: StateView, surface: u32, x: i32, y: i32, serial: u32) -> StateView {
    match search::first(s.overlays, on_surface(surface)) {
        Some(o) => {
            let hit = Hit { output_id: o.output_id, kind: o.kind, x, y, serial };
            match o.kind {
                OverlayKind::Full => if s.hit is None {
                    StateView { hit: Some(hit), ..s }
                } else {
                    s
                },
                OverlayKind::WorkArea => if s.work_hit is None {
                    StateView { work_hit: Some(hit), ..s }
                } else {
                    s
                },
            }
        },
        None => s,
    }
}

/// The state after the pointer has entered a surface.
pub open spec fn entered(s: StateView, surface: u32, x: i32, y: i32, serial: u32) -> StateView {
    StateView { under: Some(surface), ..touched(s, surface, x, y, serial) }
}

/// Whether the pointer is on the full overlay of an output, so that places relative to what it
/// is on are relative to the output.
pub open spec fn is_on_output(s: StateView, output_id: u32) -> bool {
    &&& s.under matches Some(surface)
    &&& search::first(s.overlays, on_surface(surface)) matches Some(o)
    &&& o.kind == OverlayKind::Full
    &&& o.output_id == output_id
}

/// The state after the pointer has moved. Its place is relative to the surface that it is on,
/// so it counts only while that is the full overlay of the output that was hit.
pub open spec fn moved(s: StateView, x: i32, y: i32) -> StateView {
    match s.hit {
        Some(hit) => if is_on_output(s, hit.output_id) {
            StateView { hit: Some(Hit { x, y, ..hit }), ..s }
        } else {
            s
        },
        None => s,
    }
}

/// Whether an overlay has a layer surface.
pub open spec fn on_layer(layer: u32) -> spec_fn(Overlay) -> bool {
    |o: Overlay| o.layer == layer
}

/// A size of at least one.
pub open spec fn at_least_one(n: u32) -> u32 {
    if n == 0 {
        1
    } else {
        n
    }
}

/// What an overlay has to do once it has been given a size. It keeps a buffer that has the
/// size already.
pub open spec fn configured(s: StateView, layer: u32, width: u32, height: u32) -> Configure {
    let i = search::first_index(s.overlays, on_layer(layer));
    let w = at_least_one(width);
    let h = at_least_one(height);
    if !s.shm || i >= s.overlays.len() {
        Configure::Ignore
    } else {
        let o = s.overlays[i];
        if o.buffered && o.width == w && o.height == h {
            Configure::Show { width: w, height: h }
        } else {
            Configure::Allocate { width: w, height: h }
        }
    }
}

/// The state after an overlay has been given a size: one that needs a new buffer has lost its
/// old one.
pub open spec fn after_configure(s: StateView, layer: u32, width: u32, height: u32) -> StateView {
    let i = search::first_index(s.overlays, on_layer(layer));
    if configured(s, layer, width, height) is Allocate {
        StateView {
            overlays: s.overlays.update(i, Overlay { buffered: false, ..s.overlays[i] }),
            ..s
        }
    } else {
        s
    }
}

/// The state after a new buffer has been made for an overlay.
pub open spec fn with_buffer(s: StateView, layer: u32, width: u32, height: u32) -> StateView {
    let i = search::first_index(s.overlays, on_layer(layer));
    if i < s.overlays.len() {
        StateView {
            overlays: s.overlays.update(
                i,
                Overlay { buffered: true, width, height, ..s.overlays[i] },
            ),
            ..s
        }
    } else {
        s
    }
}

/// What the compositor lacks for a probe, in the order in which it is looked for.
pub open spec fn missing(s: StateView) -> Option<ErrorView> {
    if !s.compositor {
        Some(ErrorView::MissingGlobal("wl_compositor"@))
    } else if !s.shm {
        Some(ErrorView::MissingGlobal("wl_shm"@))
    } else if !s.seat {
        Some(ErrorView::MissingGlobal("wl_seat"@))
    } else if !s.layer_shell {
        Some(ErrorView::MissingGlobal("zwlr_layer_shell_v1"@))
    } else if s.outputs.is_empty() {
        Some(ErrorView::NoOutputs)
    } else {
        None
    }
}

fn positive(n: u32) -> (r: u32)
    ensures
        r == at_least_one(n),
{
    if n == 0 {
        1
    } else {
        n
    }
}

/// How a buffer of a size lies in memory, at four bytes a pixel.
pub fn buffer_layout(width: u32, height: u32) -> (r: BufferLayout)
    requires
        width * 4 * height <= u32::MAX,
        width * 4 <= u32::MAX,
    ensures
        r.stride == width * 4,
        r.size == width * 4 * height,
{
    let stride = width * 4;
    BufferLayout { stride, size: stride * height }
}

impl State {
    /// A compositor of which nothing has been heard yet.
    pub fn new() -> (r: State)
        ensures
            r@ == silent(),
    {
        let r = State {
            compositor: false,
            shm: false,
            seat: false,
            layer_shell: false,
            xdg_output_manager: false,
            pointer_warp: false,
            outputs: HashMap::new(),
            has_pointer: false,
            has_touch: false,
            overlays: Vec::new(),
            hit: None,
            work_hit: None,
            under: None,
        };
        assert(r@.outputs =~= Map::empty());
        r
    }

    /// The compositor announced a global under the number `id`.
    pub fn global(&mut self, id: u32, interface: &str, version: u32) -> (r: Option<Binding>)
        ensures
            r == binding(old(self).seat, interface@, version),
            final(self)@ == match r {
                Some(b) => with_global(old(self)@, id, b.global),
                None => old(self)@,
            },
    {
        if text::same(interface, "wl_compositor") {
            self.compositor = true;
            Some(Binding { global: Global::Compositor, version: number::lesser(version, 4) })
        } else if text::same(interface, "wl_shm") {
            self.shm = true;
            Some(Binding { global: Global::Shm, version: 1 })
        } else if text::same(interface, "wl_seat") {
            if self.seat {
                return None;
            }
            self.seat = true;
            Some(Binding { global: Global::Seat, version: number::lesser(version, 5) })
        } else if text::same(interface, "zwlr_layer_shell_v1") {
            self.layer_shell = true;
            Some(Binding { global: Global::LayerShell, version: number::lesser(version, 4) })
        } else if text::same(interface, "zxdg_output_manager_v1") {
            self.xdg_output_manager = true;
            Some(Binding { global: Global::XdgOutputManager, version: number::lesser(version, 3) })
        } else if text::same(interface, "wp_pointer_warp_v1") {
            self.pointer_warp = true;
            Some(Binding { global: Global::PointerWarp, version: 1 })
        } else if text::same(interface, "wl_output") {
            self.outputs.insert(id, OutputInfo::default());
            assert(self@.outputs =~= old(self)@.outputs.insert(id, unknown_output()));
            Some(Binding { global: Global::Output, version: number::lesser(version, 4) })
        } else {
            None
        }
    }

    /// The compositor described an output.
    pub fn output_event(&mut self, id: u32, event: OutputEvent)
        ensures
            final(self)@ == with_output(
                old(self)@,
                id,
                described(old(self)@.outputs[id], old(self).xdg_output_manager, event),
            ),
    {
        let mut info = match self.outputs.get(&id) {
            Some(info) => info.clone(),
            None => return,
        };
        match event {
            OutputEvent::Name(name) => info.name = name,
            OutputEvent::Geometry { x, y } => {
                if !self.xdg_output_manager {
                    info.x = x;
                    info.y = y;
                }
            },
        }
        let ghost now = info@;
        self.outputs.insert(id, info);
        assert(self@.outputs =~= old(self)@.outputs.insert(id, now));
    }

    /// The compositor described the logical form of an output.
    pub fn logical_event(&mut self, id: u32, event: LogicalEvent)
        ensures
            final(self)@ == with_output(
                old(self)@,
                id,
                described_logically(old(self)@.outputs[id], event),
            ),
    {
        let mut info = match self.outputs.get(&id) {
            Some(info) => info.clone(),
            None => return,
        };
        match event {
            LogicalEvent::Position { x, y } => {
                info.x = x;
                info.y = y;
            },
            LogicalEvent::Size { width, height } => {
                info.width = width;
                info.height = height;
            },
            LogicalEvent::Name(name) => {
                if info.name.as_str().is_empty() {
                    info.name = name;
                }
            },
        }
        let ghost now = info@;
        self.outputs.insert(id, info);
        assert(self@.outputs =~= old(self)@.outputs.insert(id, now));
    }

    /// The compositor told what the seat has. A number with an unknown flag is ignored.
    pub fn seat_capabilities(&mut self, raw: u32)
        ensures
            final(self)@ == match wire::known(raw, wire::SEAT_FLAGS) {
                Some(flags) => StateView {
                    has_pointer: flags & wire::SEAT_POINTER != 0,
                    has_touch: flags & wire::SEAT_TOUCH != 0,
                    ..old(self)@
                },
                None => old(self)@,
            },
    {
        if let Some((pointer, touch)) = wire::seat_devices(raw) {
            self.has_pointer = pointer;
            self.has_touch = touch;
        }
    }

    fn find_layer(&self, layer: u32) -> (r: usize)
        ensures
            r == search::first_index(self@.overlays, on_layer(layer)),
            r <= self.overlays@.len(),
    {
        let mut i: usize = 0;
        while i < self.overlays.len() && self.overlays[i].layer != layer
            invariant
                i <= self.overlays@.len(),
                forall|j: int| 0 <= j < i ==> (#[trigger] self.overlays@[j]).layer != layer,
            decreases self.overlays@.len() - i,
        {
            i += 1;
        }
        proof {
            search::lemma_first_index_is(self.overlays@, on_layer(layer), i as int);
        }
        i
    }

    /// The compositor gave an overlay a size.
    pub fn configure(&mut self, layer: u32, width: u32, height: u32) -> (r: Configure)
        ensures
            r == configured(old(self)@, layer, width, height),
            final(self)@ == after_configure(old(self)@, layer, width, height),
    {
        if !self.shm {
            return Configure::Ignore;
        }
        let i = self.find_layer(layer);
        if i == self.overlays.len() {
            return Configure::Ignore;
        }
        let width = positive(width);
        let height = positive(height);
        let mut o = self.overlays[i];
        if !o.buffered || o.width != width || o.height != height {
            o.buffered = false;
            self.overlays.set(i, o);
            Configure::Allocate { width, height }
        } else {
            Configure::Show { width, height }
        }
    }

    /// A new buffer has been made for an overlay.
    pub fn buffer_made(&mut self, layer: u32, width: u32, height: u32)
        ensures
            final(self)@ == with_buffer(old(self)@, layer, width, height),
    {
        let i = self.find_layer(layer);
        if i < self.overlays.len() {
            let mut o = self.overlays[i];
            o.buffered = true;
            o.width = width;
            o.height = height;
            self.overlays.set(i, o);
        }
    }

    /// The overlay that has a surface.
    pub fn overlay_for_surface(&self, surface: u32) -> (r: Option<Overlay>)
        ensures
            r == search::first(self@.overlays, on_surface(surface)),
    {
        let mut i: usize = 0;
        while i < self.overlays.len()
            invariant
                i <= self.overlays@.len(),
                forall|j: int| 0 <= j < i ==> (#[trigger] self.overlays@[j]).surface != surface,
            decreases self.overlays@.len() - i,
        {
            if self.overlays[i].surface == surface {
                proof {
                    search::lemma_first_index_is(self.overlays@, on_surface(surface), i as int);
                }
                return Some(self.overlays[i]);
            }
            i += 1;
        }
        proof {
            search::lemma_first_index_is(self.overlays@, on_surface(surface), i as int);
        }
        None
    }

    /// A finger was put on a surface.
    pub fn touch(&mut self, surface: u32, x: i32, y: i32, serial: u32)
        ensures
            final(self)@ == touched(old(self)@, surface, x, y, serial),
    {
        if let Some(o) = self.overlay_for_surface(surface) {
            let hit = Hit { output_id: o.output_id, kind: o.kind, x, y, serial };
            match o.kind {
                OverlayKind::Full => {
                    if self.hit.is_none() {
                        self.hit = Some(hit);
                    }
                },
                OverlayKind::WorkArea => {
                    if self.work_hit.is_none() {
                        self.work_hit = Some(hit);
                    }
                },
            }
        }
    }

    /// The pointer entered a surface.
    pub fn enter(&mut self, surface: u32, x: i32, y: i32, serial: u32)
        ensures
            final(self)@ == entered(old(self)@, surface, x, y, serial),
    {
        self.touch(surface, x, y, serial);
        self.under = Some(surface);
    }

    /// The pointer moved within the surface that it had entered.
    pub fn motion(&mut self, x: i32, y: i32)
        ensures
            final(self)@ == moved(old(self)@, x, y),
    {
        if let (Some(hit), Some(surface)) = (self.hit, self.under) {
            if let Some(o) = self.overlay_for_surface(surface) {
                if o.kind == OverlayKind::Full && o.output_id == hit.output_id {
                    self.hit = Some(Hit { x, y, ..hit });
                }
            }
        }
    }

    /// Fails if the compositor lacks something that a probe takes.
    pub fn check_globals(&self) -> (r: Result<(), Error>)
        ensures
            r is Ok <==> missing(self@) is None,
            r matches Err(e) ==> missing(self@) == Some(e@),
    {
        if !self.compositor {
            return Err(Error::MissingGlobal("wl_compositor"));
        }
        if !self.shm {
            return Err(Error::MissingGlobal("wl_shm"));
        }
        if !self.seat {
            return Err(Error::MissingGlobal("wl_seat"));
        }
        if !self.layer_shell {
            return Err(Error::MissingGlobal("zwlr_layer_shell_v1"));
        }
        assert(self@.outputs.dom() =~= self.outputs@.dom());
        if self.outputs.is_empty() {
            return Err(Error::NoOutputs);
        }
        Ok(())
    }
}

/// No version of an interface is asked for that is newer than the compositor offers, and none
/// that is newer than is understood. Only the first seat is bound.
pub proof fn law_offered_versions_are_respected(seat: bool, interface: Seq<char>, version: u32)
    requires
        version >= 1,
    ensures
        binding(seat, interface, version) matches Some(b) ==> {
            let known: u32 = match b.global {
                Global::Compositor => 4,
                Global::Shm => 1,
                Global::Seat => 5,
                Global::LayerShell => 4,
                Global::XdgOutputManager => 3,
                Global::PointerWarp => 1,
                Global::Output => 4,
            };
            &&& 1 <= b.version <= version
            &&& b.version <= known
            &&& b.version == version || b.version == known
            &&& interface == match b.global {
                Global::Compositor => "wl_compositor"@,
                Global::Shm => "wl_shm"@,
                Global::Seat => "wl_seat"@,
                Global::LayerShell => "zwlr_layer_shell_v1"@,
                Global::XdgOutputManager => "zxdg_output_manager_v1"@,
                Global::PointerWarp => "wp_pointer_warp_v1"@,
                Global::Output => "wl_output"@,
            }
            &&& b.global is Seat ==> !seat
        },
        binding(seat, "wl_compositor"@, version) is Some,
        binding(seat, "wl_shm"@, version) is Some,
        binding(seat, "wl_seat"@, version) is Some <==> !seat,
        binding(seat, "zwlr_layer_shell_v1"@, version) is Some,
        binding(seat, "zxdg_output_manager_v1"@, version) is Some,
        binding(seat, "wp_pointer_warp_v1"@, version) is Some,
        binding(seat, "wl_output"@, version) is Some,
{
    reveal_strlit("wl_compositor");
    reveal_strlit("wl_shm");
    reveal_strlit("wl_seat");
    reveal_strlit("zwlr_layer_shell_v1");
    reveal_strlit("zxdg_output_manager_v1");
    reveal_strlit("wp_pointer_warp_v1");
    reveal_strlit("wl_output");
    assert("wl_compositor"@.len() == 13);
    assert("wl_shm"@.len() == 6);
    assert("wl_seat"@.len() == 7);
    assert("zwlr_layer_shell_v1"@.len() == 19);
    assert("zxdg_output_manager_v1"@.len() == 22);
    assert("wp_pointer_warp_v1"@.len() == 18);
    assert("wl_output"@.len() == 9);
}

/// What has been bound is known from then on, and nothing else is learnt from it: an output is
/// one more under its own number, with nothing known of it.
pub proof fn law_bound_globals_are_known(s: StateView, id: u32, global: Global, other: u32)
    ensures
        ({
            let t = with_global(s, id, global);
            &&& t.compositor <==> s.compositor || global is Compositor
            &&& t.shm <==> s.shm || global is Shm
            &&& t.seat <==> s.seat || global is Seat
            &&& t.layer_shell <==> s.layer_shell || global is LayerShell
            &&& t.xdg_output_manager <==> s.xdg_output_manager || global is XdgOutputManager
            &&& t.pointer_warp <==> s.pointer_warp || global is PointerWarp
            &&& !(global is Output) ==> t.outputs == s.outputs
            &&& global is Output ==> t.outputs.contains_key(id) && t.outputs[id].name.len() == 0
                && t.outputs[id].width == 0 && t.outputs[id].height == 0 && t.outputs[id].x == 0
                && t.outputs[id].y == 0
            &&& other != id ==> (t.outputs.contains_key(other) <==> s.outputs.contains_key(other))
            &&& other != id && s.outputs.contains_key(other) ==> t.outputs[other]
                == s.outputs[other]
            &&& t.has_pointer == s.has_pointer && t.has_touch == s.has_touch
            &&& t.overlays == s.overlays && t.hit == s.hit && t.work_hit == s.work_hit
            &&& t.under == s.under
        }),
{
}

/// What is told of an output is kept for that output alone, and only if it was announced: no
/// other output changes, and none comes of it.
pub proof fn law_outputs_are_described_apart(s: StateView, id: u32, o: OutputView, other: u32)
    ensures
        ({
            let t = with_output(s, id, o);
            &&& t.outputs.dom() == s.outputs.dom()
            &&& s.outputs.contains_key(id) ==> t.outputs[id] == o
            &&& other != id && s.outputs.contains_key(other) ==> t.outputs[other]
                == s.outputs[other]
            &&& t == (StateView { outputs: t.outputs, ..s })
            &&& !s.outputs.contains_key(id) ==> t == s
        }),
{
    assert(with_output(s, id, o).outputs.dom() =~= s.outputs.dom());
}

/// The logical place of an output wins over its physical one: where logical places are told,
/// the physical one is ignored, and otherwise it is taken. The output's own name wins over the
/// logical one, which counts only where there is none yet. Each word changes the property it
/// is about and no other.
pub proof fn law_logical_places_and_own_names_win(
    o: OutputView,
    name: String,
    logical_name: String,
    logical: bool,
    x: i32,
    y: i32,
    width: i32,
    height: i32,
)
    ensures
        ({
            let t = described(o, logical, OutputEvent::Name(name));
            &&& t.name == name@
            &&& t == (OutputView { name: t.name, ..o })
            &&& name@.len() > 0 ==> described_logically(t, LogicalEvent::Name(logical_name)) == t
            &&& described(
                described_logically(o, LogicalEvent::Name(logical_name)),
                logical,
                OutputEvent::Name(name),
            ) == t
        }),
        ({
            let t = described(o, logical, OutputEvent::Geometry { x, y });
            &&& logical ==> t == o
            &&& !logical ==> t.x == x && t.y == y
            &&& t == (OutputView { x: t.x, y: t.y, ..o })
        }),
        ({
            let t = described_logically(o, LogicalEvent::Position { x, y });
            &&& t.x == x && t.y == y
            &&& t == (OutputView { x, y, ..o })
            &&& described_logically(t, LogicalEvent::Size { width, height })
                == described_logically(
                described_logically(o, LogicalEvent::Size { width, height }),
                LogicalEvent::Position { x, y },
            )
        }),
        ({
            let t = described_logically(o, LogicalEvent::Size { width, height });
            &&& t.width == width && t.height == height
            &&& t == (OutputView { width, height, ..o })
        }),
        ({
            let t = described_logically(o, LogicalEvent::Name(logical_name));
            &&& o.name.len() == 0 ==> t.name == logical_name@
            &&& o.name.len() > 0 ==> t.name == o.name
            &&& t == (OutputView { name: t.name, ..o })
        }),
{
}

/// The first time that the pointer comes onto an overlay of a kind counts for that kind: it is
/// told by the overlay's output, the place on the overlay and the serial. Later times, and
/// surfaces that are no overlay, change nothing but what the pointer is over now.
pub proof fn law_first_touch_is_told_as_it_was(
    s: StateView,
    k: int,
    surface: u32,
    x: i32,
    y: i32,
    serial: u32,
)
    requires
        0 <= k <= s.overlays.len(),
        k < s.overlays.len() ==> s.overlays[k].surface == surface,
        forall|j: int| 0 <= j < k ==> (#[trigger] s.overlays[j]).surface != surface,
    ensures
        ({
            let t = touched(s, surface, x, y, serial);
            let o = s.overlays[k];
            let hit = Some(Hit { output_id: o.output_id, kind: o.kind, x, y, serial });
            let full = k < s.overlays.len() && o.kind is Full;
            let work = k < s.overlays.len() && o.kind is WorkArea;
            &&& t.hit == if full && s.hit is None { hit } else { s.hit }
            &&& t.work_hit == if work && s.work_hit is None { hit } else { s.work_hit }
            &&& t == (StateView { hit: t.hit, work_hit: t.work_hit, ..s })
            &&& entered(s, surface, x, y, serial) == (StateView { under: Some(surface), ..t })
        }),
{
    assert forall|j: int| 0 <= j < k implies !on_surface(surface)(#[trigger] s.overlays[j]) by {
    }
    search::lemma_first_index_is(s.overlays, on_surface(surface), k);
}

/// The pointer's place follows its motion exactly while it is over the full overlay of the
/// output that it was found on: then the place changes and nothing else, and otherwise nothing
/// does.
pub proof fn law_motion_counts_on_the_output_it_began_on(s: StateView, k: int, x: i32, y: i32)
    requires
        0 <= k <= s.overlays.len(),
        k < s.overlays.len() ==> s.under == Some(s.overlays[k].surface),
        forall|j: int| 0 <= j < k ==> s.under != Some((#[trigger] s.overlays[j]).surface),
    ensures
        ({
            let follows = k < s.overlays.len() && s.overlays[k].kind is Full && (s.hit matches Some(
                hit,
            ) && hit.output_id == s.overlays[k].output_id);
            let t = moved(s, x, y);
            &&& follows ==> t == (StateView { hit: Some(Hit { x, y, ..s.hit->0 }), ..s })
            &&& !follows ==> t == s
        }),
{
    if let Some(surface) = s.under {
        assert forall|j: int| 0 <= j < k implies !on_surface(surface)(
            #[trigger] s.overlays[j],
        ) by {
        }
        search::lemma_first_index_is(s.overlays, on_surface(surface), k);
    }
}

/// An overlay is shown with a buffer of the size that the compositor asks for, of at least one
/// pixel each way. A buffer of that size is kept and another is made otherwise; once made, it
/// is not made again. What belongs to no overlay, or comes without shared memory, is ignored.
pub proof fn law_overlay_has_the_size_asked_for(
    s: StateView,
    k: int,
    layer: u32,
    width: u32,
    height: u32,
)
    requires
        0 <= k <= s.overlays.len(),
        k < s.overlays.len() ==> s.overlays[k].layer == layer,
        forall|j: int| 0 <= j < k ==> (#[trigger] s.overlays[j]).layer != layer,
    ensures
        ({
            let o = s.overlays[k];
            let c = configured(s, layer, width, height);
            &&& c is Ignore <==> !s.shm || k == s.overlays.len()
            &&& c matches Configure::Show { width: w, height: h } ==> o.buffered && o.width == w
                && o.height == h && w >= 1 && h >= 1 && (width >= 1 ==> w == width) && (height >= 1
                ==> h == height) && (width == 0 ==> w == 1) && (height == 0 ==> h == 1)
            &&& c matches Configure::Allocate { width: w, height: h } ==> !(o.buffered && o.width
                == w && o.height == h) && w >= 1 && h >= 1 && (width >= 1 ==> w == width) && (
            height >= 1 ==> h == height) && (width == 0 ==> w == 1) && (height == 0 ==> h == 1) && {
                let t = with_buffer(after_configure(s, layer, width, height), layer, w, h);
                configured(t, layer, width, height) == (Configure::Show { width: w, height: h })
            }
        }),
{
    let p = on_layer(layer);
    assert forall|j: int| 0 <= j < k implies !p(#[trigger] s.overlays[j]) by {
    }
    search::lemma_first_index_is(s.overlays, p, k);
    if configured(s, layer, width, height) is Allocate {
        let w = at_least_one(width);
        let h = at_least_one(height);
        let t = after_configure(s, layer, width, height);
        assert forall|j: int| 0 <= j < k implies !p(#[trigger] t.overlays[j]) by {
            assert(t.overlays[j] == s.overlays[j]);
        }
        search::lemma_first_index_is(t.overlays, p, k);
        let u = with_buffer(t, layer, w, h);
        assert forall|j: int| 0 <= j < k implies !p(#[trigger] u.overlays[j]) by {
            assert(u.overlays[j] == s.overlays[j]);
        }
        search::lemma_first_index_is(u.overlays, p, k);
    }
}

/// A buffer belongs to the overlay of its layer, with its size; while another is being made the
/// overlay has none. No other overlay changes, and nothing else of this one does.
pub proof fn law_buffers_belong_to_their_overlay(
    s: StateView,
    k: int,
    j: int,
    layer: u32,
    width: u32,
    height: u32,
)
    requires
        0 <= k <= s.overlays.len(),
        k < s.overlays.len() ==> s.overlays[k].layer == layer,
        forall|i: int| 0 <= i < k ==> (#[trigger] s.overlays[i]).layer != layer,
        0 <= j < s.overlays.len(),
    ensures
        ({
            let t = with_buffer(s, layer, width, height);
            &&& t.overlays.len() == s.overlays.len()
            &&& j == k ==> t.overlays[j] == (Overlay {
                buffered: true,
                width,
                height,
                ..s.overlays[j]
            })
            &&& j != k ==> t.overlays[j] == s.overlays[j]
            &&& t == (StateView { overlays: t.overlays, ..s })
        }),
        ({
            let t = after_configure(s, layer, width, height);
            let anew = configured(s, layer, width, height) is Allocate;
            &&& t.overlays.len() == s.overlays.len()
            &&& j == k && anew ==> t.overlays[j] == (Overlay { buffered: false, ..s.overlays[j] })
            &&& j != k || !anew ==> t.overlays[j] == s.overlays[j]
            &&& t == (StateView { overlays: t.overlays, ..s })
        }),
{
    assert forall|i: int| 0 <= i < k implies !on_layer(layer)(#[trigger] s.overlays[i]) by {
    }
    search::lemma_first_index_is(s.overlays, on_layer(layer), k);
}

/// Nothing is missing exactly if the compositor offers surfaces, shared memory, a seat and
/// layers, and has told of an output. What is named as missing is missing, and what is named
/// before it is not.
pub proof fn law_what_is_missing_is_named(s: StateView)
    ensures
        missing(s) is None <==> s.compositor && s.shm && s.seat && s.layer_shell
            && !s.outputs.is_empty(),
        !s.compositor ==> missing(s) == Some(ErrorView::MissingGlobal("wl_compositor"@)),
        s.compositor && !s.shm ==> missing(s) == Some(ErrorView::MissingGlobal("wl_shm"@)),
        s.compositor && s.shm && !s.seat ==> missing(s) == Some(
            ErrorView::MissingGlobal("wl_seat"@),
        ),
        s.compositor && s.shm && s.seat && !s.layer_shell ==> missing(s) == Some(
            ErrorView::MissingGlobal("zwlr_layer_shell_v1"@),
        ),
        missing(s) == Some(ErrorView::NoOutputs) <==> s.compositor && s.shm && s.seat
            && s.layer_shell && s.outputs.is_empty(),
{
}

} // verus!
