//! What the D-Bus service answers.

use crate::error::{Error, ErrorView};
use crate::keyboard::KeyEvent;
use crate::pointer::{PointerInfo, PointerView, Rect};
use crate::toplevel::Toplevel;
use vstd::hash_map::StringHashMap;
use vstd::prelude::*;

verus! {

/// The name of the service on the bus.
pub const BUS_NAME: &'static str = "menu.kando.CosmicIntegration";

/// The path of the object that the service serves.
pub const OBJECT_PATH: &'static str = "/menu/kando/CosmicIntegration";

/// How many nanoseconds a measured work area is used for. To measure it costs a few hundred
/// milliseconds.
pub const WORK_AREA_MAX_AGE: u128 = 600_000_000_000;

/// The measured work areas by the names of their outputs, with the times of measurement, in
/// nanoseconds of a clock that never goes back.
pub struct WorkAreaCache {
    pub areas: StringHashMap<(u128, Rect)>,
}

impl View for WorkAreaCache {
    type V = Map<Seq<char>, (u128, Rect)>;

    open spec fn view(&self) -> Map<Seq<char>, (u128, Rect)> {
        self.areas@
    }
}

/// The cache after the work area of the pointer's output has been remembered.
pub open spec fn remembered(
    cache: Map<Seq<char>, (u128, Rect)>,
    p: PointerView,
    now: u128,
) -> Map<Seq<char>, (u128, Rect)> {
    cache.insert(p.output.name, (now, p.work_area))
}

/// The work area of an output, if it was measured less than the maximal age ago.
pub open spec fn recent(
    cache: Map<Seq<char>, (u128, Rect)>,
    output: Seq<char>,
    now: u128,
) -> Option<Rect> {
    if cache.contains_key(output) && now - cache[output].0 < WORK_AREA_MAX_AGE {
        Some(cache[output].1)
    } else {
        None
    }
}

/// Remembers the work area of the pointer's output.
pub fn remember_work_area(cache: &mut WorkAreaCache, p: &PointerInfo, now: u128)
    ensures
        final(cache)@ == remembered(old(cache)@, p@, now),
{
    cache.areas.insert(p.output.name.clone(), (now, p.work_area));
}

impl WorkAreaCache {
    /// A cache that holds nothing.
    pub fn new() -> (r: WorkAreaCache)
        ensures
            r@ == Map::<Seq<char>, (u128, Rect)>::empty(),
    {
        WorkAreaCache { areas: StringHashMap::new() }
    }
}

/// What is to be done for the pointer and the work area of its output.
pub enum AreaStep {
    /// Measure the work area.
    Measure,
    /// It is done.
    Finish(Result<PointerInfo, Error>),
}

/// What an `AreaStep` says.
#[verifier::ext_equal]
pub enum AreaStepView {
    Measure,
    Finish(Result<PointerView, ErrorView>),
}

impl View for AreaStep {
    type V = AreaStepView;

    open spec fn view(&self) -> AreaStepView {
        match self {
            AreaStep::Measure => AreaStepView::Measure,
            AreaStep::Finish(outcome) => AreaStepView::Finish(outcome_view(*outcome)),
        }
    }
}

/// What the outcome of a probe says.
pub open spec fn outcome_view(outcome: Result<PointerInfo, Error>) -> Result<
    PointerView,
    ErrorView,
> {
    match outcome {
        Ok(p) => Ok(p@),
        Err(e) => Err(e@),
    }
}

/// What follows once the pointer has been looked for: a recent work area is used, and any
/// other is measured.
pub open spec fn after_query(
    cache: Map<Seq<char>, (u128, Rect)>,
    found: Result<PointerView, ErrorView>,
    now: u128,
) -> AreaStepView {
    match found {
        Ok(p) => match recent(cache, p.output.name, now) {
            Some(work_area) => AreaStepView::Finish(Ok(PointerView { work_area, ..p })),
            None => AreaStepView::Measure,
        },
        Err(e) => AreaStepView::Finish(Err(e)),
    }
}

/// The service: how long it waits for the pointer, and the work areas it has measured.
pub struct Helper {
    /// How many milliseconds to wait for the pointer.
    pub pointer_timeout: u64,
    pub work_areas: WorkAreaCache,
}

impl Helper {
    /// A service that waits at most `pointer_timeout` milliseconds for the pointer.
    pub fn new(pointer_timeout: u64, work_areas: WorkAreaCache) -> (r: Helper)
        ensures
            r.pointer_timeout == pointer_timeout,
            r.work_areas@ == work_areas@,
    {
        Helper { pointer_timeout, work_areas }
    }

    /// The pointer has been looked for.
    pub fn pointer_with_work_area(
        &self,
        found: Result<PointerInfo, Error>,
        now: u128,
    ) -> (r: AreaStep)
        ensures
            r@ == after_query(self.work_areas@, outcome_view(found), now),
    {
        match found {
            Ok(mut p) => match self.work_areas.areas.get(p.output.name.as_str()) {
                Some((at, area)) => if now < *at || now - *at < WORK_AREA_MAX_AGE {
                    p.work_area = *area;
                    AreaStep::Finish(Ok(p))
                } else {
                    AreaStep::Measure
                },
                None => AreaStep::Measure,
            },
            Err(e) => AreaStep::Finish(Err(e)),
        }
    }

    /// The work area has been measured. What was measured is remembered.
    pub fn work_area_measured(
        &mut self,
        measured: Result<PointerInfo, Error>,
        now: u128,
    ) -> (r: Result<PointerInfo, Error>)
        ensures
            r == measured,
            final(self).pointer_timeout == old(self).pointer_timeout,
            final(self).work_areas@ == match measured {
                Ok(p) => remembered(old(self).work_areas@, p@, now),
                Err(_) => old(self).work_areas@,
            },
    {
        if let Ok(p) = &measured {
            remember_work_area(&mut self.work_areas, p, now);
        }
        measured
    }
}

/// The title and the application id of a window; empty ones if there is none.
pub open spec fn title_and_app(window: Option<Toplevel>) -> (Seq<char>, Seq<char>) {
    match window {
        Some(t) => (t.title@, t.app_id@),
        None => (seq![], seq![]),
    }
}

/// The title and the application id of the focused window; empty ones if there is none.
pub fn get_focused_window(window: Option<Toplevel>) -> (r: (String, String))
    ensures
        (r.0@, r.1@) == title_and_app(window),
{
    match window {
        Some(t) => (t.title, t.app_id),
        None => {
            let r = (String::new(), String::new());
            assert(r.0@ =~= seq![]);
            assert(r.1@ =~= seq![]);
            r
        },
    }
}

/// The titles and application ids of the open windows.
pub fn get_open_windows(windows: &Vec<Toplevel>) -> (r: Vec<(String, String)>)
    ensures
        r@.map_values(|w: (String, String)| (w.0@, w.1@)) == windows@.map_values(
            |t: Toplevel| (t.title@, t.app_id@),
        ),
{
    let ghost told = |w: (String, String)| (w.0@, w.1@);
    let ghost held = |t: Toplevel| (t.title@, t.app_id@);
    let mut r: Vec<(String, String)> = Vec::new();
    let mut i: usize = 0;
    while i < windows.len()
        invariant
            i <= windows@.len(),
            r@.len() == i,
            told == (|w: (String, String)| (w.0@, w.1@)),
            held == (|t: Toplevel| (t.title@, t.app_id@)),
            forall|j: int| 0 <= j < i ==> told(#[trigger] r@[j]) == held(windows@[j]),
        decreases windows@.len() - i,
    {
        r.push((windows[i].title.clone(), windows[i].app_id.clone()));
        i += 1;
    }
    assert(r@.map_values(told) =~= windows@.map_values(held));
    r
}

/// Everything that is needed to open a menu.
pub struct WmInfo {
    pub title: String,
    pub app_id: String,
    /// The place of the pointer among all outputs, in 256ths of a logical pixel.
    pub x: i64,
    pub y: i64,
    pub work_area: Rect,
}

/// Everything that is needed to open a menu, of the focused window and the pointer.
pub fn get_wm_info(window: Option<Toplevel>, p: &PointerInfo) -> (r: WmInfo)
    ensures
        (r.title@, r.app_id@) == title_and_app(window),
        r.x == p.x,
        r.y == p.y,
        r.work_area == p.work_area,
{
    let (title, app_id) = get_focused_window(window);
    WmInfo { title, app_id, x: p.x, y: p.y, work_area: p.work_area }
}

/// The keys that a call asks for: the X11 keycode, whether the key goes down, and the
/// milliseconds to wait before.
pub fn key_events(keys: &Vec<(i32, bool, i32)>) -> (r: Vec<KeyEvent>)
    ensures
        r@ == keys@.map_values(
            |k: (i32, bool, i32)| KeyEvent { keycode: k.0, down: k.1, delay_ms: k.2 },
        ),
{
    let mut r: Vec<KeyEvent> = Vec::new();
    let mut i: usize = 0;
    while i < keys.len()
        invariant
            i <= keys@.len(),
            r@.len() == i,
            forall|j: int|
                0 <= j < i ==> #[trigger] r@[j] == (KeyEvent {
                    keycode: keys@[j].0,
                    down: keys@[j].1,
                    delay_ms: keys@[j].2,
                }),
        decreases keys@.len() - i,
    {
        let (keycode, down, delay_ms) = keys[i];
        r.push(KeyEvent { keycode, down, delay_ms });
        i += 1;
    }
    r
}

/// A measured work area is used, without measuring again, for every later call until it has
/// reached the maximal age; from then on it is measured anew.
pub proof fn law_measured_area_is_used_until_it_is_old(
    cache: Map<Seq<char>, (u128, Rect)>,
    measured: PointerView,
    at: u128,
    found: PointerView,
    now: u128,
)
    requires
        found.output.name == measured.output.name,
    ensures
        after_query(remembered(cache, measured, at), Ok(found), now) == if now - at
            < WORK_AREA_MAX_AGE {
            AreaStepView::Finish(Ok(PointerView { work_area: measured.work_area, ..found }))
        } else {
            AreaStepView::Measure
        },
{
}

/// Remembering the work area of one output leaves those of the others as they are.
pub proof fn law_outputs_are_remembered_apart(
    cache: Map<Seq<char>, (u128, Rect)>,
    measured: PointerView,
    at: u128,
    found: PointerView,
    now: u128,
)
    requires
        found.output.name != measured.output.name,
    ensures
        after_query(remembered(cache, measured, at), Ok(found), now) == after_query(
            cache,
            Ok(found),
            now,
        ),
{
}

/// An output whose work area is not remembered is measured, whatever the query found, and even
/// if its work area is the whole output.
pub proof fn law_unknown_output_is_measured(
    cache: Map<Seq<char>, (u128, Rect)>,
    found: PointerView,
    now: u128,
)
    requires
        !cache.contains_key(found.output.name),
    ensures
        after_query(cache, Ok(found), now) == AreaStepView::Measure,
{
}

/// A query is answered without measuring only with the work area that is remembered for its
/// output, and only while that is not too old; the place of the pointer, its output and the
/// time are those just found. A failed query is answered with its own error, whatever is
/// remembered.
pub proof fn law_only_remembered_areas_are_answered(
    cache: Map<Seq<char>, (u128, Rect)>,
    found: PointerView,
    answer: Result<PointerView, ErrorView>,
    e: ErrorView,
    now: u128,
)
    ensures
        after_query(cache, Ok(found), now) == AreaStepView::Finish(answer) ==> {
            &&& cache.contains_key(found.output.name)
            &&& now < cache[found.output.name].0 + WORK_AREA_MAX_AGE
            &&& answer matches Ok(p)
            &&& p.work_area == cache[found.output.name].1
            &&& p.x == found.x
            &&& p.y == found.y
            &&& p.output == found.output
            &&& p.elapsed == found.elapsed
        },
        cache.contains_key(found.output.name) && now < cache[found.output.name].0
            + WORK_AREA_MAX_AGE ==> after_query(cache, Ok(found), now) is Finish,
        after_query(cache, Err(e), now) == AreaStepView::Finish(Err(e)),
        WORK_AREA_MAX_AGE == 10 * 60 * 1_000_000_000,
{
}

/// What is remembered of an output is the work area that was measured last, and when; an output
/// that has been measured once stays known.
pub proof fn law_last_measurement_is_remembered(
    cache: Map<Seq<char>, (u128, Rect)>,
    first: PointerView,
    then: u128,
    p: PointerView,
    now: u128,
    output: Seq<char>,
)
    ensures
        remembered(cache, p, now).contains_key(output) <==> cache.contains_key(output) || output
            == p.output.name,
        remembered(cache, p, now)[p.output.name] == (now, p.work_area),
        output != p.output.name && cache.contains_key(output) ==> remembered(cache, p, now)[output]
            == cache[output],
        first.output.name == p.output.name ==> remembered(
            remembered(cache, first, then),
            p,
            now,
        ) == remembered(cache, p, now),
{
    assert(first.output.name == p.output.name ==> remembered(remembered(cache, first, then), p, now)
        =~= remembered(cache, p, now));
}

/// The focused window is told by its own title and application id, in this order, and without
/// one both are empty.
pub proof fn law_focused_window_is_told_by_itself(window: Toplevel)
    ensures
        title_and_app(Some(window)).0 == window.title@,
        title_and_app(Some(window)).1 == window.app_id@,
        title_and_app(None).0.len() == 0,
        title_and_app(None).1.len() == 0,
{
}

} // verus!
