use kando_cosmic_helper::error::Error;
use kando_cosmic_helper::pointer::{
    buffer_layout, Binding, Configure, Global, Hit, LogicalEvent, OutputEvent, Overlay,
    OverlayKind, PointerInfo, Rect, State,
};
use kando_cosmic_helper::probe;
use kando_cosmic_helper::probe::{Plan, Probe, ProbeStep, Purpose, Warp};

fn overlay(output_id: u32, kind: OverlayKind, surface: u32) -> Overlay {
    Overlay {
        output_id,
        kind,
        surface,
        layer: surface + 100,
        buffered: false,
        width: 0,
        height: 0,
    }
}

/// A compositor with two outputs, the second to the right of the first.
fn announce(state: &mut State) {
    for interface in [
        "wl_compositor",
        "wl_shm",
        "wl_seat",
        "zwlr_layer_shell_v1",
        "zxdg_output_manager_v1",
        "wp_pointer_warp_v1",
    ] {
        assert!(state.global(1, interface, 9).is_some());
    }
    state.global(7, "wl_output", 4);
    state.global(8, "wl_output", 4);
    for (id, x) in [(7, 0), (8, 1920)] {
        state.logical_event(id, LogicalEvent::Position { x, y: 10 });
        state.logical_event(id, LogicalEvent::Size { width: 1920, height: 1080 });
        state.logical_event(id, LogicalEvent::Name(format!("DP-{id}")));
    }
}

fn ids(plans: &Vec<Plan>, kind: OverlayKind) -> Vec<u32> {
    let mut ids: Vec<u32> =
        plans.iter().filter(|p| p.kind == kind).map(|p| p.output_id).collect();
    ids.sort();
    ids
}

/// Leads a probe up to where its overlays are mapped.
fn mapped(mut p: Probe) -> Probe {
    announce(&mut p.state);
    match p.globals_known(Ok(())) {
        ProbeStep::Describe(mut ids) => {
            ids.sort();
            assert_eq!(ids, vec![7, 8]);
        }
        _ => panic!("the probe does not describe the outputs"),
    }
    p.state.seat_capabilities(1);
    match p.geometry_known(Ok(())) {
        ProbeStep::Cover { pointer, touch, keyboard, overlays } => {
            assert!(pointer);
            assert!(!touch);
            assert_eq!(keyboard, p.purpose == Purpose::Move);
            let mut surface: u32 = 20;
            for plan in overlays {
                p.overlay_mapped(plan, surface, surface + 100);
                assert_eq!(
                    p.state.overlays.last(),
                    Some(&overlay(plan.output_id, plan.kind, surface))
                );
                surface += 1;
            }
        }
        _ => panic!("the probe does not map overlays"),
    }
    p
}

fn surface_of(p: &Probe, output_id: u32, kind: OverlayKind) -> u32 {
    p.state.overlays.iter().find(|o| o.output_id == output_id && o.kind == kind).unwrap().surface
}

fn outcome(step: ProbeStep) -> (bool, Result<PointerInfo, Error>) {
    match step {
        ProbeStep::Finish { unmap, outcome } => (unmap, outcome),
        _ => panic!("the probe goes on"),
    }
}

#[test]
fn globals_are_bound_with_known_versions() {
    let mut state = State::new();
    assert_eq!(
        state.global(1, "wl_compositor", 6),
        Some(Binding { global: Global::Compositor, version: 4 })
    );
    assert_eq!(state.global(2, "wl_shm", 2), Some(Binding { global: Global::Shm, version: 1 }));
    assert_eq!(state.global(3, "wl_seat", 9), Some(Binding { global: Global::Seat, version: 5 }));
    assert_eq!(state.global(4, "wl_seat", 9), None);
    assert_eq!(
        state.global(5, "zwlr_layer_shell_v1", 3),
        Some(Binding { global: Global::LayerShell, version: 3 })
    );
    assert_eq!(
        state.global(6, "zxdg_output_manager_v1", 9),
        Some(Binding { global: Global::XdgOutputManager, version: 3 })
    );
    assert_eq!(
        state.global(7, "wp_pointer_warp_v1", 2),
        Some(Binding { global: Global::PointerWarp, version: 1 })
    );
    assert_eq!(
        state.global(8, "wl_output", 5),
        Some(Binding { global: Global::Output, version: 4 })
    );
    assert_eq!(state.global(9, "wl_subcompositor", 1), None);
    assert!(state.outputs.contains_key(&8));
}

#[test]
fn outputs_are_described() {
    let mut state = State::new();
    state.global(1, "wl_output", 4);
    state.output_event(1, OutputEvent::Geometry { x: 3, y: 4 });
    assert_eq!((state.outputs[&1].x, state.outputs[&1].y), (3, 4));
    state.global(2, "zxdg_output_manager_v1", 3);
    state.output_event(1, OutputEvent::Geometry { x: 5, y: 6 });
    assert_eq!((state.outputs[&1].x, state.outputs[&1].y), (3, 4));
    state.logical_event(1, LogicalEvent::Name("eDP-1".to_string()));
    state.logical_event(1, LogicalEvent::Name("other".to_string()));
    assert_eq!(state.outputs[&1].name, "eDP-1");
    state.output_event(1, OutputEvent::Name("HDMI".to_string()));
    assert_eq!(state.outputs[&1].name, "HDMI");
    state.logical_event(2, LogicalEvent::Size { width: 1, height: 1 });
    assert!(!state.outputs.contains_key(&2));
}

#[test]
fn an_unknown_seat_flag_changes_nothing() {
    let mut state = State::new();
    state.seat_capabilities(5);
    assert!(state.has_pointer && state.has_touch);
    state.seat_capabilities(16);
    assert!(state.has_pointer && state.has_touch);
    state.seat_capabilities(2);
    assert!(!state.has_pointer && !state.has_touch);
}

#[test]
fn overlays_get_buffers_of_their_size() {
    let mut state = State::new();
    state.overlays.push(overlay(7, OverlayKind::Full, 20));
    assert_eq!(state.configure(120, 10, 10), Configure::Ignore);
    state.global(1, "wl_shm", 1);
    assert_eq!(state.configure(121, 10, 10), Configure::Ignore);
    assert_eq!(state.configure(120, 0, 0), Configure::Allocate { width: 1, height: 1 });
    state.buffer_made(120, 1, 1);
    assert_eq!(state.configure(120, 0, 1), Configure::Show { width: 1, height: 1 });
    assert_eq!(state.configure(120, 2, 1), Configure::Allocate { width: 2, height: 1 });
    assert!(!state.overlays[0].buffered);
}

#[test]
fn buffers_have_four_bytes_a_pixel() {
    let layout = buffer_layout(1920, 1080);
    assert_eq!(layout.stride, 7680);
    assert_eq!(layout.size, 8_294_400);
}

#[test]
fn the_first_entry_counts() {
    let mut state = State::new();
    state.overlays.push(overlay(7, OverlayKind::Full, 20));
    state.overlays.push(overlay(8, OverlayKind::Full, 21));
    state.overlays.push(overlay(8, OverlayKind::WorkArea, 22));
    state.enter(99, 1, 1, 1);
    assert_eq!(state.hit, None);
    state.motion(1, 1);
    assert_eq!(state.hit, None);
    state.enter(21, 256, 512, 5);
    let hit = Hit { output_id: 8, kind: OverlayKind::Full, x: 256, y: 512, serial: 5 };
    assert_eq!(state.hit, Some(hit));
    state.enter(20, 1, 1, 6);
    assert_eq!(state.hit, Some(hit));
    state.enter(22, 3, 4, 7);
    assert_eq!(
        state.work_hit,
        Some(Hit { output_id: 8, kind: OverlayKind::WorkArea, x: 3, y: 4, serial: 7 })
    );
    assert_eq!(state.overlay_for_surface(20).unwrap().output_id, 7);
    assert_eq!(state.overlay_for_surface(23), None);
}

#[test]
fn motion_counts_only_on_the_overlay_that_was_hit() {
    let mut state = State::new();
    state.overlays.push(overlay(7, OverlayKind::Full, 20));
    state.overlays.push(overlay(8, OverlayKind::Full, 21));
    state.overlays.push(overlay(8, OverlayKind::WorkArea, 22));
    state.enter(21, 256, 512, 5);
    let hit = Hit { output_id: 8, kind: OverlayKind::Full, x: 256, y: 512, serial: 5 };
    state.motion(9, 10);
    let moved = Some(Hit { x: 9, y: 10, ..hit });
    assert_eq!(state.hit, moved);
    state.enter(20, 1, 1, 6);
    state.motion(30, 40);
    assert_eq!(state.hit, moved);
    state.enter(22, 3, 4, 7);
    state.motion(50, 60);
    assert_eq!(state.hit, moved);
    state.enter(21, 0, 0, 8);
    state.motion(70, 80);
    assert_eq!(state.hit, Some(Hit { x: 70, y: 80, ..hit }));
    state.overlays.retain(|o| o.kind == OverlayKind::WorkArea);
    state.motion(90, 91);
    assert_eq!(state.hit, Some(Hit { x: 70, y: 80, ..hit }));
}

#[test]
fn a_finger_hits_like_the_pointer_but_does_not_lead_it() {
    let mut state = State::new();
    state.overlays.push(overlay(7, OverlayKind::Full, 20));
    state.overlays.push(overlay(7, OverlayKind::WorkArea, 22));
    state.touch(99, 1, 1, 1);
    assert_eq!(state.hit, None);
    state.touch(20, 5, 6, 2);
    let hit = Hit { output_id: 7, kind: OverlayKind::Full, x: 5, y: 6, serial: 2 };
    assert_eq!(state.hit, Some(hit));
    state.motion(8, 9);
    assert_eq!(state.hit, Some(hit));
    state.touch(22, 7, 8, 3);
    assert_eq!(
        state.work_hit,
        Some(Hit { output_id: 7, kind: OverlayKind::WorkArea, x: 7, y: 8, serial: 3 })
    );
}

#[test]
fn motion_over_the_work_area_leaves_the_result_as_it_is() {
    let mut p = mapped(probe::query_pointer_and_work_area(500));
    let full = surface_of(&p, 8, OverlayKind::Full);
    let work = surface_of(&p, 8, OverlayKind::WorkArea);
    p.state.buffer_made(work + 100, 1900, 1048);
    p.state.enter(full, 100 * 256, 50 * 256, 3);
    p.pointer_waited(Ok(()), 1);
    p.state.enter(work, 80 * 256, 18 * 256, 4);
    let before = outcome(p.work_area_waited()).1.unwrap();
    assert_eq!(before.work_area, Rect { x: 1940, y: 42, width: 1900, height: 1048 });
    p.state.motion(81 * 256, 19 * 256);
    let after = outcome(p.work_area_waited()).1.unwrap();
    assert_eq!((after.x, after.y), (before.x, before.y));
    assert_eq!(after.work_area, before.work_area);
}

#[test]
fn missing_globals_are_named_in_order() {
    let mut state = State::new();
    let needed = ["wl_compositor", "wl_shm", "wl_seat", "zwlr_layer_shell_v1"];
    for name in needed {
        match state.check_globals() {
            Err(Error::MissingGlobal(g)) => assert_eq!(g, name),
            _ => panic!("nothing is missing"),
        }
        state.global(1, name, 4);
    }
    assert!(matches!(state.check_globals(), Err(Error::NoOutputs)));
    state.global(1, "wl_output", 4);
    assert!(state.check_globals().is_ok());
}

#[test]
fn a_probe_needs_an_input_device() {
    let mut p = probe::query_pointer(500);
    announce(&mut p.state);
    let (unmap, result) = outcome(p.geometry_known(Ok(())));
    assert!(!unmap);
    assert!(matches!(result, Err(Error::NoInputDevice)));
}

#[test]
fn a_probe_fails_where_the_compositor_fails() {
    let broken = || Err(Error::Wayland("lost".to_string()));
    let mut p = probe::query_pointer(500);
    let (unmap, result) = outcome(p.globals_known(broken()));
    assert!(!unmap && matches!(result, Err(Error::Wayland(m)) if m == "lost"));
    let (unmap, result) = outcome(p.globals_known(Ok(())));
    assert!(!unmap && matches!(result, Err(Error::MissingGlobal("wl_compositor"))));
    let (unmap, result) = outcome(p.geometry_known(broken()));
    assert!(!unmap && matches!(result, Err(Error::Wayland(m)) if m == "lost"));
    let (unmap, result) = outcome(p.pointer_waited(Err(Error::Timeout(500)), 1));
    assert!(unmap && matches!(result, Err(Error::Timeout(500))));
    let (unmap, result) = outcome(p.pointer_waited(Ok(()), 1));
    assert!(unmap && matches!(result, Err(Error::Timeout(500))));
    let (unmap, result) = outcome(p.warped(broken()));
    assert!(unmap && matches!(result, Err(Error::Wayland(m)) if m == "lost"));
}

#[test]
fn a_probe_without_logical_outputs_describes_none() {
    let mut p = probe::query_pointer(500);
    for name in ["wl_compositor", "wl_shm", "wl_seat", "zwlr_layer_shell_v1", "wl_output"] {
        p.state.global(3, name, 4);
    }
    assert!(matches!(p.globals_known(Ok(())), ProbeStep::Describe(ids) if ids.is_empty()));
}

#[test]
fn the_pointer_is_where_its_output_and_its_overlay_say() {
    let mut p = mapped(probe::query_pointer(500));
    let surface = surface_of(&p, 8, OverlayKind::Full);
    p.state.enter(surface, 100 * 256 + 64, 50 * 256, 3);
    let (unmap, result) = outcome(p.pointer_waited(Ok(()), 12_345));
    assert!(unmap);
    let info = result.unwrap();
    assert_eq!(info.x, 2020 * 256 + 64);
    assert_eq!(info.y, 60 * 256);
    assert_eq!(info.output.name, "DP-8");
    assert_eq!(info.work_area, Rect { x: 1920, y: 10, width: 1920, height: 1080 });
    assert_eq!(info.elapsed, 12_345);
}

#[test]
fn the_work_area_is_measured() {
    let mut p = mapped(probe::query_pointer_and_work_area(500));
    let full = surface_of(&p, 8, OverlayKind::Full);
    let work = surface_of(&p, 8, OverlayKind::WorkArea);
    p.state.enter(full, 100 * 256, 50 * 256, 3);
    match p.pointer_waited(Ok(()), 1) {
        ProbeStep::Uncover(gone) => {
            assert_eq!(gone.len(), 2);
            assert!(gone.iter().all(|o| o.kind == OverlayKind::Full));
        }
        _ => panic!("the probe does not measure"),
    }
    assert_eq!(p.state.overlays.len(), 2);
    let unmeasured = outcome(p.work_area_waited()).1.unwrap().work_area;
    assert_eq!(unmeasured, Rect { x: 1920, y: 10, width: 1920, height: 1080 });
    p.state.buffer_made(work + 100, 1900, 1048);
    p.state.enter(work, 80 * 256 + 127, 18 * 256 - 128, 4);
    let measured = outcome(p.work_area_waited()).1.unwrap().work_area;
    assert_eq!(measured, Rect { x: 1940, y: 43, width: 1900, height: 1048 });
}

#[test]
fn overlays_are_planned_for_every_output() {
    let outputs = vec![7, 8];
    let position = probe::plan(Purpose::Position, &outputs);
    assert_eq!(position.len(), 2);
    assert_eq!(ids(&position, OverlayKind::Full), vec![7, 8]);
    assert!(position.iter().all(|p| p.exclusive_zone == -1 && !p.keyboard));
    let area = probe::plan(Purpose::WorkArea, &outputs);
    assert_eq!(area.len(), 4);
    assert!(area[..2].iter().all(|p| p.kind == OverlayKind::WorkArea && p.exclusive_zone == 0));
    assert!(area[2..].iter().all(|p| p.kind == OverlayKind::Full && !p.keyboard));
    let moving = probe::plan(Purpose::Move, &outputs);
    assert_eq!(ids(&moving, OverlayKind::Full), vec![7, 8]);
    assert!(moving.iter().all(|p| p.keyboard));
}

#[test]
fn the_pointer_is_moved_within_its_output() {
    let mut p = mapped(probe::move_pointer(500));
    let surface = surface_of(&p, 7, OverlayKind::Full);
    p.state.buffer_made(surface + 100, 1920, 1080);
    p.state.enter(surface, 256, 256, 77);
    assert!(matches!(p.pointer_waited(Ok(()), 1), ProbeStep::Aim));
    let warp = |p: &Probe, x: i64, y: i64| match p.aimed(x, y) {
        ProbeStep::Warp(w) => w,
        _ => panic!("the pointer is not moved"),
    };
    assert_eq!(warp(&p, 300, 400), Warp { surface, x: 300, y: 400, serial: 77 });
    assert_eq!(warp(&p, -1, i64::MIN), Warp { surface, x: 0, y: 0, serial: 77 });
    assert_eq!(
        warp(&p, i64::MAX, 1_000_000),
        Warp { surface, x: 1919 * 256, y: 1079 * 256, serial: 77 }
    );
    p.state.motion(300, 400);
    let info = outcome(p.warped(Ok(()))).1.unwrap();
    assert_eq!((info.x, info.y), (300, 10 * 256 + 400));
    let gone = p.unmap();
    assert_eq!(gone.len(), 2);
    assert!(p.state.overlays.is_empty());
}

#[test]
fn the_pointer_cannot_be_moved_without_the_means() {
    let mut p = mapped(probe::move_pointer(500));
    let surface = surface_of(&p, 7, OverlayKind::Full);
    p.state.enter(surface, 0, 0, 1);
    p.pointer_waited(Ok(()), 1);
    p.state.pointer_warp = false;
    let (_, result) = outcome(p.aimed(0, 0));
    assert!(matches!(result, Err(Error::MissingGlobal("wp_pointer_warp_v1"))));
    p.state.pointer_warp = true;
    p.pointer = false;
    assert!(matches!(outcome(p.aimed(0, 0)).1, Err(Error::NoInputDevice)));
    p.pointer = true;
    p.state.overlays.clear();
    let (unmap, result) = outcome(p.aimed(0, 0));
    assert!(unmap && matches!(result, Err(Error::Wayland(m)) if m == "overlay vanished"));
}
