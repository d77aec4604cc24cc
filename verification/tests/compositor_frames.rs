use paint::dcomp_compositor::{
    bind_virtual_failed, maybe_create, open_virtual, AddSurface, BegunDraw, BindCleanup,
    ConvertPass, DCompNativeCompositor, DeviceProbe, OpenedTile,
    UnbindAction,
};
use paint::end_frame::{EndFrame, EndFrameStep};
use paint::external_present::{ExternalEvent, ExternalPresent, ExternalStep};
use paint::geometry::{DeviceIntPoint, DeviceIntRect, DeviceIntSize};
use paint::surface::{
    buffer_rect, present_hint_rects, DemotionPlan, EndFrameAction, StorageMode,
};
use paint::surface_entry::{BindPlan, ClearedPart, SurfaceStorage};

const PROBE: DeviceProbe = DeviceProbe {
    window: true,
    d3d11_device: true,
    d3d11_context: true,
    d3d11_context1: true,
    dxgi_device: true,
    dxgi_adapter: true,
    dxgi_factory: true,
    dcomp_device: true,
    target: true,
    root_visual: true,
    root_set: true,
};

fn r(x0: i32, y0: i32, x1: i32, y1: i32) -> DeviceIntRect {
    DeviceIntRect::new(DeviceIntPoint::new(x0, y0), DeviceIntPoint::new(x1, y1))
}

/// A compositor with one opaque surface of two tiles, side by side, of 100 by 100.
fn two_tiles() -> DCompNativeCompositor {
    let mut c = maybe_create(PROBE).unwrap();
    c.create_surface(
        1,
        DeviceIntPoint::new(1000, 1000),
        DeviceIntSize::new(100, 100),
        true,
        Some((70, 80)),
    );
    c.create_tile(1, (0, 0));
    c.create_tile(1, (1, 0));
    c
}

const TILE: DeviceIntRect = DeviceIntRect {
    min: DeviceIntPoint { x: 0, y: 0 },
    max: DeviceIntPoint { x: 100, y: 100 },
};

/// Draws a tile, into whatever the surface has.
fn draw(c: &mut DCompNativeCompositor, tile: (i32, i32), dirty: DeviceIntRect) {
    match c.bind(1, tile, dirty, TILE) {
        BindPlan::Virtual { update, .. } => {
            let opened = OpenedTile {
                pbuffer: 5,
                texture: 6,
                offset: DeviceIntPoint::new(0, 0),
                texture_size: DeviceIntSize::new(100, 100),
            };
            c.bind_virtual(1, tile, dirty, TILE, update, opened);
            c.unbind();
        },
        BindPlan::SwapChain { .. } => {
            assert!(c.bind_swapchain(1, tile, dirty, TILE, Some(7), true).is_some());
        },
        BindPlan::Rejected => panic!("rejected"),
    }
}

/// What a run of the end of a frame did.
#[derive(Debug, PartialEq)]
enum Did {
    Made(DeviceIntRect),
    Remade(DeviceIntRect),
    Full { attach: bool },
    Partial { copy: bool, catchup: Vec<DeviceIntRect>, hint: Vec<DeviceIntRect> },
    Withheld { demote: bool },
    Demoted,
    Composed(Vec<u64>),
    Over,
}

fn end_frame(c: &mut DCompNativeCompositor, resize_active: bool) -> Vec<Did> {
    assert!(c.check_fits());
    let (mut run, _): (EndFrame, bool) = c.begin_end_frame(StorageMode::Hybrid, resize_active);
    let mut did = Vec::new();
    loop {
        match c.next_step(&mut run) {
            EndFrameStep::Surface { id, action } => {
                match action {
                    EndFrameAction::PresentFull { attach } => {
                        c.full_present_done(&mut run, id, true, attach, true);
                        did.push(Did::Full { attach });
                    },
                    EndFrameAction::PresentPartial { copy, catchup, hint } => {
                        c.partial_present_done(&mut run, id, true);
                        did.push(Did::Partial { copy, catchup, hint });
                    },
                    EndFrameAction::Withhold { demote } => did.push(Did::Withheld { demote }),
                    _ => {},
                }
                c.finish_surface(id);
            },
            EndFrameStep::MakeChain { id, extent, is_opaque } => {
                assert!(is_opaque);
                c.promotion_done(id, extent, Some(90));
                did.push(Did::Made(extent));
            },
            EndFrameStep::RemakeChain { id, extent, .. } => {
                c.regeneration_done(id, extent, Some(91));
                did.push(Did::Remade(extent));
            },
            EndFrameStep::Demote { id, plan } => {
                let seeded = match plan {
                    DemotionPlan::Keep => None,
                    DemotionPlan::SeedFallback { fallback, .. } => Some(fallback),
                    DemotionPlan::SeedNew { .. } => Some(71),
                };
                c.demotion_done(&run, id, seeded);
                did.push(Did::Demoted);
            },
            EndFrameStep::Skip => {},
            EndFrameStep::Compose { visuals } => {
                did.push(Did::Composed(visuals));
                return did;
            },
            EndFrameStep::Over => {
                did.push(Did::Over);
                return did;
            },
        }
    }
}

fn frame(c: &mut DCompNativeCompositor, tiles: &[((i32, i32), DeviceIntRect)]) -> Vec<Did> {
    c.begin_frame();
    c.add_surface(1, (0, 0), r(0, 0, 200, 100));
    for (tile, dirty) in tiles {
        draw(c, *tile, *dirty);
    }
    end_frame(c, false)
}

const BOTH: [((i32, i32), DeviceIntRect); 2] = [((0, 0), TILE), ((1, 0), TILE)];

/// Full frames until the surface is a flip chain.
fn promoted() -> DCompNativeCompositor {
    let mut c = two_tiles();
    for _ in 0..60 {
        if frame(&mut c, &BOTH).contains(&Did::Made(r(1000, 1000, 1200, 1100))) {
            return c;
        }
    }
    panic!("never promoted");
}

#[test]
fn a_compositor_needs_its_parts() {
    assert!(maybe_create(DeviceProbe { window: false, ..PROBE }).is_none());
    assert!(maybe_create(DeviceProbe { d3d11_device: false, ..PROBE }).is_none());
    assert!(maybe_create(DeviceProbe { dxgi_device: false, ..PROBE }).is_none());
    assert!(maybe_create(DeviceProbe { dcomp_device: false, ..PROBE }).is_none());
    assert!(maybe_create(DeviceProbe { target: false, ..PROBE }).is_none());
    assert!(maybe_create(DeviceProbe { root_visual: false, ..PROBE }).is_none());
    assert!(maybe_create(DeviceProbe { root_set: false, ..PROBE }).is_none());
    let c = maybe_create(DeviceProbe { dxgi_factory: false, d3d11_context: false, ..PROBE });
    let c = c.unwrap();
    assert!(!c.has_factory && !c.has_context && !c.has_context1);
}

#[test]
fn full_repaints_earn_a_flip_chain() {
    let mut c = two_tiles();
    let mut frames = 0;
    loop {
        frames += 1;
        let did = frame(&mut c, &BOTH);
        if did.len() > 1 {
            assert_eq!(did, vec![Did::Made(r(1000, 1000, 1200, 1100)), Did::Composed(vec![80])]);
            break;
        }
        assert_eq!(did, vec![Did::Composed(vec![80])]);
    }
    // The surface has to be drawn for a while before its full repaints count.
    assert!((30..=33).contains(&frames), "{frames}");
    // The first full frame is attached, the next ones are not attached again.
    assert_eq!(frame(&mut c, &BOTH)[0], Did::Full { attach: true });
    assert_eq!(frame(&mut c, &BOTH)[0], Did::Full { attach: false });
}

#[test]
fn partial_repaints_do_not_promote() {
    let mut c = two_tiles();
    for _ in 0..60 {
        let did = frame(&mut c, &[((0, 0), r(0, 0, 50, 50))]);
        assert_eq!(did, vec![Did::Composed(vec![80])]);
    }
}

#[test]
fn a_partial_frame_brings_the_other_buffer_up_to_date() {
    let mut c = promoted();
    frame(&mut c, &BOTH);
    frame(&mut c, &BOTH);
    // The other buffer misses the whole last frame.
    let did = frame(&mut c, &[((0, 0), r(0, 0, 50, 100))]);
    let Did::Partial { copy, catchup, hint } = &did[0] else {
        panic!("{did:?}");
    };
    assert!(*copy);
    let area: i32 =
        catchup.iter().map(|q| (q.max.x - q.min.x) * (q.max.y - q.min.y)).sum();
    assert_eq!(area, 200 * 100 - 50 * 100);
    assert_eq!(*hint, vec![r(0, 0, 50, 100)]);
    // A frame of the same part needs nothing from before.
    let did = frame(&mut c, &[((0, 0), r(0, 0, 50, 100))]);
    assert_eq!(
        did[0],
        Did::Partial { copy: false, catchup: vec![], hint: vec![r(0, 0, 50, 100)] }
    );
}

#[test]
fn an_unattached_chain_waits_for_a_full_frame() {
    let mut c = promoted();
    for n in 1..=30 {
        let did = frame(&mut c, &[((0, 0), r(0, 0, 50, 100))]);
        assert_eq!(did[0], Did::Withheld { demote: n == 30 });
    }
    // The surface went back to the virtual one and is blocked for a while.
    let entry = c.surfaces.get(&1).unwrap();
    assert!(matches!(entry.storage, SurfaceStorage::Virtual { virtual_surface: 70 }));
    assert_eq!(entry.demote_count, 1);
    assert_eq!(entry.promote_blocked_until, c.frame_counter + 300);
}

#[test]
fn a_resize_demotes_every_chain() {
    let mut c = promoted();
    frame(&mut c, &BOTH);
    c.begin_frame();
    c.add_surface(1, (0, 0), r(0, 0, 200, 100));
    for (tile, dirty) in BOTH {
        draw(&mut c, tile, dirty);
    }
    let did = end_frame(&mut c, true);
    assert_eq!(did, vec![Did::Demoted, Did::Composed(vec![80])]);
    let entry = c.surfaces.get(&1).unwrap();
    assert!(matches!(entry.storage, SurfaceStorage::Virtual { virtual_surface: 71 }));
    // That is no fault of the surface.
    assert_eq!(entry.demote_count, 0);
}

#[test]
fn a_grown_surface_gets_a_new_chain() {
    let mut c = promoted();
    frame(&mut c, &BOTH);
    c.create_tile(1, (2, 0));
    c.begin_frame();
    c.add_surface(1, (0, 0), r(0, 0, 300, 100));
    for tile in [(0, 0), (1, 0), (2, 0)] {
        draw(&mut c, tile, TILE);
    }
    let did = end_frame(&mut c, false);
    assert_eq!(did[0], Did::Remade(r(1000, 1000, 1300, 1100)));
}

#[test]
fn a_failed_chain_is_not_tried_again() {
    let mut c = two_tiles();
    for _ in 0..60 {
        c.begin_frame();
        c.add_surface(1, (0, 0), r(0, 0, 200, 100));
        for (tile, dirty) in BOTH {
            draw(&mut c, tile, dirty);
        }
        let (mut run, _) = c.begin_end_frame(StorageMode::Hybrid, false);
        let mut asked = false;
        loop {
            match c.next_step(&mut run) {
                EndFrameStep::Surface { id, .. } => {
                    c.finish_surface(id);
                },
                EndFrameStep::MakeChain { id, extent, .. } => {
                    c.promotion_done(id, extent, None);
                    asked = true;
                },
                EndFrameStep::Compose { .. } | EndFrameStep::Over => break,
                _ => {},
            }
        }
        if asked {
            assert!(c.promote_disabled);
            assert_eq!(frame(&mut c, &BOTH), vec![Did::Composed(vec![80])]);
            return;
        }
    }
    panic!("never asked");
}

#[test]
fn a_transparent_tile_is_cleared_where_it_is_seen() {
    let mut c = maybe_create(PROBE).unwrap();
    let origin = DeviceIntPoint::new(1000, 1000);
    c.create_surface(2, origin, DeviceIntSize::new(100, 100), false, Some((70, 80)));
    c.create_tile(2, (0, 0));
    c.add_surface(2, (0, 0), r(0, 0, 60, 100));
    let band = r(0, 0, 100, 20);
    assert_eq!(
        c.bind(2, (0, 0), band, band),
        BindPlan::Virtual {
            virtual_surface: 70,
            update: r(1000, 1000, 1060, 1100),
            clear: true,
        }
    );
    assert_eq!(c.bind(9, (0, 0), band, band), BindPlan::Rejected);
    let opened = OpenedTile {
        pbuffer: 5,
        texture: 6,
        offset: DeviceIntPoint::new(7, 8),
        texture_size: DeviceIntSize::new(512, 512),
    };
    let placed = c.bind_virtual(2, (0, 0), band, band, r(1000, 1000, 1060, 1100), opened);
    // Only what was opened is cleared: the texture may hold other tiles.
    let part =
        ClearedPart { origin: DeviceIntPoint::new(7, 8), size: DeviceIntSize::new(60, 100) };
    assert_eq!(placed.clear, Some(part));
    assert_eq!(placed.origin, DeviceIntPoint::new(7, 8));
    // A part of the tile is drawn over what is there.
    c.unbind();
    let BindPlan::Virtual { update, clear, .. } = c.bind(2, (0, 0), band, TILE) else {
        panic!("no plan");
    };
    assert!(!clear);
    assert_eq!(c.bind_virtual(2, (0, 0), band, TILE, update, opened).clear, None);
}

#[test]
fn a_failed_opening_is_closed_again() {
    let begun = BegunDraw {
        texture: 6,
        offset: DeviceIntPoint::new(7, 8),
        texture_size: DeviceIntSize::new(64, 64),
    };
    let opened = OpenedTile {
        pbuffer: 5,
        texture: 6,
        offset: DeviceIntPoint::new(7, 8),
        texture_size: DeviceIntSize::new(64, 64),
    };
    assert_eq!(open_virtual(Some(begun), Some(5), true), Ok(opened));
    let closed = |destroy_pbuffer: bool, begun: bool| BindCleanup {
        destroy_pbuffer,
        release_texture: begun,
        end_draw: begun,
        origin: DeviceIntPoint::new(0, 0),
    };
    for (result, cleanup) in [
        (open_virtual(None, None, false), closed(false, false)),
        (open_virtual(Some(begun), None, false), closed(false, true)),
        (open_virtual(Some(begun), Some(5), false), closed(true, true)),
    ] {
        assert_eq!(bind_virtual_failed(result.unwrap_err()), cleanup);
    }
}

#[test]
fn drawing_a_tile_is_ended_once() {
    let mut c = two_tiles();
    let BindPlan::Virtual { update, .. } = c.bind(1, (1, 0), r(10, 20, 30, 40), TILE) else {
        panic!("no plan");
    };
    assert_eq!(update, r(1110, 1020, 1130, 1040));
    let opened = OpenedTile {
        pbuffer: 5,
        texture: 6,
        offset: DeviceIntPoint::new(7, 8),
        texture_size: DeviceIntSize::new(64, 64),
    };
    let at = c.bind_virtual(1, (1, 0), r(10, 20, 30, 40), TILE, update, opened);
    // The texture holds the dirty part at its offset; the tile's origin lies before it.
    assert_eq!(at.origin, DeviceIntPoint::new(7 - 10, 8 - 20));
    assert_eq!(at.dirty_origin, DeviceIntPoint::new(7, 8));
    assert_eq!(at.clear, None);
    let action = UnbindAction { end_draw: Some(70), pbuffer: 5, texture: 6 };
    assert_eq!(c.unbind(), Some(action));
    assert_eq!(c.unbind(), None);
}

#[test]
fn surfaces_are_stacked_in_order() {
    let mut c = two_tiles();
    c.create_external_surface(2, true, Some(81));
    c.create_external_surface(3, true, None);
    c.begin_frame();
    assert!(matches!(c.add_surface(2, (0, 0), r(5, 5, 25, 15)), AddSurface::External {
        attached: None,
        size: DeviceIntSize { width: 20, height: 10 },
    }));
    assert!(matches!(c.add_surface(1, (3, 4), r(0, 0, 9, 9)), AddSurface::Placed { .. }));
    assert_eq!(c.add_surface(3, (0, 0), r(0, 0, 9, 9)), AddSurface::Skipped);
    assert_eq!(c.add_surface(2, (0, 0), r(5, 5, 5, 15)), AddSurface::Skipped);
    assert_eq!(c.frame_visuals(), vec![81, 80]);
    c.destroy_surface(2);
    assert_eq!(c.frame_visuals(), vec![80]);
    let (bound, _) = c.release_all();
    assert!(bound.is_none());
    assert!(c.frame_visuals().is_empty());
}

#[test]
fn a_video_frame_is_presented_once() {
    let mut c = maybe_create(PROBE).unwrap();
    c.create_external_surface(2, true, Some(81));
    c.attach_external_image(2, 500);
    let size = DeviceIntSize::new(20, 10);
    assert!(c.chain_can_be_made(size));
    assert!(!c.chain_can_be_made(DeviceIntSize::new(0, 10)));
    assert!(c.external_needs_chain(2, size, false));
    assert!(!c.external_needs_chain(2, size, true));
    assert_eq!(c.external_target(2, 1, 5), None);
    c.install_external_chain(2, Some(90), size);
    assert!(!c.external_needs_chain(2, size, false));
    assert!(c.external_needs_chain(2, DeviceIntSize::new(21, 10), false));
    // Without the converter nothing is presented.
    assert_eq!(c.external_target(2, 1, 5), None);
    assert!(c.needs_convert_pass());
    c.settle_convert_pass(true);
    assert!(!c.needs_convert_pass());
    assert_eq!(c.external_target(2, 1, 5), Some((90, size)));
    assert_eq!(c.external_view(2, 3), None);
    c.remember_external_view(2, 3, 33);
    assert_eq!(c.external_view(2, 3), Some(33));
    assert!(c.external_needs_attach(2));
    c.settle_external_present(2, 1, 5, true, true);
    assert!(!c.external_needs_attach(2));
    assert_eq!(c.external_target(2, 1, 5), None);
    assert_eq!(c.external_target(2, 1, 6), Some((90, size)));
    c.settle_external_present(2, 1, 6, false, false);
    assert_eq!(c.external_target(2, 1, 6), Some((90, size)));
    assert!(c.open_external_batch());
    assert!(!c.open_external_batch());
    assert!(c.start_compositing());
    assert!(!c.close_external_batch());
    let mut failed = maybe_create(PROBE).unwrap();
    failed.settle_convert_pass(false);
    assert_eq!(failed.convert_pass, ConvertPass::Failed);
    failed.settle_convert_pass(true);
    assert_eq!(failed.convert_pass, ConvertPass::Failed);
}

#[test]
fn hints_stay_within_the_buffer() {
    let size = DeviceIntSize::new(100, 50);
    assert_eq!(buffer_rect(size), r(0, 0, 100, 50));
    assert_eq!(present_hint_rects(&[r(-5, 0, 10, 10)], size), vec![r(0, 0, 10, 10)]);
    let many: Vec<DeviceIntRect> = (0..17).map(|i| r(i * 2, 0, i * 2 + 1, 1)).collect();
    // Too many are none: the whole buffer.
    assert!(present_hint_rects(&many, size).is_empty());
}

#[test]
fn a_partial_repaint_breaks_the_row() {
    let mut c = two_tiles();
    for _ in 0..32 {
        assert_eq!(frame(&mut c, &BOTH), vec![Did::Composed(vec![80])]);
    }
    // Two full repaints count by now; the third would do.
    assert_eq!(c.surfaces.get(&1).unwrap().promote_streak, 2);
    frame(&mut c, &[((0, 0), TILE)]);
    assert_eq!(c.surfaces.get(&1).unwrap().promote_streak, 0);
    for _ in 0..2 {
        assert_eq!(frame(&mut c, &BOTH), vec![Did::Composed(vec![80])]);
    }
    assert!(frame(&mut c, &BOTH).contains(&Did::Made(r(1000, 1000, 1200, 1100))));
}

#[test]
fn a_compositor_without_its_device_shows_nothing() {
    let mut c = two_tiles();
    c.begin_frame();
    c.add_surface(1, (0, 0), r(0, 0, 200, 100));
    c.alive = false;
    assert_eq!(end_frame(&mut c, false), vec![Did::Over]);
}

#[test]
fn giving_everything_up_names_each_drawing_surface_once() {
    let mut c = promoted();
    c.create_surface(
        2,
        DeviceIntPoint::new(0, 0),
        DeviceIntSize::new(100, 100),
        true,
        Some((72, 82)),
    );
    c.begin_frame();
    draw(&mut c, (0, 0), TILE);
    let (bound, pbuffers) = c.release_all();
    assert!(bound.is_none());
    assert_eq!(pbuffers, vec![7]);
    assert_eq!(end_frame(&mut c, false), vec![Did::Over]);
}

const VIDEO: DeviceIntSize = DeviceIntSize { width: 20, height: 10 };

fn video_surface() -> DCompNativeCompositor {
    let mut c = maybe_create(PROBE).unwrap();
    c.create_external_surface(2, true, Some(81));
    c.attach_external_image(2, 500);
    c
}

/// Presents a frame, where `fails` says which step does not work, and tells the steps.
fn present(
    c: &mut DCompNativeCompositor,
    seq: u64,
    size: DeviceIntSize,
    resize_active: bool,
    fails: Option<usize>,
) -> Vec<ExternalStep> {
    let mut run = ExternalPresent::new(2, 1, seq, size, resize_active);
    let mut steps = Vec::new();
    let mut event = ExternalEvent::Begin;
    loop {
        let step = c.external_step(&mut run, event);
        let works = fails != Some(steps.len());
        steps.push(step);
        event = match step {
            ExternalStep::MakeConvertPass
            | ExternalStep::Convert { .. }
            | ExternalStep::Present { .. }
            | ExternalStep::Attach { .. } => ExternalEvent::Made(works),
            ExternalStep::MakeChain { .. } => ExternalEvent::Handle(works.then_some(90)),
            ExternalStep::GetBackBuffer { .. } => ExternalEvent::Handle(works.then_some(3)),
            ExternalStep::MakeRenderTarget { .. } => ExternalEvent::Handle(works.then_some(33)),
            ExternalStep::Done => return steps,
        };
    }
}

#[test]
fn the_first_video_frame_makes_what_it_needs() {
    let mut c = video_surface();
    assert_eq!(
        present(&mut c, 5, VIDEO, false, None),
        vec![
            ExternalStep::MakeConvertPass,
            ExternalStep::MakeChain { size: VIDEO, is_opaque: true },
            ExternalStep::GetBackBuffer { chain: 90 },
            ExternalStep::MakeRenderTarget { back: 3 },
            ExternalStep::Convert { target: 33, size: VIDEO, begin_batch: true },
            ExternalStep::Present { chain: 90 },
            ExternalStep::Attach { chain: 90 },
            ExternalStep::Done,
        ]
    );
    // The same frame is not presented again, and the next one finds everything made.
    assert_eq!(present(&mut c, 5, VIDEO, false, None), vec![ExternalStep::Done]);
    let next = vec![
        ExternalStep::GetBackBuffer { chain: 90 },
        ExternalStep::Convert { target: 33, size: VIDEO, begin_batch: false },
        ExternalStep::Present { chain: 90 },
        ExternalStep::Done,
    ];
    assert_eq!(present(&mut c, 6, VIDEO, false, None), next);
    // While the window is being resized the flip chain stays; then it is made anew.
    let wider = DeviceIntSize::new(21, 10);
    assert_eq!(present(&mut c, 7, wider, true, None), next);
    assert_eq!(
        present(&mut c, 7, wider, false, None)[0],
        ExternalStep::MakeChain { size: wider, is_opaque: true }
    );
}

#[test]
fn a_failed_step_ends_the_presenting_of_a_video_frame() {
    // The run of the first frame has seven steps before it is done.
    for failing in 1..7 {
        let mut c = video_surface();
        let steps = present(&mut c, 5, VIDEO, false, Some(failing));
        assert_eq!(steps.len(), failing + 2);
        assert_eq!(steps[failing + 1], ExternalStep::Done);
        // A frame that was presented is not tried again, even where attaching failed.
        let again = present(&mut c, 5, VIDEO, false, None);
        assert_eq!(again == vec![ExternalStep::Done], failing == 6);
        let attached = present(&mut c, 6, VIDEO, false, None);
        assert_eq!(attached.contains(&ExternalStep::Attach { chain: 90 }), failing == 6);
    }
    // Without the converter a flip chain is made, but nothing is presented, ever.
    let mut c = video_surface();
    assert_eq!(
        present(&mut c, 5, VIDEO, false, Some(0)),
        vec![
            ExternalStep::MakeConvertPass,
            ExternalStep::MakeChain { size: VIDEO, is_opaque: true },
            ExternalStep::Done,
        ]
    );
    assert_eq!(present(&mut c, 6, VIDEO, false, None), vec![ExternalStep::Done]);
    // Nothing can be made of an empty clip.
    let mut c = video_surface();
    assert_eq!(
        present(&mut c, 5, DeviceIntSize::new(0, 10), false, None),
        vec![ExternalStep::MakeConvertPass, ExternalStep::Done]
    );
}
