use paint::wall_frame::{
    is_reported, FrameReadyDiagnostic, WallFrameCoordinator, WallFrameCoordinatorUpdate,
    WallFrameDelayInjection, WallFrameRepaintDecision,
};

const MS: u64 = 1_000_000;

fn ready(painter_id: u64, frame: u64, ready_at: u64, need_repaint: bool) -> FrameReadyDiagnostic {
    FrameReadyDiagnostic {
        painter_id,
        local_frame_id: 1,
        wall_logical_frame_id: Some(frame),
        ready_at,
        wait_ns: 0,
        need_repaint,
    }
}

fn decisions(update: &WallFrameCoordinatorUpdate) -> Vec<(u64, bool)> {
    update
        .repaint_decisions
        .iter()
        .map(|d: &WallFrameRepaintDecision| (d.painter_id, d.repaint_needed))
        .collect()
}

fn coordinator() -> WallFrameCoordinator {
    let mut c = WallFrameCoordinator::new(None);
    c.register_frame(7, vec![100], vec![1, 2, 3], 0);
    c
}

#[test]
fn all_painters_present_when_the_last_is_ready() {
    let mut c = coordinator();
    assert!(c.webview_has_active_frame(100));
    let first = c.note_frame_ready(&ready(1, 7, 10 * MS, true)).unwrap();
    assert!(first.repaint_decisions.is_empty() && first.released_webview_ids.is_empty());
    let second = c.note_frame_ready(&ready(3, 7, 11 * MS, false)).unwrap();
    assert!(second.repaint_decisions.is_empty());
    let last = c.note_frame_ready(&ready(2, 7, 12 * MS, false)).unwrap();
    // One painter that needs a repaint is enough.
    assert_eq!(decisions(&last), vec![(1, true), (2, true), (3, true)]);
    assert_eq!(last.released_webview_ids, vec![100]);
    assert!(!c.webview_has_active_frame(100));
    assert_eq!(c.keep_previous_logical_frame(2), None);
}

#[test]
fn a_frame_is_decided_once() {
    let mut c = coordinator();
    for painter in [1, 2, 3] {
        c.note_frame_ready(&ready(painter, 7, 10 * MS, true));
    }
    let again = c.complete_barrier(7, 11 * MS);
    assert!(again.repaint_decisions.is_empty() && again.released_webview_ids.is_empty());
    let missed = c.miss_barrier(7);
    assert!(missed.repaint_decisions.is_empty());
}

#[test]
fn late_painters_keep_their_previous_frame() {
    let mut c = coordinator();
    c.note_frame_ready(&ready(1, 7, 10 * MS, true));
    // The deadline runs from the first readiness.
    let (update, order) = c.sweep_expired_barriers(25 * MS);
    assert!(update.repaint_decisions.is_empty() && order.is_empty());
    let (update, order) = c.sweep_expired_barriers(26 * MS);
    assert_eq!(order, vec![7]);
    assert_eq!(decisions(&update), vec![(1, true)]);
    assert_eq!(update.released_webview_ids, vec![100]);
    assert_eq!(c.keep_previous_logical_frame(1), None);
    assert_eq!(c.keep_previous_logical_frame(2), Some(7));
    assert_eq!(c.keep_previous_logical_frame(2), Some(7));
    // A newer frame ends that.
    let reports = c.expire_keep_previous_before(8, &[2, 9]);
    assert_eq!(reports, vec![(2, 7, 1)]);
    assert_eq!(c.keep_previous_logical_frame(2), None);
    assert_eq!(c.keep_previous_logical_frame(3), Some(7));
    assert!(c.expire_keep_previous_before(7, &[3]).is_empty());
}

#[test]
fn a_late_readiness_finds_its_barrier_for_a_while() {
    let mut c = coordinator();
    c.note_frame_ready(&ready(1, 7, 10 * MS, true));
    c.sweep_expired_barriers(30 * MS);
    let late = c.note_frame_ready(&ready(2, 7, 40 * MS, true)).unwrap();
    assert!(late.repaint_decisions.is_empty());
    assert_eq!(c.keep_previous_logical_frame(2), Some(7));
    // Two seconds after the first readiness it is gone.
    c.sweep_expired_barriers(2_010 * MS + 1);
    assert!(c.note_frame_ready(&ready(3, 7, 2_020 * MS, true)).is_none());
}

#[test]
fn frames_of_no_barrier_are_none_of_its_business() {
    let mut c = coordinator();
    let stray = FrameReadyDiagnostic { wall_logical_frame_id: None, ..ready(1, 7, 0, true) };
    assert!(c.note_frame_ready(&stray).is_none());
    assert!(c.note_frame_ready(&ready(1, 99, 0, true)).is_none());
    let update = c.miss_barrier(99);
    assert!(update.repaint_decisions.is_empty());
}

#[test]
fn a_removed_webview_takes_its_barriers_along() {
    let mut c = coordinator();
    c.remove_webview(100);
    assert!(!c.webview_has_active_frame(100));
    assert!(c.note_frame_ready(&ready(1, 7, 10 * MS, true)).is_none());
}

#[test]
fn an_injected_delay_withholds_one_painter() {
    let injection = WallFrameDelayInjection::from_environment(Some(1), None, Some(1)).unwrap();
    let mut c = WallFrameCoordinator::new(Some(injection));
    c.register_frame(7, vec![100], vec![1, 2], 0);
    c.note_frame_ready(&ready(2, 7, 10 * MS, true));
    let update = c.note_frame_ready(&ready(1, 7, 11 * MS, true)).unwrap();
    // The frame of painter 2 does not count, so the barrier is not through.
    assert!(update.repaint_decisions.is_empty());
    let (update, _) = c.sweep_expired_barriers(40 * MS);
    assert_eq!(decisions(&update), vec![(1, true)]);
    // The instruction is spent by the first query.
    assert_eq!(c.keep_previous_logical_frame(2), Some(7));
    assert_eq!(c.keep_previous_logical_frame(2), None);
    // The injection is used up.
    c.register_frame(8, vec![100], vec![1, 2], 50 * MS);
    c.note_frame_ready(&ready(2, 8, 51 * MS, true));
    let update = c.note_frame_ready(&ready(1, 8, 52 * MS, true)).unwrap();
    assert_eq!(decisions(&update).len(), 2);
}

#[test]
fn injections_are_read_with_care() {
    assert!(WallFrameDelayInjection::from_environment(None, Some(1), Some(1)).is_none());
    assert!(WallFrameDelayInjection::from_environment(Some(-1), Some(1), Some(1)).is_none());
    assert!(WallFrameDelayInjection::from_environment(Some(0), Some(1), Some(0)).is_none());
    let i = WallFrameDelayInjection::from_environment(Some(2), Some(-5), Some(-5)).unwrap();
    assert_eq!((i.target_index, i.after_logical_frame_id, i.remaining_frames), (2, 1, 1));
    let mut i = WallFrameDelayInjection::from_environment(Some(0), Some(5), Some(2)).unwrap();
    assert_eq!(i.target_for_frame(4, &[8]), None);
    assert_eq!(i.target_for_frame(5, &[8]), Some(8));
    assert_eq!(i.target_for_frame(6, &[]), None);
    assert_eq!(i.remaining_frames, 0);
    assert_eq!(i.target_for_frame(7, &[8]), None);
}

#[test]
fn updates_release_a_webview_once() {
    let mut a = WallFrameCoordinatorUpdate::new();
    a.released_webview_ids.push(5);
    let mut b = WallFrameCoordinatorUpdate::new();
    b.released_webview_ids.push(5);
    b.released_webview_ids.push(6);
    b.repaint_decisions.push(WallFrameRepaintDecision { painter_id: 1, repaint_needed: true });
    a.extend(b);
    assert_eq!(a.released_webview_ids, vec![5, 6]);
    assert_eq!(decisions(&a), vec![(1, true)]);
}

#[test]
fn recurring_reports_thin_out() {
    let made: Vec<u64> = (1..300).filter(|n| is_reported(*n)).collect();
    assert_eq!(made, vec![1, 2, 3, 120, 240]);
}

#[test]
fn decisions_come_from_one_call() {
    // All are ready in time, after others and a sweep spoke.
    let mut c = coordinator();
    c.register_frame(8, vec![101], vec![1, 4], 0);
    let mut given = Vec::new();
    let calls = [
        ready(1, 7, 10 * MS, false),
        ready(4, 7, 10 * MS, true),
        ready(1, 8, 11 * MS, true),
        ready(1, 7, 12 * MS, false),
        ready(2, 7, 13 * MS, false),
        ready(3, 7, 14 * MS, true),
        ready(3, 7, 15 * MS, true),
        ready(2, 7, 16 * MS, true),
    ];
    for (place, call) in calls.iter().enumerate() {
        let update = c.note_frame_ready(call).unwrap();
        if call.wall_logical_frame_id == Some(7) && !update.repaint_decisions.is_empty() {
            given.push((place, decisions(&update)));
        }
    }
    assert_eq!(given, vec![(5, vec![(1, true), (2, true), (3, true)])]);
    // The deadline passes: those that were ready present, and nobody later.
    let mut late = coordinator();
    late.note_frame_ready(&ready(3, 7, 10 * MS, false));
    late.note_frame_ready(&ready(1, 7, 11 * MS, true));
    let missed = late.note_frame_ready(&ready(2, 7, 1000 * MS, true)).unwrap();
    assert_eq!(decisions(&missed), vec![(3, true), (1, true)]);
    assert!(late.note_frame_ready(&ready(1, 7, 1001 * MS, true)).unwrap().repaint_decisions.is_empty());
}
