use paint::web_content_animation::{
    HeldPaintValues, PaintAnimation, PaintAnimationKind, PaintAnimationSegment, PipelineAnimations, Sample,
    MAX_HELD_PAINT_VALUES,
};
use paint::web_content_animator::WebContentAnimator;

const SECOND: i64 = 1_000_000_000;

/// The moment at which the display lists of these tests come.
const NOW: u64 = 100_000_000_000;

/// The host's handle of a value: a hundredth each.
fn value_of(sample: &Sample) -> f64 {
    let progress = if sample.den > 0 {
        (sample.num as f64 / sample.den as f64).clamp(0.0, 1.0)
    } else {
        1.0
    };
    let from = sample.from as f64 / 100.0;
    let to = sample.to as f64 / 100.0;
    from + (to - from) * progress
}

/// A fade-in that began twice its duration ago, and is over.
fn finished_fade(id: u64, duration: f64) -> PaintAnimation {
    let duration = (duration * SECOND as f64) as i64;
    PaintAnimation {
        kind: PaintAnimationKind::Opacity,
        key: id,
        segments: vec![PaintAnimationSegment {
            start: 0,
            end: duration,
            from: 0,
            to: 100,
            easing: 0,
        }],
        offset_from_display_list: -(duration * 2),
        complete: true,
    }
}

/// A fade-in that begins now.
fn running_fade(id: u64, duration: f64) -> PaintAnimation {
    PaintAnimation { offset_from_display_list: 0, ..finished_fade(id, duration) }
}

fn sample(animations: &mut PipelineAnimations) -> (Vec<Sample>, bool) {
    let mut floats = Vec::new();
    let mut transforms = Vec::new();
    let playing = animations.update_paint_animations(NOW, &mut floats, &mut transforms);
    (floats, playing)
}

#[test]
fn finished_animation_keeps_its_final_value() {
    let mut animations = PipelineAnimations::new();
    animations.install_paint_animations(vec![finished_fade(1, 0.5)], NOW);

    let (floats, playing) = sample(&mut animations);
    assert!(!playing, "an animation past its end is not playing");
    assert!(floats.is_empty(), "and it is no longer sampled");

    let mut floats = Vec::new();
    let mut transforms = Vec::new();
    let appended = animations.append_held_paint_values(&mut floats, &mut transforms);
    assert_eq!(appended, 1);
    assert_eq!(floats.len(), 1);
    assert_eq!(floats[0].key, 1);
    assert_eq!(
        value_of(&floats[0]),
        1.0,
        "the value it finished on, not the one it started from"
    );
}

#[test]
fn a_running_animation_wins_over_a_held_value() {
    let mut animations = PipelineAnimations::new();
    animations.install_paint_animations(vec![finished_fade(1, 0.5), finished_fade(2, 0.5)], NOW);
    sample(&mut animations);

    // Key 1 is animated right now, key 2 only held.
    let mut floats =
        vec![Sample { key: 1, from: 0, to: 100, easing: 0, num: 1, den: 4 }];
    let mut transforms = Vec::new();
    assert_eq!(animations.append_held_paint_values(&mut floats, &mut transforms), 1);
    assert_eq!(floats.len(), 2);
    assert_eq!(value_of(&floats[0]), 0.25, "the live value is left alone");
    assert_eq!(floats[1].key, 2);
}

#[test]
fn a_new_display_list_reclaims_only_the_keys_it_drives() {
    let mut animations = PipelineAnimations::new();
    animations.install_paint_animations(vec![finished_fade(1, 0.5), finished_fade(2, 0.5)], NOW);
    sample(&mut animations);

    animations.install_paint_animations(vec![running_fade(1, 10.0)], NOW);

    let mut floats = Vec::new();
    let mut transforms = Vec::new();
    animations.append_held_paint_values(&mut floats, &mut transforms);
    assert_eq!(floats.len(), 1, "key 1 is driven again; key 2 is still held");
    assert_eq!(floats[0].key, 2);
}

#[test]
fn holding_the_same_key_twice_replaces_it() {
    let mut animations = PipelineAnimations::new();
    for _ in 0..3 {
        animations.install_paint_animations(vec![finished_fade(1, 0.5)], NOW);
        sample(&mut animations);
    }

    let mut floats = Vec::new();
    let mut transforms = Vec::new();
    assert_eq!(animations.append_held_paint_values(&mut floats, &mut transforms), 1);
}

#[test]
fn a_running_animation_is_sampled_where_it_stands() {
    let mut animations = PipelineAnimations::new();
    let mut fade = running_fade(3, 4.0);
    fade.segments.push(PaintAnimationSegment {
        start: 4 * SECOND,
        end: 8 * SECOND,
        from: 100,
        to: 50,
        easing: 9,
    });
    animations.install_paint_animations(vec![fade], NOW);
    assert!(animations.has_paint_animations());
    let mut floats = Vec::new();
    let mut transforms = Vec::new();
    assert!(animations.update_paint_animations(NOW + SECOND as u64, &mut floats, &mut transforms));
    assert_eq!(value_of(&floats[0]), 0.25);
    floats.clear();
    let later = NOW + 6 * SECOND as u64;
    assert!(animations.update_paint_animations(later, &mut floats, &mut transforms));
    assert_eq!(floats[0].easing, 9);
    assert_eq!(value_of(&floats[0]), 0.75);
    floats.clear();
    // At its end it runs no more, and its last value is held.
    let end = NOW + 8 * SECOND as u64;
    assert!(!animations.update_paint_animations(end, &mut floats, &mut transforms));
    assert!(floats.is_empty());
    animations.append_held_paint_values(&mut floats, &mut transforms);
    assert_eq!(value_of(&floats[0]), 0.5);
    assert!(transforms.is_empty());
}

#[test]
fn transforms_are_held_apart_from_opacities() {
    let mut animations = PipelineAnimations::new();
    let slide = PaintAnimation { kind: PaintAnimationKind::Transform, ..finished_fade(1, 0.5) };
    animations.install_paint_animations(vec![slide, finished_fade(1, 0.5)], NOW);
    sample(&mut animations);
    let mut floats = Vec::new();
    let mut transforms = Vec::new();
    assert_eq!(animations.append_held_paint_values(&mut floats, &mut transforms), 2);
    assert_eq!((floats.len(), transforms.len()), (1, 1));
}

#[test]
fn the_oldest_held_value_makes_room() {
    let mut animations = PipelineAnimations::new();
    for key in 0..(MAX_HELD_PAINT_VALUES as u64 + 1) {
        animations.install_paint_animations(vec![finished_fade(key, 0.5)], NOW);
        sample(&mut animations);
    }
    let mut floats = Vec::new();
    animations.append_held_paint_values(&mut floats, &mut Vec::new());
    assert_eq!(floats.len(), MAX_HELD_PAINT_VALUES);
    assert_eq!(floats[0].key, 1);
}

#[test]
fn an_animation_without_segments_holds_nothing() {
    let mut animations = PipelineAnimations::new();
    let mut empty = finished_fade(1, 0.5);
    empty.segments.clear();
    animations.install_paint_animations(vec![empty], NOW);
    let (floats, playing) = sample(&mut animations);
    assert!(floats.is_empty() && !playing);
    assert_eq!(animations.append_held_paint_values(&mut Vec::new(), &mut Vec::new()), 0);
    assert!(!animations.has_paint_animations());
}

#[test]
fn a_caret_blinks_and_stays_visible_at_the_end() {
    let mut pipeline = PipelineAnimations::new();
    assert!(!pipeline.handle_new_display_list(Some((5, 77)), None));
    assert!(pipeline.handle_new_display_list(Some((5, 77)), Some(10_000)));
    let mut pipelines = vec![pipeline];
    let mut animator = WebContentAnimator::new();
    assert!(animator.schedule_timer_if_necessary(true));
    assert!(!animator.schedule_timer_if_necessary(true));
    // Nothing happens before the timer fires.
    let (colors, again) = animator.update(&mut pipelines, true);
    assert!(colors.is_none() && !again);
    let mut seen = Vec::new();
    for _ in 0..4 {
        animator.blink_timer_fired();
        let (colors, _) = animator.update(&mut pipelines, true);
        seen.push(colors.map(|list| list[0].color));
    }
    // Three blinks, the last of them visible, and then no more.
    assert_eq!(seen, vec![Some(Some(77)), Some(None), Some(Some(77)), None]);
    assert!(animator.caret_visible);
    assert!(!animator.timer_scheduled);
    assert!(!pipelines[0].handle_new_display_list(None, Some(500)));
    assert!(pipelines[0].caret.is_none());
}

#[test]
fn one_wake_is_queued_for_all_animations() {
    let mut animator = WebContentAnimator::new();
    assert!(animator.wake_for_paint_animation());
    assert!(!animator.wake_for_paint_animation());
    animator.paint_animation_woken();
    assert!(animator.wake_for_paint_animation());
    assert!(!WebContentAnimator::new().schedule_timer_if_necessary(false));
}

#[test]
fn a_full_list_keeps_its_order() {
    let keys = |animations: &PipelineAnimations| -> Vec<u64> {
        animations.held.floats.iter().map(|value| value.key).collect()
    };
    let limit = MAX_HELD_PAINT_VALUES as u64;
    let mut animations = PipelineAnimations::new();
    let list = (0..limit).map(|id| finished_fade(id, 0.5)).collect();
    animations.install_paint_animations(list, NOW);
    sample(&mut animations);
    assert_eq!(keys(&animations), (0..limit).collect::<Vec<_>>());
    // A new key goes to the end, where the list is full.
    animations.install_paint_animations(vec![finished_fade(limit, 0.5)], NOW);
    sample(&mut animations);
    assert_eq!(keys(&animations), (1..=limit).collect::<Vec<_>>());
    assert!(animations.held.transforms.is_empty());
}

#[test]
fn held_values_are_replaced_in_place_and_the_oldest_goes() {
    let value = |key: u64, to: u64| Sample { key, from: 0, to, easing: 0, num: 1, den: 1 };
    let mut held = HeldPaintValues { floats: Vec::new(), transforms: Vec::new() };
    for key in 0..MAX_HELD_PAINT_VALUES as u64 {
        held.hold_float(value(key, 1));
    }
    assert_eq!(held.floats.len(), MAX_HELD_PAINT_VALUES);
    held.hold_float(value(3, 2));
    assert_eq!(held.floats.len(), MAX_HELD_PAINT_VALUES);
    assert_eq!((held.floats[3], held.floats[4]), (value(3, 2), value(4, 1)));
    held.hold_float(value(9000, 5));
    assert_eq!(held.floats.len(), MAX_HELD_PAINT_VALUES);
    assert_eq!(held.floats[0], value(1, 1));
    assert_eq!(held.floats[MAX_HELD_PAINT_VALUES - 1], value(9000, 5));
    assert!(held.transforms.is_empty());
    held.hold_transform(value(3, 7));
    held.hold_transform(value(4, 7));
    held.hold_transform(value(3, 8));
    assert_eq!(held.transforms, vec![value(3, 8), value(4, 7)]);
}
