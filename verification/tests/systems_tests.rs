use game_gem::animation::{AnimationState, Playback};
use game_gem::audio::{AudioChannel, Voice, Voices};
use game_gem::collision::{ids_in_cells, pairs_in_cells};
use game_gem::engine::RunState;
use game_gem::time::SampleRing;
use game_gem::particles::{emit_count, BurstState};
use game_gem::scene::{Applied, PendingOp, SceneHooks, SceneStack, TransitionPhase};
use game_gem::tween::{PassEnd, TweenCycle, TweenStatus};
use game_gem::ui::{toggle_on_click, KeyModifiers, UiInteraction, WidgetFocus};

fn playing() -> Playback {
    let mut p = Playback::new();
    p.restart();
    p
}

#[test]
fn playback_plain_loop() {
    let mut p = playing();
    let mut seen = vec![];
    for _ in 0..5 {
        p.advance(3, true, false);
        seen.push(p.frame_index);
    }
    assert_eq!(seen, vec![1, 2, 0, 1, 2]);
    assert_eq!(p.state, AnimationState::Playing);
}

#[test]
fn playback_plain_once_finishes_on_last_frame() {
    let mut p = playing();
    p.advance(2, false, false);
    assert_eq!((p.frame_index, p.state), (1, AnimationState::Playing));
    p.advance(2, false, false);
    assert_eq!((p.frame_index, p.state), (1, AnimationState::Finished));
}

#[test]
fn playback_ping_pong() {
    let mut p = playing();
    let mut seen = vec![];
    for _ in 0..6 {
        p.advance(3, true, true);
        seen.push((p.frame_index, p.forward));
    }
    assert_eq!(seen, vec![(1, true), (2, true), (1, false), (0, false), (1, true), (2, true)]);
    let mut q = playing();
    q.advance(2, false, true);
    q.advance(2, false, true);
    q.advance(2, false, true);
    assert_eq!(q.state, AnimationState::Finished);
    assert_eq!(q.frame_index, 0);
}

#[test]
fn playback_pause_resume_stop() {
    let mut p = playing();
    p.advance(4, true, false);
    p.pause();
    assert_eq!(p.state, AnimationState::Paused);
    p.pause();
    assert_eq!(p.state, AnimationState::Paused);
    p.resume();
    assert_eq!(p.state, AnimationState::Playing);
    p.stop();
    assert_eq!((p.frame_index, p.state), (0, AnimationState::Finished));
    p.resume();
    assert_eq!(p.state, AnimationState::Finished);
}

#[test]
fn tween_cycle_plain_loops() {
    let mut c = TweenCycle::new();
    c.loops = 3;
    assert_eq!(c.end_pass(), PassEnd::Repeated);
    assert_eq!(c.end_pass(), PassEnd::Repeated);
    assert_eq!(c.end_pass(), PassEnd::Completed);
    assert_eq!(c.status, TweenStatus::Completed);
    assert!(c.is_done());
    c.restart(true);
    assert_eq!(c.status, TweenStatus::Delayed);
    assert_eq!(c.loops_done, 0);
    c.delay_over();
    assert_eq!(c.status, TweenStatus::Running);
}

#[test]
fn tween_cycle_ping_pong() {
    let mut c = TweenCycle::new();
    c.ping_pong = true;
    c.loops = 2;
    assert_eq!(c.end_pass(), PassEnd::Turned);
    assert!(!c.forward);
    assert_eq!(c.end_pass(), PassEnd::Repeated);
    assert!(c.forward);
    assert_eq!(c.end_pass(), PassEnd::Turned);
    assert_eq!(c.end_pass(), PassEnd::Completed);
    assert_eq!(c.loops_done, 2);
    // It completes on the way back, at its start value.
    assert!(!c.forward);
}

#[test]
fn tween_cycle_zero_loops_and_stop() {
    let mut c = TweenCycle::new();
    c.loops = 0;
    assert_eq!(c.end_pass(), PassEnd::Completed);
    let mut d = TweenCycle::new();
    d.stop();
    assert_eq!(d.status, TweenStatus::Stopped);
    assert!(d.is_done());
    d.reverse();
    assert!(!d.forward);
}

#[test]
fn spatial_pairs_dedup() {
    let cells = vec![vec![3, 1, 2], vec![2, 1], vec![5]];
    assert_eq!(pairs_in_cells(&cells), vec![(1, 3), (2, 3), (1, 2)]);
    assert_eq!(pairs_in_cells(&vec![]), vec![]);
    // The same id twice in a cell is no pair.
    assert_eq!(pairs_in_cells(&vec![vec![4, 4]]), vec![]);
    assert_eq!(pairs_in_cells(&vec![vec![4, 2, 4]]), vec![(2, 4)]);
}

#[test]
fn spatial_ids_dedup() {
    let cells = vec![vec![3, 1], vec![1, 7, 3], vec![]];
    assert_eq!(ids_in_cells(&cells), vec![3, 1, 7]);
}

#[test]
fn button_click_needs_press_and_release() {
    let mut w = WidgetFocus::new();
    let r = w.button(7, true, true, false);
    assert!(r.pressed && !r.clicked && r.hovered);
    assert!(w.is_active(7));
    assert!(w.is_hovered(7));
    w.begin_frame();
    assert!(!w.is_hovered(7));
    assert!(w.is_active(7));
    let r = w.button(7, true, false, true);
    assert_eq!(r, UiInteraction { clicked: true, pressed: true, released: true, hovered: true, focused: false });
    assert!(!w.is_active(7));
    let r = w.button(7, true, false, true);
    assert!(!r.clicked && !r.released);
}

#[test]
fn button_release_off_widget() {
    let mut w = WidgetFocus::new();
    w.button(1, true, true, false);
    let r = w.button(1, false, false, true);
    assert!(!r.clicked);
    assert!(r.released);
    let mut checked = false;
    toggle_on_click(&mut checked, r);
    assert!(!checked);
    toggle_on_click(&mut checked, UiInteraction { clicked: true, pressed: false, released: true, hovered: true, focused: false });
    assert!(checked);
}

#[test]
fn slider_tracks_until_release() {
    let mut w = WidgetFocus::new();
    let (i, track) = w.slider(9, true, true, false);
    assert!(!i.pressed);
    assert!(track);
    let (i, track) = w.slider(9, false, false, false);
    assert!(i.pressed && track);
    let (_, track) = w.slider(9, false, false, true);
    assert!(!track);
    assert!(!w.is_active(9));
}

#[test]
fn text_field_focus() {
    let mut w = WidgetFocus::new();
    let (i, clicked) = w.text_input(3, true, true);
    assert!(clicked && i.focused);
    assert!(w.is_focused(3));
    let (i, clicked) = w.text_input(4, false, true);
    assert!(!clicked && !i.focused);
    assert!(w.is_focused(3));
    assert_eq!(KeyModifiers::default(), KeyModifiers { shift: false, ctrl: false, alt: false, super_key: false });
}

#[test]
fn scene_stack_push_pop_replace() {
    let h = |pause: Option<usize>, enter: Option<usize>, resume: Option<usize>| SceneHooks { pause, enter, resume };
    let mut s: SceneStack<&str> = SceneStack::new();
    assert!(s.is_empty());
    assert_eq!(s.push("menu"), h(None, Some(0), None));
    assert_eq!(s.push("game"), h(Some(0), Some(1), None));
    assert_eq!(s.depth(), 2);
    assert_eq!(s.top(), Some(&"game"));
    match s.replace("pause") {
        (Applied::Now(old), hooks) => {
            assert_eq!(old, Some("game"));
            assert_eq!(hooks, h(None, Some(1), None));
        }
        (Applied::Queued, _) => panic!("queued"),
    }
    assert_eq!(s.scenes(), &["menu", "pause"]);
    match s.pop() {
        (Applied::Now(p), hooks) => {
            assert_eq!(p, Some("pause"));
            assert_eq!(hooks, h(None, None, Some(0)));
        }
        (Applied::Queued, _) => panic!("queued"),
    }
    match s.pop() {
        (Applied::Now(p), hooks) => {
            assert_eq!(p, Some("menu"));
            assert_eq!(hooks, h(None, None, None));
        }
        (Applied::Queued, _) => panic!("queued"),
    }
    match s.pop() {
        (Applied::Now(p), _) => assert_eq!(p, None),
        (Applied::Queued, _) => panic!("queued"),
    }
    assert!(s.is_empty());
}

#[test]
fn scene_stack_transition_queue() {
    let none = SceneHooks { pause: None, enter: None, resume: None };
    let mut s: SceneStack<u32> = SceneStack::new();
    s.push(1);
    s.push_with_transition(2);
    assert_eq!(s.phase(), TransitionPhase::Out);
    assert!(s.in_transition());
    assert_eq!(s.push(3), none);
    assert!(matches!(s.pop(), (Applied::Queued, h) if h == none));
    assert_eq!(s.depth(), 1);
    match s.run_next_pending() {
        Some((PendingOp::Pushed, hooks)) => {
            assert_eq!(hooks, SceneHooks { pause: Some(0), enter: Some(1), resume: None })
        }
        _ => panic!("expected push"),
    }
    assert_eq!(s.scenes(), &[1, 3]);
    match s.run_next_pending() {
        Some((PendingOp::Popped(p), hooks)) => {
            assert_eq!(p, Some(3));
            assert_eq!(hooks, SceneHooks { pause: None, enter: None, resume: Some(0) });
        }
        _ => panic!("expected pop"),
    }
    assert!(s.run_next_pending().is_none());
    s.advance_phase();
    assert_eq!(s.phase(), TransitionPhase::In);
    s.advance_phase();
    assert_eq!(s.phase(), TransitionPhase::Idle);
    *s.scene_mut(0) = 10;
    assert_eq!(s.scenes(), &[10]);
}

fn voice(name: &str, channel: AudioChannel) -> Voice<f32> {
    Voice { sound_name: name.to_string(), channel, alive: true, mix: 1.0 }
}

#[test]
fn voices_stop_and_count() {
    let mut v: Voices<f32> = Voices::new();
    v.add(voice("jump", AudioChannel::Sfx));
    v.add(voice("bgm", AudioChannel::Music));
    v.add(voice("jump", AudioChannel::Sfx));
    assert_eq!(v.playing_count(), 3);
    assert!(v.is_playing("jump"));
    v.stop("jump");
    assert!(!v.is_playing("jump"));
    assert!(v.is_playing("bgm"));
    assert_eq!(v.playing_count(), 1);
    assert_eq!(v.len(), 3);
    v.remove_dead();
    assert_eq!(v.len(), 1);
    assert_eq!(v.playing_count(), 1);
    v.stop_channel(AudioChannel::Music);
    assert!(!v.is_playing("bgm"));
    v.add(voice("ui", AudioChannel::Ui));
    v.voice_mut(1).mix = 0.5;
    v.stop_all();
    assert_eq!(v.playing_count(), 0);
    v.remove_dead();
    assert_eq!(v.len(), 0);
}

#[test]
fn particle_emission_caps() {
    assert_eq!(emit_count(5, 0, 3, true), 3);
    assert_eq!(emit_count(5, 3, 3, true), 0);
    assert_eq!(emit_count(5, 1, 3, false), 5);
    assert_eq!(emit_count(2, 0, 10, true), 2);
    let mut b = BurstState { burst: 10, burst_emitted: 0, active: true, looping: false };
    assert_eq!(b.frame(0, 4, true), 4);
    assert_eq!(b.burst_emitted, 4);
    assert!(!b.active);
    let mut l = BurstState { burst: 3, burst_emitted: 3, active: true, looping: true };
    assert_eq!(l.frame(2, 100, true), 0);
    assert_eq!(l.burst_emitted, 3);
    assert_eq!(l.frame(0, 100, true), 0);
    assert_eq!(l.burst_emitted, 0);
    assert_eq!(l.frame(0, 100, true), 3);
    assert!(l.active);
    l.reset();
    assert_eq!(l.burst_emitted, 0);
}

#[test]
fn run_state_flags() {
    let mut r = RunState::new();
    assert!(r.runs_update());
    r.pause();
    assert!(r.is_paused() && !r.runs_update());
    r.toggle_pause();
    assert!(!r.is_paused());
    r.toggle_pause();
    r.resume();
    assert!(!r.is_paused());
    assert!(!r.is_quitting());
    r.quit();
    assert!(r.is_quitting());
}

#[test]
fn sample_ring_fills_in_order() {
    let mut r = SampleRing::new(0u32, 4);
    assert_eq!(r.count(), 0);
    assert!(r.window().is_empty());
    r.record(7);
    r.record(8);
    assert_eq!(r.count(), 2);
    assert_eq!(r.window(), &[7, 8]);
}

#[test]
fn sample_ring_keeps_latest_after_wrapping() {
    let mut r = SampleRing::new(0u32, 3);
    for v in 1..=3 {
        r.record(v);
    }
    assert_eq!(r.count(), 3);
    assert_eq!(r.window(), &[1, 2, 3]);
    r.record(4);
    r.record(5);
    assert_eq!(r.count(), 3);
    // Slot i mod 3 holds the i-th sample (counting from 0) of the latest three.
    assert_eq!(r.window(), &[4, 5, 3]);
}

#[test]
fn playback_begin_update() {
    let mut p = playing();
    assert!(p.begin_update(3));
    assert_eq!(p.state, AnimationState::Playing);
    assert!(!p.begin_update(0));
    assert_eq!(p.state, AnimationState::Finished);
    let mut q = playing();
    q.pause();
    assert!(!q.begin_update(0));
    assert_eq!(q.state, AnimationState::Paused);
}

#[test]
fn playback_frame_done_reports_shown_frame() {
    let mut p = playing();
    assert_eq!(p.frame_done(3, true, false), Some(1));
    assert_eq!(p.frame_done(3, true, false), Some(2));
    assert_eq!(p.frame_done(3, true, false), Some(0));
    let mut once = playing();
    assert_eq!(once.frame_done(2, false, false), Some(1));
    assert_eq!(once.frame_done(2, false, false), None);
    assert_eq!(once.state, AnimationState::Finished);
}

#[test]
fn one_frame_looping_ping_pong_stays_on_its_frame() {
    let mut p = playing();
    for _ in 0..5 {
        assert_eq!(p.frame_done(1, true, true), Some(0));
        assert_eq!(p.frame_index, 0);
    }
}

#[test]
fn emission_never_passes_cap() {
    for alive in 0..=6usize {
        for requested in 0..=8u32 {
            let n = emit_count(requested, alive, 6, true);
            assert!(alive + n as usize <= 6);
        }
    }
}
