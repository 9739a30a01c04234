use osu_player::audio::{AudioPlayer, PlayerState};

#[test]
fn pause_only_from_playing() {
    let mut p = AudioPlayer::new();
    p.pause();
    assert_eq!(p.state, PlayerState::Loading);
    p.mark_loaded();
    p.pause();
    assert_eq!(p.state, PlayerState::Stopped);
    p.play(100);
    p.pause();
    assert_eq!(p.state, PlayerState::Paused);
    p.pause();
    assert_eq!(p.state, PlayerState::Paused);
}

#[test]
fn clock_is_zero_unless_playing() {
    let mut p = AudioPlayer::new();
    assert_eq!(p.get_time_ms(5000), 0);
    p.mark_loaded();
    assert_eq!(p.get_time_ms(5000), 0);
    p.play(1000);
    assert_eq!(p.get_time_ms(1250), 250);
    p.play(1200);
    assert_eq!(p.get_time_ms(1250), 250);
    p.pause();
    assert_eq!(p.get_time_ms(1300), 0);
    p.stop();
    assert_eq!(p.get_time_ms(1300), 0);
    assert!(!p.is_playing());
    assert!(p.is_loaded());
}

#[test]
fn start_twice_opens_one_stream() {
    let mut p = AudioPlayer::new();
    let opens = [p.start(), p.start()].iter().filter(|b| **b).count();
    assert_eq!(opens, 1);
}

#[test]
fn output_callback_copies_then_stops() {
    let mut p = AudioPlayer::new();
    let plan = p.fill(10, 4);
    assert_eq!(plan.count, 0);
    assert_eq!(p.index, 0);
    p.mark_loaded();
    p.play(0);
    let plan = p.fill(10, 4);
    assert_eq!((plan.first, plan.count), (0, 4));
    let plan = p.fill(10, 8);
    assert_eq!((plan.first, plan.count), (4, 6));
    assert_eq!(p.index, 10);
    assert_eq!(p.state, PlayerState::Stopped);
    p.stop();
    assert_eq!(p.index, 0);
    assert_eq!(p.start_time, None);
}

#[test]
fn decode_failure_is_visible() {
    let mut p = AudioPlayer::new();
    p.mark_failed();
    assert!(p.has_failed());
    assert!(!p.is_loaded());
}
