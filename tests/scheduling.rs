use osu_player::chart::{parse_osu_text, Colours};
use osu_player::scheduler::{entry_colour, Scheduler};

fn chart() -> osu_player::chart::OsuFile {
    parse_osu_text("[Colours]\nCombo1: 1,1,1\nCombo2: 2,2,2\n[HitObjects]\n10,20,1000,1,0\n30,40,1000,5,0\n50,60,2000,1,0\n")
}

#[test]
fn window_follows_clock() {
    let osu = chart();
    let n = osu.colours.combos.len();
    let mut s = Scheduler::new();
    assert!(!s.advance(400, 500, 100, &osu.hit_objects, n));
    assert!(s.visible().is_empty());
    assert!(!s.advance(600, 500, 100, &osu.hit_objects, n));
    assert_eq!(s.visible(), vec![(1, 1), (0, 0)]);
    assert_eq!(entry_colour(&osu.hit_objects[0], 0, &osu.colours, 600), (1, 1, 1));
    assert_eq!(entry_colour(&osu.hit_objects[1], 1, &osu.colours, 600), (2, 2, 2));
    assert!(!s.advance(1101, 500, 100, &osu.hit_objects, n));
    assert!(s.visible().is_empty());
    assert_eq!(s.next_index, 2);
    assert!(s.advance(2600, 500, 100, &osu.hit_objects, n));
    assert!(s.visible().is_empty());
    assert_eq!(s.next_index, 3);
}

#[test]
fn entries_turn_white_at_their_time() {
    let osu = chart();
    assert_eq!(entry_colour(&osu.hit_objects[1], 1, &osu.colours, 1000), (255, 255, 255));
    let empty = Colours::default();
    assert_eq!(entry_colour(&osu.hit_objects[1], 0, &empty, 0), (255, 255, 255));
}

#[test]
fn combo_wraps_without_palette() {
    let osu = parse_osu_text("[HitObjects]\n0,0,0,5,0\n0,0,0,5,0\n");
    let mut s = Scheduler::new();
    assert!(!s.advance(0, 0, 100, &osu.hit_objects, 0));
    assert_eq!(s.visible(), vec![(1, 0), (0, 0)]);
    assert_eq!(s.combo_index, 0);
}

#[test]
fn empty_chart_finishes_at_once() {
    let osu = parse_osu_text("");
    let mut s = Scheduler::new();
    assert!(s.advance(0, 500, 100, &osu.hit_objects, 0));
}
