use osu_player::chart::{
    parse_colour, parse_hit_object, parse_key_value, parse_osu_text, parse_timing_point, Colours,
    Difficulty, General, Metadata,
};
use osu_player::hit_type::{HitObjectFlag, HitObjectShape};
use osu_player::text::Decimal;

fn chars(s: &str) -> Vec<char> {
    s.chars().collect()
}

#[test]
fn single_combo_colour_round_trip() {
    let osu = parse_osu_text("[Colours]\nCombo1: 10,20,30\n");
    assert_eq!(osu.colours.combos, vec![(10, 20, 30)]);
    assert!(osu.colours.others.is_empty());
}

#[test]
fn unknown_sections_and_keys_are_ignored() {
    let text = "osu file format v14\n\n[Mystery]\nTitle: not this one\n1,2,3\n[Metadata]\nTitle: Song\nUnknownKey: x\nArtist:Someone\n[Editor]\nBookmarks: 1,2\n";
    let osu = parse_osu_text(text);
    assert_eq!(osu.metadata.title, "Song");
    assert_eq!(osu.metadata.artist, "Someone");
    assert!(osu.hit_objects.is_empty());
    assert!(osu.timing_points.is_empty());
}

#[test]
fn malformed_numbers_take_defaults() {
    let text = "[Difficulty]\nCircleSize: big\nApproachRate: 9.5\nSliderTickRate: 1.2.3\nHPDrainRate:\n[General]\nMode: taiko\nAudioLeadIn: 250\n";
    let osu = parse_osu_text(text);
    assert_eq!(osu.difficulty.circle_size, Decimal { mantissa: 5, scale: 0 });
    assert_eq!(osu.difficulty.approach_rate, Decimal { mantissa: 95, scale: 1 });
    assert_eq!(osu.difficulty.slider_tick_rate, Decimal { mantissa: 1, scale: 0 });
    assert_eq!(osu.difficulty.hp_drain_rate, Decimal { mantissa: 5, scale: 0 });
    assert_eq!(osu.general.mode, 0);
    assert_eq!(osu.general.audio_lead_in, 250);
}

#[test]
fn absent_difficulty_uses_defaults() {
    let osu = parse_osu_text("");
    assert_eq!(osu.difficulty.circle_size, Decimal { mantissa: 5, scale: 0 });
    assert_eq!(osu.difficulty.overall_difficulty, Decimal { mantissa: 5, scale: 0 });
    assert_eq!(osu.difficulty.slider_multiplier, Decimal { mantissa: 1, scale: 0 });
    assert_eq!(osu.difficulty.slider_tick_rate, Decimal { mantissa: 1, scale: 0 });
}

#[test]
fn full_chart_sections() {
    let text = "\u{feff}osu file format v14\r\n\r\n[General]\r\nAudioFilename: audio.mp3\r\n// a comment\r\n[Difficulty]\r\nCircleSize:4\r\nSliderMultiplier:1.4\r\n\r\n[TimingPoints]\r\n1000,333.33,4,2,1,60,1,0\r\n2000,-100,4,2,1,60,0,1\r\n\r\n[Colours]\r\nCombo1 : 255,128,0\r\ncombo2: 1, 2, 3\r\nSliderBorder: 9,9,9\r\nBad: 1,2\r\n\r\n[HitObjects]\r\n256,192,1000,5,0,0:0:0:0:\r\n100,50,1500,2,2,B|200:50,1,100\r\n";
    let osu = parse_osu_text(text);
    assert_eq!(osu.general.audio_filename, "audio.mp3");
    assert_eq!(osu.difficulty.circle_size, Decimal { mantissa: 4, scale: 0 });
    assert_eq!(osu.difficulty.slider_multiplier, Decimal { mantissa: 14, scale: 1 });
    assert_eq!(osu.timing_points.len(), 2);
    assert_eq!(osu.timing_points[0].ms_per_beat, Decimal { mantissa: 33333, scale: 2 });
    assert!(osu.timing_points[0].uninherited);
    assert_eq!(osu.timing_points[1].ms_per_beat, Decimal { mantissa: -100, scale: 0 });
    assert!(!osu.timing_points[1].uninherited);
    assert_eq!(osu.timing_points[1].effects, 1);
    assert_eq!(osu.colours.combos, vec![(255, 128, 0), (1, 2, 3)]);
    assert_eq!(osu.colours.named("SliderBorder"), Some((9, 9, 9)));
    assert_eq!(osu.colours.named("Bad"), None);
    assert_eq!(osu.hit_objects.len(), 2);
    let h = &osu.hit_objects[0];
    assert_eq!((h.x, h.y, h.time), (256, 192, 1000));
    assert!(h.obj_type.contains(HitObjectFlag::NewCombo));
    assert_eq!(h.shape, HitObjectShape::Circle);
    assert_eq!(h.extras, "0:0:0:0:");
    let s = &osu.hit_objects[1];
    assert_eq!(s.shape, HitObjectShape::Slider);
    assert_eq!(s.hit_sound, 2);
    assert_eq!(s.extras, "B|200:50,1,100");
}

#[test]
fn hit_object_missing_fields_default() {
    let h = parse_hit_object(&chars("12,x"));
    assert_eq!((h.x, h.y, h.time, h.hit_sound), (12, 0, 0, 0));
    assert_eq!(h.obj_type.bits(), 0);
    assert_eq!(h.shape, HitObjectShape::Unknown);
    assert_eq!(h.extras, "");
}

#[test]
fn hit_object_spinner_and_unknown_bits() {
    let h = parse_hit_object(&chars("256,192,3000,92,0,4000"));
    assert_eq!(h.obj_type.bits(), 12);
    assert_eq!(h.shape, HitObjectShape::Spinner);
    assert_eq!(h.extras, "4000");
}

#[test]
fn timing_point_defaults() {
    let t = parse_timing_point(&chars("500"));
    assert_eq!(t.offset, Decimal { mantissa: 500, scale: 0 });
    assert_eq!(t.ms_per_beat, Decimal { mantissa: 0, scale: 0 });
    assert_eq!(t.meter, 4);
    assert_eq!(t.volume, 100);
    assert!(t.uninherited);
    assert_eq!(t.effects, 0);
}

#[test]
fn key_value_lines() {
    let mut g = General::default();
    parse_key_value(&chars("AudioFilename:  song name.ogg  "), &mut g);
    assert_eq!(g.audio_filename, "song name.ogg");
    parse_key_value(&chars("no separator here"), &mut g);
    assert_eq!(g.audio_filename, "song name.ogg");
    let mut m = Metadata::default();
    parse_key_value(&chars("Title: A: B"), &mut m);
    assert_eq!(m.title, "A: B");
    let mut d = Difficulty::default();
    parse_key_value(&chars("OverallDifficulty: +7.25"), &mut d);
    assert_eq!(d.overall_difficulty, Decimal { mantissa: 725, scale: 2 });
}

#[test]
fn colour_lines() {
    let mut c = Colours::default();
    parse_colour(&chars("COMBO3: 1,2,3"), &mut c);
    parse_colour(&chars("Combo4: 1,2,256"), &mut c);
    parse_colour(&chars("Combo5: 1,2,3,4"), &mut c);
    parse_colour(&chars("Edge: 4,5,6"), &mut c);
    parse_colour(&chars("Edge: 7,8,9"), &mut c);
    parse_colour(&chars("Cmb: -1,2,3"), &mut c);
    assert_eq!(c.combos, vec![(1, 2, 3)]);
    assert_eq!(c.others.len(), 1);
    assert_eq!(c.named("Edge"), Some((7, 8, 9)));
}
