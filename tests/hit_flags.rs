use osu_player::hit_type::{classify, HitObjectFlag, HitObjectShape, HitObjectType};

#[test]
fn five_is_circle_and_new_combo() {
    let t = HitObjectType::from_bits_truncate(5);
    assert!(t.contains(HitObjectFlag::Circle));
    assert!(t.contains(HitObjectFlag::NewCombo));
    assert!(!t.contains(HitObjectFlag::Slider));
    assert!(!t.contains(HitObjectFlag::Spinner));
}

#[test]
fn ten_is_slider_and_spinner() {
    let t = HitObjectType::from_bits_truncate(10);
    assert!(t.contains(HitObjectFlag::Slider));
    assert!(t.contains(HitObjectFlag::Spinner));
    assert!(!t.contains(HitObjectFlag::Circle));
    assert!(!t.contains(HitObjectFlag::NewCombo));
    assert_eq!(classify(t), HitObjectShape::Slider);
}

#[test]
fn unknown_bits_are_dropped() {
    assert_eq!(HitObjectType::from_bits_truncate(0xf0).bits(), 0);
    assert_eq!(HitObjectType::from_bits_truncate(0x16).bits(), 6);
    assert_eq!(classify(HitObjectType::from_bits_truncate(4)), HitObjectShape::Unknown);
    assert_eq!(HitObjectFlag::Spinner.bit(), 8);
}
