use sx3d::{grayscale_lut, shade_level_to_char, SHADE_STEPS};

#[test]
fn shades_are_clamped() {
    assert_eq!(shade_level_to_char(-120), '.');
    assert_eq!(shade_level_to_char(120), '@');
}

#[test]
fn shade_zero_and_one_boundaries() {
    assert_eq!(shade_level_to_char(0), '.');
    assert_eq!(shade_level_to_char(SHADE_STEPS), '@');
}

#[test]
fn shade_levels_follow_the_palette() {
    let lut = grayscale_lut();
    assert_eq!(lut.len(), 13);
    for (i, c) in lut.iter().enumerate() {
        assert_eq!(shade_level_to_char(i as i64), *c);
    }
    assert_eq!(shade_level_to_char(6), 'c');
    assert_eq!(shade_level_to_char(i64::MIN), '.');
    assert_eq!(shade_level_to_char(i64::MAX), '@');
}

#[test]
fn shade_levels_are_monotonic() {
    let lut = grayscale_lut();
    let position = |c: char| lut.iter().position(|g| *g == c).unwrap();
    let mut previous = 0;
    for level in -3..16 {
        let p = position(shade_level_to_char(level));
        assert!(p >= previous);
        previous = p;
    }
}
