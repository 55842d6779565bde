use relay_middleware::config::{BuiltinBackendConfig, BuiltinDetector, PolicySetting};
use relay_middleware::digest::{hex_sha256, write_hex};
use relay_middleware::mask::{
    build_mask_strategy, mask_text, mask_with_strategy, BuiltinMaskStrategy, DetectorMasks,
};

struct FirstOnly;

impl DetectorMasks for FirstOnly {
    fn default_mask(&self, detector: &BuiltinDetector, text: &str, mask_char: &str) -> String {
        format!("{}:{}:{}", detector.kind, &text[..1], mask_char)
    }
}

fn config(mask_char: Option<&str>, prefix: Option<usize>, suffix: Option<usize>) -> BuiltinBackendConfig {
    BuiltinBackendConfig {
        preset: None,
        custom_mark_payload_policy: PolicySetting { name: "preserve".to_string(), policy: None },
        detector: None,
        pattern: None,
        action: "mask".to_string(),
        target_paths: Vec::new(),
        replacement: None,
        mask_char: mask_char.map(|mask| mask.to_string()),
        unmasked_prefix: prefix,
        unmasked_suffix: suffix,
    }
}

fn detector() -> BuiltinDetector {
    BuiltinDetector { kind: 7, pattern: "[0-9]+".to_string() }
}

#[test]
fn digests_are_written_in_hex() {
    assert_eq!(
        hex_sha256("abc"),
        "ba7816bf8f01cfea414140de5dae2223b00361a396177a9cb410ff61f20015ad"
    );
    assert_eq!(
        hex_sha256(""),
        "e3b0c44298fc1c149afbf4c8996fb92427ae41e4649b934ca495991b7852b855"
    );
    assert_eq!(hex_sha256("é").len(), 64);
}

#[test]
fn bytes_are_written_as_two_digits() {
    assert_eq!(write_hex(&[0, 9, 10, 255]), "00090aff");
    assert_eq!(write_hex(&[]), "");
}

#[test]
fn the_ends_stay_readable() {
    assert_eq!(mask_text("secret", "*", 1, 2), "s***et");
    assert_eq!(mask_text("secret", "*", 0, 0), "******");
    assert_eq!(mask_text("secret", "XY", 2, 2), "seXYXYet");
    assert_eq!(mask_text("naïveté", "#", 2, 1), "na####é");
}

#[test]
fn a_text_without_a_middle_is_kept() {
    assert_eq!(mask_text("abc", "*", 2, 1), "abc");
    assert_eq!(mask_text("abc", "*", 2, 2), "abc");
    assert_eq!(mask_text("abc", "*", usize::MAX, usize::MAX), "abc");
    assert_eq!(mask_text("", "*", 0, 0), "");
}

#[test]
fn one_mask_character_keeps_the_length() {
    for (prefix, suffix) in [(0, 0), (1, 0), (0, 3), (2, 2), (9, 9)] {
        let masked = mask_text("grüße an", "*", prefix, suffix);
        assert_eq!(masked.chars().count(), 8);
    }
}

#[test]
fn the_mask_hides_the_middle() {
    assert_eq!(mask_text("a12b", "*", 1, 1), mask_text("a99b", "*", 1, 1));
}

#[test]
fn a_detector_masks_by_default() {
    match build_mask_strategy(&config(None, None, None), Some(detector())) {
        BuiltinMaskStrategy::DetectorDefault { detector, mask_char } => {
            assert_eq!(detector.kind, 7);
            assert_eq!(mask_char, "*");
        }
        other => panic!("{:?}", other),
    }
}

#[test]
fn counts_take_the_place_of_the_detector() {
    match build_mask_strategy(&config(Some("#"), None, Some(2)), Some(detector())) {
        BuiltinMaskStrategy::Generic { mask_char, unmasked_prefix, unmasked_suffix } => {
            assert_eq!(mask_char, "#");
            assert_eq!((unmasked_prefix, unmasked_suffix), (0, 2));
        }
        other => panic!("{:?}", other),
    }
    assert!(matches!(
        build_mask_strategy(&config(None, None, None), None),
        BuiltinMaskStrategy::Generic { unmasked_prefix: 0, unmasked_suffix: 0, .. }
    ));
}

#[test]
fn a_strategy_masks_a_text() {
    let generic = build_mask_strategy(&config(Some("#"), Some(1), None), None);
    assert_eq!(mask_with_strategy("1234", &generic, &FirstOnly), "1###");
    let default = build_mask_strategy(&config(Some("#"), None, None), Some(detector()));
    assert_eq!(mask_with_strategy("1234", &default, &FirstOnly), "7:1:#");
}
