use relay_middleware::backend::{BuiltinAction, CompiledBuiltinBackend};
use relay_middleware::config::{
    BuiltinBackendConfig, BuiltinDetector, CodecSetting, CustomMarkPayloadPolicy, PluginError,
    PolicySetting, ProviderSurface,
};

fn config(action: &str) -> BuiltinBackendConfig {
    BuiltinBackendConfig {
        preset: None,
        custom_mark_payload_policy: PolicySetting {
            name: "preserve".to_string(),
            policy: Some(CustomMarkPayloadPolicy { kind: 0 }),
        },
        detector: None,
        pattern: None,
        action: action.to_string(),
        target_paths: Vec::new(),
        replacement: None,
        mask_char: None,
        unmasked_prefix: None,
        unmasked_suffix: None,
    }
}

fn detector() -> BuiltinDetector {
    BuiltinDetector { kind: 1, pattern: "[0-9]+".to_string() }
}

fn refused(config: BuiltinBackendConfig, codec: Option<CodecSetting>) -> String {
    match CompiledBuiltinBackend::new(config, codec) {
        Err(PluginError::InvalidConfig(message)) => message,
        other => panic!("{:?}", other),
    }
}

fn backend(config: BuiltinBackendConfig) -> CompiledBuiltinBackend {
    CompiledBuiltinBackend::new(config, None).unwrap()
}

#[test]
fn each_action_has_its_name() {
    assert!(matches!(backend(config("remove")).action, BuiltinAction::Remove));
    assert!(matches!(backend(config("hash")).action, BuiltinAction::Hash { matcher: None }));
    assert!(matches!(backend(config("mask")).action, BuiltinAction::Mask { matcher: None, .. }));
    let mut redact = config("redact");
    redact.pattern = Some("a+".to_string());
    match backend(redact).action {
        BuiltinAction::Redact { matcher, replacement } => {
            assert_eq!(matcher.as_str(), "a+");
            assert_eq!(replacement, "[REDACTED]");
        }
        other => panic!("{:?}", other),
    }
    let mut replace = config("regex_replace");
    replace.detector = Some(Ok(detector()));
    replace.replacement = Some("#".to_string());
    match backend(replace).action {
        BuiltinAction::RegexReplace { pattern, replacement } => {
            assert_eq!(pattern.as_str(), "[0-9]+");
            assert_eq!(replacement, "#");
        }
        other => panic!("{:?}", other),
    }
}

#[test]
fn an_unknown_action_is_refused() {
    assert_eq!(refused(config("encrypt"), None), "unsupported builtin.action 'encrypt'");
}

#[test]
fn replacing_needs_a_matcher() {
    let message = "builtin.pattern or builtin.detector is required when builtin.action = 'regex_replace' or 'redact'";
    assert_eq!(refused(config("redact"), None), message);
    assert_eq!(refused(config("regex_replace"), None), message);
}

#[test]
fn pattern_and_detector_exclude_each_other() {
    let mut both = config("hash");
    both.pattern = Some("a".to_string());
    both.detector = Some(Ok(detector()));
    assert_eq!(refused(both, None), "builtin.pattern and builtin.detector cannot both be set");
}

#[test]
fn an_invalid_pattern_is_refused_with_its_reason() {
    let mut invalid = config("hash");
    invalid.pattern = Some("(".to_string());
    let reason = regex::Regex::new("(").unwrap_err().to_string();
    assert_eq!(refused(invalid, None), format!("invalid builtin matcher regex '(': {}", reason));
}

#[test]
fn an_unknown_detector_is_refused() {
    let mut unknown = config("hash");
    unknown.detector = Some(Err(PluginError::InvalidConfig("no detector 'x'".to_string())));
    assert_eq!(refused(unknown, None), "no detector 'x'");
    let mut broken = config("hash");
    broken.detector = Some(Err(PluginError::Internal("lost".to_string())));
    match CompiledBuiltinBackend::new(broken, None) {
        Err(PluginError::Internal(message)) => assert_eq!(message, "lost"),
        other => panic!("{:?}", other),
    }
}

#[test]
fn the_preset_brings_the_trajectory_sanitizer() {
    let mut preset = config("remove");
    preset.preset = Some("trajectory_context".to_string());
    let trajectory = backend(preset).trajectory.unwrap();
    assert_eq!(trajectory.replacement, "[REDACTED]");
    assert_eq!(trajectory.policy, CustomMarkPayloadPolicy { kind: 0 });
    let mut named = config("remove");
    named.preset = Some("trajectory_context".to_string());
    named.replacement = Some("-".to_string());
    assert_eq!(backend(named).trajectory.unwrap().replacement, "-");
    assert!(backend(config("remove")).trajectory.is_none());
}

#[test]
fn the_preset_stands_alone() {
    let message = "builtin.preset cannot be combined with matcher, target-path, or mask fields";
    let change: [fn(&mut BuiltinBackendConfig); 6] = [
        |config| config.detector = Some(Ok(detector())),
        |config| config.pattern = Some("a".to_string()),
        |config| config.target_paths = vec!["/a".to_string()],
        |config| config.mask_char = Some("#".to_string()),
        |config| config.unmasked_prefix = Some(1),
        |config| config.unmasked_suffix = Some(1),
    ];
    for set in change {
        let mut preset = config("hash");
        preset.preset = Some("trajectory_context".to_string());
        set(&mut preset);
        assert_eq!(refused(preset, None), message);
    }
}

#[test]
fn an_unknown_preset_is_refused() {
    let mut preset = config("remove");
    preset.preset = Some("other".to_string());
    assert_eq!(refused(preset, None), "unsupported builtin preset 'other'");
}

#[test]
fn an_unknown_policy_is_refused() {
    let mut preset = config("remove");
    preset.preset = Some("trajectory_context".to_string());
    preset.custom_mark_payload_policy = PolicySetting { name: "drop".to_string(), policy: None };
    assert_eq!(refused(preset, None), "unsupported custom-mark payload policy 'drop'");
}

#[test]
fn a_policy_needs_the_preset() {
    let mut policy = config("remove");
    policy.custom_mark_payload_policy.name = "drop".to_string();
    assert_eq!(
        refused(policy, None),
        "builtin.custom_mark_payload_policy requires builtin.preset = 'trajectory_context'"
    );
}

#[test]
fn a_codec_must_be_known() {
    let known = CodecSetting { name: "chat".to_string(), surface: Some(ProviderSurface { kind: 2 }) };
    let backend = CompiledBuiltinBackend::new(config("remove"), Some(known)).unwrap();
    assert_eq!(backend.legacy_surface, Some(ProviderSurface { kind: 2 }));
    let unknown = CodecSetting { name: "carrier pigeon".to_string(), surface: None };
    assert_eq!(refused(config("remove"), Some(unknown)), "unsupported codec 'carrier pigeon'");
}

#[test]
fn the_first_mistake_is_told() {
    let mut several = config("encrypt");
    several.pattern = Some("(".to_string());
    several.preset = Some("other".to_string());
    let unknown = CodecSetting { name: "x".to_string(), surface: None };
    assert_eq!(refused(several, Some(unknown)), "unsupported builtin preset 'other'");
    let mut two = config("encrypt");
    two.pattern = Some("(".to_string());
    assert!(refused(two, None).starts_with("invalid builtin matcher regex '('"));
}
