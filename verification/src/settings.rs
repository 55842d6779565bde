//! Laws on setting up the backend: what it takes from each setting, and what is said of a setting
//! that is wrong.
use vstd::prelude::*;

use crate::backend::{BuiltinAction, CompiledBuiltinBackend, TrajectorySanitizer};
use crate::config::{
    BuiltinBackendConfig, BuiltinDetector, CodecSetting, PluginError, ProviderSurface,
};
use crate::mask::BuiltinMaskStrategy;
use crate::matcher::{compiled, error_text};
use crate::setup::{
    action_from, compile_builtin_matcher, matcher_from, surface_from, trajectory_from,
};

verus! {

/// Whether an error says that the configuration is invalid, in these words.
pub open spec fn refused(error: PluginError, text: Seq<char>) -> bool {
    match error {
        PluginError::InvalidConfig(message) => message@ == text,
        PluginError::Internal(_) => false,
    }
}

/// Whether a text is the replacement of a configuration, or `[REDACTED]` where it has none.
pub open spec fn replaces_with(config: BuiltinBackendConfig, replacement: String) -> bool {
    match config.replacement {
        Some(text) => replacement@ == text@,
        None => replacement@ == "[REDACTED]"@,
    }
}

/// The names of the actions are five different names.
proof fn lemma_action_names()
    ensures
        "remove"@ != "hash"@,
        "remove"@ != "mask"@,
        "remove"@ != "redact"@,
        "remove"@ != "regex_replace"@,
        "hash"@ != "mask"@,
        "hash"@ != "redact"@,
        "hash"@ != "regex_replace"@,
        "mask"@ != "redact"@,
        "mask"@ != "regex_replace"@,
        "redact"@ != "regex_replace"@,
{
    reveal_strlit("remove");
    reveal_strlit("hash");
    reveal_strlit("mask");
    reveal_strlit("redact");
    reveal_strlit("regex_replace");
    assert("redact"@[2] == 'd' && "remove"@[2] == 'm');
    assert("hash"@[0] == 'h' && "mask"@[0] == 'm');
    assert("remove"@.len() == 6 && "redact"@.len() == 6 && "regex_replace"@.len() == 13);
    assert("hash"@.len() == 4 && "mask"@.len() == 4);
}

/// A pattern that compiles is the matcher, and of one that does not the reason is given.
pub proof fn matcher_is_what_compiled(
    pattern: &str,
    result: Result<regex::Regex, regex::Error>,
    matcher: Result<Option<regex::Regex>, PluginError>,
)
    requires
        call_ensures(matcher_from, (pattern, result), matcher),
    ensures
        match result {
            Ok(regex) => matcher == Ok::<Option<regex::Regex>, PluginError>(Some(regex)),
            Err(error) => matcher is Err && refused(
                matcher->Err_0,
                "invalid builtin matcher regex '"@ + pattern@ + "': "@ + error_text(error),
            ),
        },
{
}

/// The matcher is that of the pattern or that of the detector; there is none without either, and
/// both at once are refused.
pub proof fn matcher_is_chosen(
    pattern: Option<String>,
    detector: Option<BuiltinDetector>,
    matcher: Result<Option<regex::Regex>, PluginError>,
)
    requires
        call_ensures(compile_builtin_matcher, (pattern, detector), matcher),
    ensures
        pattern is None && detector is None ==> matcher == Ok::<Option<regex::Regex>, PluginError>(
            None,
        ),
        pattern is Some && detector is Some ==> matcher is Err && refused(
            matcher->Err_0,
            "builtin.pattern and builtin.detector cannot both be set"@,
        ),
        pattern is Some != detector is Some ==> {
            let text = if pattern is Some {
                pattern->Some_0@
            } else {
                detector->Some_0.pattern@
            };
            match compiled(text) {
                Ok(regex) => matcher == Ok::<Option<regex::Regex>, PluginError>(Some(regex)),
                Err(error) => matcher is Err && refused(
                    matcher->Err_0,
                    "invalid builtin matcher regex '"@ + text + "': "@ + error_text(error),
                ),
            }
        },
{
}

/// The trajectory sanitizer comes with the preset `trajectory_context` and with no other, and no
/// setting of a matcher, a target path or a mask goes with it. Without a preset the payload policy
/// must be `preserve`.
pub proof fn trajectory_comes_with_its_preset(
    config: BuiltinBackendConfig,
    trajectory: Result<Option<TrajectorySanitizer>, PluginError>,
)
    requires
        call_ensures(trajectory_from, (&config,), trajectory),
    ensures
        ({
            let policy = config.custom_mark_payload_policy;
            let alone = config.detector is None && config.pattern is None
                && config.target_paths@.len() == 0 && config.mask_char is None
                && config.unmasked_prefix is None && config.unmasked_suffix is None;
            match trajectory {
                Ok(None) => config.preset is None && policy.name@ == "preserve"@,
                Ok(Some(sanitizer)) => config.preset is Some && config.preset->Some_0@
                    == "trajectory_context"@ && alone && policy.policy == Some(sanitizer.policy)
                    && replaces_with(config, sanitizer.replacement),
                Err(error) => match config.preset {
                    None => policy.name@ != "preserve"@ && refused(
                        error,
                        "builtin.custom_mark_payload_policy requires builtin.preset = 'trajectory_context'"@,
                    ),
                    Some(preset) => if preset@ != "trajectory_context"@ {
                        refused(error, "unsupported builtin preset '"@ + preset@ + "'"@)
                    } else if !alone {
                        refused(
                            error,
                            "builtin.preset cannot be combined with matcher, target-path, or mask fields"@,
                        )
                    } else {
                        policy.policy is None && refused(
                            error,
                            "unsupported custom-mark payload policy '"@ + policy.name@ + "'"@,
                        )
                    },
                },
            }
        }),
{
    assert(config@.target_paths.len() == config.target_paths@.len());
}

/// Each name gives its own action, made of the matcher and of the settings that it uses; to
/// replace matches takes a matcher, and no other name is an action.
pub proof fn action_has_its_name(
    config: BuiltinBackendConfig,
    detector: Option<BuiltinDetector>,
    matcher: Option<regex::Regex>,
    action: Result<BuiltinAction, PluginError>,
)
    requires
        call_ensures(action_from, (&config, detector, matcher), action),
    ensures
        match action {
            Ok(BuiltinAction::Remove) => config.action@ == "remove"@,
            Ok(BuiltinAction::Hash { matcher: with }) => config.action@ == "hash"@ && with
                == matcher,
            Ok(BuiltinAction::Mask { matcher: with, strategy }) => config.action@ == "mask"@ && with
                == matcher && masks_as_set(config, detector, strategy),
            Ok(BuiltinAction::Redact { matcher: with, replacement }) => config.action@
                == "redact"@ && matcher == Some(with) && replaces_with(config, replacement),
            Ok(BuiltinAction::RegexReplace { pattern, replacement }) => config.action@
                == "regex_replace"@ && matcher == Some(pattern) && replaces_with(
                config,
                replacement,
            ),
            Err(error) => if config.action@ == "redact"@ || config.action@ == "regex_replace"@ {
                matcher is None && refused(
                    error,
                    "builtin.pattern or builtin.detector is required when builtin.action = 'regex_replace' or 'redact'"@,
                )
            } else {
                config.action@ != "remove"@ && config.action@ != "hash"@ && config.action@
                    != "mask"@ && refused(
                    error,
                    "unsupported builtin.action '"@ + config.action@ + "'"@,
                )
            },
        },
{
    lemma_action_names();
}

/// Whether a strategy masks as the settings say: as the detector does by default where there is
/// one and no count is set, and by the counts otherwise; with the mask that is set, or `*`.
pub open spec fn masks_as_set(
    config: BuiltinBackendConfig,
    detector: Option<BuiltinDetector>,
    strategy: BuiltinMaskStrategy,
) -> bool {
    let mask = match config.mask_char {
        Some(mask) => mask@,
        None => "*"@,
    };
    match strategy {
        BuiltinMaskStrategy::DetectorDefault { detector: with, mask_char } => {
            &&& detector is Some
            &&& with.kind == detector->Some_0.kind
            &&& with.pattern@ == detector->Some_0.pattern@
            &&& config.unmasked_prefix is None
            &&& config.unmasked_suffix is None
            &&& mask_char@ == mask
        },
        BuiltinMaskStrategy::Generic { mask_char, unmasked_prefix, unmasked_suffix } => {
            &&& detector is None || config.unmasked_prefix is Some || config.unmasked_suffix is Some
            &&& mask_char@ == mask
            &&& match config.unmasked_prefix {
                Some(count) => unmasked_prefix == count,
                None => unmasked_prefix == 0,
            }
            &&& match config.unmasked_suffix {
                Some(count) => unmasked_suffix == count,
                None => unmasked_suffix == 0,
            }
        },
    }
}

/// A codec that is named must be one, and its surface is the one that is used.
pub proof fn surface_is_that_of_the_codec(
    codec: Option<CodecSetting>,
    surface: Result<Option<ProviderSurface>, PluginError>,
)
    requires
        call_ensures(surface_from, (codec,), surface),
    ensures
        match codec {
            None => surface == Ok::<Option<ProviderSurface>, PluginError>(None),
            Some(codec) => match codec.surface {
                Some(found) => surface == Ok::<Option<ProviderSurface>, PluginError>(Some(found)),
                None => surface is Err && refused(
                    surface->Err_0,
                    "unsupported codec '"@ + codec.name@ + "'"@,
                ),
            },
        },
{
}

/// Whether a matcher is what the pattern of a configuration compiles to, or that of its detector;
/// without either there is none, and both do not go together.
pub open spec fn is_matcher_of(
    config: BuiltinBackendConfig,
    matcher: Option<regex::Regex>,
) -> bool {
    match (config.pattern, config.detector) {
        (None, None) => matcher is None,
        (Some(pattern), None) => matcher is Some && compiled(pattern@) == Ok::<
            regex::Regex,
            regex::Error,
        >(matcher->Some_0),
        (None, Some(Ok(detector))) => matcher is Some && compiled(detector.pattern@) == Ok::<
            regex::Regex,
            regex::Error,
        >(matcher->Some_0),
        _ => false,
    }
}

/// A backend has the target paths of its configuration, in order; the surface of the codec; the
/// trajectory sanitizer that the preset asks for; and the action of that name, whose matcher is
/// what the pattern, or the pattern of the detector, compiles to.
pub proof fn backend_is_made_of_the_settings(
    config: BuiltinBackendConfig,
    codec: Option<CodecSetting>,
    backend: CompiledBuiltinBackend,
    i: int,
)
    requires
        call_ensures(
            CompiledBuiltinBackend::new,
            (config, codec),
            Ok::<CompiledBuiltinBackend, PluginError>(backend),
        ),
    ensures
        backend.target_paths@.len() == config.target_paths@.len(),
        0 <= i < config.target_paths@.len() ==> backend.target_paths@[i]@
            == config.target_paths@[i]@,
        match codec {
            None => backend.legacy_surface is None,
            Some(codec) => codec.surface is Some && backend.legacy_surface == codec.surface,
        },
        match (config.preset, backend.trajectory) {
            (None, None) => config.custom_mark_payload_policy.name@ == "preserve"@,
            (Some(preset), Some(sanitizer)) => preset@ == "trajectory_context"@ && config.detector
                is None && config.pattern is None && config.target_paths@.len() == 0
                && config.mask_char is None && config.unmasked_prefix is None
                && config.unmasked_suffix is None && config.custom_mark_payload_policy.policy
                == Some(sanitizer.policy) && replaces_with(config, sanitizer.replacement),
            _ => false,
        },
        !(config.detector matches Some(Err(_))),
        ({
            let detector = match config.detector {
                Some(Ok(detector)) => Some(detector),
                _ => None,
            };
            match backend.action {
                BuiltinAction::Remove => config.action@ == "remove"@ && exists|
                    matcher: Option<regex::Regex>,
                | #[trigger]
                    is_matcher_of(config, matcher),
                BuiltinAction::Hash { matcher } => config.action@ == "hash"@ && is_matcher_of(
                    config,
                    matcher,
                ),
                BuiltinAction::Mask { matcher, strategy } => config.action@ == "mask"@
                    && is_matcher_of(config, matcher) && masks_as_set(config, detector, strategy),
                BuiltinAction::Redact { matcher, replacement } => config.action@ == "redact"@
                    && is_matcher_of(config, Some(matcher)) && replaces_with(config, replacement),
                BuiltinAction::RegexReplace { pattern, replacement } => config.action@
                    == "regex_replace"@ && is_matcher_of(config, Some(pattern)) && replaces_with(
                    config,
                    replacement,
                ),
            }
        }),
{
    lemma_action_names();
    assert(backend@.target_paths.len() == backend.target_paths@.len());
    assert(config@.target_paths.len() == config.target_paths@.len());
    if 0 <= i < config.target_paths@.len() {
        assert(backend@.target_paths[i] == backend.target_paths@[i]@);
        assert(config@.target_paths[i] == config.target_paths@[i]@);
    }
    match (config.pattern, config.detector) {
        (None, None) => {
            assert(is_matcher_of(config, None));
        },
        (Some(pattern), None) => {
            assert(is_matcher_of(config, Some(compiled(pattern@)->Ok_0)));
        },
        (None, Some(Ok(detector))) => {
            assert(is_matcher_of(config, Some(compiled(detector.pattern@)->Ok_0)));
        },
        _ => {},
    }
}

/// What is said of a configuration from which no backend is made: of the preset and the payload
/// policy first, then of the detector, of the pattern, of the action, and of the codec.
pub proof fn first_wrong_setting_is_named(
    config: BuiltinBackendConfig,
    codec: Option<CodecSetting>,
    error: PluginError,
)
    requires
        call_ensures(
            CompiledBuiltinBackend::new,
            (config, codec),
            Err::<CompiledBuiltinBackend, PluginError>(error),
        ),
    ensures
        ({
            let policy = config.custom_mark_payload_policy;
            let alone = config.detector is None && config.pattern is None
                && config.target_paths@.len() == 0 && config.mask_char is None
                && config.unmasked_prefix is None && config.unmasked_suffix is None;
            let text = match (config.pattern, config.detector) {
                (Some(pattern), _) => Some(pattern@),
                (None, Some(Ok(detector))) => Some(detector.pattern@),
                _ => None,
            };
            let replaces = config.action@ == "redact"@ || config.action@ == "regex_replace"@;
            let known = replaces || config.action@ == "remove"@ || config.action@ == "hash"@
                || config.action@ == "mask"@;
            if config.preset is None && policy.name@ != "preserve"@ {
                refused(
                    error,
                    "builtin.custom_mark_payload_policy requires builtin.preset = 'trajectory_context'"@,
                )
            } else if config.preset is Some && config.preset->Some_0@ != "trajectory_context"@ {
                refused(
                    error,
                    "unsupported builtin preset '"@ + config.preset->Some_0@ + "'"@,
                )
            } else if config.preset is Some && !alone {
                refused(
                    error,
                    "builtin.preset cannot be combined with matcher, target-path, or mask fields"@,
                )
            } else if config.preset is Some && policy.policy is None {
                refused(
                    error,
                    "unsupported custom-mark payload policy '"@ + policy.name@ + "'"@,
                )
            } else if config.detector is Some && config.detector->Some_0 is Err {
                same_error(error, config.detector->Some_0->Err_0)
            } else if config.pattern is Some && config.detector is Some {
                refused(error, "builtin.pattern and builtin.detector cannot both be set"@)
            } else if text is Some && compiled(text->Some_0) is Err {
                refused(
                    error,
                    "invalid builtin matcher regex '"@ + text->Some_0 + "': "@ + error_text(
                        compiled(text->Some_0)->Err_0,
                    ),
                )
            } else if !known {
                refused(error, "unsupported builtin.action '"@ + config.action@ + "'"@)
            } else if replaces && text is None {
                refused(
                    error,
                    "builtin.pattern or builtin.detector is required when builtin.action = 'regex_replace' or 'redact'"@,
                )
            } else {
                codec is Some && codec->Some_0.surface is None && refused(
                    error,
                    "unsupported codec '"@ + codec->Some_0.name@ + "'"@,
                )
            }
        }),
{
    lemma_action_names();
    assert(config@.target_paths.len() == config.target_paths@.len());
}

/// Whether two errors are of the same kind and say the same.
pub open spec fn same_error(left: PluginError, right: PluginError) -> bool {
    match (left, right) {
        (PluginError::InvalidConfig(left), PluginError::InvalidConfig(right)) => left@ == right@,
        (PluginError::Internal(left), PluginError::Internal(right)) => left@ == right@,
        _ => false,
    }
}

/// A copy of an error says the same, and a copy of a detector has the same number and pattern.
pub proof fn copies_are_the_same(
    error: PluginError,
    error_copy: PluginError,
    detector: BuiltinDetector,
    detector_copy: BuiltinDetector,
    pattern: &str,
)
    requires
        call_ensures(PluginError::copy, (&error,), error_copy),
        call_ensures(BuiltinDetector::copy, (&detector,), detector_copy),
        call_ensures(BuiltinDetector::regex_pattern, (&detector,), pattern),
    ensures
        same_error(error, error_copy),
        detector_copy.kind == detector.kind,
        detector_copy.pattern@ == detector.pattern@,
        pattern@ == detector.pattern@,
{
}

} // verus!
