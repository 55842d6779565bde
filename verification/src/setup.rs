//! Setting up the built-in backend from its configuration.
use vstd::prelude::*;

use crate::backend::{
    ActionView, BackendView, BuiltinAction, CompiledBuiltinBackend, TrajectorySanitizer,
    TrajectoryView,
};
use crate::config::{
    text_view, BuiltinBackendConfig, BuiltinDetector, CodecSetting, CodecView, ConfigView,
    DetectorView, PluginError, PluginErrorView, ProviderSurface,
};
use crate::mask::{build_mask_strategy, strategy_of, StrategyView};
use crate::matcher::{compile, compiled, describe, error_text};
use crate::text::{concat3, same_text};

verus! {

/// The view of an optional detector.
pub open spec fn detector_view(detector: Option<BuiltinDetector>) -> Option<DetectorView> {
    match detector {
        Some(detector) => Some(detector@),
        None => None,
    }
}

/// The matcher for a pattern, given what compiling the pattern returned.
pub open spec fn matcher_for(
    pattern: Seq<char>,
    result: Result<regex::Regex, regex::Error>,
) -> Result<Option<regex::Regex>, PluginErrorView> {
    match result {
        Ok(regex) => Ok(Some(regex)),
        Err(error) => Err(
            PluginErrorView::InvalidConfig(
                "invalid builtin matcher regex '"@ + pattern + "': "@ + error_text(error),
            ),
        ),
    }
}

/// The matcher of a configuration: by its pattern or by its detector, but not by both.
pub open spec fn matcher_of(
    pattern: Option<Seq<char>>,
    detector: Option<DetectorView>,
) -> Result<Option<regex::Regex>, PluginErrorView> {
    match (pattern, detector) {
        (Some(pattern), None) => matcher_for(pattern, compiled(pattern)),
        (None, Some(detector)) => matcher_for(detector.pattern, compiled(detector.pattern)),
        (None, None) => Ok(None),
        (Some(_), Some(_)) => Err(
            PluginErrorView::InvalidConfig(
                "builtin.pattern and builtin.detector cannot both be set"@,
            ),
        ),
    }
}

/// The replacement of a configuration, `[REDACTED]` if it has none.
pub open spec fn replacement_of(config: ConfigView) -> Seq<char> {
    match config.replacement {
        Some(replacement) => replacement,
        None => "[REDACTED]"@,
    }
}

/// Whether a configuration has settings that no preset goes with.
pub open spec fn has_matcher_fields(config: ConfigView) -> bool {
    ||| config.detector is Some
    ||| config.pattern is Some
    ||| config.target_paths.len() > 0
    ||| config.mask_char is Some
    ||| config.unmasked_prefix is Some
    ||| config.unmasked_suffix is Some
}

/// The trajectory sanitizer of a configuration: only the preset `trajectory_context` has one.
pub open spec fn trajectory_of(config: ConfigView) -> Result<
    Option<TrajectoryView>,
    PluginErrorView,
> {
    match config.preset {
        None => if config.policy_name == "preserve"@ {
            Ok(None)
        } else {
            Err(
                PluginErrorView::InvalidConfig(
                    "builtin.custom_mark_payload_policy requires builtin.preset = 'trajectory_context'"@,
                ),
            )
        },
        Some(preset) => if preset != "trajectory_context"@ {
            Err(PluginErrorView::InvalidConfig("unsupported builtin preset '"@ + preset + "'"@))
        } else if has_matcher_fields(config) {
            Err(
                PluginErrorView::InvalidConfig(
                    "builtin.preset cannot be combined with matcher, target-path, or mask fields"@,
                ),
            )
        } else {
            match config.policy {
                Some(policy) => Ok(
                    Some(TrajectoryView { replacement: replacement_of(config), policy }),
                ),
                None => Err(
                    PluginErrorView::InvalidConfig(
                        "unsupported custom-mark payload policy '"@ + config.policy_name + "'"@,
                    ),
                ),
            }
        },
    }
}

/// The action of a configuration with the given detector and matcher.
pub open spec fn action_of(
    config: ConfigView,
    detector: Option<DetectorView>,
    matcher: Option<regex::Regex>,
) -> Result<ActionView, PluginErrorView> {
    if config.action == "remove"@ {
        Ok(ActionView::Remove)
    } else if config.action == "hash"@ {
        Ok(ActionView::Hash { matcher })
    } else if config.action == "mask"@ {
        Ok(ActionView::Mask { matcher, strategy: strategy_of(config, detector) })
    } else if config.action == "redact"@ || config.action == "regex_replace"@ {
        match matcher {
            None => Err(
                PluginErrorView::InvalidConfig(
                    "builtin.pattern or builtin.detector is required when builtin.action = 'regex_replace' or 'redact'"@,
                ),
            ),
            Some(regex) => if config.action == "redact"@ {
                Ok(ActionView::Redact { matcher: regex, replacement: replacement_of(config) })
            } else {
                Ok(ActionView::RegexReplace { pattern: regex, replacement: replacement_of(config) })
            },
        }
    } else {
        Err(
            PluginErrorView::InvalidConfig("unsupported builtin.action '"@ + config.action + "'"@),
        )
    }
}

/// The surface of a codec: every name must be that of a codec.
pub open spec fn surface_of(codec: Option<CodecView>) -> Result<
    Option<ProviderSurface>,
    PluginErrorView,
> {
    match codec {
        None => Ok(None),
        Some(codec) => match codec.surface {
            Some(surface) => Ok(Some(surface)),
            None => Err(
                PluginErrorView::InvalidConfig("unsupported codec '"@ + codec.name + "'"@),
            ),
        },
    }
}

/// The backend of a configuration, or the first thing that is wrong with it: preset and payload
/// policy come first, then the detector, the matcher, the action and the codec.
pub open spec fn backend_of(config: ConfigView, codec: Option<CodecView>) -> Result<
    BackendView,
    PluginErrorView,
> {
    match trajectory_of(config) {
        Err(error) => Err(error),
        Ok(trajectory) => match config.detector {
            Some(Err(error)) => Err(error),
            detector => {
                let detector = match detector {
                    Some(Ok(detector)) => Some(detector),
                    _ => None,
                };
                match matcher_of(config.pattern, detector) {
                    Err(error) => Err(error),
                    Ok(matcher) => match action_of(config, detector, matcher) {
                        Err(error) => Err(error),
                        Ok(action) => match surface_of(codec) {
                            Err(error) => Err(error),
                            Ok(legacy_surface) => Ok(
                                BackendView {
                                    action,
                                    target_paths: config.target_paths,
                                    legacy_surface,
                                    trajectory,
                                },
                            ),
                        },
                    },
                }
            },
        },
    }
}

/// The matcher for a pattern, given what compiling the pattern returned.
pub fn matcher_from(pattern: &str, result: Result<regex::Regex, regex::Error>) -> (matcher: Result<
    Option<regex::Regex>,
    PluginError,
>)
    ensures
        match matcher {
            Ok(regex) => matcher_for(pattern@, result) == Ok::<_, PluginErrorView>(regex),
            Err(error) => matcher_for(pattern@, result) == Err::<Option<regex::Regex>, _>(error@),
        },
{
    match result {
        Ok(regex) => Ok(Some(regex)),
        Err(error) => {
            let reason: String = describe(&error);
            let mut message: String = concat3("invalid builtin matcher regex '", pattern, "': ");
            message.append(reason.as_str());
            Err(PluginError::InvalidConfig(message))
        },
    }
}

/// The matcher for a pattern or for a detector.
pub fn compile_builtin_matcher(pattern: Option<String>, detector: Option<BuiltinDetector>) -> (
matcher: Result<Option<regex::Regex>, PluginError>)
    ensures
        ({
            let expected = matcher_of(text_view(pattern), detector_view(detector));
            match matcher {
                Ok(regex) => expected == Ok::<_, PluginErrorView>(regex),
                Err(error) => expected == Err::<Option<regex::Regex>, _>(error@),
            }
        }),
{
    let pattern_text: String = match (pattern, detector) {
        (Some(pattern), None) => pattern,
        (None, Some(detector)) => detector.regex_pattern().to_owned(),
        (None, None) => {
            return Ok(None);
        },
        (Some(_), Some(_)) => {
            return Err(
                PluginError::InvalidConfig(
                    "builtin.pattern and builtin.detector cannot both be set".to_owned(),
                ),
            );
        },
    };
    matcher_from(pattern_text.as_str(), compile(pattern_text.as_str()))
}

/// The replacement of a configuration.
fn replacement_from(config: &BuiltinBackendConfig) -> (replacement: String)
    ensures
        replacement@ == replacement_of(config@),
{
    match &config.replacement {
        Some(replacement) => replacement.clone(),
        None => "[REDACTED]".to_owned(),
    }
}

/// The trajectory sanitizer of a configuration.
pub fn trajectory_from(config: &BuiltinBackendConfig) -> (trajectory: Result<
    Option<TrajectorySanitizer>,
    PluginError,
>)
    ensures
        match trajectory {
            Ok(Some(trajectory)) => trajectory_of(config@) == Ok::<_, PluginErrorView>(
                Some(trajectory@),
            ),
            Ok(None) => trajectory_of(config@) == Ok::<_, PluginErrorView>(
                None::<TrajectoryView>,
            ),
            Err(error) => trajectory_of(config@) == Err::<Option<TrajectoryView>, _>(error@),
        },
{
    match &config.preset {
        None => {
            if same_text(config.custom_mark_payload_policy.name.as_str(), "preserve") {
                Ok(None)
            } else {
                Err(
                    PluginError::InvalidConfig(
                        "builtin.custom_mark_payload_policy requires builtin.preset = 'trajectory_context'".to_owned(),
                    ),
                )
            }
        },
        Some(preset) => {
            if !same_text(preset.as_str(), "trajectory_context") {
                return Err(
                    PluginError::InvalidConfig(
                        concat3("unsupported builtin preset '", preset.as_str(), "'"),
                    ),
                );
            }
            if config.detector.is_some() || config.pattern.is_some() || config.target_paths.len()
                > 0 || config.mask_char.is_some() || config.unmasked_prefix.is_some()
                || config.unmasked_suffix.is_some() {
                return Err(
                    PluginError::InvalidConfig(
                        "builtin.preset cannot be combined with matcher, target-path, or mask fields".to_owned(),
                    ),
                );
            }
            match config.custom_mark_payload_policy.policy {
                Some(policy) => Ok(
                    Some(TrajectorySanitizer { replacement: replacement_from(config), policy }),
                ),
                None => Err(
                    PluginError::InvalidConfig(
                        concat3(
                            "unsupported custom-mark payload policy '",
                            config.custom_mark_payload_policy.name.as_str(),
                            "'",
                        ),
                    ),
                ),
            }
        },
    }
}

/// The action of a configuration with the given detector and matcher.
pub fn action_from(
    config: &BuiltinBackendConfig,
    detector: Option<BuiltinDetector>,
    matcher: Option<regex::Regex>,
) -> (action: Result<BuiltinAction, PluginError>)
    ensures
        match action {
            Ok(action) => action_of(config@, detector_view(detector), matcher) == Ok::<
                _,
                PluginErrorView,
            >(action@),
            Err(error) => action_of(config@, detector_view(detector), matcher) == Err::<
                ActionView,
                _,
            >(error@),
        },
{
    let name: &str = config.action.as_str();
    if same_text(name, "remove") {
        return Ok(BuiltinAction::Remove);
    }
    if same_text(name, "hash") {
        return Ok(BuiltinAction::Hash { matcher });
    }
    if same_text(name, "mask") {
        return Ok(
            BuiltinAction::Mask { matcher, strategy: build_mask_strategy(config, detector) },
        );
    }
    let redact: bool = same_text(name, "redact");
    if !redact && !same_text(name, "regex_replace") {
        return Err(
            PluginError::InvalidConfig(concat3("unsupported builtin.action '", name, "'")),
        );
    }
    match matcher {
        None => Err(
            PluginError::InvalidConfig(
                "builtin.pattern or builtin.detector is required when builtin.action = 'regex_replace' or 'redact'".to_owned(),
            ),
        ),
        Some(regex) => {
            let replacement: String = replacement_from(config);
            if redact {
                Ok(BuiltinAction::Redact { matcher: regex, replacement })
            } else {
                Ok(BuiltinAction::RegexReplace { pattern: regex, replacement })
            }
        },
    }
}

/// The view of an optional codec setting.
pub open spec fn codec_view(codec: Option<CodecSetting>) -> Option<CodecView> {
    match codec {
        Some(codec) => Some(codec@),
        None => None,
    }
}

/// The surface of a codec.
pub fn surface_from(codec: Option<CodecSetting>) -> (surface: Result<
    Option<ProviderSurface>,
    PluginError,
>)
    ensures
        match surface {
            Ok(surface) => surface_of(codec_view(codec)) == Ok::<_, PluginErrorView>(surface),
            Err(error) => surface_of(codec_view(codec)) == Err::<Option<ProviderSurface>, _>(
                error@,
            ),
        },
{
    match codec {
        None => Ok(None),
        Some(codec) => match codec.surface {
            Some(surface) => Ok(Some(surface)),
            None => Err(
                PluginError::InvalidConfig(
                    concat3("unsupported codec '", codec.name.as_str(), "'"),
                ),
            ),
        },
    }
}

impl CompiledBuiltinBackend {
    /// The backend of a configuration, or what is wrong with the configuration.
    pub fn new(config: BuiltinBackendConfig, codec: Option<CodecSetting>) -> (backend: Result<
        Self,
        PluginError,
    >)
        ensures
            match backend {
                Ok(backend) => backend_of(config@, codec_view(codec)) == Ok::<_, PluginErrorView>(
                    backend@,
                ),
                Err(error) => backend_of(config@, codec_view(codec)) == Err::<BackendView, _>(
                    error@,
                ),
            },
    {
        let trajectory: Option<TrajectorySanitizer> = match trajectory_from(&config) {
            Ok(trajectory) => trajectory,
            Err(error) => {
                return Err(error);
            },
        };
        let (detector, again): (Option<BuiltinDetector>, Option<BuiltinDetector>) =
            match &config.detector {
            Some(Ok(detector)) => (Some(detector.copy()), Some(detector.copy())),
            Some(Err(error)) => {
                return Err(error.copy());
            },
            None => (None, None),
        };
        let matcher: Option<regex::Regex> = match compile_builtin_matcher(
            config.pattern.clone(),
            detector,
        ) {
            Ok(matcher) => matcher,
            Err(error) => {
                return Err(error);
            },
        };
        let action: BuiltinAction = match action_from(&config, again, matcher) {
            Ok(action) => action,
            Err(error) => {
                return Err(error);
            },
        };
        let legacy_surface: Option<ProviderSurface> = match surface_from(codec) {
            Ok(surface) => surface,
            Err(error) => {
                return Err(error);
            },
        };
        Ok(
            CompiledBuiltinBackend {
                action,
                target_paths: config.target_paths,
                legacy_surface,
                trajectory,
            },
        )
    }
}

/// A backend with a trajectory sanitizer has no target paths, no matcher and no mask setting.
pub proof fn preset_stands_alone(config: ConfigView, codec: Option<CodecView>)
    requires
        backend_of(config, codec) is Ok,
        backend_of(config, codec)->Ok_0.trajectory is Some,
    ensures
        config.preset == Some("trajectory_context"@),
        backend_of(config, codec)->Ok_0.target_paths.len() == 0,
        match backend_of(config, codec)->Ok_0.action {
            ActionView::Remove => true,
            ActionView::Hash { matcher } => matcher is None,
            ActionView::Mask { matcher, strategy } => matcher is None && strategy
                == (StrategyView::Generic {
                mask_char: "*"@,
                unmasked_prefix: 0,
                unmasked_suffix: 0,
            }),
            _ => false,
        },
{
}

/// A backend that replaces matches has the matcher of its pattern or of its detector, and never
/// of both.
pub proof fn replacing_needs_a_matcher(config: ConfigView, codec: Option<CodecView>)
    requires
        backend_of(config, codec) is Ok,
        config.action == "redact"@ || config.action == "regex_replace"@,
    ensures
        config.pattern is Some <==> config.detector is None,
        match backend_of(config, codec)->Ok_0.action {
            ActionView::Redact { matcher, replacement } => config.action == "redact"@
                && replacement == replacement_of(config),
            ActionView::RegexReplace { pattern, replacement } => config.action == "regex_replace"@
                && replacement == replacement_of(config),
            _ => false,
        },
{
    reveal_strlit("remove");
    reveal_strlit("hash");
    reveal_strlit("mask");
    reveal_strlit("redact");
    reveal_strlit("regex_replace");
    assert("redact"@[2] == 'd' && "remove"@[2] == 'm');
    assert("remove"@.len() == 6 && "redact"@.len() == 6 && "regex_replace"@.len() == 13);
    assert("hash"@.len() == 4 && "mask"@.len() == 4);
    assert(config.action != "remove"@ && config.action != "hash"@ && config.action != "mask"@);
}

} // verus!
