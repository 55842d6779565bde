//! Configuration of the built-in redaction backend.
use vstd::prelude::*;

verus! {

/// Why a plugin could not be set up or could not do its work.
#[derive(Debug)]
pub enum PluginError {
    InvalidConfig(String),
    Internal(String),
}

/// A plugin error as a mathematical value.
#[verifier::ext_equal]
pub enum PluginErrorView {
    InvalidConfig(Seq<char>),
    Internal(Seq<char>),
}

impl View for PluginError {
    type V = PluginErrorView;

    open spec fn view(&self) -> PluginErrorView {
        match self {
            PluginError::InvalidConfig(message) => PluginErrorView::InvalidConfig(message@),
            PluginError::Internal(message) => PluginErrorView::Internal(message@),
        }
    }
}

impl PluginError {
    /// A second copy of the error.
    pub fn copy(&self) -> (other: PluginError)
        ensures
            other@ == self@,
    {
        match self {
            PluginError::InvalidConfig(message) => PluginError::InvalidConfig(message.clone()),
            PluginError::Internal(message) => PluginError::Internal(message.clone()),
        }
    }
}

/// A built-in detector: the pattern that finds what it detects, and the number by which its
/// default mask is found.
#[derive(Debug)]
pub struct BuiltinDetector {
    pub kind: u32,
    pub pattern: String,
}

/// A detector as a mathematical value.
pub struct DetectorView {
    pub kind: u32,
    pub pattern: Seq<char>,
}

impl View for BuiltinDetector {
    type V = DetectorView;

    open spec fn view(&self) -> DetectorView {
        DetectorView { kind: self.kind, pattern: self.pattern@ }
    }
}

impl BuiltinDetector {
    /// The regular expression that finds what the detector detects.
    pub fn regex_pattern(&self) -> (pattern: &str)
        ensures
            pattern@ == self@.pattern,
    {
        self.pattern.as_str()
    }

    /// A second copy of the detector.
    pub fn copy(&self) -> (other: BuiltinDetector)
        ensures
            other@ == self@,
    {
        BuiltinDetector { kind: self.kind, pattern: self.pattern.clone() }
    }
}

/// What happens to the payload of custom marks: the number of a policy.
#[derive(Clone, Copy, Debug, PartialEq, Eq, Structural)]
pub struct CustomMarkPayloadPolicy {
    pub kind: u32,
}

/// A provider's request and response format: the number of a codec.
#[derive(Clone, Copy, Debug, PartialEq, Eq, Structural)]
pub struct ProviderSurface {
    pub kind: u32,
}

/// The name of a payload policy, and the policy if there is one of that name.
#[derive(Debug)]
pub struct PolicySetting {
    pub name: String,
    pub policy: Option<CustomMarkPayloadPolicy>,
}

/// The name of a codec, and its surface if there is a codec of that name.
#[derive(Debug)]
pub struct CodecSetting {
    pub name: String,
    pub surface: Option<ProviderSurface>,
}

/// A codec setting as a mathematical value.
pub struct CodecView {
    pub name: Seq<char>,
    pub surface: Option<ProviderSurface>,
}

impl View for CodecSetting {
    type V = CodecView;

    open spec fn view(&self) -> CodecView {
        CodecView { name: self.name@, surface: self.surface }
    }
}

/// Settings of the built-in backend. A named detector comes with what looking it up gave.
#[derive(Debug)]
pub struct BuiltinBackendConfig {
    pub preset: Option<String>,
    pub custom_mark_payload_policy: PolicySetting,
    pub detector: Option<Result<BuiltinDetector, PluginError>>,
    pub pattern: Option<String>,
    pub action: String,
    pub target_paths: Vec<String>,
    pub replacement: Option<String>,
    pub mask_char: Option<String>,
    pub unmasked_prefix: Option<usize>,
    pub unmasked_suffix: Option<usize>,
}

/// Settings of the built-in backend as a mathematical value.
pub struct ConfigView {
    pub preset: Option<Seq<char>>,
    pub policy_name: Seq<char>,
    pub policy: Option<CustomMarkPayloadPolicy>,
    pub detector: Option<Result<DetectorView, PluginErrorView>>,
    pub pattern: Option<Seq<char>>,
    pub action: Seq<char>,
    pub target_paths: Seq<Seq<char>>,
    pub replacement: Option<Seq<char>>,
    pub mask_char: Option<Seq<char>>,
    pub unmasked_prefix: Option<nat>,
    pub unmasked_suffix: Option<nat>,
}

/// The characters of an optional string.
pub open spec fn text_view(text: Option<String>) -> Option<Seq<char>> {
    match text {
        Some(text) => Some(text@),
        None => None,
    }
}

/// An optional count as a natural number.
pub open spec fn count_view(count: Option<usize>) -> Option<nat> {
    match count {
        Some(count) => Some(count as nat),
        None => None,
    }
}

impl View for BuiltinBackendConfig {
    type V = ConfigView;

    open spec fn view(&self) -> ConfigView {
        ConfigView {
            preset: text_view(self.preset),
            policy_name: self.custom_mark_payload_policy.name@,
            policy: self.custom_mark_payload_policy.policy,
            detector: match self.detector {
                Some(Ok(detector)) => Some(Ok(detector@)),
                Some(Err(error)) => Some(Err(error@)),
                None => None,
            },
            pattern: text_view(self.pattern),
            action: self.action@,
            target_paths: crate::text::texts(self.target_paths@),
            replacement: text_view(self.replacement),
            mask_char: text_view(self.mask_char),
            unmasked_prefix: count_view(self.unmasked_prefix),
            unmasked_suffix: count_view(self.unmasked_suffix),
        }
    }
}

} // verus!
