use relay_middleware::backend::CompiledBuiltinBackend;
use relay_middleware::callbacks::{
    llm_sanitize_request_callback, llm_sanitize_response_callback, tool_sanitize_callback,
    Omission, Outcome,
};
use relay_middleware::config::{
    BuiltinBackendConfig, BuiltinDetector, CodecSetting, CustomMarkPayloadPolicy, PolicySetting,
    ProviderSurface,
};
use relay_middleware::events::{
    event_sanitize_callback, event_sanitize_callback_with_scope_categories,
    scope_event_sanitize_callback, EventKind, EventSanitizeFields,
};
use relay_middleware::flow::FlowError;
use relay_middleware::json::Json;
use relay_middleware::mask::DetectorMasks;
use relay_middleware::request::{LlmCodec, LlmRequest, LlmSanitizeContext};
use relay_middleware::response::LlmResponseCodec;
use relay_middleware::serial::JsonForm;

const CHAT: ProviderSurface = ProviderSurface { kind: 1 };
const OTHER: ProviderSurface = ProviderSurface { kind: 2 };

struct NoMasks;

impl DetectorMasks for NoMasks {
    fn default_mask(&self, _detector: &BuiltinDetector, text: &str, _mask_char: &str) -> String {
        text.to_string()
    }
}

/// The annotated form of a request is its body; the body has to keep the key `model`.
struct BodyCodec {
    whole: bool,
}

struct Body(Json);

fn entry(value: &Json, key: &str) -> Option<Json> {
    match value {
        Json::Object(entries) => {
            entries.iter().find(|(name, _)| name == key).map(|(_, value)| value.copy())
        }
        _ => None,
    }
}

impl JsonForm<Body> for BodyCodec {
    fn to_value(&self, value: &Body) -> Result<Json, String> {
        Ok(value.0.copy())
    }

    fn from_value(&self, value: Json) -> Result<Body, String> {
        Ok(Body(value))
    }
}

impl LlmCodec for BodyCodec {
    type Annotated = Body;

    fn decode(&self, surface: ProviderSurface, request: &LlmRequest) -> Result<Body, FlowError> {
        if surface == CHAT {
            Ok(Body(request.content.copy()))
        } else {
            Err(FlowError::Internal("unknown surface".to_string()))
        }
    }

    fn encode(
        &self,
        _surface: ProviderSurface,
        annotated: &Body,
        original: &LlmRequest,
    ) -> Result<LlmRequest, FlowError> {
        let changes = ["model", "user", "note"]
            .iter()
            .filter(|key| {
                format!("{:?}", entry(&annotated.0, key)) != format!("{:?}", entry(&original.content, key))
            })
            .count();
        if !self.whole && changes > 1 {
            return Err(FlowError::Internal("one change at a time".to_string()));
        }
        Ok(LlmRequest { headers: original.headers.copy(), content: annotated.0.copy() })
    }
}

impl LlmResponseCodec for BodyCodec {
    type Annotated = Body;

    fn decode_response(&self, surface: ProviderSurface, payload: &Json) -> Result<Body, FlowError> {
        if surface == CHAT {
            Ok(Body(payload.copy()))
        } else {
            Err(FlowError::Internal("unknown surface".to_string()))
        }
    }

    fn overlay_response_payload(
        &self,
        _surface: ProviderSurface,
        _payload: Json,
        annotated: &Body,
    ) -> Json {
        annotated.0.copy()
    }
}

fn text(value: &str) -> Json {
    Json::String(value.to_string())
}

fn object(entries: Vec<(&str, Json)>) -> Json {
    Json::Object(entries.into_iter().map(|(key, value)| (key.to_string(), value)).collect())
}

fn body() -> Json {
    object(vec![("model", text("m")), ("user", text("Ada")), ("note", text("call"))])
}

fn request() -> LlmRequest {
    LlmRequest { headers: object(vec![("auth", text("key"))]), content: body() }
}

fn config(targets: &[&str]) -> BuiltinBackendConfig {
    BuiltinBackendConfig {
        preset: None,
        custom_mark_payload_policy: PolicySetting {
            name: "preserve".to_string(),
            policy: Some(CustomMarkPayloadPolicy { kind: 0 }),
        },
        detector: None,
        pattern: None,
        action: "mask".to_string(),
        target_paths: targets.iter().map(|target| target.to_string()).collect(),
        replacement: None,
        mask_char: None,
        unmasked_prefix: None,
        unmasked_suffix: None,
    }
}

fn backend(targets: &[&str], surface: Option<ProviderSurface>) -> CompiledBuiltinBackend {
    let codec = surface.map(|surface| CodecSetting { name: "c".to_string(), surface: Some(surface) });
    CompiledBuiltinBackend::new(config(targets), codec).unwrap()
}

fn trajectory() -> CompiledBuiltinBackend {
    let mut preset = config(&[]);
    preset.preset = Some("trajectory_context".to_string());
    CompiledBuiltinBackend::new(preset, None).unwrap()
}

fn inactive() -> LlmSanitizeContext {
    LlmSanitizeContext { has_active_codec: false, codec: None }
}

fn active(surface: Option<ProviderSurface>) -> LlmSanitizeContext {
    LlmSanitizeContext {
        has_active_codec: true,
        codec: Some(CodecSetting { name: "c".to_string(), surface }),
    }
}

fn ready<T>(outcome: Outcome<T>) -> T {
    match outcome {
        Outcome::Ready(value) => value,
        _ => panic!("not ready"),
    }
}

fn omitted<T>(outcome: Outcome<T>) -> Omission {
    match outcome {
        Outcome::Omitted(reason) => reason,
        _ => panic!("not omitted"),
    }
}

fn shown(value: &Json) -> String {
    format!("{:?}", value)
}

#[test]
fn a_tool_payload_is_sanitized() {
    let left = ready(tool_sanitize_callback(&backend(&[], None), text("Ada"), &NoMasks));
    assert_eq!(shown(&left), shown(&text("***")));
}

#[test]
fn the_trajectory_sanitizer_comes_first() {
    let backend = trajectory();
    assert!(matches!(
        tool_sanitize_callback(&backend, text("Ada"), &NoMasks),
        Outcome::Trajectory(Json::String(_))
    ));
    let codec = BodyCodec { whole: true };
    assert!(matches!(
        llm_sanitize_request_callback(&backend, request(), &inactive(), None, &codec, &NoMasks),
        Outcome::Trajectory(_)
    ));
    assert!(matches!(
        llm_sanitize_response_callback(&backend, body(), &inactive(), None, &codec, &NoMasks),
        Outcome::Trajectory(_)
    ));
}

#[test]
fn without_targets_no_codec_is_asked() {
    let codec = BodyCodec { whole: true };
    let left = ready(llm_sanitize_request_callback(
        &backend(&[], None),
        request(),
        &active(None),
        None,
        &codec,
        &NoMasks,
    ));
    assert_eq!(shown(&left.headers), shown(&request().headers));
    assert_eq!(
        shown(&left.content),
        shown(&object(vec![("model", text("*")), ("user", text("***")), ("note", text("****"))]))
    );
    let left = ready(llm_sanitize_response_callback(
        &backend(&[], None),
        text("Ada"),
        &inactive(),
        None,
        &codec,
        &NoMasks,
    ));
    assert_eq!(shown(&left), shown(&text("***")));
}

#[test]
fn a_payload_without_codec_is_omitted() {
    let codec = BodyCodec { whole: true };
    for (configured, detected) in
        [(None, None), (None, Some(CHAT)), (Some(CHAT), None), (Some(CHAT), Some(OTHER))]
    {
        let backend = backend(&["/user"], configured);
        let reason = omitted(llm_sanitize_request_callback(
            &backend,
            request(),
            &inactive(),
            detected,
            &codec,
            &NoMasks,
        ));
        assert_eq!(reason, Omission::NoCompatibleCodec);
        let reason = omitted(llm_sanitize_response_callback(
            &backend,
            body(),
            &inactive(),
            detected,
            &codec,
            &NoMasks,
        ));
        assert_eq!(reason.reason(), "no compatible legacy codec");
    }
}

#[test]
fn the_configured_codec_serves_its_surface() {
    let codec = BodyCodec { whole: true };
    let backend = backend(&["/user"], Some(CHAT));
    assert!(backend.uses_compatible_legacy_codec(Some(CHAT)));
    assert!(!backend.uses_compatible_legacy_codec(Some(OTHER)));
    assert_eq!(backend.selected_surface(&inactive()), Some(CHAT));
    let left = ready(llm_sanitize_request_callback(
        &backend,
        request(),
        &inactive(),
        Some(CHAT),
        &codec,
        &NoMasks,
    ));
    assert_eq!(
        shown(&left.content),
        shown(&object(vec![("model", text("m")), ("user", text("***")), ("note", text("call"))]))
    );
    let left = ready(llm_sanitize_response_callback(
        &backend,
        body(),
        &inactive(),
        Some(CHAT),
        &codec,
        &NoMasks,
    ));
    assert_eq!(
        shown(&left),
        shown(&object(vec![("model", text("m")), ("user", text("***")), ("note", text("call"))]))
    );
}

#[test]
fn detection_is_asked_where_it_matters() {
    assert!(backend(&["/user"], Some(CHAT)).needs_detected_surface(&inactive()));
    assert!(!backend(&["/user"], None).needs_detected_surface(&inactive()));
    assert!(!backend(&[], Some(CHAT)).needs_detected_surface(&inactive()));
    assert!(!backend(&["/user"], Some(CHAT)).needs_detected_surface(&active(Some(CHAT))));
    assert!(!trajectory().needs_detected_surface(&inactive()));
    let codec = BodyCodec { whole: true };
    for detected in [None, Some(CHAT), Some(OTHER)] {
        let left = ready(llm_sanitize_request_callback(
            &backend(&["/user"], Some(OTHER)),
            request(),
            &active(Some(CHAT)),
            detected,
            &codec,
            &NoMasks,
        ));
        assert_eq!(shown(&entry(&left.content, "user").unwrap()), shown(&text("***")));
    }
}

#[test]
fn the_active_codec_is_preferred() {
    let codec = BodyCodec { whole: true };
    let backend = backend(&["/user"], Some(OTHER));
    assert_eq!(backend.selected_surface(&active(Some(CHAT))), Some(CHAT));
    assert_eq!(backend.selected_surface(&active(None)), None);
    let left = ready(llm_sanitize_request_callback(
        &backend,
        request(),
        &active(Some(CHAT)),
        None,
        &codec,
        &NoMasks,
    ));
    assert_eq!(shown(&entry(&left.content, "user").unwrap()), shown(&text("***")));
}

#[test]
fn a_codec_that_fails_omits_the_payload() {
    let codec = BodyCodec { whole: true };
    for context in [active(None), active(Some(OTHER))] {
        let backend = backend(&["/user"], Some(CHAT));
        let reason = omitted(llm_sanitize_request_callback(
            &backend,
            request(),
            &context,
            None,
            &codec,
            &NoMasks,
        ));
        assert_eq!(reason.reason(), "codec decode, sanitize, or encode failure");
        let reason = omitted(llm_sanitize_response_callback(
            &backend,
            body(),
            &context,
            None,
            &codec,
            &NoMasks,
        ));
        assert_eq!(reason, Omission::CodecFailure);
    }
}

#[test]
fn targets_come_one_by_one() {
    let codec = BodyCodec { whole: false };
    let backend = backend(&["/user", "/none", "/note", "/user"], Some(CHAT));
    let left = ready(llm_sanitize_request_callback(
        &backend,
        request(),
        &active(Some(CHAT)),
        None,
        &codec,
        &NoMasks,
    ));
    assert_eq!(
        shown(&left.content),
        shown(&object(vec![("model", text("m")), ("user", text("***")), ("note", text("****"))]))
    );
}

#[test]
fn a_target_that_is_no_pointer_stops_the_bringing_over() {
    let codec = BodyCodec { whole: false };
    let backend = backend(&["/user", "/note", "note"], Some(CHAT));
    let reason = omitted(llm_sanitize_request_callback(
        &backend,
        request(),
        &active(Some(CHAT)),
        None,
        &codec,
        &NoMasks,
    ));
    assert_eq!(reason, Omission::CodecFailure);
}

#[test]
fn a_brought_over_target_is_read_back() {
    let codec = BodyCodec { whole: true };
    let backend = backend(&["/user"], Some(CHAT));
    let wanted = Body(object(vec![("model", text("m")), ("user", text("-")), ("note", text("?"))]));
    let left = backend
        .sanitize_request_target_paths_incrementally(&codec, CHAT, &request(), &wanted)
        .unwrap();
    assert_eq!(
        shown(&left.content),
        shown(&object(vec![("model", text("m")), ("user", text("-")), ("note", text("call"))]))
    );
}

fn scope(category: Option<&str>) -> EventKind {
    EventKind { scope: true, category: category.map(|category| category.to_string()) }
}

fn fields() -> EventSanitizeFields<Body> {
    EventSanitizeFields {
        data: Some(text("data")),
        category_profile: Some(Body(text("profile"))),
        metadata: Some(text("meta")),
    }
}

fn shown_fields(fields: &EventSanitizeFields<Body>) -> String {
    format!(
        "{:?} {:?} {:?}",
        fields.data,
        fields.category_profile.as_ref().map(|body| &body.0),
        fields.metadata
    )
}

fn expected(data: &str, profile: &str, metadata: &str) -> String {
    shown_fields(&EventSanitizeFields {
        data: Some(text(data)),
        category_profile: Some(Body(text(profile))),
        metadata: Some(text(metadata)),
    })
}

#[test]
fn the_fields_of_an_event_are_sanitized() {
    let codec = BodyCodec { whole: true };
    for event in [
        scope(None),
        scope(Some("agent")),
        EventKind { scope: false, category: Some("llm".to_string()) },
    ] {
        let left =
            ready(event_sanitize_callback(&backend(&[], None), &event, fields(), &codec, &NoMasks));
        assert_eq!(shown_fields(&left), expected("****", "*******", "****"));
    }
}

#[test]
fn a_specialized_scope_keeps_its_payload() {
    let codec = BodyCodec { whole: true };
    for category in ["tool", "llm"] {
        let left = ready(event_sanitize_callback(
            &backend(&[], None),
            &scope(Some(category)),
            fields(),
            &codec,
            &NoMasks,
        ));
        assert_eq!(shown_fields(&left), expected("data", "profile", "****"));
    }
}

#[test]
fn a_category_can_be_switched_off() {
    let codec = BodyCodec { whole: true };
    let backend = backend(&[], None);
    let run = |llm: bool, tool: bool, category: &str| {
        shown_fields(&ready(scope_event_sanitize_callback(
            &backend,
            llm,
            tool,
            &scope(Some(category)),
            fields(),
            &codec,
            &NoMasks,
        )))
    };
    let kept = expected("data", "profile", "meta");
    let changed = expected("data", "profile", "****");
    assert_eq!(run(false, true, "llm"), kept);
    assert_eq!(run(true, false, "llm"), changed);
    assert_eq!(run(true, false, "tool"), kept);
    assert_eq!(run(false, true, "tool"), changed);
    assert_eq!(run(false, false, "agent"), expected("****", "*******", "****"));
}

#[test]
fn switches_that_are_on_change_nothing() {
    let codec = BodyCodec { whole: true };
    let backend = backend(&[], None);
    let without = |event: &EventKind| {
        shown_fields(&ready(event_sanitize_callback(&backend, event, fields(), &codec, &NoMasks)))
    };
    let with = |llm: bool, tool: bool, event: &EventKind| {
        shown_fields(&ready(scope_event_sanitize_callback(
            &backend,
            llm,
            tool,
            event,
            fields(),
            &codec,
            &NoMasks,
        )))
    };
    for event in [scope(Some("llm")), scope(Some("tool")), scope(Some("agent")), scope(None)] {
        assert_eq!(with(true, true, &event), without(&event));
    }
    let mark = EventKind { scope: false, category: Some("llm".to_string()) };
    for (llm, tool) in [(false, false), (false, true), (true, false)] {
        assert_eq!(with(llm, tool, &mark), without(&mark));
        assert_eq!(with(llm, tool, &scope(Some("agent"))), without(&scope(Some("agent"))));
    }
}

#[test]
fn switching_off_goes_before_the_trajectory_sanitizer() {
    let codec = BodyCodec { whole: true };
    let backend = trajectory();
    let left = event_sanitize_callback_with_scope_categories(
        &backend,
        Some((false, false)),
        &scope(Some("llm")),
        fields(),
        &codec,
        &NoMasks,
    );
    assert_eq!(shown_fields(&ready(left)), expected("data", "profile", "meta"));
    let left = event_sanitize_callback_with_scope_categories(
        &backend,
        None,
        &scope(Some("llm")),
        fields(),
        &codec,
        &NoMasks,
    );
    assert!(matches!(left, Outcome::Trajectory(_)));
}

struct Broken;

impl JsonForm<Body> for Broken {
    fn to_value(&self, _value: &Body) -> Result<Json, String> {
        Err("broken".to_string())
    }

    fn from_value(&self, _value: Json) -> Result<Body, String> {
        Err("broken".to_string())
    }
}

#[test]
fn a_profile_that_cannot_be_sanitized_is_dropped() {
    let left =
        ready(event_sanitize_callback(&backend(&[], None), &scope(None), fields(), &Broken, &NoMasks));
    assert!(left.category_profile.is_none());
    assert_eq!(shown(&left.data.unwrap()), shown(&text("****")));
}
