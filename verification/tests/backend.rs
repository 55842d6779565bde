use relay_middleware::backend::CompiledBuiltinBackend;
use relay_middleware::config::{BuiltinBackendConfig, BuiltinDetector, PluginError, PolicySetting};
use relay_middleware::digest::hex_sha256;
use relay_middleware::json::{Json, Number};
use relay_middleware::mask::DetectorMasks;
use relay_middleware::serial::{sanitize_serializable_with_backend, JsonForm};

struct Starred;

impl DetectorMasks for Starred {
    fn default_mask(&self, _detector: &BuiltinDetector, text: &str, mask_char: &str) -> String {
        format!("<{}{}>", mask_char, text.len())
    }
}

fn config(action: &str, pattern: Option<&str>, targets: &[&str]) -> BuiltinBackendConfig {
    BuiltinBackendConfig {
        preset: None,
        custom_mark_payload_policy: PolicySetting { name: "preserve".to_string(), policy: None },
        detector: None,
        pattern: pattern.map(|pattern| pattern.to_string()),
        action: action.to_string(),
        target_paths: targets.iter().map(|target| target.to_string()).collect(),
        replacement: None,
        mask_char: None,
        unmasked_prefix: None,
        unmasked_suffix: None,
    }
}

fn backend(action: &str, pattern: Option<&str>, targets: &[&str]) -> CompiledBuiltinBackend {
    CompiledBuiltinBackend::new(config(action, pattern, targets), None).unwrap()
}

fn text(value: &str) -> Json {
    Json::String(value.to_string())
}

fn object(entries: Vec<(&str, Json)>) -> Json {
    Json::Object(entries.into_iter().map(|(key, value)| (key.to_string(), value)).collect())
}

fn shown(value: &Json) -> String {
    format!("{:?}", value)
}

fn one(backend: &CompiledBuiltinBackend, value: &str) -> Option<String> {
    match backend.sanitize_string_value(value.to_string(), &Starred) {
        Some(Json::String(text)) => Some(text),
        None => None,
        other => panic!("{:?}", other),
    }
}

fn sample() -> Json {
    object(vec![
        ("id", Json::Number(Number::PosInt(5))),
        ("name", text("Ada")),
        ("list", Json::Array(vec![text("a"), Json::Bool(true), object(vec![("x/y", text("b"))])])),
    ])
}

#[test]
fn hashing_puts_a_digest() {
    assert_eq!(one(&backend("hash", None, &[]), "abc"), Some(hex_sha256("abc")));
    assert_eq!(
        one(&backend("hash", Some("[0-9]+"), &[]), "a 12 b 3"),
        Some(format!("a {} b {}", hex_sha256("12"), hex_sha256("3")))
    );
}

#[test]
fn masking_hides_matches() {
    assert_eq!(one(&backend("mask", None, &[]), "abc"), Some("***".to_string()));
    assert_eq!(
        one(&backend("mask", Some("[0-9]+"), &[]), "a 12 b 3"),
        Some("a ** b *".to_string())
    );
    let mut keeping = config("mask", Some("[a-z]+@[a-z]+"), &[]);
    keeping.unmasked_prefix = Some(1);
    keeping.mask_char = Some("#".to_string());
    let keeping = CompiledBuiltinBackend::new(keeping, None).unwrap();
    assert_eq!(one(&keeping, "to ada@home."), Some("to a#######.".to_string()));
}

#[test]
fn masking_asks_the_detector() {
    let mut asked = config("mask", None, &[]);
    asked.detector = Some(Ok(BuiltinDetector { kind: 3, pattern: "[0-9]+".to_string() }));
    let asked = CompiledBuiltinBackend::new(asked, None).unwrap();
    assert_eq!(one(&asked, "tel 555"), Some("tel <*3>".to_string()));
}

#[test]
fn redacting_puts_the_replacement() {
    assert_eq!(
        one(&backend("redact", Some("[0-9]+"), &[]), "a 12 b 3"),
        Some("a [REDACTED] b [REDACTED]".to_string())
    );
    let mut groups = config("regex_replace", Some("(\\w+)@(\\w+)"), &[]);
    groups.replacement = Some("$2".to_string());
    let groups = CompiledBuiltinBackend::new(groups, None).unwrap();
    assert_eq!(one(&groups, "to ada@home now"), Some("to home now".to_string()));
}

#[test]
fn a_text_without_match_is_kept() {
    for action in ["hash", "mask", "redact", "regex_replace"] {
        assert_eq!(one(&backend(action, Some("[0-9]"), &[]), "none"), Some("none".to_string()));
    }
}

#[test]
fn a_whole_match_is_replaced() {
    assert_eq!(one(&backend("redact", Some("^.*$"), &[]), "all"), Some("[REDACTED]".to_string()));
    assert_eq!(one(&backend("hash", Some("^.*$"), &[]), "all"), Some(hex_sha256("all")));
}

#[test]
fn every_text_is_sanitized_without_targets() {
    let left = backend("mask", None, &[]).sanitize_json_preorder_dfs(sample(), &Starred);
    let expected = object(vec![
        ("id", Json::Number(Number::PosInt(5))),
        ("name", text("***")),
        ("list", Json::Array(vec![text("*"), Json::Bool(true), object(vec![("x/y", text("*"))])])),
    ]);
    assert_eq!(shown(&left), shown(&expected));
}

#[test]
fn removing_leaves_no_text() {
    let left = backend("remove", None, &[]).sanitize_json_preorder_dfs(sample(), &Starred);
    let expected = object(vec![
        ("id", Json::Number(Number::PosInt(5))),
        ("list", Json::Array(vec![Json::Null, Json::Bool(true), object(vec![])])),
    ]);
    assert_eq!(shown(&left), shown(&expected));
    let whole = backend("remove", None, &[]).sanitize_json_preorder_dfs(text("x"), &Starred);
    assert_eq!(shown(&whole), "Null");
}

#[test]
fn removing_again_changes_nothing() {
    for targets in [&[][..], &["/list/0", "/name"][..], &[""][..]] {
        let backend = backend("remove", None, targets);
        let once = backend.sanitize_json_preorder_dfs(sample(), &Starred);
        let before = shown(&once);
        assert_eq!(shown(&backend.sanitize_json_preorder_dfs(once, &Starred)), before);
    }
}

#[test]
fn only_the_targeted_text_changes() {
    let backend = backend("mask", None, &["/list/2/x~1y", "/list/1", "/none"]);
    let left = backend.sanitize_json_preorder_dfs(sample(), &Starred);
    let expected = object(vec![
        ("id", Json::Number(Number::PosInt(5))),
        ("name", text("Ada")),
        ("list", Json::Array(vec![text("a"), Json::Bool(true), object(vec![("x/y", text("*"))])])),
    ]);
    assert_eq!(shown(&left), shown(&expected));
}

#[test]
fn a_target_is_removed_whatever_it_is() {
    let backend = backend("remove", None, &["/id", "/list/1"]);
    let left = backend.sanitize_json_preorder_dfs(sample(), &Starred);
    let expected = object(vec![
        ("name", text("Ada")),
        ("list", Json::Array(vec![text("a"), Json::Null, object(vec![("x/y", text("b"))])])),
    ]);
    assert_eq!(shown(&left), shown(&expected));
}

#[test]
fn a_target_is_written_in_one_way() {
    let left = backend("mask", None, &["/list/00", "list/0", "/list/0/"])
        .sanitize_json_preorder_dfs(sample(), &Starred);
    assert_eq!(shown(&left), shown(&sample()));
}

#[test]
fn the_empty_target_is_the_whole_value() {
    let removed = backend("remove", None, &[""]).sanitize_json_preorder_dfs(sample(), &Starred);
    assert_eq!(shown(&removed), "Null");
    let masked = backend("mask", None, &[""]).sanitize_json_preorder_dfs(text("ab"), &Starred);
    assert_eq!(shown(&masked), shown(&text("**")));
    let kept = backend("mask", None, &[""]).sanitize_json_preorder_dfs(sample(), &Starred);
    assert_eq!(shown(&kept), shown(&sample()));
}

#[test]
fn the_path_is_as_it_was() {
    let backend = backend("mask", None, &["/a/0"]);
    let mut path = vec!["a".to_string()];
    let left = backend.sanitize_json_preorder_dfs_at_path(
        Json::Array(vec![text("xy"), text("z")]),
        &mut path,
        &Starred,
    );
    assert_eq!(path, vec!["a".to_string()]);
    assert_eq!(shown(&left.unwrap()), shown(&Json::Array(vec![text("**"), text("z")])));
    assert!(backend.matches_current_preorder_path(&["a".to_string(), "0".to_string()]));
    assert!(!backend.matches_current_preorder_path(&path));
}

#[test]
fn the_default_mask_changes_texts_alone() {
    let mut asked = config("mask", None, &[]);
    asked.detector = Some(Ok(BuiltinDetector { kind: 3, pattern: "[A-Z][a-z]+".to_string() }));
    let asked = CompiledBuiltinBackend::new(asked, None).unwrap();
    let left = asked.sanitize_json_preorder_dfs(sample(), &Starred);
    let expected = object(vec![
        ("id", Json::Number(Number::PosInt(5))),
        ("name", text("<*3>")),
        ("list", Json::Array(vec![text("a"), Json::Bool(true), object(vec![("x/y", text("b"))])])),
    ]);
    assert_eq!(shown(&left), shown(&expected));
}

#[test]
fn a_removed_entry_is_gone_and_a_removed_item_is_null() {
    let backend = backend("remove", None, &["/list/2/x~1y", "/list/0"]);
    let left = backend.sanitize_json_preorder_dfs(sample(), &Starred);
    let expected = object(vec![
        ("id", Json::Number(Number::PosInt(5))),
        ("name", text("Ada")),
        ("list", Json::Array(vec![Json::Null, Json::Bool(true), object(vec![])])),
    ]);
    assert_eq!(shown(&left), shown(&expected));
}

#[test]
fn what_is_left_at_a_path_is_none_only_where_it_is_removed() {
    let at = |backend: &CompiledBuiltinBackend, value: Json| {
        let mut path = vec!["a".to_string()];
        backend.sanitize_json_preorder_dfs_at_path(value, &mut path, &Starred).is_none()
    };
    assert!(at(&backend("remove", None, &["/a"]), Json::Bool(true)));
    assert!(!at(&backend("remove", None, &["/b"]), text("x")));
    assert!(at(&backend("remove", None, &[]), text("x")));
    assert!(!at(&backend("remove", None, &[]), Json::Array(vec![text("x")])));
    assert!(!at(&backend("mask", None, &["/a"]), text("x")));
}

struct Name(String);

struct NameForm;

impl JsonForm<Name> for NameForm {
    fn to_value(&self, value: &Name) -> Result<Json, String> {
        if value.0.is_empty() {
            Err("no name".to_string())
        } else {
            Ok(Json::String(value.0.clone()))
        }
    }

    fn from_value(&self, value: Json) -> Result<Name, String> {
        match value {
            Json::String(name) => Ok(Name(name)),
            _ => Err("not a name".to_string()),
        }
    }
}

#[test]
fn a_value_is_sanitized_by_its_form() {
    let mask = backend("mask", None, &[]);
    let left = sanitize_serializable_with_backend(&mask, &Name("Ada".to_string()), &NameForm, &Starred);
    assert_eq!(left.unwrap().0, "***");
}

#[test]
fn a_value_without_its_form_is_an_error() {
    let mask = backend("mask", None, &[]);
    match sanitize_serializable_with_backend(&mask, &Name(String::new()), &NameForm, &Starred) {
        Err(PluginError::Internal(message)) => {
            assert_eq!(message, "failed to serialize value for PII redaction: no name")
        }
        _ => panic!("no error"),
    }
    let remove = backend("remove", None, &[]);
    match sanitize_serializable_with_backend(&remove, &Name("Ada".to_string()), &NameForm, &Starred) {
        Err(PluginError::Internal(message)) => assert_eq!(
            message,
            "failed to deserialize sanitized value for PII redaction: not a name"
        ),
        _ => panic!("no error"),
    }
}
