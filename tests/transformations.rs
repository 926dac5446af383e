use transformations::config::{
    BodyParseBehavior, BodyTransform, LocalTransform, LocalTransformationConfig, NameValuePair,
};
use transformations::functions::{
    base64_decode, base64_encode, base64url_decode, base64url_encode, decoded_text, lookup_env,
    lookup_header, random_token, raw_string, replace_with_random, replace_with_string, substring,
    unquote,
};
use transformations::jinja::{
    is_function_name, undeclared_names, ConfigError, RenderContext, RenderError, TemplateRegistry,
};
use transformations::ops::{HostOp, RecordingOps, Side};
use transformations::text::{contains_text, decimal_digits, eq_ignore_ascii_case, replace_text, same_text};
use transformations::transform::{
    combine_errors, transform_request_headers, transform_response_headers, TransformError,
};

fn pair(name: &str, value: &str) -> NameValuePair {
    NameValuePair { name: name.to_string(), value: value.to_string() }
}

fn headers() -> Vec<(String, String)> {
    vec![
        ("host".to_string(), "example.com".to_string()),
        ("x-donor".to_string(), "thedonorvalue".to_string()),
    ]
}

fn set_only(set: Vec<NameValuePair>) -> LocalTransform {
    LocalTransform { add: vec![], set, remove: vec![], body: None }
}

fn set_op(side: Side, name: &str, value: &str) -> HostOp {
    HostOp::SetHeader { side, name: name.to_string(), value: value.as_bytes().to_vec() }
}

fn read_op(body: &str) -> HostOp {
    HostOp::ReadBody { side: Side::Request, data: body.as_bytes().to_vec() }
}

fn remove_op(side: Side, name: &str) -> HostOp {
    HostOp::RemoveHeader { side, name: name.to_string() }
}

fn registry_for(request: LocalTransform) -> TemplateRegistry {
    let config = LocalTransformationConfig { request: Some(request), response: None };
    TemplateRegistry::new(&config, vec![]).expect("templates compile")
}

fn run_request(t: &LocalTransform, body: &str) -> (Result<(), TransformError>, RecordingOps) {
    let registry = registry_for(t.clone());
    let mut ops = RecordingOps::new(body.as_bytes().to_vec(), vec![]);
    let r = transform_request_headers(t, &registry, &headers(), &mut ops);
    (r, ops)
}

#[test]
fn test_injected_functions() {
    let config = LocalTransformationConfig {
        request: Some(set_only(vec![
            pair("X-substring", "{{substring(\"ENVOYPROXY something\", 5, 5) }}"),
            pair("X-substring-no-3rd", "{{substring(\"ENVOYPROXY something\", 5) }}"),
            pair("X-donor-header-contents", "{{ header(\"x-donor\") }}"),
            pair("X-donor-header-substringed", "{{ substring( header(\"x-donor\"), 0, 7)}}"),
        ])),
        response: Some(set_only(vec![pair("X-Bar", "foo")])),
    };
    let registry = TemplateRegistry::new(&config, vec![]).expect("templates compile");
    let mut ops = RecordingOps::new(vec![], vec![]);
    let r = transform_request_headers(config.request.as_ref().unwrap(), &registry, &headers(), &mut ops);
    assert!(r.is_ok());
    assert_eq!(
        ops.ops,
        vec![
            set_op(Side::Request, "X-substring", "PROXY"),
            set_op(Side::Request, "X-substring-no-3rd", "PROXY something"),
            set_op(Side::Request, "X-donor-header-contents", "thedonorvalue"),
            set_op(Side::Request, "X-donor-header-substringed", "thedono"),
        ]
    );
    let mut ops = RecordingOps::new(vec![], vec![]);
    let r = transform_response_headers(
        config.response.as_ref().unwrap(),
        &registry,
        &headers(),
        &headers(),
        &mut ops,
    );
    assert!(r.is_ok());
    assert_eq!(ops.ops, vec![set_op(Side::Response, "X-Bar", "foo")]);
}

#[test]
fn test_minininja_functionality() {
    let config = LocalTransformationConfig {
        request: Some(set_only(vec![pair("X-if-truth", "{%- if true -%}supersuper{% endif %}")])),
        response: Some(set_only(vec![pair("X-Bar", "foo")])),
    };
    let registry = TemplateRegistry::new(&config, vec![]).expect("templates compile");
    let mut ops = RecordingOps::new(vec![], vec![]);
    let r = transform_request_headers(config.request.as_ref().unwrap(), &registry, &headers(), &mut ops);
    assert!(r.is_ok());
    assert_eq!(ops.ops, vec![set_op(Side::Request, "X-if-truth", "supersuper")]);
    let mut ops = RecordingOps::new(vec![], vec![]);
    let r = transform_response_headers(
        config.response.as_ref().unwrap(),
        &registry,
        &headers(),
        &headers(),
        &mut ops,
    );
    assert!(r.is_ok());
    assert_eq!(ops.ops, vec![set_op(Side::Response, "X-Bar", "foo")]);
}

#[test]
fn substring_with_length() {
    assert_eq!(substring("ENVOYPROXY something", 5, Some(5)), "PROXY");
}

#[test]
fn substring_length_ten() {
    assert_eq!(substring("ENVOYPROXY something", 5, Some(10)), "PROXY some");
    let t = set_only(vec![pair("X-substring", "{{substring(\"ENVOYPROXY something\", 5, 10) }}")]);
    let (r, ops) = run_request(&t, "");
    assert!(r.is_ok());
    assert_eq!(ops.ops, vec![set_op(Side::Request, "X-substring", "PROXY some")]);
}

#[test]
fn builtin_functions_are_not_json_variables() {
    let t = set_only(vec![pair("X-range", "{% for i in range(3) %}{{ i }}{% endfor %}")]);
    let (r, ops) = run_request(&t, "");
    assert!(r.is_ok());
    assert_eq!(ops.ops, vec![set_op(Side::Request, "X-range", "012")]);
}

#[test]
fn template_text_never_selects_escaping() {
    let t = set_only(vec![pair("X-html", "{{ \"<b>\" }}x.html")]);
    let (r, ops) = run_request(&t, "");
    assert!(r.is_ok());
    assert_eq!(ops.ops, vec![set_op(Side::Request, "X-html", "<b>x.html")]);
}

#[test]
fn response_side_reads_both_header_lists() {
    let t = set_only(vec![pair("A", "{{ header('k') }}"), pair("B", "{{ request_header('k') }}")]);
    let config = LocalTransformationConfig { request: None, response: Some(t.clone()) };
    let registry = TemplateRegistry::new(&config, vec![]).unwrap();
    let request = vec![("k".to_string(), "req".to_string())];
    let response = vec![("k".to_string(), "resp".to_string())];
    let mut ops = RecordingOps::new(vec![], vec![]);
    assert!(transform_response_headers(&t, &registry, &request, &response, &mut ops).is_ok());
    assert_eq!(ops.ops, vec![set_op(Side::Response, "A", "resp"), set_op(Side::Response, "B", "req")]);
}

#[test]
fn substring_without_length() {
    assert_eq!(substring("ENVOYPROXY something", 5, None), "PROXY something");
}

#[test]
fn substring_start_past_end() {
    assert_eq!(substring("ENVOYPROXY something", 20, None), "");
    assert_eq!(substring("ENVOYPROXY something", 99, Some(3)), "");
    assert_eq!(substring("", 0, None), "");
}

#[test]
fn substring_length_overruns() {
    assert_eq!(substring("abcdef", 4, Some(10)), "ef");
    assert_eq!(substring("abcdef", 2, Some(usize::MAX)), "cdef");
    assert_eq!(substring("abcdef", 2, Some(0)), "");
}

#[test]
fn substring_off_char_boundary_is_empty() {
    assert_eq!(substring("héllo", 2, Some(2)), "");
    assert_eq!(substring("héllo", 1, Some(2)), "é");
}

#[test]
fn header_lookup_ignores_case() {
    assert_eq!(lookup_header(&headers(), "x-donor"), "thedonorvalue");
    assert_eq!(lookup_header(&headers(), "X-Donor"), "thedonorvalue");
    assert_eq!(lookup_header(&headers(), "x-missing"), "");
}

#[test]
fn header_lookup_takes_last_duplicate() {
    let h = vec![("a".to_string(), "1".to_string()), ("A".to_string(), "2".to_string())];
    assert_eq!(lookup_header(&h, "a"), "2");
}

#[test]
fn header_function_in_template() {
    let t = set_only(vec![
        pair("X-1", "{{ header(\"X-DONOR\") }}"),
        pair("X-2", "{{ substring(header(\"x-donor\"), 0, 7) }}"),
    ]);
    let (r, ops) = run_request(&t, "");
    assert!(r.is_ok());
    assert_eq!(
        ops.ops,
        vec![set_op(Side::Request, "X-1", "thedonorvalue"), set_op(Side::Request, "X-2", "thedono")]
    );
}

#[test]
fn request_header_on_response_side() {
    let t = set_only(vec![
        pair("X-req", "{{ request_header(\"x-donor\") }}"),
        pair("X-resp", "{{ header(\"server\") }}"),
    ]);
    let config = LocalTransformationConfig { request: None, response: Some(t.clone()) };
    let registry = TemplateRegistry::new(&config, vec![]).unwrap();
    let response = vec![("server".to_string(), "envoy".to_string())];
    let mut ops = RecordingOps::new(vec![], vec![]);
    let r = transform_response_headers(&t, &registry, &headers(), &response, &mut ops);
    assert!(r.is_ok());
    assert_eq!(
        ops.ops,
        vec![set_op(Side::Response, "X-req", "thedonorvalue"), set_op(Side::Response, "X-resp", "envoy")]
    );
}

#[test]
fn control_flow_renders_without_json() {
    let t = set_only(vec![pair("X-if-truth", "{%- if true -%}supersuper{% endif %}")]);
    let (r, ops) = run_request(&t, "");
    assert!(r.is_ok());
    assert_eq!(ops.ops, vec![set_op(Side::Request, "X-if-truth", "supersuper")]);
}

#[test]
fn json_field_without_json_parsing_aborts() {
    let t = LocalTransform {
        add: vec![pair("X-added", "yes")],
        set: vec![pair("X-first", "one"), pair("X-user", "{{ user.name }}"), pair("X-later", "two")],
        remove: vec!["host".to_string()],
        body: None,
    };
    let (r, ops) = run_request(&t, "");
    match r {
        Err(TransformError::UndeclaredJsonVariables(names)) => assert_eq!(names, vec!["user".to_string()]),
        other => panic!("unexpected result {:?}", other),
    }
    assert_eq!(ops.ops, vec![set_op(Side::Request, "X-first", "one")]);
}

#[test]
fn json_field_with_string_body_mode_aborts() {
    let t = LocalTransform {
        add: vec![],
        set: vec![pair("X-user", "{{ user }}")],
        remove: vec![],
        body: Some(BodyTransform { parse_as: BodyParseBehavior::AsString, value: String::new() }),
    };
    let (r, ops) = run_request(&t, "{\"user\": \"x\"}");
    assert!(matches!(r, Err(TransformError::UndeclaredJsonVariables(_))));
    assert_eq!(ops.ops, vec![]);
}

#[test]
fn json_field_with_json_parsing_renders() {
    let t = LocalTransform {
        add: vec![],
        set: vec![pair("X-user", "{{ user.name }}")],
        remove: vec![],
        body: Some(BodyTransform { parse_as: BodyParseBehavior::AsJson, value: String::new() }),
    };
    let (r, ops) = run_request(&t, "{\"user\": {\"name\": \"ann\"}}");
    assert!(r.is_ok());
    assert_eq!(
        ops.ops,
        vec![read_op("{\"user\": {\"name\": \"ann\"}}"), set_op(Side::Request, "X-user", "ann")]
    );
}

#[test]
fn malformed_json_body_aborts() {
    let t = LocalTransform {
        add: vec![],
        set: vec![pair("X-a", "a")],
        remove: vec![],
        body: Some(BodyTransform { parse_as: BodyParseBehavior::AsJson, value: String::new() }),
    };
    let (r, ops) = run_request(&t, "{not json");
    assert!(matches!(r, Err(TransformError::BodyParse(_))));
    assert_eq!(ops.ops, vec![read_op("{not json")]);
}

#[test]
fn empty_body_with_json_parsing_is_no_error() {
    let t = LocalTransform {
        add: vec![],
        set: vec![pair("X-a", "a")],
        remove: vec![],
        body: Some(BodyTransform { parse_as: BodyParseBehavior::AsJson, value: String::new() }),
    };
    let (r, ops) = run_request(&t, "");
    assert!(r.is_ok());
    assert_eq!(ops.ops, vec![read_op(""), set_op(Side::Request, "X-a", "a")]);
}

#[test]
fn empty_set_value_removes_header() {
    let t = set_only(vec![pair("x-donor", "")]);
    let (r, ops) = run_request(&t, "");
    assert!(r.is_ok());
    assert_eq!(ops.ops, vec![remove_op(Side::Request, "x-donor")]);
}

#[test]
fn remove_runs_after_set_and_add() {
    let t = LocalTransform {
        add: vec![pair("X-a", "added")],
        set: vec![pair("X-a", "set")],
        remove: vec!["X-a".to_string()],
        body: None,
    };
    let (r, ops) = run_request(&t, "");
    assert!(r.is_ok());
    assert_eq!(
        ops.ops,
        vec![
            set_op(Side::Request, "X-a", "set"),
            HostOp::AddHeader { side: Side::Request, name: "X-a".to_string(), value: b"added".to_vec() },
            remove_op(Side::Request, "X-a"),
        ]
    );
}

#[test]
fn empty_render_removes_for_set_and_skips_for_add() {
    let t = LocalTransform {
        add: vec![pair("X-add", "{% if false %}x{% endif %}"), pair("X-none", "")],
        set: vec![pair("X-set", "{% if false %}x{% endif %}")],
        remove: vec![],
        body: None,
    };
    let (r, ops) = run_request(&t, "");
    assert!(r.is_ok());
    assert_eq!(ops.ops, vec![remove_op(Side::Request, "X-set")]);
}

#[test]
fn render_failure_removes_header_and_is_reported() {
    let t = LocalTransform {
        add: vec![pair("X-add", "{{ substring() }}")],
        set: vec![pair("X-bad", "{{ substring() }}"), pair("X-good", "ok")],
        remove: vec![],
        body: None,
    };
    let (r, ops) = run_request(&t, "");
    assert_eq!(ops.ops, vec![remove_op(Side::Request, "X-bad"), set_op(Side::Request, "X-good", "ok")]);
    match r {
        Err(TransformError::Rendering(m)) => {
            assert!(m.starts_with("transform_request_headers(): "));
            assert_eq!(m.matches("; ").count(), 1);
        },
        other => panic!("unexpected result {:?}", other),
    }
}

#[test]
fn identical_runs_give_identical_operations() {
    let t = LocalTransform {
        add: vec![pair("X-add", "{{ header(\"host\") }}")],
        set: vec![pair("X-set", "{{ substring(header(\"x-donor\"), 3) }}"), pair("X-empty", "")],
        remove: vec!["host".to_string()],
        body: Some(BodyTransform { parse_as: BodyParseBehavior::AsJson, value: "{{ a }}".to_string() }),
    };
    let (r1, ops1) = run_request(&t, "{\"a\": \"b\"}");
    let (r2, ops2) = run_request(&t, "{\"a\": \"b\"}");
    assert!(r1.is_ok() && r2.is_ok());
    assert_eq!(ops1.ops, ops2.ops);
    assert_eq!(ops1.request_body, ops2.request_body);
}

#[test]
fn empty_transform_does_nothing() {
    let t = LocalTransform::default();
    assert!(t.is_empty());
    let (r, ops) = run_request(&t, "{}");
    assert!(r.is_ok());
    assert!(ops.ops.is_empty());
    let t = LocalTransform {
        body: Some(BodyTransform { parse_as: BodyParseBehavior::AsString, value: String::new() }),
        ..LocalTransform::default()
    };
    assert!(t.is_empty());
    let (r, ops) = run_request(&t, "{}");
    assert!(r.is_ok());
    assert!(ops.ops.is_empty());
}

#[test]
fn non_empty_transforms() {
    let json_only = LocalTransform {
        body: Some(BodyTransform { parse_as: BodyParseBehavior::AsJson, value: String::new() }),
        ..LocalTransform::default()
    };
    assert!(!json_only.is_empty());
    assert!(!LocalTransform { remove: vec!["a".to_string()], ..LocalTransform::default() }.is_empty());
    assert!(!set_only(vec![pair("a", "")]).is_empty());
}

#[test]
fn body_rewrite_from_json() {
    let t = LocalTransform {
        body: Some(BodyTransform { parse_as: BodyParseBehavior::AsJson, value: "{{ a }}!".to_string() }),
        ..LocalTransform::default()
    };
    let (r, ops) = run_request(&t, "{\"a\": \"hello\"}");
    assert!(r.is_ok());
    assert_eq!(
        ops.ops,
        vec![
            read_op("{\"a\": \"hello\"}"),
            HostOp::DrainBody { side: Side::Request, len: 14 },
            HostOp::AppendBody { side: Side::Request, data: b"hello!".to_vec() },
            set_op(Side::Request, "content-length", "6"),
        ]
    );
    assert_eq!(ops.request_body, b"hello!".to_vec());
}

#[test]
fn body_accessor_reads_raw_body() {
    let t = LocalTransform {
        body: Some(BodyTransform { parse_as: BodyParseBehavior::AsString, value: "[{{ body() }}]".to_string() }),
        ..LocalTransform::default()
    };
    let (r, ops) = run_request(&t, "raw");
    assert!(r.is_ok());
    assert_eq!(ops.request_body, b"[raw]".to_vec());
    assert_eq!(ops.ops[0], read_op("raw"));
    assert_eq!(ops.ops.len(), 4);
}

#[test]
fn context_accessor_reads_parsed_body() {
    let t = LocalTransform {
        body: Some(BodyTransform { parse_as: BodyParseBehavior::AsJson, value: "{{ context().k }}".to_string() }),
        ..LocalTransform::default()
    };
    let (r, ops) = run_request(&t, "{\"k\": \"v\"}");
    assert!(r.is_ok());
    assert_eq!(ops.request_body, b"v".to_vec());
}

#[test]
fn empty_body_render_clears_body_headers() {
    let t = LocalTransform {
        body: Some(BodyTransform { parse_as: BodyParseBehavior::AsString, value: "{% if false %}x{% endif %}".to_string() }),
        ..LocalTransform::default()
    };
    let (r, ops) = run_request(&t, "old");
    assert!(r.is_ok());
    assert_eq!(
        ops.ops,
        vec![
            read_op("old"),
            HostOp::DrainBody { side: Side::Request, len: 3 },
            set_op(Side::Request, "content-length", "0"),
            remove_op(Side::Request, "content-type"),
        ]
    );
    assert!(ops.request_body.is_empty());
}

#[test]
fn failed_body_render_is_recoverable() {
    let t = LocalTransform {
        set: vec![pair("X-a", "a")],
        body: Some(BodyTransform { parse_as: BodyParseBehavior::AsJson, value: "{{ substring() }}".to_string() }),
        ..LocalTransform::default()
    };
    let (r, ops) = run_request(&t, "{}");
    assert!(matches!(r, Err(TransformError::Rendering(_))));
    assert_eq!(ops.ops.len(), 5);
    assert_eq!(ops.ops[4], set_op(Side::Request, "X-a", "a"));
}

#[test]
fn add_entries_add_headers() {
    let t = LocalTransform { add: vec![pair("X-a", "{{ 1 + 2 }}")], ..LocalTransform::default() };
    let (r, ops) = run_request(&t, "");
    assert!(r.is_ok());
    assert_eq!(
        ops.ops,
        vec![HostOp::AddHeader { side: Side::Request, name: "X-a".to_string(), value: b"3".to_vec() }]
    );
}

#[test]
fn env_function_reads_snapshot() {
    let t = set_only(vec![pair("X-home", "{{ env(\"HOME_DIR\") }}"), pair("X-none", "{{ env(\"UNSET\") }}")]);
    let config = LocalTransformationConfig { request: Some(t.clone()), response: None };
    let registry = TemplateRegistry::new(&config, vec![("HOME_DIR".to_string(), "/home/a".to_string())]).unwrap();
    let mut ops = RecordingOps::new(vec![], vec![]);
    assert!(transform_request_headers(&t, &registry, &headers(), &mut ops).is_ok());
    assert_eq!(ops.ops, vec![set_op(Side::Request, "X-home", "/home/a"), remove_op(Side::Request, "X-none")]);
}

#[test]
fn invalid_template_fails_configuration() {
    let config = LocalTransformationConfig { request: Some(set_only(vec![pair("X", "{{ ")])), response: None };
    match TemplateRegistry::new(&config, vec![]) {
        Err(ConfigError::InvalidTemplate { template, .. }) => assert_eq!(template, "{{ "),
        _ => panic!("expected a template error"),
    }
}

#[test]
fn render_paths() {
    let registry = registry_for(set_only(vec![pair("X", "{{ header(\"a\") }}"), pair("Y", "{{ v }}")]));
    let ctx = RenderContext {
        headers: vec![("a".to_string(), "1".to_string())],
        request_headers: vec![],
        raw_body: None,
        json_body: None,
        expose_json_body: false,
    };
    assert_eq!(registry.render("", &ctx, false).unwrap(), "");
    assert!(matches!(registry.render("{{ nope }}", &ctx, true), Err(RenderError::Failed(_))));
    match registry.render("{{ v }}", &ctx, false) {
        Err(RenderError::UndeclaredJsonVariables(n)) => assert_eq!(n, vec!["v".to_string()]),
        _ => panic!("expected undeclared variables"),
    }
    assert_eq!(registry.render("{{ header(\"a\") }}", &ctx, false).unwrap(), "1");
}

#[test]
fn undeclared_names_keep_non_functions() {
    let names = vec!["header".to_string(), "user".to_string(), "env".to_string(), "x".to_string()];
    assert_eq!(undeclared_names(&names), vec!["user".to_string(), "x".to_string()]);
    assert!(is_function_name("raw_string"));
    assert!(is_function_name("range"));
    assert!(!is_function_name("headers"));
}

#[test]
fn combine_errors_joins_messages() {
    assert_eq!(combine_errors("m", &vec![]), Ok(()));
    assert_eq!(combine_errors("m", &vec!["a".to_string(), "b".to_string()]), Err("m: a; b".to_string()));
    assert_eq!(combine_errors("m", &vec!["a".to_string()]), Err("m: a".to_string()));
}

#[test]
fn critical_errors() {
    assert!(TransformError::BodyParse("x".to_string()).is_critical());
    assert!(TransformError::UndeclaredJsonVariables(vec![]).is_critical());
    assert!(!TransformError::Rendering("x".to_string()).is_critical());
}

#[test]
fn base64_standard_round() {
    assert_eq!(base64_encode(b"hello?>"), "aGVsbG8/Pg==");
    assert_eq!(base64_decode("aGVsbG8/Pg=="), "hello?>");
    assert_eq!(base64_decode("not base64!"), "");
    assert_eq!(base64_decode("/w=="), "");
}

#[test]
fn base64_url_round() {
    assert_eq!(base64url_encode(b"hello?>"), "aGVsbG8_Pg");
    assert_eq!(base64url_decode("aGVsbG8_Pg"), "hello?>");
    assert_eq!(base64url_decode("***"), "");
}

#[test]
fn decoded_text_cases() {
    assert_eq!(decoded_text(Some(b"ok".to_vec())), "ok");
    assert_eq!(decoded_text(Some(vec![0xff])), "");
    assert_eq!(decoded_text(None), "");
}

#[test]
fn replace_functions() {
    assert_eq!(replace_with_string("a-b-c", "-", "+"), "a+b+c");
    assert_eq!(replace_text("abc", "", "x"), "xaxbxcx");
    assert_eq!(replace_text("aaa", "aa", "b"), "ba");
    let r = replace_with_random("id=MARK;MARK", "MARK");
    assert!(!r.contains("MARK"));
    assert!(r.starts_with("id="));
    assert_eq!(r.len(), "id=".len() + 22 + 1 + 22);
}

#[test]
fn random_token_encoding() {
    assert_eq!(random_token(0, 0), "AAAAAAAAAAAAAAAAAAAAAA");
    assert_eq!(random_token(1, 0), "AQAAAAAAAAAAAAAAAAAAAA");
}

#[test]
fn raw_string_escapes() {
    assert_eq!(raw_string("a\"b\nc"), "a\\\"b\\nc");
    assert_eq!(raw_string("plain"), "plain");
    assert_eq!(unquote("\"x\""), "x");
    assert_eq!(unquote("x"), "x");
}

#[test]
fn env_lookup() {
    let vars = vec![("A".to_string(), "1".to_string()), ("A".to_string(), "2".to_string())];
    assert_eq!(lookup_env(&vars, "A"), "2");
    assert_eq!(lookup_env(&vars, "a"), "");
}

#[test]
fn text_helpers() {
    assert!(contains_text("say body() here", "body()"));
    assert!(!contains_text("bod", "body()"));
    assert!(contains_text("x", ""));
    assert!(eq_ignore_ascii_case("Content-Type", "content-type"));
    assert!(!eq_ignore_ascii_case("a", "b"));
    assert!(same_text("é", "é"));
    assert_eq!(decimal_digits(0), b"0".to_vec());
    assert_eq!(decimal_digits(1234), b"1234".to_vec());
}

#[test]
fn header_from_context_pairs() {
    assert_eq!(transformations::functions::header_from(Some(headers()), "HOST"), "example.com");
    assert_eq!(transformations::functions::header_from(None, "host"), "");
    assert_eq!(transformations::functions::text_or_empty(Some("b".to_string())), "b");
    assert_eq!(transformations::functions::text_or_empty(None), "");
}

#[test]
fn join_texts_separates() {
    let items = vec!["a".to_string(), "b".to_string(), "c".to_string()];
    assert_eq!(transformations::text::join_texts(&items, ": "), "a: b: c");
    assert_eq!(transformations::text::join_texts(&vec![], ": "), "");
}

#[test]
fn build_context_fields() {
    let t = LocalTransform {
        body: Some(BodyTransform { parse_as: BodyParseBehavior::AsString, value: "{{ body() }}".to_string() }),
        ..LocalTransform::default()
    };
    let request = vec![("r".to_string(), "1".to_string())];
    let ctx = transformations::transform::build_context(&t, &headers(), &request, &b"abc".to_vec(), None);
    assert_eq!(ctx.headers, headers());
    assert_eq!(ctx.request_headers, request);
    assert_eq!(ctx.raw_body, Some("abc".to_string()));
    assert!(ctx.json_body.is_none());
    assert!(!ctx.expose_json_body);
}

#[test]
fn unclosed_template_fails_load() {
    let config = LocalTransformationConfig {
        request: Some(set_only(vec![pair("X", "ok")])),
        response: Some(LocalTransform { add: vec![pair("Y", "{{ unclosed")], ..LocalTransform::default() }),
    };
    match TemplateRegistry::new(&config, vec![]) {
        Err(ConfigError::InvalidTemplate { template, message }) => {
            assert_eq!(template, "{{ unclosed");
            assert!(!message.is_empty());
        },
        _ => panic!("expected a template error"),
    }
}
