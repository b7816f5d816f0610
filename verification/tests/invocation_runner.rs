use jjs::invocation::{
    build_exec_request, env_entry_value, env_item_fault, image_env_entries, prepare_request,
    request_fault, EnvFault, RequestFault,
};
use jjs::json::Json;
use jjs::runner::{
    all_healthy, approval_file_name, base_image_tag, classify_status, environment_name, image_hash,
    invoker_exec_url, outputs_export_path, rand_suf, randomize, readiness_after_check, suffix_from_draws,
    ReadinessAction, ResponseKind, READINESS_ATTEMPTS, READINESS_POLL_MILLIS,
};

fn s(text: &str) -> Json {
    Json::Str(text.to_string())
}

fn obj(fields: Vec<(&str, Json)>) -> Json {
    Json::Object(fields.into_iter().map(|(k, v)| (k.to_string(), v)).collect())
}

fn entry(name: &str, value: &str) -> Json {
    obj(vec![("name", s(name)), ("value", obj(vec![("plain", s(value))]))])
}

fn description(env: Json) -> Json {
    Json::Array(vec![obj(vec![("Id", s("sha256:abc123")), ("Config", obj(vec![("Env", env)]))])])
}

#[test]
fn env_entries_split_at_first_equals() {
    let desc = description(Json::Array(vec![s("PATH=/usr/bin"), s("OPTS=a=b"), s("EMPTY=")]));
    assert_eq!(
        image_env_entries(&desc),
        Ok(vec![entry("PATH", "/usr/bin"), entry("OPTS", "a=b"), entry("EMPTY", "")])
    );
}

#[test]
fn env_entries_faults() {
    assert_eq!(image_env_entries(&Json::Array(vec![])), Err(EnvFault::EnvMissing));
    assert_eq!(image_env_entries(&description(s("PATH=x"))), Err(EnvFault::EnvNotArray));
    assert_eq!(env_item_fault(&Json::Array(vec![])), None);
    assert_eq!(env_item_fault(&description(s("PATH=x"))), None);
    assert_eq!(env_item_fault(&description(Json::Array(vec![s("A=1"), s("B=")]))), None);
    assert_eq!(
        env_item_fault(&description(Json::Array(vec![s("A=1"), Json::Null]))),
        Some(EnvFault::EntryNotString { index: 1 })
    );
    assert_eq!(
        env_item_fault(&description(Json::Array(vec![s("NOVALUE")]))),
        Some(EnvFault::EntryWithoutValue { index: 0 })
    );
    assert_eq!(
        env_item_fault(&description(Json::Array(vec![s("A=1"), s("NOVALUE"), Json::Null]))),
        Some(EnvFault::EntryWithoutValue { index: 1 })
    );
}

#[test]
fn env_entry_shape() {
    assert_eq!(env_entry_value("A".to_string(), "1".to_string()), entry("A", "1"));
}

fn exec_step(env: Vec<Json>) -> Json {
    obj(vec![("action", obj(vec![("executeCommand", obj(vec![("argv", Json::Array(vec![])), ("env", Json::Array(env))]))]))])
}

#[test]
fn prepare_request_sets_id_and_extends_env() {
    let other = obj(vec![("action", obj(vec![("openFile", obj(vec![]))]))]);
    let body = obj(vec![("steps", Json::Array(vec![exec_step(vec![entry("X", "1")]), other.duplicate()]))]);
    let envs = vec![entry("PATH", "/bin")];
    let prepared = prepare_request(&body, "req-1".to_string(), &envs);
    let expected = obj(vec![
        ("steps", Json::Array(vec![exec_step(vec![entry("X", "1"), entry("PATH", "/bin")]), other])),
        ("id", s("req-1")),
    ]);
    assert_eq!(prepared, expected);
}

#[test]
fn prepare_request_replaces_existing_id() {
    let body = obj(vec![("id", s("old")), ("steps", Json::Array(vec![]))]);
    let prepared = prepare_request(&body, "new".to_string(), &vec![]);
    assert_eq!(prepared, obj(vec![("id", s("new")), ("steps", Json::Array(vec![]))]));
}

#[test]
fn prepare_request_faults() {
    assert_eq!(request_fault(&Json::Null), Some(RequestFault::NotObject));
    assert_eq!(request_fault(&obj(vec![])), Some(RequestFault::StepsMissing));
    assert_eq!(request_fault(&obj(vec![("steps", s("x"))])), Some(RequestFault::StepsNotArray));
    let steps = |step: Json| obj(vec![("steps", Json::Array(vec![exec_step(vec![]), step]))]);
    assert_eq!(request_fault(&steps(obj(vec![]))), Some(RequestFault::ActionMissing { index: 1 }));
    assert_eq!(
        request_fault(&steps(obj(vec![("action", s("x"))]))),
        Some(RequestFault::ActionNotObject { index: 1 })
    );
    assert_eq!(
        request_fault(&steps(obj(vec![("action", obj(vec![("executeCommand", Json::Null)]))]))),
        Some(RequestFault::ExecuteCommandNotObject { index: 1 })
    );
    assert_eq!(
        request_fault(&steps(obj(vec![("action", obj(vec![("executeCommand", obj(vec![]))]))]))),
        Some(RequestFault::EnvMissing { index: 1 })
    );
    assert_eq!(
        request_fault(&steps(obj(vec![(
            "action",
            obj(vec![("executeCommand", obj(vec![("env", Json::Null)]))])
        )]))),
        Some(RequestFault::EnvNotArray { index: 1 })
    );
    assert_eq!(request_fault(&steps(exec_step(vec![entry("A", "b")]))), None);
    assert_eq!(request_fault(&obj(vec![("steps", Json::Array(vec![]))])), None);
}

#[test]
fn step_without_execute_command_is_unchanged() {
    let step = obj(vec![("action", obj(vec![("other", Json::Null)]))]);
    let body = obj(vec![("steps", Json::Array(vec![step.duplicate()]))]);
    assert_eq!(request_fault(&body), None);
    let prepared = prepare_request(&body, "i".to_string(), &vec![entry("A", "b")]);
    assert_eq!(prepared, obj(vec![("steps", Json::Array(vec![step])), ("id", s("i"))]));
}

#[test]
fn exec_request_gets_a_hyphenated_uuid() {
    let body = obj(vec![("steps", Json::Array(vec![]))]);
    let built = build_exec_request(&body, &vec![]);
    let id = match built.member("id") {
        Some(Json::Str(id)) => id.clone(),
        other => panic!("no id: {:?}", other),
    };
    assert_eq!(id.len(), 36);
    for (i, c) in id.chars().enumerate() {
        if i == 8 || i == 13 || i == 18 || i == 23 {
            assert_eq!(c, '-');
        } else if i == 14 {
            assert_eq!(c, '4');
        } else if i == 19 {
            assert!("89ab".contains(c));
        } else {
            assert!(c.is_ascii_digit() || ('a'..='f').contains(&c));
        }
    }
    let second = build_exec_request(&body, &vec![]);
    assert_ne!(second.member("id"), built.member("id"));
}

#[test]
fn suffix_keeps_the_drawn_characters() {
    assert_eq!(suffix_from_draws(&vec!['a', 'Z', '0', 'q', '9']), "aZ0q9");
    assert_eq!(suffix_from_draws(&vec![]), "");
}

#[test]
fn random_suffixes() {
    let suffix = rand_suf();
    assert_eq!(suffix.len(), 5);
    assert!(suffix.chars().all(|c| c.is_ascii_alphanumeric()));
    let name = randomize("base");
    assert_eq!(name.len(), 10);
    assert!(name.starts_with("base-"));
    assert!(name[5..].chars().all(|c| c.is_ascii_alphanumeric()));
}

#[test]
fn runner_names() {
    assert_eq!(base_image_tag("simple"), "jjs-invoker-tests-base-image-simple");
    let env = environment_name("simple");
    assert!(env.starts_with("jjs-invoker-test-suite-simple-"));
    assert_eq!(env.len(), "jjs-invoker-test-suite-simple-".len() + 5);
    let out = outputs_export_path("t1");
    assert!(out.starts_with("/tmp/jjs-invoker-test-t1-outputs-"));
    assert_eq!(out.len(), "/tmp/jjs-invoker-test-t1-outputs-".len() + 5);
    let approval = approval_file_name();
    assert!(approval.starts_with("start-test-"));
    assert_eq!(approval.len(), 16);
    assert_eq!(invoker_exec_url(8001), "http://localhost:8001/exec");
    assert_eq!(invoker_exec_url(0), "http://localhost:0/exec");
}

#[test]
fn image_hash_strips_prefix() {
    assert_eq!(image_hash(&description(Json::Null)), Some("abc123".to_string()));
    let without = Json::Array(vec![obj(vec![("Id", s("md5:abc"))])]);
    assert_eq!(image_hash(&without), None);
    let short = Json::Array(vec![obj(vec![("Id", s("sha"))])]);
    assert_eq!(image_hash(&short), None);
    let exact = Json::Array(vec![obj(vec![("Id", s("sha256:"))])]);
    assert_eq!(image_hash(&exact), Some(String::new()));
    assert_eq!(image_hash(&Json::Array(vec![])), None);
    assert_eq!(image_hash(&obj(vec![("0", obj(vec![("Id", s("sha256:x"))]))])), Some("x".to_string()));
}

#[test]
fn status_classes() {
    assert_eq!(classify_status(200), ResponseKind::Completed);
    assert_eq!(classify_status(302), ResponseKind::Completed);
    assert_eq!(classify_status(400), ResponseKind::ClientError);
    assert_eq!(classify_status(499), ResponseKind::ClientError);
    assert_eq!(classify_status(500), ResponseKind::ServerError);
    assert_eq!(classify_status(599), ResponseKind::ServerError);
    assert_eq!(classify_status(600), ResponseKind::Completed);
}

#[test]
fn health_checks() {
    assert!(all_healthy(&vec![]));
    assert!(all_healthy(&vec!["healthy".to_string(), "healthy".to_string()]));
    assert!(!all_healthy(&vec!["healthy".to_string(), "starting".to_string()]));
    assert_eq!(READINESS_ATTEMPTS, 10);
    assert_eq!(READINESS_POLL_MILLIS, 3000);
}

#[test]
fn readiness_decisions() {
    let healthy = vec!["healthy".to_string()];
    let starting = vec!["healthy".to_string(), "starting".to_string()];
    assert_eq!(readiness_after_check(0, &healthy), ReadinessAction::Ready);
    assert_eq!(readiness_after_check(9, &healthy), ReadinessAction::Ready);
    assert_eq!(readiness_after_check(0, &starting), ReadinessAction::SleepThenRetry);
    assert_eq!(readiness_after_check(8, &starting), ReadinessAction::SleepThenRetry);
    assert_eq!(readiness_after_check(9, &starting), ReadinessAction::SleepThenGiveUp);
}
