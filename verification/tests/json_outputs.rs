use jjs::json::{insert_member, Json};
use jjs::outputs::{
    decoded_output, export_checked, export_fault, export_response, get_output_name,
    output_target_is_readable, replace_slashes, ExportFault, ExportedOutput,
};

fn s(text: &str) -> Json {
    Json::Str(text.to_string())
}

fn obj(fields: Vec<(&str, Json)>) -> Json {
    Json::Object(fields.into_iter().map(|(k, v)| (k.to_string(), v)).collect())
}

#[test]
fn member_reads_objects_only() {
    let doc = obj(vec![("a", s("x")), ("b", Json::Null), ("a", s("second"))]);
    assert_eq!(doc.member("a"), Some(&s("x")));
    assert_eq!(doc.member("b"), Some(&Json::Null));
    assert_eq!(doc.member("c"), None);
    assert_eq!(Json::Array(vec![s("x")]).member("0"), None);
    assert_eq!(s("a").member("a"), None);
}

#[test]
fn first_item_of_arrays_and_objects() {
    assert_eq!(Json::Array(vec![s("x"), s("y")]).first_item(), Some(&s("x")));
    assert_eq!(Json::Array(vec![]).first_item(), None);
    assert_eq!(obj(vec![("0", s("zero"))]).first_item(), Some(&s("zero")));
    assert_eq!(Json::Null.first_item(), None);
}

#[test]
fn insert_replaces_in_place_or_appends() {
    let fields = vec![("a".to_string(), s("1")), ("b".to_string(), s("2"))];
    let replaced = insert_member(&fields, "a".to_string(), s("9"));
    assert_eq!(replaced, vec![("a".to_string(), s("9")), ("b".to_string(), s("2"))]);
    let appended = insert_member(&fields, "c".to_string(), Json::Bool(true));
    assert_eq!(
        appended,
        vec![("a".to_string(), s("1")), ("b".to_string(), s("2")), ("c".to_string(), Json::Bool(true))]
    );
}

#[test]
fn insert_then_read_back() {
    let fields = vec![("id".to_string(), s("old")), ("k".to_string(), Json::Number("3".to_string()))];
    let doc = Json::Object(insert_member(&fields, "id".to_string(), s("new")));
    assert_eq!(doc.member("id"), Some(&s("new")));
    assert_eq!(doc.member("k"), Some(&Json::Number("3".to_string())));
}

#[test]
fn duplicate_is_equal() {
    let doc = obj(vec![
        ("list", Json::Array(vec![Json::Null, Json::Bool(false), Json::Number("1.5".to_string())])),
        ("nested", obj(vec![("x", s("y"))])),
    ]);
    assert_eq!(doc.duplicate(), doc);
}

#[test]
fn output_name_of_file_and_path_targets() {
    assert_eq!(get_output_name(&obj(vec![("file", s("stdout"))])), Some("file-stdout".to_string()));
    assert_eq!(
        get_output_name(&obj(vec![("path", s("/var/out/log.txt"))])),
        Some("path-_var_out_log.txt".to_string())
    );
    assert_eq!(
        get_output_name(&obj(vec![("path", s("/p")), ("file", s("f"))])),
        Some("file-f".to_string())
    );
    assert_eq!(get_output_name(&obj(vec![("other", s("x"))])), None);
    assert_eq!(get_output_name(&Json::Null), None);
}

#[test]
fn output_target_readability() {
    assert!(output_target_is_readable(&obj(vec![("file", s("x"))])));
    assert!(!output_target_is_readable(&obj(vec![("file", Json::Null)])));
    assert!(!output_target_is_readable(&obj(vec![("path", Json::Bool(true))])));
    assert!(output_target_is_readable(&Json::Null));
}

#[test]
fn replace_slashes_turns_every_slash() {
    assert_eq!(replace_slashes("/a/b/"), "_a_b_");
    assert_eq!(replace_slashes("plain"), "plain");
}

fn request(targets: Vec<Json>) -> Json {
    obj(vec![(
        "outputs",
        Json::Array(targets.into_iter().map(|t| obj(vec![("target", t)])).collect()),
    )])
}

fn response(datas: Vec<&str>) -> Json {
    obj(vec![(
        "outputs",
        Json::Array(
            datas.into_iter().map(|d| obj(vec![("data", obj(vec![("inlineBase64", s(d))]))])).collect(),
        ),
    )])
}

#[test]
fn export_decodes_every_output() {
    let req = request(vec![obj(vec![("file", s("stdout"))]), obj(vec![("path", s("/out/x"))])]);
    let res = response(vec!["aGVsbG8=", ""]);
    assert_eq!(export_fault(&req, &res), None);
    let outcome = export_response(&req, &res);
    assert_eq!(outcome.stop, None);
    assert_eq!(export_checked(&req, &res), outcome);
    assert_eq!(
        outcome.files,
        vec![
            ExportedOutput { name: "file-stdout".to_string(), data: b"hello".to_vec() },
            ExportedOutput { name: "path-_out_x".to_string(), data: vec![] },
        ]
    );
}

#[test]
fn export_stops_at_invalid_base64() {
    let req = request(vec![obj(vec![("file", s("a"))]), obj(vec![("file", s("b"))]), obj(vec![("file", s("c"))])]);
    let res = response(vec!["YQ==", "not base64!", "Yw=="]);
    assert_eq!(export_fault(&req, &res), None);
    let outcome = export_response(&req, &res);
    assert_eq!(outcome.files, vec![ExportedOutput { name: "file-a".to_string(), data: b"a".to_vec() }]);
    assert_eq!(outcome.stop, Some(ExportFault::InvalidBase64 { index: 1 }));
    assert_eq!(export_checked(&req, &res), outcome);
}

#[test]
fn export_faults_on_shape() {
    let req = request(vec![obj(vec![("file", s("a"))])]);
    assert_eq!(export_fault(&Json::Null, &req), Some(ExportFault::RequestOutputsMissing));
    assert_eq!(export_checked(&Json::Null, &req).stop, Some(ExportFault::RequestOutputsMissing));
    assert_eq!(export_fault(&req, &obj(vec![])), Some(ExportFault::ResponseOutputsMissing));
    assert_eq!(
        export_fault(&req, &response(vec!["YQ==", "YQ=="])),
        Some(ExportFault::OutputCountMismatch { requested: 1, returned: 2 })
    );
    let unnamed = request(vec![obj(vec![("stream", s("x"))])]);
    assert_eq!(export_fault(&unnamed, &response(vec!["YQ=="])), Some(ExportFault::UnnamedOutput { index: 0 }));
    let malformed = request(vec![obj(vec![("file", Json::Bool(true))])]);
    assert_eq!(
        export_fault(&malformed, &response(vec!["YQ=="])),
        Some(ExportFault::MalformedOutputTarget { index: 0 })
    );
    let no_data = obj(vec![("outputs", Json::Array(vec![obj(vec![])]))]);
    assert_eq!(export_fault(&req, &no_data), Some(ExportFault::MissingInlineData { index: 0 }));
}

#[test]
fn export_writes_outputs_before_an_unnamed_one() {
    let req = request(vec![obj(vec![("file", s("a"))]), obj(vec![("stream", s("x"))])]);
    let res = response(vec!["YQ==", "Yg=="]);
    assert_eq!(export_fault(&req, &res), Some(ExportFault::UnnamedOutput { index: 1 }));
    let outcome = export_checked(&req, &res);
    assert_eq!(outcome.files, vec![ExportedOutput { name: "file-a".to_string(), data: b"a".to_vec() }]);
    assert_eq!(outcome.stop, Some(ExportFault::UnnamedOutput { index: 1 }));
}

#[test]
fn export_stops_at_bad_base64_before_an_unnamed_output() {
    let req = request(vec![obj(vec![("file", s("a"))]), obj(vec![("stream", s("x"))])]);
    let res = response(vec!["!!", "Yg=="]);
    assert_eq!(export_fault(&req, &res), None);
    let outcome = export_response(&req, &res);
    assert_eq!(outcome.files, vec![]);
    assert_eq!(outcome.stop, Some(ExportFault::InvalidBase64 { index: 0 }));
}

#[test]
fn decoded_output_keeps_bytes_or_reports_index() {
    assert_eq!(
        decoded_output("n".to_string(), 3, Some(vec![1, 2])),
        Ok(ExportedOutput { name: "n".to_string(), data: vec![1, 2] })
    );
    assert_eq!(decoded_output("n".to_string(), 3, None), Err(ExportFault::InvalidBase64 { index: 3 }));
}
