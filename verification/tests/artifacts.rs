use aquarium::artifacts::{
    artifact_bundle, artifact_roots, BundleListing, bundle_name, existing_path, final_status_file_names, first_existing,
    implementation_audit_path, list_artifacts, read_editor_bridge, read_implementation_audit,
    read_installed_editors, read_rider_audit, read_rider_installations, read_rider_vcs,
    read_runtime_audit, rider_audit_path, runtime_audit_path, summary_file_names, ArtifactBundle,
};
use aquarium::json::{
    json_optional_bool, json_optional_string, json_string, read_string_array, JsonMember,
    JsonValue,
};
use aquarium::operator::SwarmMember;

fn obj(members: Vec<(&str, JsonValue)>) -> JsonValue {
    JsonValue::Object(
        members
            .into_iter()
            .map(|(k, v)| JsonMember { key: k.to_string(), value: v })
            .collect(),
    )
}

fn s(v: &str) -> JsonValue {
    JsonValue::Str(v.to_string())
}

fn arr(items: Vec<JsonValue>) -> JsonValue {
    JsonValue::Array(items)
}

fn bundle(name: &str, modified: Option<u128>) -> ArtifactBundle {
    ArtifactBundle {
        name: name.to_string(),
        path: format!("/a/{name}"),
        files: Vec::new(),
        summary_path: None,
        final_status_path: None,
        comparison_path: None,
        implementation_audit: None,
        runtime_audit: None,
        rider_audit: None,
        modified_millis: modified,
    }
}

fn member(id: &str) -> SwarmMember {
    SwarmMember {
        id: id.to_string(),
        label: String::new(),
        kind: String::new(),
        harness_root: "/h".to_string(),
        workspace_root: "/w".to_string(),
        state_root: "/s".to_string(),
        codex_home: "/c".to_string(),
        artifact_root: "/a".to_string(),
        description: None,
        status: None,
    }
}

#[test]
fn newest_bundles_first_ties_keep_order() {
    let bundles = vec![
        bundle("a", Some(5)),
        bundle("b", None),
        bundle("c", Some(9)),
        bundle("d", Some(5)),
        bundle("e", None),
        bundle("f", Some(9)),
    ];
    let out = list_artifacts(bundles);
    let names: Vec<&str> = out.iter().map(|b| b.name.as_str()).collect();
    assert_eq!(names, vec!["c", "f", "a", "d", "b", "e"]);
    assert!(list_artifacts(Vec::new()).is_empty());
}

#[test]
fn where_bundles_are_looked_for() {
    let roots = artifact_roots(&member("epiphany-agent"));
    let got: Vec<(&str, &str)> =
        roots.iter().map(|r| (r.path.as_str(), r.prefix.as_str())).collect();
    assert_eq!(
        got,
        vec![
            ("/a/coordinator", "coordinator/"),
            ("/a/dogfood", "dogfood/"),
            ("/a/actions", "actions/"),
            ("/a/status-snapshots", "status/"),
            ("/a/runtime", "runtime/"),
            ("/a/rider", "rider/"),
            ("/h/.epiphany-dogfood", ""),
        ]
    );
    assert_eq!(artifact_roots(&member("aetheria-lore")).len(), 6);
    assert_eq!(bundle_name("status/", "17"), "status/17");
}

#[test]
fn existing_files() {
    assert_eq!(existing_path("/b", "comparison.md", true).as_deref(), Some("/b/comparison.md"));
    assert_eq!(existing_path("/b", "comparison.md", false), None);
    let names = summary_file_names();
    assert_eq!(names.len(), 5);
    let found = first_existing("/b", &names, &vec![false, false, true, true, false]);
    assert_eq!(found.as_deref(), Some("/b/unity-bridge-summary.json"));
    assert_eq!(first_existing("/b", &names, &vec![false; 5]), None);
    let finals = final_status_file_names();
    assert_eq!(
        first_existing("/b", &finals, &vec![false, true]).as_deref(),
        Some("/b/after-status.json")
    );
    assert_eq!(implementation_audit_path("/b"), "/b/implementation-result.json");
    assert_eq!(runtime_audit_path("/b"), "/b/unity-bridge-summary.json");
    assert_eq!(rider_audit_path("/b"), "/b/rider-bridge-summary.json");
}

#[test]
fn json_lookups() {
    let v = obj(vec![
        ("name", s("first")),
        ("name", s("second")),
        ("flag", JsonValue::Bool(true)),
        ("list", arr(vec![s("x"), JsonValue::Unsigned(3), s("y"), JsonValue::Null])),
    ]);
    assert_eq!(json_optional_string(&v, "name").as_deref(), Some("first"));
    assert_eq!(json_optional_string(&v, "flag"), None);
    assert_eq!(json_optional_bool(&v, "flag"), Some(true));
    assert_eq!(json_optional_bool(&v, "name"), None);
    assert_eq!(read_string_array(&v, "list"), vec!["x".to_string(), "y".to_string()]);
    assert!(read_string_array(&v, "name").is_empty());
    assert_eq!(json_string(&v, "name").unwrap(), "first");
    assert_eq!(
        json_string(&v, "missing").unwrap_err(),
        "missing string field in GUI action result: missing"
    );
    assert_eq!(json_optional_string(&s("x"), "name"), None);
}

#[test]
fn implementation_audit() {
    let v = obj(vec![
        ("workspaceChanged", JsonValue::Bool(true)),
        ("trackedDiffPresent", s("yes")),
        ("changedFiles", arr(vec![s("a.rs"), JsonValue::Bool(false), s("b.rs")])),
    ]);
    let a = read_implementation_audit("/r/implementation-result.json", &v);
    assert_eq!(a.result_path, "/r/implementation-result.json");
    assert!(a.workspace_changed);
    assert!(!a.tracked_diff_present);
    assert_eq!(a.changed_files, vec!["a.rs".to_string(), "b.rs".to_string()]);
}

#[test]
fn runtime_audit() {
    let v = obj(vec![
        ("status", s("ready")),
        ("projectPath", s("/p")),
        (
            "editorBridge",
            obj(vec![("exists", JsonValue::Bool(true)), ("executeMethod", s("Run"))]),
        ),
        (
            "installedEditors",
            arr(vec![obj(vec![("version", s("6000.0"))]), s("not an object")]),
        ),
        ("searchRoots", arr(vec![s("/x")])),
    ]);
    let a = read_runtime_audit("/r/u.json", &v).unwrap();
    assert_eq!(a.status, "ready");
    assert_eq!(a.project_path.as_deref(), Some("/p"));
    assert_eq!(a.project_version, None);
    let bridge = a.editor_bridge.unwrap();
    assert!(bridge.exists);
    assert_eq!(bridge.execute_method.as_deref(), Some("Run"));
    assert_eq!(a.installed_editors.len(), 2);
    assert_eq!(a.installed_editors[0].version.as_deref(), Some("6000.0"));
    assert_eq!(a.installed_editors[1].version, None);
    assert_eq!(a.search_roots, vec!["/x".to_string()]);
    assert!(a.candidate_paths.is_empty());
    assert!(read_runtime_audit("/r/u.json", &obj(vec![])).is_none());
    assert!(read_editor_bridge(&obj(vec![])).is_none());
    assert!(read_installed_editors(&obj(vec![("installedEditors", s("x"))])).is_empty());
}

#[test]
fn rider_audit() {
    let v = obj(vec![
        ("status", s("ok")),
        ("installationCount", JsonValue::Unsigned(2)),
        ("vcs", obj(vec![("branch", s("main")), ("dirty", JsonValue::Bool(false))])),
        ("installations", arr(vec![obj(vec![("path", s("/rider")), ("versionHint", s("2025.1"))])])),
    ]);
    let a = read_rider_audit("/r/rider.json", &v).unwrap();
    assert_eq!(a.status, "ok");
    assert_eq!(a.installation_count, Some(2));
    let vcs = a.vcs.unwrap();
    assert_eq!(vcs.branch.as_deref(), Some("main"));
    assert_eq!(vcs.dirty, Some(false));
    assert_eq!(vcs.status, None);
    assert_eq!(a.installations.len(), 1);
    assert_eq!(a.installations[0].version_hint.as_deref(), Some("2025.1"));
    let v2 = obj(vec![("status", s("ok")), ("installationCount", JsonValue::OtherNumber("2.5".to_string()))]);
    assert_eq!(read_rider_audit("/r", &v2).unwrap().installation_count, None);
    assert!(read_rider_vcs(&obj(vec![])).is_none());
    assert!(read_rider_installations(&obj(vec![])).is_empty());
    assert!(read_rider_audit("/r", &obj(vec![("status", JsonValue::Bool(true))])).is_none());
}

#[test]
fn bundle_from_a_listing() {
    let listing = BundleListing {
        dir_name: "run-7".to_string(),
        files: vec!["status.json".to_string(), "b.log".to_string(), "A.md".to_string()],
        summary_present: vec![false, true, false, false, true],
        final_status_present: vec![false, false],
        comparison_present: true,
        implementation_text: Some("{\"workspaceChanged\": true, \"changedFiles\": [\"a.rs\", 3]}".to_string()),
        runtime_text: Some("{\"note\": \"no status\"}".to_string()),
        rider_text: None,
        modified_millis: Some(42),
    };
    let b = artifact_bundle("/a/dogfood", "dogfood/", listing);
    assert_eq!(b.name, "dogfood/run-7");
    assert_eq!(b.path, "/a/dogfood/run-7");
    assert_eq!(b.files, vec!["A.md".to_string(), "b.log".to_string(), "status.json".to_string()]);
    assert_eq!(b.summary_path.as_deref(), Some("/a/dogfood/run-7/gui-action-summary.json"));
    assert_eq!(b.final_status_path, None);
    assert_eq!(b.comparison_path.as_deref(), Some("/a/dogfood/run-7/comparison.md"));
    let audit = b.implementation_audit.unwrap();
    assert_eq!(audit.result_path, "/a/dogfood/run-7/implementation-result.json");
    assert!(audit.workspace_changed);
    assert!(!audit.tracked_diff_present);
    assert_eq!(audit.changed_files, vec!["a.rs".to_string()]);
    assert!(b.runtime_audit.is_none());
    assert!(b.rider_audit.is_none());
    assert_eq!(b.modified_millis, Some(42));
}

#[test]
fn bundle_reports_that_are_no_json_give_no_audit() {
    let listing = BundleListing {
        dir_name: "run-8".to_string(),
        files: vec![],
        summary_present: vec![false, false, false, false, false],
        final_status_present: vec![false, true],
        comparison_present: false,
        implementation_text: Some("{ not json".to_string()),
        runtime_text: Some("".to_string()),
        rider_text: Some("{\"status\": \"ready\", \"installationCount\": 2}".to_string()),
        modified_millis: None,
    };
    let b = artifact_bundle("/x", "", listing);
    assert_eq!(b.path, "/x/run-8");
    assert_eq!(b.summary_path, None);
    assert_eq!(b.final_status_path.as_deref(), Some("/x/run-8/after-status.json"));
    assert_eq!(b.comparison_path, None);
    assert!(b.implementation_audit.is_none());
    assert!(b.runtime_audit.is_none());
    let rider = b.rider_audit.unwrap();
    assert_eq!(rider.status, "ready");
    assert_eq!(rider.installation_count, Some(2));
    assert_eq!(rider.result_path, "/x/run-8/rider-bridge-summary.json");
}
