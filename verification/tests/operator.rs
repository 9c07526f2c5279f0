use aquarium::json::{JsonMember, JsonValue};
use aquarium::operator::{
    aquarium_root, coordinator_plan_command, coordinator_plan_result, default_swarm_members,
    find_python, gui_action_command, gui_action_result, members_or_defaults, millis_or_zero,
    operator_action, parse_swarm_config, parse_tool_output, repo_root, resolve_swarm_member, rider_inspection_command, rider_inspection_result,
    sibling_agent_path, status_command, status_snapshot_command, status_snapshot_result,
    swarm_config_members, swarm_config_path, system_time_millis, unity_inspection_command,
    unity_inspection_result, unix_millis, EpochOffset, OperatorAction, StatusRequest,
    SwarmMember, BUNDLED_PYTHON,
};

fn obj(members: Vec<(&str, JsonValue)>) -> JsonValue {
    JsonValue::Object(
        members
            .into_iter()
            .map(|(k, v)| JsonMember { key: k.to_string(), value: v })
            .collect(),
    )
}

fn s(v: &str) -> JsonValue {
    JsonValue::Str(v.to_string())
}

fn member(id: &str) -> SwarmMember {
    SwarmMember {
        id: id.to_string(),
        label: format!("{id} label"),
        kind: "harness".to_string(),
        harness_root: "/h".to_string(),
        workspace_root: "/w".to_string(),
        state_root: "/h/state".to_string(),
        codex_home: "/c".to_string(),
        artifact_root: "/a".to_string(),
        description: None,
        status: None,
    }
}

fn args(v: &[String]) -> Vec<&str> {
    v.iter().map(|a| a.as_str()).collect()
}

#[test]
fn resolve_finds_the_asked_member() {
    let members = vec![member("one"), member("two"), member("two")];
    let m = resolve_swarm_member(&members, Some("two")).unwrap();
    assert_eq!(m.id, "two");
    assert_eq!(m.label, "two label");
    let m = resolve_swarm_member(&members, None).unwrap();
    assert_eq!(m.id, "one");
    assert_eq!(
        resolve_swarm_member(&members, Some("three")).unwrap_err(),
        "unknown swarm member: three"
    );
    assert_eq!(
        resolve_swarm_member(&Vec::new(), None).unwrap_err(),
        "swarm registry has no members"
    );
    assert_eq!(
        resolve_swarm_member(&Vec::new(), Some("one")).unwrap_err(),
        "unknown swarm member: one"
    );
}

#[test]
fn default_members_on_this_target() {
    let m = default_swarm_members("/projects/EpiphanyAgent");
    assert_eq!(m.len(), 2);
    assert_eq!(m[0].id, "epiphany-agent");
    assert_eq!(m[0].label, "Epiphany");
    assert_eq!(m[0].kind, "harness");
    assert_eq!(m[0].workspace_root, "/projects/EpiphanyAgent");
    assert_eq!(m[0].state_root, "/projects/EpiphanyAgent/state");
    assert_eq!(m[0].codex_home, "/projects/EpiphanyAgent/.epiphany-gui/codex-home");
    assert_eq!(m[0].artifact_root, "/projects/EpiphanyAgent/.epiphany-gui");
    assert_eq!(m[0].description.as_deref(), Some("Main Epiphany harness instance."));
    assert_eq!(m[0].status.as_deref(), Some("active"));
    assert_eq!(m[1].id, "aetheria-lore");
    assert_eq!(m[1].harness_root, "/projects/EpiphanyAgent");
    assert_eq!(m[1].workspace_root, "/projects/AetheriaLore");
    assert_eq!(m[1].state_root, "/projects/AetheriaLore/.epiphany");
    assert_eq!(m[1].codex_home, "/projects/AetheriaLore/.epiphany/codex-home");
    assert_eq!(m[1].artifact_root, "/projects/AetheriaLore/.epiphany/artifacts");
    assert_eq!(m[1].status.as_deref(), Some("bootstrap"));
}

#[test]
fn default_members_without_a_parent() {
    let m = default_swarm_members("/");
    assert_eq!(m[1].workspace_root, "E:\\Projects\\AetheriaLore");
}

#[test]
fn project_paths() {
    assert_eq!(aquarium_root("/x/aquarium/src-tauri").unwrap(), "/x/aquarium");
    assert_eq!(
        swarm_config_path("/x/aquarium/src-tauri").unwrap(),
        "/x/aquarium/.epiphany-aquarium/swarm.json"
    );
    assert_eq!(aquarium_root("/").unwrap_err(), "failed to locate Aquarium project root");
    assert_eq!(
        sibling_agent_path("/p/aquarium/src-tauri/x").as_deref(),
        Some("/p/EpiphanyAgent")
    );
    assert_eq!(sibling_agent_path("/a"), None);
}

#[test]
fn harness_root_choice() {
    assert_eq!(
        repo_root(Some("/env".to_string()), true, Some("/sib".to_string()), true).unwrap(),
        "/env"
    );
    assert_eq!(
        repo_root(Some("/env".to_string()), false, Some("/sib".to_string()), true).unwrap(),
        "/sib"
    );
    assert_eq!(
        repo_root(None, false, Some("/sib".to_string()), false).unwrap_err(),
        "failed to locate EpiphanyAgent; set EPIPHANY_AGENT_ROOT"
    );
}

#[test]
fn python_choice() {
    assert_eq!(find_python(Some("/py".to_string()), true, true), "/py");
    assert_eq!(find_python(Some("/py".to_string()), false, true), BUNDLED_PYTHON);
    assert_eq!(find_python(None, false, false), "python");
}

#[test]
fn registry_members() {
    let config = obj(vec![("members", JsonValue::Array(vec![s("x")]))]);
    assert_eq!(swarm_config_members(&config).unwrap().len(), 1);
    let config = obj(vec![("members", s("x"))]);
    assert_eq!(
        swarm_config_members(&config).unwrap_err(),
        "swarm config missing members array"
    );
    assert!(swarm_config_members(&JsonValue::Null).is_err());
    let d = vec![member("d")];
    assert_eq!(members_or_defaults(Some(vec![member("c")]), d.clone())[0].id, "c");
    assert_eq!(members_or_defaults(Some(Vec::new()), d.clone())[0].id, "d");
    assert_eq!(members_or_defaults(None, d)[0].id, "d");
}

#[test]
fn operator_action_names() {
    assert_eq!(operator_action("statusSnapshot").unwrap(), OperatorAction::StatusSnapshot);
    assert_eq!(operator_action("coordinatorPlan").unwrap(), OperatorAction::CoordinatorPlan);
    assert_eq!(operator_action("inspectUnity").unwrap(), OperatorAction::InspectUnity);
    assert_eq!(operator_action("inspectRider").unwrap(), OperatorAction::InspectRider);
    for name in ["heartbeatStatus", "faceBubble", "acceptReorient", "prepareCheckpoint"] {
        assert_eq!(operator_action(name).unwrap(), OperatorAction::GuiBridge);
    }
    assert_eq!(operator_action("dance").unwrap_err(), "unknown operator action: dance");
}

#[test]
fn inspection_commands() {
    let m = member("one");
    let mut r = StatusRequest::empty();
    let c = rider_inspection_command(&m, &r);
    assert_eq!(c.current_dir, "/h");
    assert_eq!(
        args(&c.args),
        vec![
            "/h/tools/epiphany_rider_bridge.py",
            "status",
            "--project-root",
            "/w",
            "--artifact-root",
            "/a/rider"
        ]
    );
    r.cwd = Some("/elsewhere".to_string());
    let c = unity_inspection_command(&m, &r);
    assert_eq!(
        args(&c.args),
        vec![
            "/h/tools/epiphany_unity_bridge.py",
            "inspect",
            "--project-path",
            "/elsewhere",
            "--artifact-root",
            "/a/runtime"
        ]
    );
}

#[test]
fn status_commands() {
    let m = member("one");
    let mut r = StatusRequest::empty();
    r.thread_id = Some("t1".to_string());
    r.codex_home = Some("/ch".to_string());
    let c = status_command(&m, &r);
    assert_eq!(
        args(&c.args),
        vec![
            "/h/tools/epiphany_mvp_status.py",
            "--json",
            "--cwd",
            "/w",
            "--codex-home",
            "/ch",
            "--transcript",
            "/a/status-transcript.jsonl",
            "--stderr",
            "/a/status-server.stderr.log",
            "--no-ephemeral",
            "--thread-id",
            "t1"
        ]
    );
    let (dir, c) = status_snapshot_command(&m, &StatusRequest::empty(), 1700000000123);
    assert_eq!(dir, "/a/status-snapshots/1700000000123");
    assert_eq!(c.args[6], "--result");
    assert_eq!(c.args[7], "/a/status-snapshots/1700000000123/status.json");
    assert_eq!(c.args.len(), 13);
    let res = status_snapshot_result(dir);
    assert_eq!(res.action, "statusSnapshot");
    assert_eq!(res.summary, "Status snapshot written.");
    assert_eq!(res.thread_id, None);
}

#[test]
fn coordinator_commands() {
    let m = member("one");
    let mut r = StatusRequest::empty();
    r.app_server = Some("ws://s".to_string());
    let (dir, c) = coordinator_plan_command(&m, &r, 0);
    assert_eq!(dir, "/a/coordinator/gui-coordinator-plan-0");
    assert_eq!(
        args(&c.args),
        vec![
            "/h/tools/epiphany_mvp_coordinator.py",
            "--mode",
            "plan",
            "--max-steps",
            "2",
            "--cwd",
            "/w",
            "--codex-home",
            "/c",
            "--artifact-dir",
            "/a/coordinator/gui-coordinator-plan-0",
            "--app-server",
            "ws://s"
        ]
    );
    let res = coordinator_plan_result(dir);
    assert_eq!(res.summary, "Coordinator plan artifact written.");
}

#[test]
fn gui_action_commands_and_results() {
    let m = member("one");
    let mut r = StatusRequest::empty();
    r.planning_draft_id = Some("d7".to_string());
    let c = gui_action_command(&m, &r, "faceBubble");
    assert_eq!(
        args(&c.args),
        vec![
            "/h/tools/epiphany_gui_action.py",
            "--action",
            "faceBubble",
            "--cwd",
            "/w",
            "--codex-home",
            "/c",
            "--artifact-root",
            "/a/actions",
            "--planning-draft-id",
            "d7"
        ]
    );
    let report = obj(vec![
        ("artifactPath", s("/a/actions/1")),
        ("summary", s("done")),
        ("threadId", s("t9")),
    ]);
    let res = gui_action_result("faceBubble", &report).unwrap();
    assert_eq!(res.action, "faceBubble");
    assert_eq!(res.artifact_path, "/a/actions/1");
    assert_eq!(res.summary, "done");
    assert_eq!(res.thread_id.as_deref(), Some("t9"));
    let missing = obj(vec![("artifactPath", s("/a"))]);
    assert_eq!(
        gui_action_result("faceBubble", &missing).unwrap_err(),
        "missing string field in GUI action result: summary"
    );
}

#[test]
fn inspection_results() {
    let report = obj(vec![("artifactPath", s("/a/rider/1")), ("status", s("ready"))]);
    let res = rider_inspection_result(&report).unwrap();
    assert_eq!(res.action, "inspectRider");
    assert_eq!(res.summary, "Rider bridge inspection: ready.");
    let report = obj(vec![("artifactPath", s("/a/runtime/1"))]);
    let res = unity_inspection_result(&report).unwrap();
    assert_eq!(res.action, "inspectUnity");
    assert_eq!(res.summary, "Unity bridge inspection: unknown.");
    assert_eq!(
        unity_inspection_result(&obj(vec![])).unwrap_err(),
        "missing string field in GUI action result: artifactPath"
    );
}

#[test]
fn clock_in_milliseconds() {
    assert_eq!(system_time_millis(Some(EpochOffset { secs: 3, nanos: 999_999_999 })), Some(3999));
    assert_eq!(system_time_millis(Some(EpochOffset { secs: 0, nanos: 0 })), Some(0));
    assert_eq!(system_time_millis(None), None);
    assert_eq!(millis_or_zero(Some(EpochOffset { secs: 3, nanos: 999_999_999 })), 3999);
    assert_eq!(millis_or_zero(Some(EpochOffset { secs: 1_700_000_000, nanos: 5_000_000 })), 1_700_000_000_005);
    assert_eq!(millis_or_zero(None), 0);
    let now = unix_millis();
    assert!(now > 1_600_000_000_000);
}

#[test]
fn registry_text() {
    let doc = parse_swarm_config("/cfg/swarm.json", " {\"members\": [{\"id\": \"a\"}, 7]} ").unwrap();
    let items = swarm_config_members(&doc).unwrap();
    assert_eq!(items.len(), 2);
    assert_eq!(items[0].get("id").and_then(|v| v.as_str()), Some("a"));
    assert_eq!(items[1].as_u64(), Some(7));
    let err = parse_swarm_config("/cfg/swarm.json", "{\"members\": [").unwrap_err();
    assert!(err.starts_with("failed to parse swarm config /cfg/swarm.json: "));
    assert!(err.len() > "failed to parse swarm config /cfg/swarm.json: ".len());
    let doc = parse_swarm_config("/cfg/swarm.json", "{}").unwrap();
    assert_eq!(swarm_config_members(&doc).unwrap_err(), "swarm config missing members array");
}

#[test]
fn tool_output_text() {
    let doc = parse_tool_output("rider inspection", "{\"artifactPath\": \"/out/r\", \"status\": \"ok\", \"n\": -2.5}").unwrap();
    let res = rider_inspection_result(&doc).unwrap();
    assert_eq!(res.artifact_path, "/out/r");
    assert_eq!(res.summary, "Rider bridge inspection: ok.");
    match doc.get("n") {
        Some(JsonValue::OtherNumber(t)) => assert_eq!(t, "-2.5"),
        other => panic!("unexpected {other:?}"),
    }
    let err = parse_tool_output("unity inspection", "status: ok").unwrap_err();
    assert!(err.starts_with("failed to parse unity inspection JSON: "));
    assert!(parse_tool_output("x", "[1, 2] trailing").is_err());
    assert!(matches!(parse_tool_output("x", "null"), Ok(JsonValue::Null)));
}
