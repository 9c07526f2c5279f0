//! Artifact bundles of the harness tools: where they are looked for, what
//! their JSON summaries are read for, and the order they are listed in
//! (newest first, ties in the order they were found).

use vstd::prelude::*;
use vstd::string::*;
use crate::json::{
    field_bool, field_str, field_strings, json_array, json_get, json_optional_bool,
    json_optional_string, json_u64, read_string_array, JsonValue,
};
use crate::operator::{joined_path, SwarmMember};
use crate::script::{opt_view, str_eq, strings_view};

verus! {

broadcast use vstd::string::group_string_axioms;

// ---------------------------------------------------------------------------
// Audits
// ---------------------------------------------------------------------------

#[derive(Clone, Debug)]
pub struct ImplementationAudit {
    pub result_path: String,
    pub workspace_changed: bool,
    pub tracked_diff_present: bool,
    pub changed_files: Vec<String>,
}

#[derive(Clone, Debug)]
pub struct EditorBridgeAudit {
    pub exists: bool,
    pub path: Option<String>,
    pub relative_path: Option<String>,
    pub execute_method: Option<String>,
}

#[derive(Clone, Debug)]
pub struct InstalledUnityEditor {
    pub version: Option<String>,
    pub editor_path: Option<String>,
}

#[derive(Clone, Debug)]
pub struct RuntimeAudit {
    pub result_path: String,
    pub status: String,
    pub project_path: Option<String>,
    pub project_version: Option<String>,
    pub editor_path: Option<String>,
    pub note: Option<String>,
    pub editor_bridge: Option<EditorBridgeAudit>,
    pub installed_editors: Vec<InstalledUnityEditor>,
    pub candidate_paths: Vec<String>,
    pub search_roots: Vec<String>,
}

#[derive(Clone, Debug)]
pub struct RiderVcsAudit {
    pub status: Option<String>,
    pub branch: Option<String>,
    pub dirty: Option<bool>,
    pub changed_files: Vec<String>,
    pub staged_files: Vec<String>,
    pub changed_ranges_known: Option<bool>,
}

#[derive(Clone, Debug)]
pub struct RiderInstallation {
    pub path: Option<String>,
    pub version_hint: Option<String>,
}

#[derive(Clone, Debug)]
pub struct RiderAudit {
    pub result_path: String,
    pub status: String,
    pub workspace: Option<String>,
    pub solution_path: Option<String>,
    pub solution_status: Option<String>,
    pub rider_path: Option<String>,
    pub installation_count: Option<u64>,
    pub note: Option<String>,
    pub vcs: Option<RiderVcsAudit>,
    pub installations: Vec<RiderInstallation>,
    pub search_roots: Vec<String>,
}

/// Where a bundle's implementation result is.
pub fn implementation_audit_path(root: &str) -> (r: String)
    ensures
        r@ == joined_path(root@, "implementation-result.json"@),
{
    crate::operator::path_join(root, "implementation-result.json")
}

/// Where a bundle's Unity bridge summary is.
pub fn runtime_audit_path(root: &str) -> (r: String)
    ensures
        r@ == joined_path(root@, "unity-bridge-summary.json"@),
{
    crate::operator::path_join(root, "unity-bridge-summary.json")
}

/// Where a bundle's Rider bridge summary is.
pub fn rider_audit_path(root: &str) -> (r: String)
    ensures
        r@ == joined_path(root@, "rider-bridge-summary.json"@),
{
    crate::operator::path_join(root, "rider-bridge-summary.json")
}

/// What an implementation result at `result_path` says: whether the
/// workspace changed and a tracked diff is present (false when not said),
/// and the changed files.
pub open spec fn implementation_read(result_path: Seq<char>, value: JsonValue, r: ImplementationAudit) -> bool {
    &&& r.result_path@ == result_path
    &&& r.workspace_changed == (field_bool(value, "workspaceChanged"@) == Some(true))
    &&& r.tracked_diff_present == (field_bool(value, "trackedDiffPresent"@) == Some(true))
    &&& strings_view(r.changed_files@) == field_strings(value, "changedFiles"@)
}

/// What an implementation report is read for: the workspace changed, and
/// a tracked diff is present, exactly when the report's `workspaceChanged`
/// and `trackedDiffPresent` members are the boolean true; the changed files
/// are the strings of its `changedFiles` array, in order.
pub proof fn law_implementation_audit(result_path: Seq<char>, value: JsonValue, r: ImplementationAudit)
    requires
        implementation_read(result_path, value, r),
    ensures
        r.result_path@ == result_path,
        r.workspace_changed <==> json_get(value, "workspaceChanged"@) == Some(JsonValue::Bool(true)),
        r.tracked_diff_present <==> json_get(value, "trackedDiffPresent"@) == Some(
            JsonValue::Bool(true),
        ),
        strings_view(r.changed_files@) == match json_get(value, "changedFiles"@) {
            Some(JsonValue::Array(items)) => crate::json::string_items(items@),
            _ => Seq::<Seq<char>>::empty(),
        },
{
}

pub fn read_implementation_audit(result_path: &str, value: &JsonValue) -> (r: ImplementationAudit)
    ensures
        implementation_read(result_path@, *value, r),
{
    ImplementationAudit {
        result_path: String::from_str(result_path),
        workspace_changed: match json_optional_bool(value, "workspaceChanged") {
            Some(b) => b,
            None => false,
        },
        tracked_diff_present: match json_optional_bool(value, "trackedDiffPresent") {
            Some(b) => b,
            None => false,
        },
        changed_files: read_string_array(value, "changedFiles"),
    }
}

/// The editor bridge part of a Unity summary, when it has one.
pub open spec fn editor_bridge_read(value: JsonValue, r: Option<EditorBridgeAudit>) -> bool {
    match json_get(value, "editorBridge"@) {
        None => r is None,
        Some(b) => r matches Some(a) && {
            &&& a.exists == (field_bool(b, "exists"@) == Some(true))
            &&& opt_view(a.path) == field_str(b, "path"@)
            &&& opt_view(a.relative_path) == field_str(b, "relativePath"@)
            &&& opt_view(a.execute_method) == field_str(b, "executeMethod"@)
        },
    }
}

pub fn read_editor_bridge(value: &JsonValue) -> (r: Option<EditorBridgeAudit>)
    ensures
        editor_bridge_read(*value, r),
{
    match value.get("editorBridge") {
        None => None,
        Some(bridge) => Some(
            EditorBridgeAudit {
                exists: match json_optional_bool(bridge, "exists") {
                    Some(b) => b,
                    None => false,
                },
                path: json_optional_string(bridge, "path"),
                relative_path: json_optional_string(bridge, "relativePath"),
                execute_method: json_optional_string(bridge, "executeMethod"),
            },
        ),
    }
}

/// One entry per item of the `installedEditors` array: its `version` and
/// `editorPath` strings; no entries without such an array.
pub open spec fn installed_editors_read(value: JsonValue, r: Seq<InstalledUnityEditor>) -> bool {
    match json_get(value, "installedEditors"@) {
        Some(x) => match json_array(x) {
            Some(items) => r.len() == items.len() && forall|i: int|
                #![trigger r[i]]
                0 <= i < items.len() ==> opt_view(r[i].version) == field_str(items[i], "version"@)
                    && opt_view(r[i].editor_path) == field_str(items[i], "editorPath"@),
            None => r.len() == 0,
        },
        None => r.len() == 0,
    }
}

pub fn read_installed_editors(value: &JsonValue) -> (r: Vec<InstalledUnityEditor>)
    ensures
        installed_editors_read(*value, r@),
{
    let mut out: Vec<InstalledUnityEditor> = Vec::new();
    match value.get("installedEditors") {
        Some(x) => match x.as_array() {
            Some(items) => {
                let mut i: usize = 0;
                while i < items.len()
                    invariant
                        i <= items@.len(),
                        out@.len() == i,
                        forall|j: int|
                            #![trigger out@[j]]
                            0 <= j < i ==> opt_view(out@[j].version) == field_str(
                                items@[j],
                                "version"@,
                            ) && opt_view(out@[j].editor_path) == field_str(
                                items@[j],
                                "editorPath"@,
                            ),
                    decreases items@.len() - i,
                {
                    out.push(
                        InstalledUnityEditor {
                            version: json_optional_string(&items[i], "version"),
                            editor_path: json_optional_string(&items[i], "editorPath"),
                        },
                    );
                    i = i + 1;
                }
            },
            None => {},
        },
        None => {},
    }
    out
}

/// What a Unity bridge summary at `result_path` says; nothing when it has
/// no `status` string.
pub open spec fn runtime_read(result_path: Seq<char>, value: JsonValue, r: Option<RuntimeAudit>) -> bool {
    match field_str(value, "status"@) {
        None => r is None,
        Some(status) => r matches Some(a) && {
            &&& a.result_path@ == result_path
            &&& a.status@ == status
            &&& opt_view(a.project_path) == field_str(value, "projectPath"@)
            &&& opt_view(a.project_version) == field_str(value, "projectVersion"@)
            &&& opt_view(a.editor_path) == field_str(value, "editorPath"@)
            &&& opt_view(a.note) == field_str(value, "note"@)
            &&& editor_bridge_read(value, a.editor_bridge)
            &&& installed_editors_read(value, a.installed_editors@)
            &&& strings_view(a.candidate_paths@) == field_strings(value, "candidatePaths"@)
            &&& strings_view(a.search_roots@) == field_strings(value, "searchRoots"@)
        },
    }
}

/// What a Unity bridge report is read for: there is an audit exactly when
/// its `status` member is a string; then the audit holds that status, the
/// strings of `projectPath`, `projectVersion`, `editorPath` and `note`, and
/// the strings of the `candidatePaths` and `searchRoots` arrays.
pub proof fn law_runtime_audit(result_path: Seq<char>, value: JsonValue, r: Option<RuntimeAudit>)
    requires
        runtime_read(result_path, value, r),
    ensures
        r is Some <==> json_get(value, "status"@) matches Some(JsonValue::Str(_)),
        r matches Some(a) ==> {
            &&& a.result_path@ == result_path
            &&& json_get(value, "status"@) matches Some(JsonValue::Str(x)) && x@ == a.status@
            &&& opt_view(a.project_path) == field_str(value, "projectPath"@)
            &&& opt_view(a.project_version) == field_str(value, "projectVersion"@)
            &&& opt_view(a.editor_path) == field_str(value, "editorPath"@)
            &&& opt_view(a.note) == field_str(value, "note"@)
            &&& (a.editor_bridge is Some <==> json_get(value, "editorBridge"@) is Some)
            &&& strings_view(a.candidate_paths@) == field_strings(value, "candidatePaths"@)
            &&& strings_view(a.search_roots@) == field_strings(value, "searchRoots"@)
        },
{
}

pub fn read_runtime_audit(result_path: &str, value: &JsonValue) -> (r: Option<RuntimeAudit>)
    ensures
        runtime_read(result_path@, *value, r),
{
    let status = match json_optional_string(value, "status") {
        Some(s) => s,
        None => {
            return None;
        },
    };
    Some(
        RuntimeAudit {
            result_path: String::from_str(result_path),
            status,
            project_path: json_optional_string(value, "projectPath"),
            project_version: json_optional_string(value, "projectVersion"),
            editor_path: json_optional_string(value, "editorPath"),
            note: json_optional_string(value, "note"),
            editor_bridge: read_editor_bridge(value),
            installed_editors: read_installed_editors(value),
            candidate_paths: read_string_array(value, "candidatePaths"),
            search_roots: read_string_array(value, "searchRoots"),
        },
    )
}

/// The version-control part of a Rider summary, when it has one.
pub open spec fn rider_vcs_read(value: JsonValue, r: Option<RiderVcsAudit>) -> bool {
    match json_get(value, "vcs"@) {
        None => r is None,
        Some(v) => r matches Some(a) && {
            &&& opt_view(a.status) == field_str(v, "status"@)
            &&& opt_view(a.branch) == field_str(v, "branch"@)
            &&& a.dirty == field_bool(v, "dirty"@)
            &&& strings_view(a.changed_files@) == field_strings(v, "changedFiles"@)
            &&& strings_view(a.staged_files@) == field_strings(v, "stagedFiles"@)
            &&& a.changed_ranges_known == field_bool(v, "changedRangesKnown"@)
        },
    }
}

pub fn read_rider_vcs(value: &JsonValue) -> (r: Option<RiderVcsAudit>)
    ensures
        rider_vcs_read(*value, r),
{
    match value.get("vcs") {
        None => None,
        Some(vcs) => Some(
            RiderVcsAudit {
                status: json_optional_string(vcs, "status"),
                branch: json_optional_string(vcs, "branch"),
                dirty: json_optional_bool(vcs, "dirty"),
                changed_files: read_string_array(vcs, "changedFiles"),
                staged_files: read_string_array(vcs, "stagedFiles"),
                changed_ranges_known: json_optional_bool(vcs, "changedRangesKnown"),
            },
        ),
    }
}

/// One entry per item of the `installations` array: its `path` and
/// `versionHint` strings; no entries without such an array.
pub open spec fn rider_installations_read(value: JsonValue, r: Seq<RiderInstallation>) -> bool {
    match json_get(value, "installations"@) {
        Some(x) => match json_array(x) {
            Some(items) => r.len() == items.len() && forall|i: int|
                #![trigger r[i]]
                0 <= i < items.len() ==> opt_view(r[i].path) == field_str(items[i], "path"@)
                    && opt_view(r[i].version_hint) == field_str(items[i], "versionHint"@),
            None => r.len() == 0,
        },
        None => r.len() == 0,
    }
}

pub fn read_rider_installations(value: &JsonValue) -> (r: Vec<RiderInstallation>)
    ensures
        rider_installations_read(*value, r@),
{
    let mut out: Vec<RiderInstallation> = Vec::new();
    match value.get("installations") {
        Some(x) => match x.as_array() {
            Some(items) => {
                let mut i: usize = 0;
                while i < items.len()
                    invariant
                        i <= items@.len(),
                        out@.len() == i,
                        forall|j: int|
                            #![trigger out@[j]]
                            0 <= j < i ==> opt_view(out@[j].path) == field_str(items@[j], "path"@)
                                && opt_view(out@[j].version_hint) == field_str(
                                items@[j],
                                "versionHint"@,
                            ),
                    decreases items@.len() - i,
                {
                    out.push(
                        RiderInstallation {
                            path: json_optional_string(&items[i], "path"),
                            version_hint: json_optional_string(&items[i], "versionHint"),
                        },
                    );
                    i = i + 1;
                }
            },
            None => {},
        },
        None => {},
    }
    out
}

/// What a Rider bridge summary at `result_path` says; nothing when it has
/// no `status` string.
pub open spec fn rider_read(result_path: Seq<char>, value: JsonValue, r: Option<RiderAudit>) -> bool {
    match field_str(value, "status"@) {
        None => r is None,
        Some(status) => r matches Some(a) && {
            &&& a.result_path@ == result_path
            &&& a.status@ == status
            &&& opt_view(a.workspace) == field_str(value, "workspace"@)
            &&& opt_view(a.solution_path) == field_str(value, "solutionPath"@)
            &&& opt_view(a.solution_status) == field_str(value, "solutionStatus"@)
            &&& opt_view(a.rider_path) == field_str(value, "riderPath"@)
            &&& a.installation_count == (match json_get(value, "installationCount"@) {
                Some(x) => json_u64(x),
                None => None,
            })
            &&& opt_view(a.note) == field_str(value, "note"@)
            &&& rider_vcs_read(value, a.vcs)
            &&& rider_installations_read(value, a.installations@)
            &&& strings_view(a.search_roots@) == field_strings(value, "searchRoots"@)
        },
    }
}

/// What a Rider bridge report is read for: there is an audit exactly when
/// its `status` member is a string; then the audit holds that status, the
/// strings of `workspace`, `solutionPath`, `solutionStatus`, `riderPath` and
/// `note`, the `installationCount` where it is an integer in `u64`, the VCS
/// part exactly when there is a `vcs` member, and the strings of the
/// `searchRoots` array.
pub proof fn law_rider_audit(result_path: Seq<char>, value: JsonValue, r: Option<RiderAudit>)
    requires
        rider_read(result_path, value, r),
    ensures
        r is Some <==> json_get(value, "status"@) matches Some(JsonValue::Str(_)),
        r matches Some(a) ==> {
            &&& a.result_path@ == result_path
            &&& json_get(value, "status"@) matches Some(JsonValue::Str(x)) && x@ == a.status@
            &&& opt_view(a.workspace) == field_str(value, "workspace"@)
            &&& opt_view(a.solution_path) == field_str(value, "solutionPath"@)
            &&& opt_view(a.solution_status) == field_str(value, "solutionStatus"@)
            &&& opt_view(a.rider_path) == field_str(value, "riderPath"@)
            &&& opt_view(a.note) == field_str(value, "note"@)
            &&& a.installation_count == match json_get(value, "installationCount"@) {
                Some(JsonValue::Unsigned(n)) => Some(n),
                _ => None::<u64>,
            }
            &&& (a.vcs is Some <==> json_get(value, "vcs"@) is Some)
            &&& strings_view(a.search_roots@) == field_strings(value, "searchRoots"@)
        },
{
}

pub fn read_rider_audit(result_path: &str, value: &JsonValue) -> (r: Option<RiderAudit>)
    ensures
        rider_read(result_path@, *value, r),
{
    let status = match json_optional_string(value, "status") {
        Some(s) => s,
        None => {
            return None;
        },
    };
    let installation_count = match value.get("installationCount") {
        Some(x) => x.as_u64(),
        None => None,
    };
    Some(
        RiderAudit {
            result_path: String::from_str(result_path),
            status,
            workspace: json_optional_string(value, "workspace"),
            solution_path: json_optional_string(value, "solutionPath"),
            solution_status: json_optional_string(value, "solutionStatus"),
            rider_path: json_optional_string(value, "riderPath"),
            installation_count,
            note: json_optional_string(value, "note"),
            vcs: read_rider_vcs(value),
            installations: read_rider_installations(value),
            search_roots: read_string_array(value, "searchRoots"),
        },
    )
}


// ---------------------------------------------------------------------------
// Bundles
// ---------------------------------------------------------------------------

/// One artifact directory of a harness tool and what was found in it.
#[derive(Clone, Debug)]
pub struct ArtifactBundle {
    pub name: String,
    pub path: String,
    pub files: Vec<String>,
    pub summary_path: Option<String>,
    pub final_status_path: Option<String>,
    pub comparison_path: Option<String>,
    pub implementation_audit: Option<ImplementationAudit>,
    pub runtime_audit: Option<RuntimeAudit>,
    pub rider_audit: Option<RiderAudit>,
    pub modified_millis: Option<u128>,
}

/// A directory of artifact bundles and the prefix its bundles are named with.
#[derive(Clone, Debug)]
pub struct ArtifactRoot {
    pub path: String,
    pub prefix: String,
}

/// Where a member's bundles are looked for, in this order: the tools'
/// directories under its artifact root and, for the Epiphany harness itself,
/// its dogfood runs.
pub fn artifact_roots(member: &SwarmMember) -> (r: Vec<ArtifactRoot>)
    ensures
        r@.len() == (if member.id@ == "epiphany-agent"@ {
            7int
        } else {
            6int
        }),
        r@[0].path@ == joined_path(member.artifact_root@, "coordinator"@) && r@[0].prefix@
            == "coordinator/"@,
        r@[1].path@ == joined_path(member.artifact_root@, "dogfood"@) && r@[1].prefix@
            == "dogfood/"@,
        r@[2].path@ == joined_path(member.artifact_root@, "actions"@) && r@[2].prefix@
            == "actions/"@,
        r@[3].path@ == joined_path(member.artifact_root@, "status-snapshots"@) && r@[3].prefix@
            == "status/"@,
        r@[4].path@ == joined_path(member.artifact_root@, "runtime"@) && r@[4].prefix@
            == "runtime/"@,
        r@[5].path@ == joined_path(member.artifact_root@, "rider"@) && r@[5].prefix@
            == "rider/"@,
        member.id@ == "epiphany-agent"@ ==> r@[6].path@ == joined_path(
            member.harness_root@,
            ".epiphany-dogfood"@,
        ) && r@[6].prefix@ == ""@,
{
    let base = member.artifact_root.as_str();
    let mut r: Vec<ArtifactRoot> = Vec::new();
    r.push(
        ArtifactRoot {
            path: crate::operator::path_join(base, "coordinator"),
            prefix: String::from_str("coordinator/"),
        },
    );
    r.push(
        ArtifactRoot {
            path: crate::operator::path_join(base, "dogfood"),
            prefix: String::from_str("dogfood/"),
        },
    );
    r.push(
        ArtifactRoot {
            path: crate::operator::path_join(base, "actions"),
            prefix: String::from_str("actions/"),
        },
    );
    r.push(
        ArtifactRoot {
            path: crate::operator::path_join(base, "status-snapshots"),
            prefix: String::from_str("status/"),
        },
    );
    r.push(
        ArtifactRoot {
            path: crate::operator::path_join(base, "runtime"),
            prefix: String::from_str("runtime/"),
        },
    );
    r.push(
        ArtifactRoot {
            path: crate::operator::path_join(base, "rider"),
            prefix: String::from_str("rider/"),
        },
    );
    if str_eq(member.id.as_str(), "epiphany-agent") {
        r.push(
            ArtifactRoot {
                path: crate::operator::path_join(member.harness_root.as_str(), ".epiphany-dogfood"),
                prefix: String::from_str(""),
            },
        );
    }
    r
}

/// A bundle's name: its root's prefix, then its directory's name.
pub fn bundle_name(prefix: &str, dir_name: &str) -> (r: String)
    ensures
        r@ == prefix@ + dir_name@,
{
    let mut r = String::from_str(prefix);
    r.append(dir_name);
    r
}

/// `name` under `root`, when the file system holds it (`present`).
pub fn existing_path(root: &str, name: &str, present: bool) -> (r: Option<String>)
    ensures
        present ==> (r matches Some(p) && p@ == joined_path(root@, name@)),
        !present ==> r is None,
{
    if present {
        Some(crate::operator::path_join(root, name))
    } else {
        None
    }
}

/// The files that stand for a bundle's summary, most specific first.
pub open spec fn summary_names() -> Seq<Seq<char>> {
    seq![
        "epiphany-dogfood-summary.json"@,
        "gui-action-summary.json"@,
        "unity-bridge-summary.json"@,
        "rider-bridge-summary.json"@,
        "status.json"@,
    ]
}

/// The files that stand for a bundle's final status, most specific first.
pub open spec fn final_status_names() -> Seq<Seq<char>> {
    seq!["epiphany-final-status.json"@, "after-status.json"@]
}

/// The summary files a bundle is looked at for, in order of preference:
/// the dogfood summary, the GUI action summary, the Unity and Rider bridge
/// summaries, then `status.json`; and its final status: the dogfood final
/// status, then `after-status.json`.
pub proof fn law_summary_file_order()
    ensures
        summary_names() == seq![
            "epiphany-dogfood-summary.json"@,
            "gui-action-summary.json"@,
            "unity-bridge-summary.json"@,
            "rider-bridge-summary.json"@,
            "status.json"@,
        ],
        final_status_names() == seq!["epiphany-final-status.json"@, "after-status.json"@],
{
}

pub fn summary_file_names() -> (v: Vec<&'static str>)
    ensures
        crate::script::strs_view(v@) == summary_names(),
{
    let v = vec![
        "epiphany-dogfood-summary.json",
        "gui-action-summary.json",
        "unity-bridge-summary.json",
        "rider-bridge-summary.json",
        "status.json",
    ];
    proof {
        assert(crate::script::strs_view(v@) =~= summary_names());
    }
    v
}

pub fn final_status_file_names() -> (v: Vec<&'static str>)
    ensures
        crate::script::strs_view(v@) == final_status_names(),
{
    let v = vec!["epiphany-final-status.json", "after-status.json"];
    proof {
        assert(crate::script::strs_view(v@) =~= final_status_names());
    }
    v
}

/// Index of the first `true` in `present`, or its length.
pub open spec fn first_present(present: Seq<bool>) -> nat
    decreases present.len(),
{
    if present.len() == 0 {
        0
    } else if present[0] {
        0
    } else {
        1 + first_present(present.drop_first())
    }
}

proof fn lemma_first_present(present: Seq<bool>, k: int)
    requires
        0 <= k <= present.len(),
        forall|j: int| 0 <= j < k ==> !present[j],
        k == present.len() || present[k],
    ensures
        first_present(present) == k,
    decreases k,
{
    if k > 0 {
        lemma_first_present(present.drop_first(), k - 1);
    }
}

/// The first of `names` under `root` that the file system holds, where
/// `present[i]` says whether it holds `names[i]`.
pub fn first_existing(root: &str, names: &Vec<&str>, present: &Vec<bool>) -> (r: Option<String>)
    requires
        names@.len() == present@.len(),
    ensures
        ({
            let k = first_present(present@) as int;
            if k < names@.len() {
                r matches Some(p) && p@ == joined_path(root@, names@[k]@)
            } else {
                r is None
            }
        }),
{
    let mut i: usize = 0;
    while i < names.len()
        invariant
            i <= names@.len(),
            names@.len() == present@.len(),
            forall|j: int| 0 <= j < i ==> !present@[j],
        decreases names@.len() - i,
    {
        if present[i] {
            proof {
                lemma_first_present(present@, i as int);
            }
            return Some(crate::operator::path_join(root, names[i]));
        }
        i = i + 1;
    }
    proof {
        lemma_first_present(present@, i as int);
    }
    None
}

/// The first of `names` under `root` that `present` marks as there.
pub open spec fn first_path(root: Seq<char>, names: Seq<Seq<char>>, present: Seq<bool>) -> Option<
    Seq<char>,
> {
    let k = first_present(present) as int;
    if k < names.len() {
        Some(joined_path(root, names[k]))
    } else {
        None
    }
}

/// What the file system shows of one bundle directory: its name, the names
/// of its files, which of the summary files and of the final-status files
/// (in the order of `summary_names` and `final_status_names`) and whether
/// the comparison is there, the text of each report file that could be read,
/// and when the directory was last modified.
#[derive(Debug)]
pub struct BundleListing {
    pub dir_name: String,
    pub files: Vec<String>,
    pub summary_present: Vec<bool>,
    pub final_status_present: Vec<bool>,
    pub comparison_present: bool,
    pub implementation_text: Option<String>,
    pub runtime_text: Option<String>,
    pub rider_text: Option<String>,
    pub modified_millis: Option<u128>,
}

/// The JSON document of a report file: none where the file could not be
/// read or holds no JSON document.
pub open spec fn report_of(text: Option<String>) -> Option<JsonValue> {
    match text {
        Some(t) => crate::json::parsed_json(t@),
        None => None,
    }
}

/// Reads a report's text as JSON.
fn read_report(text: &Option<String>) -> (r: Option<JsonValue>)
    ensures
        r == report_of(*text),
{
    match text {
        Some(t) => match crate::json::parse_json(t.as_str()) {
            Ok(v) => Some(v),
            Err(_) => None,
        },
        None => None,
    }
}

/// The bundle that a listing of the directory `dir_name` under `root`, a
/// root listed with `prefix`, shows: its name and path, its files in order,
/// the first summary and final status present, the comparison, and the
/// audits that its reports hold.
pub fn artifact_bundle(root: &str, prefix: &str, listing: BundleListing) -> (b: ArtifactBundle)
    requires
        listing.summary_present@.len() == summary_names().len(),
        listing.final_status_present@.len() == final_status_names().len(),
    ensures
        b.name@ == prefix@ + listing.dir_name@,
        b.path@ == joined_path(root@, listing.dir_name@),
        crate::text::text_sorted(strings_view(b.files@)),
        strings_view(b.files@).to_multiset() == strings_view(listing.files@).to_multiset(),
        opt_view(b.summary_path) == first_path(
            b.path@,
            summary_names(),
            listing.summary_present@,
        ),
        opt_view(b.final_status_path) == first_path(
            b.path@,
            final_status_names(),
            listing.final_status_present@,
        ),
        opt_view(b.comparison_path) == (if listing.comparison_present {
            Some(joined_path(b.path@, "comparison.md"@))
        } else {
            None::<Seq<char>>
        }),
        match report_of(listing.implementation_text) {
            None => b.implementation_audit is None,
            Some(v) => b.implementation_audit matches Some(a) && implementation_read(
                joined_path(b.path@, "implementation-result.json"@),
                v,
                a,
            ),
        },
        match report_of(listing.runtime_text) {
            None => b.runtime_audit is None,
            Some(v) => runtime_read(
                joined_path(b.path@, "unity-bridge-summary.json"@),
                v,
                b.runtime_audit,
            ),
        },
        match report_of(listing.rider_text) {
            None => b.rider_audit is None,
            Some(v) => rider_read(
                joined_path(b.path@, "rider-bridge-summary.json"@),
                v,
                b.rider_audit,
            ),
        },
        b.modified_millis == listing.modified_millis,
{
    let summaries = summary_file_names();
    let finals = final_status_file_names();
    let path = crate::operator::path_join(root, listing.dir_name.as_str());
    let dir = path.as_str();
    let summary_path = first_existing(dir, &summaries, &listing.summary_present);
    let final_status_path = first_existing(dir, &finals, &listing.final_status_present);
    let comparison_path = existing_path(dir, "comparison.md", listing.comparison_present);
    let implementation_audit = match read_report(&listing.implementation_text) {
        Some(v) => {
            let result_path = implementation_audit_path(dir);
            Some(read_implementation_audit(result_path.as_str(), &v))
        },
        None => None,
    };
    let runtime_audit = match read_report(&listing.runtime_text) {
        Some(v) => {
            let result_path = runtime_audit_path(dir);
            read_runtime_audit(result_path.as_str(), &v)
        },
        None => None,
    };
    let rider_audit = match read_report(&listing.rider_text) {
        Some(v) => {
            let result_path = rider_audit_path(dir);
            read_rider_audit(result_path.as_str(), &v)
        },
        None => None,
    };
    let name = bundle_name(prefix, listing.dir_name.as_str());
    let files = crate::text::sort_names(listing.files);
    ArtifactBundle {
        name,
        path,
        files,
        summary_path,
        final_status_path,
        comparison_path,
        implementation_audit,
        runtime_audit,
        rider_audit,
        modified_millis: listing.modified_millis,
    }
}

// ---------------------------------------------------------------------------
// Listing order
// ---------------------------------------------------------------------------

/// The order of modification times: an unknown time before any known one.
pub open spec fn time_lt(a: Option<u128>, b: Option<u128>) -> bool {
    match (a, b) {
        (None, Some(_)) => true,
        (Some(x), Some(y)) => x < y,
        _ => false,
    }
}

fn time_lt_exec(a: Option<u128>, b: Option<u128>) -> (r: bool)
    ensures
        r == time_lt(a, b),
{
    match (a, b) {
        (None, Some(_)) => true,
        (Some(x), Some(y)) => x < y,
        _ => false,
    }
}

/// `out` is `s` reordered by `p` (`out[i]` is `s[p[i]]`), newest first, with
/// bundles of equal time in their order in `s`.
pub open spec fn is_newest_first_of(s: Seq<ArtifactBundle>, out: Seq<ArtifactBundle>, p: Seq<int>) -> bool {
    &&& p.len() == s.len()
    &&& out.len() == s.len()
    &&& forall|i: int| 0 <= i < p.len() ==> 0 <= #[trigger] p[i] < s.len() && out[i] == s[p[i]]
    &&& forall|i: int, j: int| 0 <= i < j < p.len() ==> #[trigger] p[i] != #[trigger] p[j]
    &&& forall|i: int, j: int|
        0 <= i < j < out.len() ==> !time_lt(
            #[trigger] out[i].modified_millis,
            #[trigger] out[j].modified_millis,
        )
    &&& forall|i: int, j: int|
        0 <= i < j < out.len() && #[trigger] out[i].modified_millis == #[trigger] out[
            j
        ].modified_millis ==> p[i] < p[j]
}

/// The bundles, newest first; bundles of equal time (or both of unknown
/// time) stay in the order they came in.
pub fn list_artifacts(bundles: Vec<ArtifactBundle>) -> (r: Vec<ArtifactBundle>)
    ensures
        exists|p: Seq<int>| is_newest_first_of(bundles@, r@, p),
{
    let ghost orig = bundles@;
    let n = bundles.len();
    let mut input = bundles;
    let mut out: Vec<ArtifactBundle> = Vec::new();
    let ghost mut perm: Seq<int> = seq![];
    let mut k: usize = 0;
    while k < n
        invariant
            n == orig.len(),
            k <= n,
            input@ == orig.skip(k as int),
            perm.len() == k,
            out@.len() == k,
            forall|i: int| 0 <= i < k ==> 0 <= #[trigger] perm[i] < k && out@[i] == orig[perm[i]],
            forall|i: int, j: int| 0 <= i < j < k ==> #[trigger] perm[i] != #[trigger] perm[j],
            forall|i: int, j: int|
                0 <= i < j < k ==> !time_lt(
                    #[trigger] out@[i].modified_millis,
                    #[trigger] out@[j].modified_millis,
                ),
            forall|i: int, j: int|
                0 <= i < j < k && #[trigger] out@[i].modified_millis == #[trigger] out@[
                    j
                ].modified_millis ==> perm[i] < perm[j],
        decreases n - k,
    {
        let x = input.remove(0);
        proof {
            assert(x == orig[k as int]);
            assert(input@ =~= orig.skip(k + 1));
        }
        let mut pos: usize = 0;
        while pos < out.len() && !time_lt_exec(out[pos].modified_millis, x.modified_millis)
            invariant
                pos <= out@.len(),
                forall|i: int| 0 <= i < pos ==> !time_lt(#[trigger] out@[i].modified_millis, x.modified_millis),
            decreases out@.len() - pos,
        {
            pos = pos + 1;
        }
        let ghost old_out = out@;
        let ghost old_perm = perm;
        out.insert(pos, x);
        proof {
            perm = old_perm.insert(pos as int, k as int);
            assert forall|i: int| 0 <= i < k + 1 implies 0 <= #[trigger] perm[i] < k + 1
                && out@[i] == orig[perm[i]] by {
                if i < pos {
                    assert(perm[i] == old_perm[i]);
                    assert(out@[i] == old_out[i]);
                } else if i == pos {
                } else {
                    assert(perm[i] == old_perm[i - 1]);
                    assert(out@[i] == old_out[i - 1]);
                }
            }
            assert forall|i: int, j: int| 0 <= i < j < k + 1 implies #[trigger] perm[i]
                != #[trigger] perm[j] by {
                if i < pos && j < pos {
                    assert(perm[i] == old_perm[i] && perm[j] == old_perm[j]);
                } else if i < pos && j == pos {
                    assert(perm[i] == old_perm[i]);
                } else if i < pos && j > pos {
                    assert(perm[i] == old_perm[i] && perm[j] == old_perm[j - 1]);
                } else if i == pos {
                    assert(perm[j] == old_perm[j - 1]);
                } else {
                    assert(perm[i] == old_perm[i - 1] && perm[j] == old_perm[j - 1]);
                }
            }
            assert forall|i: int, j: int| 0 <= i < j < k + 1 implies !time_lt(
                #[trigger] out@[i].modified_millis,
                #[trigger] out@[j].modified_millis,
            ) by {
                if i < pos && j < pos {
                    assert(out@[i] == old_out[i] && out@[j] == old_out[j]);
                } else if i < pos && j == pos {
                    assert(out@[i] == old_out[i]);
                } else if i < pos && j > pos {
                    assert(out@[i] == old_out[i] && out@[j] == old_out[j - 1]);
                    assert(!time_lt(old_out[i].modified_millis, old_out[j - 1].modified_millis));
                } else if i == pos {
                    assert(out@[j] == old_out[j - 1]);
                    assert(pos < old_out.len());
                    assert(time_lt(old_out[pos as int].modified_millis, x.modified_millis));
                    if j - 1 > pos {
                        assert(!time_lt(
                            old_out[pos as int].modified_millis,
                            old_out[j - 1].modified_millis,
                        ));
                    }
                } else {
                    assert(out@[i] == old_out[i - 1] && out@[j] == old_out[j - 1]);
                }
            }
            assert forall|i: int, j: int|
                0 <= i < j < k + 1 && #[trigger] out@[i].modified_millis == #[trigger] out@[
                    j
                ].modified_millis implies perm[i] < perm[j] by {
                if i < pos && j < pos {
                    assert(out@[i] == old_out[i] && out@[j] == old_out[j]);
                    assert(perm[i] == old_perm[i] && perm[j] == old_perm[j]);
                } else if i < pos && j == pos {
                    assert(perm[i] == old_perm[i]);
                } else if i < pos && j > pos {
                    assert(out@[i] == old_out[i] && out@[j] == old_out[j - 1]);
                    assert(perm[i] == old_perm[i] && perm[j] == old_perm[j - 1]);
                } else if i == pos {
                    assert(out@[j] == old_out[j - 1]);
                    assert(time_lt(old_out[pos as int].modified_millis, x.modified_millis));
                    if j - 1 > pos {
                        assert(!time_lt(
                            old_out[pos as int].modified_millis,
                            old_out[j - 1].modified_millis,
                        ));
                    }
                } else {
                    assert(out@[i] == old_out[i - 1] && out@[j] == old_out[j - 1]);
                    assert(perm[i] == old_perm[i - 1] && perm[j] == old_perm[j - 1]);
                }
            }
        }
        k = k + 1;
    }
    proof {
        assert(is_newest_first_of(orig, out@, perm));
    }
    out
}

} // verus!
