//! The operator bridge's own decisions: which swarm member a request is
//! about, which operator action a name selects, the paths and command lines
//! of the harness tools, and the clock in milliseconds.
//!
//! Running the tools, reading the file system and the environment stay with
//! the caller, which hands the results back as plain values.

use vstd::prelude::*;
use vstd::string::*;
use crate::text::{decimal_digits, decimal_string};

verus! {

broadcast use vstd::string::group_string_axioms;

// ---------------------------------------------------------------------------
// Paths
// ---------------------------------------------------------------------------

/// The path that `Path::join` forms from `base` and `part` on this target.
pub uninterp spec fn joined_path(base: Seq<char>, part: Seq<char>) -> Seq<char>;

/// The parent that `Path::parent` gives for `path` on this target.
pub uninterp spec fn parent_path(path: Seq<char>) -> Option<Seq<char>>;

/// Calls `std::path::Path::join`; the contract names the joined path
/// `joined_path(base, part)` and says nothing more of it (its separator and
/// its handling of absolute parts are the target's).
#[verifier::external_body]
pub(crate) fn path_join(base: &str, part: &str) -> (r: String)
    ensures
        r@ == joined_path(base@, part@),
{
    std::path::Path::new(base).join(part).to_string_lossy().into_owned()
}

/// Calls `std::path::Path::parent`; the contract names the result
/// `parent_path(path)` and says nothing more of it.
#[verifier::external_body]
pub(crate) fn path_parent(path: &str) -> (r: Option<String>)
    ensures
        match r {
            Some(p) => parent_path(path@) == Some(p@),
            None => parent_path(path@) is None,
        },
{
    match std::path::Path::new(path).parent() {
        Some(p) => Some(p.to_string_lossy().into_owned()),
        None => None,
    }
}

/// `base` joined with `a`, then with `b`.
pub open spec fn joined2(base: Seq<char>, a: Seq<char>, b: Seq<char>) -> Seq<char> {
    joined_path(joined_path(base, a), b)
}

/// The Aquarium project root: the parent of the backend's manifest
/// directory.
pub fn aquarium_root(manifest_dir: &str) -> (r: Result<String, String>)
    ensures
        match r {
            Ok(p) => parent_path(manifest_dir@) == Some(p@),
            Err(m) => parent_path(manifest_dir@) is None && m@
                == "failed to locate Aquarium project root"@,
        },
{
    match path_parent(manifest_dir) {
        Some(p) => Ok(p),
        None => Err(String::from_str("failed to locate Aquarium project root")),
    }
}

/// Where the swarm registry lives: `.epiphany-aquarium/swarm.json` under the
/// Aquarium root.
pub fn swarm_config_path(manifest_dir: &str) -> (r: Result<String, String>)
    ensures
        match r {
            Ok(p) => parent_path(manifest_dir@) matches Some(root) && p@ == joined2(
                root,
                ".epiphany-aquarium"@,
                "swarm.json"@,
            ),
            Err(m) => parent_path(manifest_dir@) is None && m@
                == "failed to locate Aquarium project root"@,
        },
{
    let root = aquarium_root(manifest_dir)?;
    let dir = path_join(root.as_str(), ".epiphany-aquarium");
    Ok(path_join(dir.as_str(), "swarm.json"))
}

// ---------------------------------------------------------------------------
// Swarm members
// ---------------------------------------------------------------------------

/// One Epiphany instance of the swarm and where its files are.
#[derive(Clone, Debug)]
pub struct SwarmMember {
    pub id: String,
    pub label: String,
    pub kind: String,
    pub harness_root: String,
    pub workspace_root: String,
    pub state_root: String,
    pub codex_home: String,
    pub artifact_root: String,
    pub description: Option<String>,
    pub status: Option<String>,
}

/// What the front end asks about: a member and optional overrides.
#[derive(Clone, Debug)]
pub struct StatusRequest {
    pub member_id: Option<String>,
    pub thread_id: Option<String>,
    pub cwd: Option<String>,
    pub codex_home: Option<String>,
    pub app_server: Option<String>,
    pub planning_draft_id: Option<String>,
}

impl StatusRequest {
    /// A request that asks about the first member, with no overrides.
    pub fn empty() -> (r: StatusRequest)
        ensures
            r.member_id is None,
            r.thread_id is None,
            r.cwd is None,
            r.codex_home is None,
            r.app_server is None,
            r.planning_draft_id is None,
    {
        StatusRequest {
            member_id: None,
            thread_id: None,
            cwd: None,
            codex_home: None,
            app_server: None,
            planning_draft_id: None,
        }
    }
}

fn copy_string(s: &String) -> (r: String)
    ensures
        r == *s,
{
    s.clone()
}

fn copy_opt_string(s: &Option<String>) -> (r: Option<String>)
    ensures
        r == *s,
{
    match s {
        Some(x) => Some(x.clone()),
        None => None,
    }
}

impl SwarmMember {
    /// A member equal to this one, field for field.
    pub fn copy(&self) -> (r: SwarmMember)
        ensures
            r == *self,
    {
        SwarmMember {
            id: copy_string(&self.id),
            label: copy_string(&self.label),
            kind: copy_string(&self.kind),
            harness_root: copy_string(&self.harness_root),
            workspace_root: copy_string(&self.workspace_root),
            state_root: copy_string(&self.state_root),
            codex_home: copy_string(&self.codex_home),
            artifact_root: copy_string(&self.artifact_root),
            description: copy_opt_string(&self.description),
            status: copy_opt_string(&self.status),
        }
    }
}

/// Index of the first member whose id is `id`, or `members.len()`.
pub open spec fn member_index(members: Seq<SwarmMember>, id: Seq<char>) -> nat
    decreases members.len(),
{
    if members.len() == 0 {
        0
    } else if members[0].id@ == id {
        0
    } else {
        1 + member_index(members.drop_first(), id)
    }
}

proof fn lemma_member_index(members: Seq<SwarmMember>, id: Seq<char>, k: int)
    requires
        0 <= k <= members.len(),
        forall|j: int| 0 <= j < k ==> members[j].id@ != id,
        k == members.len() || members[k].id@ == id,
    ensures
        member_index(members, id) == k,
    decreases k,
{
    if k > 0 {
        lemma_member_index(members.drop_first(), id, k - 1);
    }
}

/// The member found for an id carries that id, and no member before it
/// does; an id that no member carries is not found.
pub proof fn law_resolved_member_has_id(members: Seq<SwarmMember>, id: Seq<char>)
    ensures
        member_index(members, id) <= members.len(),
        member_index(members, id) < members.len() ==> members[member_index(members, id) as int].id@
            == id,
        forall|j: int| 0 <= j < member_index(members, id) ==> #[trigger] members[j].id@ != id,
    decreases members.len(),
{
    if members.len() > 0 && members[0].id@ != id {
        law_resolved_member_has_id(members.drop_first(), id);
        assert forall|j: int| 0 <= j < member_index(members, id) implies #[trigger] members[j].id@
            != id by {
            if j > 0 {
                assert(members.drop_first()[j - 1] == members[j]);
            }
        }
    }
}

/// The member a request is about: the first one with the asked id, or the
/// first member when no id is asked.
pub fn resolve_swarm_member(members: &Vec<SwarmMember>, member_id: Option<&str>) -> (r: Result<
    SwarmMember,
    String,
>)
    ensures
        member_id matches Some(id) ==> if member_index(members@, id@) < members@.len() {
            r == Ok::<SwarmMember, String>(members@[member_index(members@, id@) as int])
        } else {
            (r matches Err(m) && m@ == "unknown swarm member: "@ + id@)
        },
        member_id is None ==> if members@.len() > 0 {
            r == Ok::<SwarmMember, String>(members@[0])
        } else {
            (r matches Err(m) && m@ == "swarm registry has no members"@)
        },
{
    match member_id {
        Some(id) => {
            let mut i: usize = 0;
            while i < members.len()
                invariant
                    i <= members@.len(),
                    member_id == Some(id),
                    forall|j: int| 0 <= j < i ==> members@[j].id@ != id@,
                decreases members@.len() - i,
            {
                if crate::script::str_eq(members[i].id.as_str(), id) {
                    proof {
                        assert(members@[i as int].id@ == id@);
                        lemma_member_index(members@, id@, i as int);
                    }
                    let found = members[i].copy();
                    assert(found == members@[i as int]);
                    return Ok(found);
                }
                i = i + 1;
            }
            proof {
                lemma_member_index(members@, id@, i as int);
            }
            let mut m = String::from_str("unknown swarm member: ");
            m.append(id);
            Err(m)
        },
        None => {
            if members.len() > 0 {
                Ok(members[0].copy())
            } else {
                Err(String::from_str("swarm registry has no members"))
            }
        },
    }
}

/// Where the Aetheria workspace is: `AetheriaLore` beside the harness, or
/// the fixed Windows location when the harness root has no parent.
pub open spec fn aetheria_root(harness_root: Seq<char>) -> Seq<char> {
    match parent_path(harness_root) {
        Some(p) => joined_path(p, "AetheriaLore"@),
        None => "E:\\Projects\\AetheriaLore"@,
    }
}

/// The built-in swarm: the Epiphany harness itself and the Aetheria Lore
/// workspace that it also drives.
pub fn default_swarm_members(harness_root: &str) -> (r: Vec<SwarmMember>)
    ensures
        r@.len() == 2,
        r@[0].id@ == "epiphany-agent"@,
        r@[0].label@ == "Epiphany"@,
        r@[0].kind@ == "harness"@,
        r@[0].harness_root@ == harness_root@,
        r@[0].workspace_root@ == harness_root@,
        r@[0].state_root@ == joined_path(harness_root@, "state"@),
        r@[0].codex_home@ == joined2(harness_root@, ".epiphany-gui"@, "codex-home"@),
        r@[0].artifact_root@ == joined_path(harness_root@, ".epiphany-gui"@),
        r@[0].description matches Some(d) && d@ == "Main Epiphany harness instance."@,
        r@[0].status matches Some(s) && s@ == "active"@,
        r@[1].id@ == "aetheria-lore"@,
        r@[1].label@ == "Aetheria Lore"@,
        r@[1].kind@ == "workspace"@,
        r@[1].harness_root@ == harness_root@,
        r@[1].workspace_root@ == aetheria_root(harness_root@),
        r@[1].state_root@ == joined_path(aetheria_root(harness_root@), ".epiphany"@),
        r@[1].codex_home@ == joined2(aetheria_root(harness_root@), ".epiphany"@, "codex-home"@),
        r@[1].artifact_root@ == joined2(aetheria_root(harness_root@), ".epiphany"@, "artifacts"@),
        r@[1].description matches Some(d) && d@ == "Aetheria vault and website swarm instance."@,
        r@[1].status matches Some(s) && s@ == "bootstrap"@,
{
    let aetheria = match path_parent(harness_root) {
        Some(p) => path_join(p.as_str(), "AetheriaLore"),
        None => String::from_str("E:\\Projects\\AetheriaLore"),
    };
    let gui = path_join(harness_root, ".epiphany-gui");
    let epiphany = SwarmMember {
        id: String::from_str("epiphany-agent"),
        label: String::from_str("Epiphany"),
        kind: String::from_str("harness"),
        harness_root: String::from_str(harness_root),
        workspace_root: String::from_str(harness_root),
        state_root: path_join(harness_root, "state"),
        codex_home: path_join(gui.as_str(), "codex-home"),
        artifact_root: gui,
        description: Some(String::from_str("Main Epiphany harness instance.")),
        status: Some(String::from_str("active")),
    };
    let dot = path_join(aetheria.as_str(), ".epiphany");
    let aetheria_member = SwarmMember {
        id: String::from_str("aetheria-lore"),
        label: String::from_str("Aetheria Lore"),
        kind: String::from_str("workspace"),
        harness_root: String::from_str(harness_root),
        workspace_root: copy_string(&aetheria),
        state_root: copy_string(&dot),
        codex_home: path_join(dot.as_str(), "codex-home"),
        artifact_root: path_join(dot.as_str(), "artifacts"),
        description: Some(String::from_str("Aetheria vault and website swarm instance.")),
        status: Some(String::from_str("bootstrap")),
    };
    let mut r: Vec<SwarmMember> = Vec::new();
    r.push(epiphany);
    r.push(aetheria_member);
    r
}

/// The registry's `members` array, which must be there.
pub fn swarm_config_members(config: &crate::json::JsonValue) -> (r: Result<
    &Vec<crate::json::JsonValue>,
    String,
>)
    ensures
        match r {
            Ok(items) => crate::json::json_get(*config, "members"@) matches Some(m)
                && crate::json::json_array(m) == Some(items@),
            Err(e) => e@ == "swarm config missing members array"@ && match crate::json::json_get(
                *config,
                "members"@,
            ) {
                Some(m) => crate::json::json_array(m) is None,
                None => true,
            },
        },
{
    match config.get("members") {
        Some(m) => match m.as_array() {
            Some(items) => Ok(items),
            None => Err(String::from_str("swarm config missing members array")),
        },
        None => Err(String::from_str("swarm config missing members array")),
    }
}

/// The start of the error for a registry at `path` whose text is no JSON
/// document; serde_json's message follows it.
pub open spec fn msg_parse_swarm_config(path: Seq<char>) -> Seq<char> {
    "failed to parse swarm config "@ + path + ": "@
}

/// The JSON document of the swarm registry read from `config_path`, or the
/// error that names the registry where its text holds none.
pub fn parse_swarm_config(config_path: &str, text: &str) -> (r: Result<
    crate::json::JsonValue,
    String,
>)
    ensures
        match crate::json::parsed_json(text@) {
            Some(v) => r == Ok::<crate::json::JsonValue, String>(v),
            None => r matches Err(m) && m@.len() >= msg_parse_swarm_config(config_path@).len()
                && m@.take(msg_parse_swarm_config(config_path@).len() as int)
                == msg_parse_swarm_config(config_path@),
        },
{
    match crate::json::parse_json(text) {
        Ok(v) => Ok(v),
        Err(detail) => {
            let mut m = String::from_str("failed to parse swarm config ");
            m.append(config_path);
            m.append(": ");
            m.append(detail.as_str());
            proof {
                reveal_strlit("failed to parse swarm config ");
                reveal_strlit(": ");
                assert(m@.take(msg_parse_swarm_config(config_path@).len() as int)
                    =~= msg_parse_swarm_config(config_path@));
            }
            Err(m)
        },
    }
}

/// The start of the error for a tool run `label` whose output is no JSON
/// document; serde_json's message follows it.
pub open spec fn msg_parse_tool_output(label: Seq<char>) -> Seq<char> {
    "failed to parse "@ + label + " JSON: "@
}

/// The JSON document that the tool run `label` wrote to its output, or the
/// error that names the run where the output holds none.
pub fn parse_tool_output(label: &str, output: &str) -> (r: Result<crate::json::JsonValue, String>)
    ensures
        match crate::json::parsed_json(output@) {
            Some(v) => r == Ok::<crate::json::JsonValue, String>(v),
            None => r matches Err(m) && m@.len() >= msg_parse_tool_output(label@).len()
                && m@.take(msg_parse_tool_output(label@).len() as int) == msg_parse_tool_output(
                label@,
            ),
        },
{
    match crate::json::parse_json(output) {
        Ok(v) => Ok(v),
        Err(detail) => {
            let mut m = String::from_str("failed to parse ");
            m.append(label);
            m.append(" JSON: ");
            m.append(detail.as_str());
            proof {
                reveal_strlit("failed to parse ");
                reveal_strlit(" JSON: ");
                assert(m@.take(msg_parse_tool_output(label@).len() as int)
                    =~= msg_parse_tool_output(label@));
            }
            Err(m)
        },
    }
}

/// The members the registry lists, unless it lists none or there is no
/// registry: then the built-in ones.
pub fn members_or_defaults(configured: Option<Vec<SwarmMember>>, defaults: Vec<SwarmMember>) -> (r:
    Vec<SwarmMember>)
    ensures
        r@ == (match configured {
            Some(c) => if c@.len() > 0 {
                c@
            } else {
                defaults@
            },
            None => defaults@,
        }),
{
    match configured {
        Some(c) => if c.len() > 0 {
            c
        } else {
            defaults
        },
        None => defaults,
    }
}

// ---------------------------------------------------------------------------
// Locating the harness and its Python
// ---------------------------------------------------------------------------

/// Where a sibling checkout of the harness would be: `EpiphanyAgent` in the
/// directory three levels above the backend's manifest directory.
pub open spec fn sibling_agent(manifest_dir: Seq<char>) -> Option<Seq<char>> {
    match parent_path(manifest_dir) {
        Some(a) => match parent_path(a) {
            Some(b) => match parent_path(b) {
                Some(projects) => Some(joined_path(projects, "EpiphanyAgent"@)),
                None => None,
            },
            None => None,
        },
        None => None,
    }
}

/// The sibling checkout's path, when the manifest directory is deep enough
/// to have one.
pub fn sibling_agent_path(manifest_dir: &str) -> (r: Option<String>)
    ensures
        crate::script::opt_view(r) == sibling_agent(manifest_dir@),
{
    let a = path_parent(manifest_dir)?;
    let b = path_parent(a.as_str())?;
    let projects = path_parent(b.as_str())?;
    Some(path_join(projects.as_str(), "EpiphanyAgent"))
}

pub open spec fn msg_no_agent_root() -> Seq<char> {
    "failed to locate EpiphanyAgent; set EPIPHANY_AGENT_ROOT"@
}

/// The harness root: the value of `EPIPHANY_AGENT_ROOT` when it is set and
/// names a path that exists, else the sibling checkout when it exists.
pub open spec fn spec_repo_root(
    env_root: Option<Seq<char>>,
    env_root_exists: bool,
    sibling: Option<Seq<char>>,
    sibling_exists: bool,
) -> Result<Seq<char>, Seq<char>> {
    let from_sibling = match sibling {
        Some(p) => if sibling_exists {
            Ok(p)
        } else {
            Err(msg_no_agent_root())
        },
        None => Err(msg_no_agent_root()),
    };
    match env_root {
        Some(v) => if env_root_exists {
            Ok(v)
        } else {
            from_sibling
        },
        None => from_sibling,
    }
}

/// Where the harness is: the environment's root when it is set and exists;
/// else the sibling checkout when there is one and it exists; else the
/// error that asks for the environment variable.
pub proof fn law_repo_root(
    env_root: Option<Seq<char>>,
    env_root_exists: bool,
    sibling: Option<Seq<char>>,
    sibling_exists: bool,
)
    ensures
        env_root matches Some(v) && env_root_exists ==> spec_repo_root(
            env_root,
            env_root_exists,
            sibling,
            sibling_exists,
        ) == Ok::<Seq<char>, Seq<char>>(env_root->0),
        (env_root is None || !env_root_exists) && sibling is Some && sibling_exists
            ==> spec_repo_root(env_root, env_root_exists, sibling, sibling_exists) == Ok::<
            Seq<char>,
            Seq<char>,
        >(sibling->0),
        (env_root is None || !env_root_exists) && (sibling is None || !sibling_exists)
            ==> spec_repo_root(env_root, env_root_exists, sibling, sibling_exists) == Err::<
            Seq<char>,
            Seq<char>,
        >("failed to locate EpiphanyAgent; set EPIPHANY_AGENT_ROOT"@),
{
}

pub open spec fn result_view(r: Result<String, String>) -> Result<Seq<char>, Seq<char>> {
    match r {
        Ok(s) => Ok(s@),
        Err(e) => Err(e@),
    }
}

/// Picks the harness root from the environment variable's value and the
/// sibling checkout's path, each with whether that path exists.
pub fn repo_root(
    env_root: Option<String>,
    env_root_exists: bool,
    sibling: Option<String>,
    sibling_exists: bool,
) -> (r: Result<String, String>)
    ensures
        result_view(r) == spec_repo_root(
            crate::script::opt_view(env_root),
            env_root_exists,
            crate::script::opt_view(sibling),
            sibling_exists,
        ),
{
    if let Some(v) = env_root {
        if env_root_exists {
            return Ok(v);
        }
    }
    if let Some(p) = sibling {
        if sibling_exists {
            return Ok(p);
        }
    }
    Err(String::from_str("failed to locate EpiphanyAgent; set EPIPHANY_AGENT_ROOT"))
}

/// The Python that ships with the Codex runtime on the operator's machine.
pub const BUNDLED_PYTHON: &'static str = "C:\\Users\\Meta\\.cache\\codex-runtimes\\codex-primary-runtime\\dependencies\\python\\python.exe";

/// The Python the tools run with: the value of `EPIPHANY_PYTHON` when it is
/// set and names a path that exists, else the bundled one when it exists,
/// else `python` from the search path.
pub open spec fn spec_find_python(
    env_python: Option<Seq<char>>,
    env_python_exists: bool,
    bundled_exists: bool,
) -> Seq<char> {
    let fallback = if bundled_exists {
        BUNDLED_PYTHON@
    } else {
        "python"@
    };
    match env_python {
        Some(v) => if env_python_exists {
            v
        } else {
            fallback
        },
        None => fallback,
    }
}

/// Which Python runs the tools: the environment's choice when it is set
/// and exists; else the bundled runtime when it exists; else `python` from
/// the search path.
pub proof fn law_find_python(env_python: Option<Seq<char>>, env_python_exists: bool, bundled_exists: bool)
    ensures
        env_python is Some && env_python_exists ==> spec_find_python(
            env_python,
            env_python_exists,
            bundled_exists,
        ) == env_python->0,
        (env_python is None || !env_python_exists) && bundled_exists ==> spec_find_python(
            env_python,
            env_python_exists,
            bundled_exists,
        ) == BUNDLED_PYTHON@,
        (env_python is None || !env_python_exists) && !bundled_exists ==> spec_find_python(
            env_python,
            env_python_exists,
            bundled_exists,
        ) == "python"@,
{
}

/// Picks the Python from the environment variable's value and whether the
/// paths exist.
pub fn find_python(env_python: Option<String>, env_python_exists: bool, bundled_exists: bool) -> (r:
    String)
    ensures
        r@ == spec_find_python(
            crate::script::opt_view(env_python),
            env_python_exists,
            bundled_exists,
        ),
{
    if let Some(v) = env_python {
        if env_python_exists {
            return v;
        }
    }
    if bundled_exists {
        String::from_str(BUNDLED_PYTHON)
    } else {
        String::from_str("python")
    }
}

// ---------------------------------------------------------------------------
// Clock
// ---------------------------------------------------------------------------

/// A time as its offset from the Unix epoch.
#[derive(Clone, Copy, Debug)]
pub struct EpochOffset {
    pub secs: u64,
    pub nanos: u32,
}

/// Calls `SystemTime::now()` and its `duration_since(UNIX_EPOCH)`: the
/// offset of now from the epoch, or `None` when the clock is before it.
/// What time it is is not stated; only that the sub-second part is under one
/// second, as `Duration::subsec_nanos` documents.
#[verifier::external_body]
fn now_since_epoch() -> (r: Option<EpochOffset>)
    ensures
        r matches Some(o) ==> o.nanos < 1_000_000_000,
{
    match std::time::SystemTime::now().duration_since(std::time::UNIX_EPOCH) {
        Ok(d) => Some(EpochOffset { secs: d.as_secs(), nanos: d.subsec_nanos() }),
        Err(_) => None,
    }
}

pub open spec fn offset_millis(o: EpochOffset) -> nat {
    o.secs as nat * 1000 + o.nanos as nat / 1_000_000
}

/// Whole milliseconds of a time's offset from the epoch, or `None` for a
/// time before it.
pub fn system_time_millis(value: Option<EpochOffset>) -> (r: Option<u128>)
    requires
        value matches Some(o) ==> o.nanos < 1_000_000_000,
    ensures
        match value {
            Some(o) => r == Some(offset_millis(o) as u128),
            None => r is None,
        },
{
    match value {
        Some(o) => Some((o.secs as u128) * 1000 + (o.nanos / 1_000_000) as u128),
        None => None,
    }
}

/// Whole milliseconds of a time's offset from the epoch, or 0 for a time
/// before it.
pub fn millis_or_zero(value: Option<EpochOffset>) -> (r: u128)
    requires
        value matches Some(o) ==> o.nanos < 1_000_000_000,
    ensures
        r == match value {
            Some(o) => offset_millis(o),
            None => 0,
        },
{
    match system_time_millis(value) {
        Some(m) => m,
        None => 0,
    }
}

/// Milliseconds since the Unix epoch now, or 0 when the clock is before it.
/// Which time it is depends on the clock; the result is what
/// `millis_or_zero` makes of the clock's reading.
pub fn unix_millis() -> (r: u128)
    ensures
        r <= u64::MAX as nat * 1000 + 999,
{
    millis_or_zero(now_since_epoch())
}


// ---------------------------------------------------------------------------
// Operator actions
// ---------------------------------------------------------------------------

/// What an operator action runs.
#[derive(Clone, Copy, Debug, PartialEq, Eq, Structural)]
pub enum OperatorAction {
    StatusSnapshot,
    CoordinatorPlan,
    InspectUnity,
    InspectRider,
    /// An action that the harness's GUI action bridge carries out.
    GuiBridge,
}

/// The actions that the GUI action bridge carries out.
pub open spec fn gui_bridge_actions() -> Seq<Seq<char>> {
    seq![
        "heartbeatStatus"@,
        "runHeartbeat"@,
        "faceBubble"@,
        "launchImagination"@,
        "readImaginationResult"@,
        "acceptImagination"@,
        "launchModeling"@,
        "readModelingResult"@,
        "acceptModeling"@,
        "launchVerification"@,
        "readVerificationResult"@,
        "acceptVerification"@,
        "adoptObjectiveDraft"@,
        "launchReorient"@,
        "readReorientResult"@,
        "acceptReorient"@,
        "continueImplementation"@,
        "prepareCheckpoint"@,
    ]
}

pub open spec fn spec_operator_action(name: Seq<char>) -> Option<OperatorAction> {
    if name == "statusSnapshot"@ {
        Some(OperatorAction::StatusSnapshot)
    } else if name == "coordinatorPlan"@ {
        Some(OperatorAction::CoordinatorPlan)
    } else if name == "inspectUnity"@ {
        Some(OperatorAction::InspectUnity)
    } else if name == "inspectRider"@ {
        Some(OperatorAction::InspectRider)
    } else if gui_bridge_actions().contains(name) {
        Some(OperatorAction::GuiBridge)
    } else {
        None
    }
}

/// The actions the bridge knows: the four it runs itself, and the eighteen
/// that the harness's GUI action bridge carries out; no other name selects
/// an action.
pub proof fn law_operator_action_names(name: Seq<char>)
    ensures
        spec_operator_action("statusSnapshot"@) == Some(OperatorAction::StatusSnapshot),
        spec_operator_action("coordinatorPlan"@) == Some(OperatorAction::CoordinatorPlan),
        spec_operator_action("inspectUnity"@) == Some(OperatorAction::InspectUnity),
        spec_operator_action("inspectRider"@) == Some(OperatorAction::InspectRider),
        spec_operator_action("heartbeatStatus"@) == Some(OperatorAction::GuiBridge),
        spec_operator_action("runHeartbeat"@) == Some(OperatorAction::GuiBridge),
        spec_operator_action("faceBubble"@) == Some(OperatorAction::GuiBridge),
        spec_operator_action("launchImagination"@) == Some(OperatorAction::GuiBridge),
        spec_operator_action("readImaginationResult"@) == Some(OperatorAction::GuiBridge),
        spec_operator_action("acceptImagination"@) == Some(OperatorAction::GuiBridge),
        spec_operator_action("launchModeling"@) == Some(OperatorAction::GuiBridge),
        spec_operator_action("readModelingResult"@) == Some(OperatorAction::GuiBridge),
        spec_operator_action("acceptModeling"@) == Some(OperatorAction::GuiBridge),
        spec_operator_action("launchVerification"@) == Some(OperatorAction::GuiBridge),
        spec_operator_action("readVerificationResult"@) == Some(OperatorAction::GuiBridge),
        spec_operator_action("acceptVerification"@) == Some(OperatorAction::GuiBridge),
        spec_operator_action("adoptObjectiveDraft"@) == Some(OperatorAction::GuiBridge),
        spec_operator_action("launchReorient"@) == Some(OperatorAction::GuiBridge),
        spec_operator_action("readReorientResult"@) == Some(OperatorAction::GuiBridge),
        spec_operator_action("acceptReorient"@) == Some(OperatorAction::GuiBridge),
        spec_operator_action("continueImplementation"@) == Some(OperatorAction::GuiBridge),
        spec_operator_action("prepareCheckpoint"@) == Some(OperatorAction::GuiBridge),
        spec_operator_action(name) is Some ==> (
            name == "statusSnapshot"@
            || name == "coordinatorPlan"@
            || name == "inspectUnity"@
            || name == "inspectRider"@
            || name == "heartbeatStatus"@
            || name == "runHeartbeat"@
            || name == "faceBubble"@
            || name == "launchImagination"@
            || name == "readImaginationResult"@
            || name == "acceptImagination"@
            || name == "launchModeling"@
            || name == "readModelingResult"@
            || name == "acceptModeling"@
            || name == "launchVerification"@
            || name == "readVerificationResult"@
            || name == "acceptVerification"@
            || name == "adoptObjectiveDraft"@
            || name == "launchReorient"@
            || name == "readReorientResult"@
            || name == "acceptReorient"@
            || name == "continueImplementation"@
            || name == "prepareCheckpoint"@
        ),
{
    reveal_strlit("statusSnapshot");
    reveal_strlit("coordinatorPlan");
    reveal_strlit("inspectUnity");
    reveal_strlit("inspectRider");
    reveal_strlit("heartbeatStatus");
    reveal_strlit("runHeartbeat");
    reveal_strlit("faceBubble");
    reveal_strlit("launchImagination");
    reveal_strlit("readImaginationResult");
    reveal_strlit("acceptImagination");
    reveal_strlit("launchModeling");
    reveal_strlit("readModelingResult");
    reveal_strlit("acceptModeling");
    reveal_strlit("launchVerification");
    reveal_strlit("readVerificationResult");
    reveal_strlit("acceptVerification");
    reveal_strlit("adoptObjectiveDraft");
    reveal_strlit("launchReorient");
    reveal_strlit("readReorientResult");
    reveal_strlit("acceptReorient");
    reveal_strlit("continueImplementation");
    reveal_strlit("prepareCheckpoint");
    assert("coordinatorPlan"@.len() != "statusSnapshot"@.len());
    assert("inspectUnity"@.len() != "statusSnapshot"@.len());
    assert("inspectUnity"@.len() != "coordinatorPlan"@.len());
    assert("inspectRider"@.len() != "statusSnapshot"@.len());
    assert("inspectRider"@.len() != "coordinatorPlan"@.len());
    assert("inspectRider"@[7] != "inspectUnity"@[7]);
    assert("heartbeatStatus"@.len() != "statusSnapshot"@.len());
    assert("heartbeatStatus"@[0] != "coordinatorPlan"@[0]);
    assert("heartbeatStatus"@.len() != "inspectUnity"@.len());
    assert("heartbeatStatus"@.len() != "inspectRider"@.len());
    assert("runHeartbeat"@.len() != "statusSnapshot"@.len());
    assert("runHeartbeat"@.len() != "coordinatorPlan"@.len());
    assert("runHeartbeat"@[0] != "inspectUnity"@[0]);
    assert("runHeartbeat"@[0] != "inspectRider"@[0]);
    assert("faceBubble"@.len() != "statusSnapshot"@.len());
    assert("faceBubble"@.len() != "coordinatorPlan"@.len());
    assert("faceBubble"@.len() != "inspectUnity"@.len());
    assert("faceBubble"@.len() != "inspectRider"@.len());
    assert("launchImagination"@.len() != "statusSnapshot"@.len());
    assert("launchImagination"@.len() != "coordinatorPlan"@.len());
    assert("launchImagination"@.len() != "inspectUnity"@.len());
    assert("launchImagination"@.len() != "inspectRider"@.len());
    assert("readImaginationResult"@.len() != "statusSnapshot"@.len());
    assert("readImaginationResult"@.len() != "coordinatorPlan"@.len());
    assert("readImaginationResult"@.len() != "inspectUnity"@.len());
    assert("readImaginationResult"@.len() != "inspectRider"@.len());
    assert("acceptImagination"@.len() != "statusSnapshot"@.len());
    assert("acceptImagination"@.len() != "coordinatorPlan"@.len());
    assert("acceptImagination"@.len() != "inspectUnity"@.len());
    assert("acceptImagination"@.len() != "inspectRider"@.len());
    assert("launchModeling"@[0] != "statusSnapshot"@[0]);
    assert("launchModeling"@.len() != "coordinatorPlan"@.len());
    assert("launchModeling"@.len() != "inspectUnity"@.len());
    assert("launchModeling"@.len() != "inspectRider"@.len());
    assert("readModelingResult"@.len() != "statusSnapshot"@.len());
    assert("readModelingResult"@.len() != "coordinatorPlan"@.len());
    assert("readModelingResult"@.len() != "inspectUnity"@.len());
    assert("readModelingResult"@.len() != "inspectRider"@.len());
    assert("acceptModeling"@[0] != "statusSnapshot"@[0]);
    assert("acceptModeling"@.len() != "coordinatorPlan"@.len());
    assert("acceptModeling"@.len() != "inspectUnity"@.len());
    assert("acceptModeling"@.len() != "inspectRider"@.len());
    assert("launchVerification"@.len() != "statusSnapshot"@.len());
    assert("launchVerification"@.len() != "coordinatorPlan"@.len());
    assert("launchVerification"@.len() != "inspectUnity"@.len());
    assert("launchVerification"@.len() != "inspectRider"@.len());
    assert("readVerificationResult"@.len() != "statusSnapshot"@.len());
    assert("readVerificationResult"@.len() != "coordinatorPlan"@.len());
    assert("readVerificationResult"@.len() != "inspectUnity"@.len());
    assert("readVerificationResult"@.len() != "inspectRider"@.len());
    assert("acceptVerification"@.len() != "statusSnapshot"@.len());
    assert("acceptVerification"@.len() != "coordinatorPlan"@.len());
    assert("acceptVerification"@.len() != "inspectUnity"@.len());
    assert("acceptVerification"@.len() != "inspectRider"@.len());
    assert("adoptObjectiveDraft"@.len() != "statusSnapshot"@.len());
    assert("adoptObjectiveDraft"@.len() != "coordinatorPlan"@.len());
    assert("adoptObjectiveDraft"@.len() != "inspectUnity"@.len());
    assert("adoptObjectiveDraft"@.len() != "inspectRider"@.len());
    assert("launchReorient"@[0] != "statusSnapshot"@[0]);
    assert("launchReorient"@.len() != "coordinatorPlan"@.len());
    assert("launchReorient"@.len() != "inspectUnity"@.len());
    assert("launchReorient"@.len() != "inspectRider"@.len());
    assert("readReorientResult"@.len() != "statusSnapshot"@.len());
    assert("readReorientResult"@.len() != "coordinatorPlan"@.len());
    assert("readReorientResult"@.len() != "inspectUnity"@.len());
    assert("readReorientResult"@.len() != "inspectRider"@.len());
    assert("acceptReorient"@[0] != "statusSnapshot"@[0]);
    assert("acceptReorient"@.len() != "coordinatorPlan"@.len());
    assert("acceptReorient"@.len() != "inspectUnity"@.len());
    assert("acceptReorient"@.len() != "inspectRider"@.len());
    assert("continueImplementation"@.len() != "statusSnapshot"@.len());
    assert("continueImplementation"@.len() != "coordinatorPlan"@.len());
    assert("continueImplementation"@.len() != "inspectUnity"@.len());
    assert("continueImplementation"@.len() != "inspectRider"@.len());
    assert("prepareCheckpoint"@.len() != "statusSnapshot"@.len());
    assert("prepareCheckpoint"@.len() != "coordinatorPlan"@.len());
    assert("prepareCheckpoint"@.len() != "inspectUnity"@.len());
    assert("prepareCheckpoint"@.len() != "inspectRider"@.len());
    assert(gui_bridge_actions()[0] == "heartbeatStatus"@);
    assert(gui_bridge_actions()[1] == "runHeartbeat"@);
    assert(gui_bridge_actions()[2] == "faceBubble"@);
    assert(gui_bridge_actions()[3] == "launchImagination"@);
    assert(gui_bridge_actions()[4] == "readImaginationResult"@);
    assert(gui_bridge_actions()[5] == "acceptImagination"@);
    assert(gui_bridge_actions()[6] == "launchModeling"@);
    assert(gui_bridge_actions()[7] == "readModelingResult"@);
    assert(gui_bridge_actions()[8] == "acceptModeling"@);
    assert(gui_bridge_actions()[9] == "launchVerification"@);
    assert(gui_bridge_actions()[10] == "readVerificationResult"@);
    assert(gui_bridge_actions()[11] == "acceptVerification"@);
    assert(gui_bridge_actions()[12] == "adoptObjectiveDraft"@);
    assert(gui_bridge_actions()[13] == "launchReorient"@);
    assert(gui_bridge_actions()[14] == "readReorientResult"@);
    assert(gui_bridge_actions()[15] == "acceptReorient"@);
    assert(gui_bridge_actions()[16] == "continueImplementation"@);
    assert(gui_bridge_actions()[17] == "prepareCheckpoint"@);
}

/// The operator action that `action` names; an unknown name is an error.
pub fn operator_action(action: &str) -> (r: Result<OperatorAction, String>)
    ensures
        match spec_operator_action(action@) {
            Some(a) => r == Ok::<OperatorAction, String>(a),
            None => (r matches Err(m) && m@ == "unknown operator action: "@ + action@),
        },
{
    let gui = vec![
        "heartbeatStatus",
        "runHeartbeat",
        "faceBubble",
        "launchImagination",
        "readImaginationResult",
        "acceptImagination",
        "launchModeling",
        "readModelingResult",
        "acceptModeling",
        "launchVerification",
        "readVerificationResult",
        "acceptVerification",
        "adoptObjectiveDraft",
        "launchReorient",
        "readReorientResult",
        "acceptReorient",
        "continueImplementation",
        "prepareCheckpoint",
    ];
    proof {
        assert(crate::script::strs_view(gui@) =~= gui_bridge_actions());
    }
    if crate::script::str_eq(action, "statusSnapshot") {
        Ok(OperatorAction::StatusSnapshot)
    } else if crate::script::str_eq(action, "coordinatorPlan") {
        Ok(OperatorAction::CoordinatorPlan)
    } else if crate::script::str_eq(action, "inspectUnity") {
        Ok(OperatorAction::InspectUnity)
    } else if crate::script::str_eq(action, "inspectRider") {
        Ok(OperatorAction::InspectRider)
    } else if crate::script::contains_str(&gui, action) {
        Ok(OperatorAction::GuiBridge)
    } else {
        let mut m = String::from_str("unknown operator action: ");
        m.append(action);
        Err(m)
    }
}

// ---------------------------------------------------------------------------
// Tool command lines
// ---------------------------------------------------------------------------

/// A harness tool run: the directory it runs in and its arguments after the
/// interpreter.
#[derive(Clone, Debug)]
pub struct ToolCommand {
    pub current_dir: String,
    pub args: Vec<String>,
}

/// The workspace a request is about: its `cwd`, or the member's workspace.
pub open spec fn workspace_of(member: SwarmMember, request: StatusRequest) -> Seq<char> {
    match request.cwd {
        Some(c) => c@,
        None => member.workspace_root@,
    }
}

/// The Codex home a request is about: its own, or the member's.
pub open spec fn codex_home_of(member: SwarmMember, request: StatusRequest) -> Seq<char> {
    match request.codex_home {
        Some(c) => c@,
        None => member.codex_home@,
    }
}

/// The harness tool `script`.
pub open spec fn tool_path(member: SwarmMember, script: Seq<char>) -> Seq<char> {
    joined2(member.harness_root@, "tools"@, script)
}

/// `flag value` when there is a value, nothing otherwise.
pub open spec fn optional_arg(flag: Seq<char>, value: Option<String>) -> Seq<Seq<char>> {
    match value {
        Some(v) => seq![flag, v@],
        None => seq![],
    }
}

fn push_str(args: &mut Vec<String>, s: &str)
    ensures
        crate::script::strings_view(final(args)@) == crate::script::strings_view(old(args)@).push(
            s@,
        ),
{
    let ghost before = args@;
    args.push(String::from_str(s));
    proof {
        assert(crate::script::strings_view(args@) =~= crate::script::strings_view(before).push(s@));
    }
}

fn push_string(args: &mut Vec<String>, s: String)
    ensures
        crate::script::strings_view(final(args)@) == crate::script::strings_view(old(args)@).push(
            s@,
        ),
{
    let ghost before = args@;
    let ghost v = s@;
    args.push(s);
    proof {
        assert(crate::script::strings_view(args@) =~= crate::script::strings_view(before).push(v));
    }
}

fn push_optional(args: &mut Vec<String>, flag: &str, value: &Option<String>)
    ensures
        crate::script::strings_view(final(args)@) == crate::script::strings_view(old(args)@)
            + optional_arg(flag@, *value),
{
    match value {
        Some(v) => {
            push_str(args, flag);
            push_str(args, v.as_str());
            proof {
                assert(crate::script::strings_view(args@) =~= crate::script::strings_view(
                    old(args)@,
                ) + optional_arg(flag@, *value));
            }
        },
        None => {
            proof {
                assert(crate::script::strings_view(args@) =~= crate::script::strings_view(
                    old(args)@,
                ) + optional_arg(flag@, *value));
            }
        },
    }
}

fn workspace(member: &SwarmMember, request: &StatusRequest) -> (r: String)
    ensures
        r@ == workspace_of(*member, *request),
{
    match &request.cwd {
        Some(c) => String::from_str(c.as_str()),
        None => String::from_str(member.workspace_root.as_str()),
    }
}

fn codex_home(member: &SwarmMember, request: &StatusRequest) -> (r: String)
    ensures
        r@ == codex_home_of(*member, *request),
{
    match &request.codex_home {
        Some(c) => String::from_str(c.as_str()),
        None => String::from_str(member.codex_home.as_str()),
    }
}

fn tool(member: &SwarmMember, script: &str) -> (r: String)
    ensures
        r@ == tool_path(*member, script@),
{
    let tools = path_join(member.harness_root.as_str(), "tools");
    path_join(tools.as_str(), script)
}

/// The Rider bridge's `status` run for a request.
pub fn rider_inspection_command(member: &SwarmMember, request: &StatusRequest) -> (c: ToolCommand)
    ensures
        c.current_dir@ == member.harness_root@,
        crate::script::strings_view(c.args@) == seq![
            tool_path(*member, "epiphany_rider_bridge.py"@),
            "status"@,
            "--project-root"@,
            workspace_of(*member, *request),
            "--artifact-root"@,
            joined_path(member.artifact_root@, "rider"@),
        ],
{
    let mut args: Vec<String> = Vec::new();
    proof {
        assert(crate::script::strings_view(args@) =~= seq![]);
    }
    push_string(&mut args, tool(member, "epiphany_rider_bridge.py"));
    push_str(&mut args, "status");
    push_str(&mut args, "--project-root");
    push_string(&mut args, workspace(member, request));
    push_str(&mut args, "--artifact-root");
    push_string(&mut args, path_join(member.artifact_root.as_str(), "rider"));
    proof {
        assert(crate::script::strings_view(args@) =~= seq![
            tool_path(*member, "epiphany_rider_bridge.py"@),
            "status"@,
            "--project-root"@,
            workspace_of(*member, *request),
            "--artifact-root"@,
            joined_path(member.artifact_root@, "rider"@),
        ]);
    }
    ToolCommand { current_dir: String::from_str(member.harness_root.as_str()), args }
}

/// The Unity bridge's `inspect` run for a request.
pub fn unity_inspection_command(member: &SwarmMember, request: &StatusRequest) -> (c: ToolCommand)
    ensures
        c.current_dir@ == member.harness_root@,
        crate::script::strings_view(c.args@) == seq![
            tool_path(*member, "epiphany_unity_bridge.py"@),
            "inspect"@,
            "--project-path"@,
            workspace_of(*member, *request),
            "--artifact-root"@,
            joined_path(member.artifact_root@, "runtime"@),
        ],
{
    let mut args: Vec<String> = Vec::new();
    proof {
        assert(crate::script::strings_view(args@) =~= seq![]);
    }
    push_string(&mut args, tool(member, "epiphany_unity_bridge.py"));
    push_str(&mut args, "inspect");
    push_str(&mut args, "--project-path");
    push_string(&mut args, workspace(member, request));
    push_str(&mut args, "--artifact-root");
    push_string(&mut args, path_join(member.artifact_root.as_str(), "runtime"));
    proof {
        assert(crate::script::strings_view(args@) =~= seq![
            tool_path(*member, "epiphany_unity_bridge.py"@),
            "inspect"@,
            "--project-path"@,
            workspace_of(*member, *request),
            "--artifact-root"@,
            joined_path(member.artifact_root@, "runtime"@),
        ]);
    }
    ToolCommand { current_dir: String::from_str(member.harness_root.as_str()), args }
}

/// The status bridge's run that reports a member's status as JSON.
pub fn status_command(member: &SwarmMember, request: &StatusRequest) -> (c: ToolCommand)
    ensures
        c.current_dir@ == member.harness_root@,
        crate::script::strings_view(c.args@) == seq![
            tool_path(*member, "epiphany_mvp_status.py"@),
            "--json"@,
            "--cwd"@,
            workspace_of(*member, *request),
            "--codex-home"@,
            codex_home_of(*member, *request),
            "--transcript"@,
            joined_path(member.artifact_root@, "status-transcript.jsonl"@),
            "--stderr"@,
            joined_path(member.artifact_root@, "status-server.stderr.log"@),
            "--no-ephemeral"@,
        ] + optional_arg("--thread-id"@, request.thread_id) + optional_arg(
            "--app-server"@,
            request.app_server,
        ),
{
    let mut args: Vec<String> = Vec::new();
    proof {
        assert(crate::script::strings_view(args@) =~= seq![]);
    }
    push_string(&mut args, tool(member, "epiphany_mvp_status.py"));
    push_str(&mut args, "--json");
    push_str(&mut args, "--cwd");
    push_string(&mut args, workspace(member, request));
    push_str(&mut args, "--codex-home");
    push_string(&mut args, codex_home(member, request));
    push_str(&mut args, "--transcript");
    push_string(&mut args, path_join(member.artifact_root.as_str(), "status-transcript.jsonl"));
    push_str(&mut args, "--stderr");
    push_string(&mut args, path_join(member.artifact_root.as_str(), "status-server.stderr.log"));
    push_str(&mut args, "--no-ephemeral");
    let ghost base = crate::script::strings_view(args@);
    proof {
        assert(base =~= seq![
            tool_path(*member, "epiphany_mvp_status.py"@),
            "--json"@,
            "--cwd"@,
            workspace_of(*member, *request),
            "--codex-home"@,
            codex_home_of(*member, *request),
            "--transcript"@,
            joined_path(member.artifact_root@, "status-transcript.jsonl"@),
            "--stderr"@,
            joined_path(member.artifact_root@, "status-server.stderr.log"@),
            "--no-ephemeral"@,
        ]);
    }
    push_optional(&mut args, "--thread-id", &request.thread_id);
    push_optional(&mut args, "--app-server", &request.app_server);
    ToolCommand { current_dir: String::from_str(member.harness_root.as_str()), args }
}

/// Where a status snapshot taken at `millis` goes.
pub open spec fn snapshot_dir(member: SwarmMember, millis: u128) -> Seq<char> {
    joined2(member.artifact_root@, "status-snapshots"@, decimal_digits(millis as nat))
}

/// The status bridge's run that writes a snapshot taken at `millis`, and
/// the directory the snapshot goes to.
pub fn status_snapshot_command(member: &SwarmMember, request: &StatusRequest, millis: u128) -> (r: (
    String,
    ToolCommand,
))
    ensures
        r.0@ == snapshot_dir(*member, millis),
        r.1.current_dir@ == member.harness_root@,
        crate::script::strings_view(r.1.args@) == seq![
            tool_path(*member, "epiphany_mvp_status.py"@),
            "--json"@,
            "--cwd"@,
            workspace_of(*member, *request),
            "--codex-home"@,
            codex_home_of(*member, *request),
            "--result"@,
            joined_path(snapshot_dir(*member, millis), "status.json"@),
            "--transcript"@,
            joined_path(snapshot_dir(*member, millis), "transcript.jsonl"@),
            "--stderr"@,
            joined_path(snapshot_dir(*member, millis), "server.stderr.log"@),
            "--no-ephemeral"@,
        ] + optional_arg("--thread-id"@, request.thread_id) + optional_arg(
            "--app-server"@,
            request.app_server,
        ),
{
    let snapshots = path_join(member.artifact_root.as_str(), "status-snapshots");
    let stamp = decimal_string(millis);
    let dir = path_join(snapshots.as_str(), stamp.as_str());
    let mut args: Vec<String> = Vec::new();
    proof {
        assert(crate::script::strings_view(args@) =~= seq![]);
    }
    push_string(&mut args, tool(member, "epiphany_mvp_status.py"));
    push_str(&mut args, "--json");
    push_str(&mut args, "--cwd");
    push_string(&mut args, workspace(member, request));
    push_str(&mut args, "--codex-home");
    push_string(&mut args, codex_home(member, request));
    push_str(&mut args, "--result");
    push_string(&mut args, path_join(dir.as_str(), "status.json"));
    push_str(&mut args, "--transcript");
    push_string(&mut args, path_join(dir.as_str(), "transcript.jsonl"));
    push_str(&mut args, "--stderr");
    push_string(&mut args, path_join(dir.as_str(), "server.stderr.log"));
    push_str(&mut args, "--no-ephemeral");
    let ghost base = crate::script::strings_view(args@);
    proof {
        assert(base =~= seq![
            tool_path(*member, "epiphany_mvp_status.py"@),
            "--json"@,
            "--cwd"@,
            workspace_of(*member, *request),
            "--codex-home"@,
            codex_home_of(*member, *request),
            "--result"@,
            joined_path(snapshot_dir(*member, millis), "status.json"@),
            "--transcript"@,
            joined_path(snapshot_dir(*member, millis), "transcript.jsonl"@),
            "--stderr"@,
            joined_path(snapshot_dir(*member, millis), "server.stderr.log"@),
            "--no-ephemeral"@,
        ]);
    }
    push_optional(&mut args, "--thread-id", &request.thread_id);
    push_optional(&mut args, "--app-server", &request.app_server);
    (dir, ToolCommand { current_dir: String::from_str(member.harness_root.as_str()), args })
}

/// Where a coordinator plan made at `millis` goes.
pub open spec fn plan_dir(member: SwarmMember, millis: u128) -> Seq<char> {
    joined2(
        member.artifact_root@,
        "coordinator"@,
        "gui-coordinator-plan-"@ + decimal_digits(millis as nat),
    )
}

/// The coordinator's two-step `plan` run made at `millis`, and the
/// directory the plan goes to.
pub fn coordinator_plan_command(member: &SwarmMember, request: &StatusRequest, millis: u128) -> (r: (
    String,
    ToolCommand,
))
    ensures
        r.0@ == plan_dir(*member, millis),
        r.1.current_dir@ == member.harness_root@,
        crate::script::strings_view(r.1.args@) == seq![
            tool_path(*member, "epiphany_mvp_coordinator.py"@),
            "--mode"@,
            "plan"@,
            "--max-steps"@,
            "2"@,
            "--cwd"@,
            workspace_of(*member, *request),
            "--codex-home"@,
            codex_home_of(*member, *request),
            "--artifact-dir"@,
            plan_dir(*member, millis),
        ] + optional_arg("--thread-id"@, request.thread_id) + optional_arg(
            "--app-server"@,
            request.app_server,
        ),
{
    let coordinator = path_join(member.artifact_root.as_str(), "coordinator");
    let mut name = String::from_str("gui-coordinator-plan-");
    let stamp = decimal_string(millis);
    name.append(stamp.as_str());
    let dir = path_join(coordinator.as_str(), name.as_str());
    let mut args: Vec<String> = Vec::new();
    proof {
        assert(crate::script::strings_view(args@) =~= seq![]);
    }
    push_string(&mut args, tool(member, "epiphany_mvp_coordinator.py"));
    push_str(&mut args, "--mode");
    push_str(&mut args, "plan");
    push_str(&mut args, "--max-steps");
    push_str(&mut args, "2");
    push_str(&mut args, "--cwd");
    push_string(&mut args, workspace(member, request));
    push_str(&mut args, "--codex-home");
    push_string(&mut args, codex_home(member, request));
    push_str(&mut args, "--artifact-dir");
    push_string(&mut args, String::from_str(dir.as_str()));
    let ghost base = crate::script::strings_view(args@);
    proof {
        assert(base =~= seq![
            tool_path(*member, "epiphany_mvp_coordinator.py"@),
            "--mode"@,
            "plan"@,
            "--max-steps"@,
            "2"@,
            "--cwd"@,
            workspace_of(*member, *request),
            "--codex-home"@,
            codex_home_of(*member, *request),
            "--artifact-dir"@,
            plan_dir(*member, millis),
        ]);
    }
    push_optional(&mut args, "--thread-id", &request.thread_id);
    push_optional(&mut args, "--app-server", &request.app_server);
    (dir, ToolCommand { current_dir: String::from_str(member.harness_root.as_str()), args })
}

/// The GUI action bridge's run of `action` for a request.
pub fn gui_action_command(member: &SwarmMember, request: &StatusRequest, action: &str) -> (c: ToolCommand)
    ensures
        c.current_dir@ == member.harness_root@,
        crate::script::strings_view(c.args@) == seq![
            tool_path(*member, "epiphany_gui_action.py"@),
            "--action"@,
            action@,
            "--cwd"@,
            workspace_of(*member, *request),
            "--codex-home"@,
            codex_home_of(*member, *request),
            "--artifact-root"@,
            joined_path(member.artifact_root@, "actions"@),
        ] + optional_arg("--thread-id"@, request.thread_id) + optional_arg(
            "--app-server"@,
            request.app_server,
        ) + optional_arg("--planning-draft-id"@, request.planning_draft_id),
{
    let mut args: Vec<String> = Vec::new();
    proof {
        assert(crate::script::strings_view(args@) =~= seq![]);
    }
    push_string(&mut args, tool(member, "epiphany_gui_action.py"));
    push_str(&mut args, "--action");
    push_str(&mut args, action);
    push_str(&mut args, "--cwd");
    push_string(&mut args, workspace(member, request));
    push_str(&mut args, "--codex-home");
    push_string(&mut args, codex_home(member, request));
    push_str(&mut args, "--artifact-root");
    push_string(&mut args, path_join(member.artifact_root.as_str(), "actions"));
    let ghost base = crate::script::strings_view(args@);
    proof {
        assert(base =~= seq![
            tool_path(*member, "epiphany_gui_action.py"@),
            "--action"@,
            action@,
            "--cwd"@,
            workspace_of(*member, *request),
            "--codex-home"@,
            codex_home_of(*member, *request),
            "--artifact-root"@,
            joined_path(member.artifact_root@, "actions"@),
        ]);
    }
    push_optional(&mut args, "--thread-id", &request.thread_id);
    push_optional(&mut args, "--app-server", &request.app_server);
    push_optional(&mut args, "--planning-draft-id", &request.planning_draft_id);
    ToolCommand { current_dir: String::from_str(member.harness_root.as_str()), args }
}


// ---------------------------------------------------------------------------
// Action results
// ---------------------------------------------------------------------------

/// What an operator action did: where its artifact is and a short summary.
#[derive(Clone, Debug)]
pub struct OperatorActionResult {
    pub action: String,
    pub artifact_path: String,
    pub summary: String,
    pub thread_id: Option<String>,
}

/// A tool report's status, `unknown` when it gives none.
pub open spec fn report_status(value: crate::json::JsonValue) -> Seq<char> {
    match crate::json::field_str(value, "status"@) {
        Some(s) => s,
        None => "unknown"@,
    }
}

/// A report's status is its `status` member where that is a string, else
/// `unknown`.
pub proof fn law_report_status(value: crate::json::JsonValue)
    ensures
        report_status(value) == match crate::json::json_get(value, "status"@) {
            Some(crate::json::JsonValue::Str(s)) => s@,
            _ => "unknown"@,
        },
{
}

fn inspection_result(action: &str, label: &str, value: &crate::json::JsonValue) -> (r: Result<
    OperatorActionResult,
    String,
>)
    ensures
        match crate::json::field_str(*value, "artifactPath"@) {
            Some(p) => r matches Ok(x) && {
                &&& x.action@ == action@
                &&& x.artifact_path@ == p
                &&& x.summary@ == label@ + " bridge inspection: "@ + report_status(*value) + "."@
                &&& x.thread_id is None
            },
            None => r matches Err(m) && m@ == "missing string field in GUI action result: "@
                + "artifactPath"@,
        },
{
    let status = match crate::json::json_optional_string(value, "status") {
        Some(s) => s,
        None => String::from_str("unknown"),
    };
    let artifact_path = crate::json::json_string(value, "artifactPath")?;
    let mut summary = String::from_str(label);
    summary.append(" bridge inspection: ");
    summary.append(status.as_str());
    summary.append(".");
    Ok(
        OperatorActionResult {
            action: String::from_str(action),
            artifact_path,
            summary,
            thread_id: None,
        },
    )
}

/// What the Rider bridge's report of an inspection says.
pub fn rider_inspection_result(value: &crate::json::JsonValue) -> (r: Result<
    OperatorActionResult,
    String,
>)
    ensures
        match crate::json::field_str(*value, "artifactPath"@) {
            Some(p) => r matches Ok(x) && {
                &&& x.action@ == "inspectRider"@
                &&& x.artifact_path@ == p
                &&& x.summary@ == "Rider"@ + " bridge inspection: "@ + report_status(*value)
                    + "."@
                &&& x.thread_id is None
            },
            None => r matches Err(m) && m@ == "missing string field in GUI action result: "@
                + "artifactPath"@,
        },
{
    inspection_result("inspectRider", "Rider", value)
}

/// What the Unity bridge's report of an inspection says.
pub fn unity_inspection_result(value: &crate::json::JsonValue) -> (r: Result<
    OperatorActionResult,
    String,
>)
    ensures
        match crate::json::field_str(*value, "artifactPath"@) {
            Some(p) => r matches Ok(x) && {
                &&& x.action@ == "inspectUnity"@
                &&& x.artifact_path@ == p
                &&& x.summary@ == "Unity"@ + " bridge inspection: "@ + report_status(*value)
                    + "."@
                &&& x.thread_id is None
            },
            None => r matches Err(m) && m@ == "missing string field in GUI action result: "@
                + "artifactPath"@,
        },
{
    inspection_result("inspectUnity", "Unity", value)
}

/// What the GUI action bridge's report of `action` says: its artifact and
/// summary, which must be there, and the thread it ran on, if any.
pub fn gui_action_result(action: &str, value: &crate::json::JsonValue) -> (r: Result<
    OperatorActionResult,
    String,
>)
    ensures
        match (
            crate::json::field_str(*value, "artifactPath"@),
            crate::json::field_str(*value, "summary"@),
        ) {
            (Some(p), Some(sm)) => r matches Ok(x) && {
                &&& x.action@ == action@
                &&& x.artifact_path@ == p
                &&& x.summary@ == sm
                &&& crate::script::opt_view(x.thread_id) == crate::json::field_str(
                    *value,
                    "threadId"@,
                )
            },
            (None, _) => r matches Err(m) && m@ == "missing string field in GUI action result: "@
                + "artifactPath"@,
            (Some(_), None) => r matches Err(m) && m@
                == "missing string field in GUI action result: "@ + "summary"@,
        },
{
    let artifact_path = crate::json::json_string(value, "artifactPath")?;
    let summary = crate::json::json_string(value, "summary")?;
    Ok(
        OperatorActionResult {
            action: String::from_str(action),
            artifact_path,
            summary,
            thread_id: crate::json::json_optional_string(value, "threadId"),
        },
    )
}

/// The result of a status snapshot written to `dir`.
pub fn status_snapshot_result(dir: String) -> (r: OperatorActionResult)
    ensures
        r.action@ == "statusSnapshot"@,
        r.artifact_path@ == dir@,
        r.summary@ == "Status snapshot written."@,
        r.thread_id is None,
{
    OperatorActionResult {
        action: String::from_str("statusSnapshot"),
        artifact_path: dir,
        summary: String::from_str("Status snapshot written."),
        thread_id: None,
    }
}

/// The result of a coordinator plan written to `dir`.
pub fn coordinator_plan_result(dir: String) -> (r: OperatorActionResult)
    ensures
        r.action@ == "coordinatorPlan"@,
        r.artifact_path@ == dir@,
        r.summary@ == "Coordinator plan artifact written."@,
        r.thread_id is None,
{
    OperatorActionResult {
        action: String::from_str("coordinatorPlan"),
        artifact_path: dir,
        summary: String::from_str("Coordinator plan artifact written."),
        thread_id: None,
    }
}

} // verus!
