//! The aquarium host's own state: the renderer's debug modes, the classes
//! of the bodies in the tank, and the debug terminal with its commands.

use vstd::prelude::*;
use vstd::string::*;
use crate::script::{str_eq, strings_view};
use crate::text::{is_white_space, join_lines, leading_ws};

verus! {

broadcast use vstd::string::group_string_axioms;

// ---------------------------------------------------------------------------
// Renderer debug modes
// ---------------------------------------------------------------------------

/// What the raymarcher shows: the final image or one of its inputs.
#[derive(Clone, Copy, Debug, PartialEq, Eq, Structural)]
pub enum RendererDebugMode {
    Final,
    HitCoverage,
    Depth,
    Normals,
    BrickOccupancy,
    IrradianceLuminance,
}

/// The modes in the order `next` steps through them.
pub open spec fn all_modes() -> Seq<RendererDebugMode> {
    seq![
        RendererDebugMode::Final,
        RendererDebugMode::HitCoverage,
        RendererDebugMode::Depth,
        RendererDebugMode::Normals,
        RendererDebugMode::BrickOccupancy,
        RendererDebugMode::IrradianceLuminance,
    ]
}

pub open spec fn mode_index(m: RendererDebugMode) -> nat {
    match m {
        RendererDebugMode::Final => 0,
        RendererDebugMode::HitCoverage => 1,
        RendererDebugMode::Depth => 2,
        RendererDebugMode::Normals => 3,
        RendererDebugMode::BrickOccupancy => 4,
        RendererDebugMode::IrradianceLuminance => 5,
    }
}

pub open spec fn mode_key(m: RendererDebugMode) -> Seq<char> {
    match m {
        RendererDebugMode::Final => "final"@,
        RendererDebugMode::HitCoverage => "hit-coverage"@,
        RendererDebugMode::Depth => "depth"@,
        RendererDebugMode::Normals => "normals"@,
        RendererDebugMode::BrickOccupancy => "brick-occupancy"@,
        RendererDebugMode::IrradianceLuminance => "irradiance-luminance"@,
    }
}

pub open spec fn spec_mode_from_key(value: Seq<char>) -> Option<RendererDebugMode> {
    if value == "final"@ {
        Some(RendererDebugMode::Final)
    } else if value == "hit-coverage"@ {
        Some(RendererDebugMode::HitCoverage)
    } else if value == "depth"@ {
        Some(RendererDebugMode::Depth)
    } else if value == "normals"@ {
        Some(RendererDebugMode::Normals)
    } else if value == "brick-occupancy"@ {
        Some(RendererDebugMode::BrickOccupancy)
    } else if value == "irradiance-luminance"@ || value == "sh-luminance"@ {
        Some(RendererDebugMode::IrradianceLuminance)
    } else {
        None
    }
}

/// The renderer mode names: `final`, `hit-coverage`, `depth`, `normals`,
/// `brick-occupancy`, and `irradiance-luminance` or its older name
/// `sh-luminance`; no other name is a mode.
pub proof fn law_mode_names(value: Seq<char>)
    ensures
        spec_mode_from_key("final"@) == Some(RendererDebugMode::Final),
        spec_mode_from_key("hit-coverage"@) == Some(RendererDebugMode::HitCoverage),
        spec_mode_from_key("depth"@) == Some(RendererDebugMode::Depth),
        spec_mode_from_key("normals"@) == Some(RendererDebugMode::Normals),
        spec_mode_from_key("brick-occupancy"@) == Some(RendererDebugMode::BrickOccupancy),
        spec_mode_from_key("irradiance-luminance"@) == Some(RendererDebugMode::IrradianceLuminance),
        spec_mode_from_key("sh-luminance"@) == Some(RendererDebugMode::IrradianceLuminance),
        spec_mode_from_key(value) is Some ==> (value == "final"@ || value == "hit-coverage"@ || value == "depth"@ || value == "normals"@ || value == "brick-occupancy"@ || value == "irradiance-luminance"@ || value == "sh-luminance"@),
{
    reveal_strlit("final");
    reveal_strlit("hit-coverage");
    reveal_strlit("depth");
    reveal_strlit("normals");
    reveal_strlit("brick-occupancy");
    reveal_strlit("irradiance-luminance");
    reveal_strlit("sh-luminance");
    assert("hit-coverage"@.len() != "final"@.len());
    assert("depth"@[0] != "final"@[0]);
    assert("depth"@.len() != "hit-coverage"@.len());
    assert("normals"@.len() != "final"@.len());
    assert("normals"@.len() != "hit-coverage"@.len());
    assert("normals"@.len() != "depth"@.len());
    assert("brick-occupancy"@.len() != "final"@.len());
    assert("brick-occupancy"@.len() != "hit-coverage"@.len());
    assert("brick-occupancy"@.len() != "depth"@.len());
    assert("brick-occupancy"@.len() != "normals"@.len());
    assert("irradiance-luminance"@.len() != "final"@.len());
    assert("irradiance-luminance"@.len() != "hit-coverage"@.len());
    assert("irradiance-luminance"@.len() != "depth"@.len());
    assert("irradiance-luminance"@.len() != "normals"@.len());
    assert("irradiance-luminance"@.len() != "brick-occupancy"@.len());
    assert("sh-luminance"@.len() != "final"@.len());
    assert("sh-luminance"@[0] != "hit-coverage"@[0]);
    assert("sh-luminance"@.len() != "depth"@.len());
    assert("sh-luminance"@.len() != "normals"@.len());
    assert("sh-luminance"@.len() != "brick-occupancy"@.len());
    assert("sh-luminance"@.len() != "irradiance-luminance"@.len());
}

pub open spec fn spec_next_mode(m: RendererDebugMode) -> RendererDebugMode {
    all_modes()[((mode_index(m) + 1) % 6) as int]
}

impl RendererDebugMode {
    /// The modes in the order `next` steps through them.
    pub fn all() -> (v: Vec<RendererDebugMode>)
        ensures
            v@ == all_modes(),
    {
        let v = vec![
            RendererDebugMode::Final,
            RendererDebugMode::HitCoverage,
            RendererDebugMode::Depth,
            RendererDebugMode::Normals,
            RendererDebugMode::BrickOccupancy,
            RendererDebugMode::IrradianceLuminance,
        ];
        proof {
            assert(v@ =~= all_modes());
        }
        v
    }

    /// The mode's name in settings and in the terminal.
    pub fn as_key(self) -> (k: &'static str)
        ensures
            k@ == mode_key(self),
    {
        match self {
            RendererDebugMode::Final => "final",
            RendererDebugMode::HitCoverage => "hit-coverage",
            RendererDebugMode::Depth => "depth",
            RendererDebugMode::Normals => "normals",
            RendererDebugMode::BrickOccupancy => "brick-occupancy",
            RendererDebugMode::IrradianceLuminance => "irradiance-luminance",
        }
    }

    /// The mode named `value` (`sh-luminance` is an older name of the
    /// irradiance view).
    pub fn from_key_option(value: &str) -> (r: Option<RendererDebugMode>)
        ensures
            r == spec_mode_from_key(value@),
    {
        if str_eq(value, "final") {
            Some(RendererDebugMode::Final)
        } else if str_eq(value, "hit-coverage") {
            Some(RendererDebugMode::HitCoverage)
        } else if str_eq(value, "depth") {
            Some(RendererDebugMode::Depth)
        } else if str_eq(value, "normals") {
            Some(RendererDebugMode::Normals)
        } else if str_eq(value, "brick-occupancy") {
            Some(RendererDebugMode::BrickOccupancy)
        } else if str_eq(value, "irradiance-luminance") || str_eq(value, "sh-luminance") {
            Some(RendererDebugMode::IrradianceLuminance)
        } else {
            None
        }
    }

    /// The mode named `value`, the final image when no mode has that name.
    pub fn from_key(value: &str) -> (m: RendererDebugMode)
        ensures
            m == (match spec_mode_from_key(value@) {
                Some(x) => x,
                None => RendererDebugMode::Final,
            }),
    {
        match RendererDebugMode::from_key_option(value) {
            Some(m) => m,
            None => RendererDebugMode::Final,
        }
    }

    /// The number the shader reads for this mode.
    pub fn shader_index(self) -> (i: u32)
        ensures
            i == mode_index(self),
    {
        match self {
            RendererDebugMode::Final => 0,
            RendererDebugMode::HitCoverage => 1,
            RendererDebugMode::Depth => 2,
            RendererDebugMode::Normals => 3,
            RendererDebugMode::BrickOccupancy => 4,
            RendererDebugMode::IrradianceLuminance => 5,
        }
    }

    /// The mode after this one, wrapping from the last to the first.
    pub fn next(self) -> (m: RendererDebugMode)
        ensures
            m == spec_next_mode(self),
    {
        let all = RendererDebugMode::all();
        let i = self.shader_index() as usize;
        proof {
            assert(all@[i as int] == self);
        }
        all[(i + 1) % all.len()]
    }
}

/// Each mode's name leads back to it.
pub proof fn law_mode_key_round_trip(m: RendererDebugMode)
    ensures
        spec_mode_from_key(mode_key(m)) == Some(m),
{
    reveal_strlit("final");
    reveal_strlit("hit-coverage");
    reveal_strlit("depth");
    reveal_strlit("normals");
    reveal_strlit("brick-occupancy");
    reveal_strlit("irradiance-luminance");
    match m {
        RendererDebugMode::Final => {},
        RendererDebugMode::HitCoverage => {
            assert("hit-coverage"@.len() != "final"@.len());
        },
        RendererDebugMode::Depth => {
            assert("depth"@[0] != "final"@[0]);
            assert("depth"@.len() != "hit-coverage"@.len());
        },
        RendererDebugMode::Normals => {
            assert("normals"@.len() != "final"@.len());
            assert("normals"@.len() != "hit-coverage"@.len());
            assert("normals"@.len() != "depth"@.len());
        },
        RendererDebugMode::BrickOccupancy => {
            assert("brick-occupancy"@.len() != "final"@.len());
            assert("brick-occupancy"@.len() != "hit-coverage"@.len());
            assert("brick-occupancy"@.len() != "depth"@.len());
            assert("brick-occupancy"@.len() != "normals"@.len());
        },
        RendererDebugMode::IrradianceLuminance => {
            assert("irradiance-luminance"@.len() != "final"@.len());
            assert("irradiance-luminance"@.len() != "hit-coverage"@.len());
            assert("irradiance-luminance"@.len() != "depth"@.len());
            assert("irradiance-luminance"@.len() != "normals"@.len());
            assert("irradiance-luminance"@.len() != "brick-occupancy"@.len());
        },
    }
}

/// `next` steps through every mode: six steps lead back to the start, and
/// the `k`-th step from the final image is the `k`-th mode.
pub proof fn law_next_cycles(m: RendererDebugMode, k: nat)
    ensures
        spec_next_mode(spec_next_mode(spec_next_mode(spec_next_mode(spec_next_mode(
            spec_next_mode(m),
        ))))) == m,
        spec_next_mode(m) != m,
        k < 6 ==> next_steps(RendererDebugMode::Final, k) == all_modes()[k as int],
    decreases k,
{
    if k > 0 && k < 6 {
        law_next_cycles(m, (k - 1) as nat);
    }
}

/// `k` steps of `next` from `m`.
pub open spec fn next_steps(m: RendererDebugMode, k: nat) -> RendererDebugMode
    decreases k,
{
    if k == 0 {
        m
    } else {
        spec_next_mode(next_steps(m, (k - 1) as nat))
    }
}

// ---------------------------------------------------------------------------
// Body classes
// ---------------------------------------------------------------------------

/// What a body in the tank stands for.
#[derive(Clone, Copy, Debug, PartialEq, Eq, Structural)]
pub enum BodyClass {
    SleepingEpiphany,
    LivingSelf,
    Agent,
}

pub open spec fn class_key(c: BodyClass) -> Seq<char> {
    match c {
        BodyClass::SleepingEpiphany => "sleeping-epiphany"@,
        BodyClass::LivingSelf => "living-self"@,
        BodyClass::Agent => "agent"@,
    }
}

pub open spec fn spec_class_from_key(value: Seq<char>) -> BodyClass {
    if value == "living-self"@ {
        BodyClass::LivingSelf
    } else if value == "agent"@ {
        BodyClass::Agent
    } else {
        BodyClass::SleepingEpiphany
    }
}

impl BodyClass {
    /// The class's name in the cache.
    pub fn cache_key(self) -> (k: &'static str)
        ensures
            k@ == class_key(self),
    {
        match self {
            BodyClass::SleepingEpiphany => "sleeping-epiphany",
            BodyClass::LivingSelf => "living-self",
            BodyClass::Agent => "agent",
        }
    }

    /// The class a cached name stands for; an unknown name is a sleeping
    /// Epiphany.
    pub fn from_cache_key(value: &str) -> (c: BodyClass)
        ensures
            c == spec_class_from_key(value@),
    {
        if str_eq(value, "living-self") {
            BodyClass::LivingSelf
        } else if str_eq(value, "agent") {
            BodyClass::Agent
        } else {
            BodyClass::SleepingEpiphany
        }
    }
}

/// Each class's cache name leads back to it.
pub proof fn law_class_key_round_trip(c: BodyClass)
    ensures
        spec_class_from_key(class_key(c)) == c,
{
    reveal_strlit("sleeping-epiphany");
    reveal_strlit("living-self");
    reveal_strlit("agent");
    match c {
        BodyClass::SleepingEpiphany => {
            assert("sleeping-epiphany"@.len() != "living-self"@.len());
            assert("sleeping-epiphany"@.len() != "agent"@.len());
        },
        BodyClass::LivingSelf => {},
        BodyClass::Agent => {
            assert("agent"@.len() != "living-self"@.len());
        },
    }
}


// ---------------------------------------------------------------------------
// Saved settings
// ---------------------------------------------------------------------------

/// The renderer settings as they are saved: the schema they follow and the
/// key of the debug mode.
#[derive(Clone, Debug)]
pub struct RendererSettings {
    pub schema_version: String,
    pub debug_mode: String,
}

pub open spec fn renderer_schema() -> Seq<char> {
    "epiphany.aquarium.renderer-settings.v0"@
}

/// The mode that saved settings select: the mode named by their key, the
/// final image when no mode has that name.
pub open spec fn settings_mode(debug_mode: Seq<char>) -> RendererDebugMode {
    match spec_mode_from_key(debug_mode) {
        Some(m) => m,
        None => RendererDebugMode::Final,
    }
}

impl RendererSettings {
    /// The settings that save `mode`.
    pub fn for_mode(mode: RendererDebugMode) -> (s: RendererSettings)
        ensures
            s.schema_version@ == renderer_schema(),
            s.debug_mode@ == mode_key(mode),
    {
        RendererSettings {
            schema_version: String::from_str("epiphany.aquarium.renderer-settings.v0"),
            debug_mode: String::from_str(mode.as_key()),
        }
    }

    /// The settings of a fresh install: the final image.
    pub fn default() -> (s: RendererSettings)
        ensures
            s.schema_version@ == renderer_schema(),
            s.debug_mode@ == mode_key(RendererDebugMode::Final),
    {
        RendererSettings::for_mode(RendererDebugMode::Final)
    }

    /// The mode these settings select.
    pub fn mode(&self) -> (m: RendererDebugMode)
        ensures
            m == settings_mode(self.debug_mode@),
    {
        RendererDebugMode::from_key(self.debug_mode.as_str())
    }
}

/// A mode that was saved is the mode that is loaded again.
pub proof fn law_saved_mode_restored(m: RendererDebugMode)
    ensures
        settings_mode(mode_key(m)) == m,
{
    law_mode_key_round_trip(m);
}

/// The state of the aquarium's domain as it is saved: its schema, how many
/// times it was reloaded, and the swarm's label.
#[derive(Clone, Debug)]
pub struct DomainState {
    pub schema_version: String,
    pub reload_generation: u64,
    pub swarm_label: String,
}

impl DomainState {
    /// The domain of a fresh install: never reloaded, the Epiphany swarm.
    pub fn default() -> (s: DomainState)
        ensures
            s.schema_version@ == "epiphany.aquarium.domain-state.v0"@,
            s.reload_generation == 0,
            s.swarm_label@ == "Epiphany"@,
    {
        DomainState {
            schema_version: String::from_str("epiphany.aquarium.domain-state.v0"),
            reload_generation: 0,
            swarm_label: String::from_str("Epiphany"),
        }
    }

    /// Counts one more reload; the count stops at its largest value.
    pub fn count_reload(&mut self)
        ensures
            final(self).reload_generation == (if old(self).reload_generation == u64::MAX {
                u64::MAX
            } else {
                (old(self).reload_generation + 1) as u64
            }),
            final(self).schema_version@ == old(self).schema_version@,
            final(self).swarm_label@ == old(self).swarm_label@,
    {
        self.reload_generation = self.reload_generation.saturating_add(1);
    }
}

// ---------------------------------------------------------------------------
// Debug commands
// ---------------------------------------------------------------------------

/// What a debug command did: whether it clears the terminal, the lines it
/// prints, and the renderer mode to save when it changed the mode.
#[derive(Clone, Debug)]
pub struct DebugCommandResult {
    pub clear_terminal: bool,
    pub lines: Vec<String>,
    pub persist: Option<RendererDebugMode>,
}

pub open spec fn help_line(name: Seq<char>, usage: Seq<char>, summary: Seq<char>) -> Seq<char> {
    crate::text::pad_right(name, 10) + " "@ + crate::text::pad_right(usage, 24) + " "@ + summary
}

/// The registered commands, one line each: name, usage, summary.
pub open spec fn help_lines() -> Seq<Seq<char>> {
    seq![
        help_line("help"@, "help"@, "list registered debug commands"@),
        help_line("clear"@, "clear"@, "clear the terminal output"@),
        help_line(
            "renderer"@,
            "renderer [mode|next|list]"@,
            "inspect or change the renderer debug mode"@,
        ),
    ]
}

pub open spec fn mode_line(m: RendererDebugMode) -> Seq<char> {
    "renderer mode: "@ + mode_key(m)
}

pub open spec fn mode_keys() -> Seq<Seq<char>> {
    all_modes().map_values(|m: RendererDebugMode| mode_key(m))
}

/// The `renderer` command with `args`, in mode `mode`: what it prints and
/// the mode it leaves (`Some` when the mode is set and must be saved).
pub open spec fn spec_renderer_command(args: Seq<Seq<char>>, mode: RendererDebugMode) -> (
    Seq<Seq<char>>,
    Option<RendererDebugMode>,
) {
    if args.len() == 0 {
        (seq![mode_line(mode)], None)
    } else if args[0] == "list"@ {
        (mode_keys(), None)
    } else if args[0] == "next"@ {
        (seq![mode_line(spec_next_mode(mode))], Some(spec_next_mode(mode)))
    } else {
        match spec_mode_from_key(args[0]) {
            None => (
                seq!["unknown renderer mode `"@ + args[0] + "`"@, "try `renderer list`"@],
                None,
            ),
            Some(m) => (seq![mode_line(m)], Some(m)),
        }
    }
}

/// A debug command line, in mode `mode`: whether it clears the terminal,
/// what it prints, and the mode it sets.
pub open spec fn spec_debug_command(command: Seq<char>, mode: RendererDebugMode) -> (
    bool,
    Seq<Seq<char>>,
    Option<RendererDebugMode>,
) {
    let ws = crate::text::words(command);
    if ws.len() == 0 {
        (false, seq![], None)
    } else if ws[0] == "help"@ {
        (false, help_lines(), None)
    } else if ws[0] == "clear"@ {
        (true, seq![], None)
    } else if ws[0] == "renderer"@ {
        let (lines, set) = spec_renderer_command(ws.drop_first(), mode);
        (false, lines, set)
    } else {
        (
            false,
            seq!["unknown debug command `"@ + ws[0] + "`"@, "type `help` for registered commands"@],
            None,
        )
    }
}

/// Only `clear` clears the terminal, only `renderer` sets a mode, and
/// `help` prints the registered commands; with `list` and `next` the
/// renderer command lists the modes or steps to the next one.
pub proof fn law_debug_command_words(command: Seq<char>, mode: RendererDebugMode)
    ensures
        spec_debug_command(command, mode).0 <==> (crate::text::words(command).len() > 0
            && crate::text::words(command)[0] == "clear"@),
        spec_debug_command(command, mode).2 is Some ==> crate::text::words(command)[0]
            == "renderer"@,
        crate::text::words(command).len() > 0 && crate::text::words(command)[0] == "help"@
            ==> spec_debug_command(command, mode).1 == help_lines(),
        crate::text::words(command) == seq!["renderer"@, "list"@] ==> spec_debug_command(
            command,
            mode,
        ).1 == mode_keys(),
        crate::text::words(command) == seq!["renderer"@, "next"@] ==> spec_debug_command(
            command,
            mode,
        ).2 == Some(spec_next_mode(mode)),
{
    reveal_strlit("help");
    reveal_strlit("clear");
    reveal_strlit("renderer");
    reveal_strlit("list");
    reveal_strlit("next");
    assert("clear"@.len() != "help"@.len());
    assert("renderer"@.len() != "help"@.len());
    assert("renderer"@.len() != "clear"@.len());
    assert("next"@[0] != "list"@[0]);
    let ws = crate::text::words(command);
    if ws == seq!["renderer"@, "list"@] || ws == seq!["renderer"@, "next"@] {
        assert(ws.drop_first() =~= seq![ws[1]]);
    }
}

fn mode_line_str(m: RendererDebugMode) -> (s: String)
    ensures
        s@ == mode_line(m),
{
    let mut s = String::from_str("renderer mode: ");
    s.append(m.as_key());
    s
}

fn push_line(lines: &mut Vec<String>, s: String)
    ensures
        strings_view(final(lines)@) == strings_view(old(lines)@).push(s@),
{
    let ghost before = lines@;
    let ghost v = s@;
    lines.push(s);
    proof {
        assert(strings_view(lines@) =~= strings_view(before).push(v));
    }
}

fn help_line_str(name: &str, usage: &str, summary: &str) -> (s: String)
    ensures
        s@ == help_line(name@, usage@, summary@),
{
    let mut s = crate::text::pad_right_str(name, 10);
    s.append(" ");
    let u = crate::text::pad_right_str(usage, 24);
    s.append(u.as_str());
    s.append(" ");
    s.append(summary);
    s
}

/// The lines that `help` prints.
pub fn help_text() -> (lines: Vec<String>)
    ensures
        strings_view(lines@) == help_lines(),
{
    let mut lines: Vec<String> = Vec::new();
    proof {
        assert(strings_view(lines@) =~= seq![]);
    }
    push_line(&mut lines, help_line_str("help", "help", "list registered debug commands"));
    push_line(&mut lines, help_line_str("clear", "clear", "clear the terminal output"));
    push_line(
        &mut lines,
        help_line_str(
            "renderer",
            "renderer [mode|next|list]",
            "inspect or change the renderer debug mode",
        ),
    );
    proof {
        assert(strings_view(lines@) =~= help_lines());
    }
    lines
}

/// Runs the `renderer` command with `args`; `mode` becomes the mode it sets.
pub fn debug_renderer_command(args: &Vec<String>, mode: &mut RendererDebugMode) -> (r: DebugCommandResult)
    ensures
        !r.clear_terminal,
        strings_view(r.lines@) == spec_renderer_command(strings_view(args@), *old(mode)).0,
        r.persist == spec_renderer_command(strings_view(args@), *old(mode)).1,
        *final(mode) == (match r.persist {
            Some(m) => m,
            None => *old(mode),
        }),
{
    let mut lines: Vec<String> = Vec::new();
    proof {
        assert(strings_view(lines@) =~= seq![]);
    }
    if args.len() == 0 {
        push_line(&mut lines, mode_line_str(*mode));
        proof {
            assert(strings_view(lines@) =~= seq![mode_line(*old(mode))]);
        }
        return DebugCommandResult { clear_terminal: false, lines, persist: None };
    }
    let first = args[0].as_str();
    proof {
        assert(strings_view(args@)[0] == first@);
    }
    if str_eq(first, "list") {
        let all = RendererDebugMode::all();
        let mut i: usize = 0;
        while i < all.len()
            invariant
                i <= all@.len(),
                all@ == all_modes(),
                strings_view(lines@) == mode_keys().take(i as int),
            decreases all@.len() - i,
        {
            push_line(&mut lines, String::from_str(all[i].as_key()));
            proof {
                assert(mode_keys().take(i + 1) =~= mode_keys().take(i as int).push(
                    mode_key(all@[i as int]),
                ));
            }
            i = i + 1;
        }
        proof {
            assert(mode_keys().take(6) =~= mode_keys());
        }
        return DebugCommandResult { clear_terminal: false, lines, persist: None };
    }
    let requested = if str_eq(first, "next") {
        mode.next()
    } else {
        match RendererDebugMode::from_key_option(first) {
            Some(m) => m,
            None => {
                let mut unknown = String::from_str("unknown renderer mode `");
                unknown.append(first);
                unknown.append("`");
                push_line(&mut lines, unknown);
                push_line(&mut lines, String::from_str("try `renderer list`"));
                return DebugCommandResult { clear_terminal: false, lines, persist: None };
            },
        }
    };
    *mode = requested;
    push_line(&mut lines, mode_line_str(requested));
    DebugCommandResult { clear_terminal: false, lines, persist: Some(requested) }
}

/// Runs a debug command line; `mode` becomes the renderer mode it sets.
pub fn execute_debug_command(command: &str, mode: &mut RendererDebugMode) -> (r: DebugCommandResult)
    ensures
        r.clear_terminal == spec_debug_command(command@, *old(mode)).0,
        strings_view(r.lines@) == spec_debug_command(command@, *old(mode)).1,
        r.persist == spec_debug_command(command@, *old(mode)).2,
        *final(mode) == (match r.persist {
            Some(m) => m,
            None => *old(mode),
        }),
{
    let chars = crate::text::chars_of(command);
    let ws = crate::text::word_ranges(&chars, 0, chars.len());
    let ghost words = crate::text::words(chars@.subrange(0, chars@.len() as int));
    proof {
        assert(chars@.subrange(0, chars@.len() as int) =~= command@);
    }
    if ws.len() == 0 {
        let lines: Vec<String> = Vec::new();
        proof {
            assert(strings_view(lines@) =~= seq![]);
        }
        return DebugCommandResult { clear_terminal: false, lines, persist: None };
    }
    let mut parts: Vec<String> = Vec::new();
    let mut j: usize = 0;
    proof {
        assert(strings_view(parts@) =~= seq![]);
    }
    while j < ws.len()
        invariant
            j <= ws@.len(),
            ws@.len() == words.len(),
            command@ == chars@,
            forall|i: int|
                #![trigger ws@[i]]
                0 <= i < ws@.len() ==> {
                    &&& 0 <= ws@[i].0 < ws@[i].1
                    &&& ws@[i].1 <= chars@.len()
                    &&& words[i] == chars@.subrange(ws@[i].0 as int, ws@[i].1 as int)
                },
            strings_view(parts@) == words.take(j as int),
        decreases ws@.len() - j,
    {
        let (a, b) = ws[j];
        push_line(&mut parts, String::from_str(command.substring_char(a, b)));
        proof {
            assert(words.take(j + 1) =~= words.take(j as int).push(words[j as int]));
        }
        j = j + 1;
    }
    proof {
        assert(words.take(ws@.len() as int) =~= words);
    }
    let verb = parts[0].as_str();
    if str_eq(verb, "help") {
        return DebugCommandResult { clear_terminal: false, lines: help_text(), persist: None };
    }
    if str_eq(verb, "clear") {
        let lines: Vec<String> = Vec::new();
        proof {
            assert(strings_view(lines@) =~= seq![]);
        }
        return DebugCommandResult { clear_terminal: true, lines, persist: None };
    }
    if str_eq(verb, "renderer") {
        let mut args: Vec<String> = Vec::new();
        let mut k: usize = 1;
        proof {
            assert(strings_view(args@) =~= seq![]);
        }
        while k < parts.len()
            invariant
                1 <= k <= parts@.len(),
                strings_view(args@) == strings_view(parts@).subrange(1, k as int),
            decreases parts@.len() - k,
        {
            push_line(&mut args, String::from_str(parts[k].as_str()));
            proof {
                assert(strings_view(parts@).subrange(1, k + 1) =~= strings_view(parts@).subrange(
                    1,
                    k as int,
                ).push(parts@[k as int]@));
            }
            k = k + 1;
        }
        proof {
            assert(strings_view(parts@).subrange(1, parts@.len() as int) =~= words.drop_first());
        }
        return debug_renderer_command(&args, mode);
    }
    let mut lines: Vec<String> = Vec::new();
    proof {
        assert(strings_view(lines@) =~= seq![]);
    }
    let mut unknown = String::from_str("unknown debug command `");
    unknown.append(verb);
    unknown.append("`");
    push_line(&mut lines, unknown);
    push_line(&mut lines, String::from_str("type `help` for registered commands"));
    DebugCommandResult { clear_terminal: false, lines, persist: None }
}


// ---------------------------------------------------------------------------
// The debug panel and its terminal
// ---------------------------------------------------------------------------

/// The tabs of the debug panel.
#[derive(Clone, Copy, Debug, PartialEq, Eq, Structural)]
pub enum DebugTab {
    Terminal,
}

/// How many terminal lines stay on screen after a command.
pub const TERMINAL_KEEP: usize = 28;

/// The debug panel: whether it is open, its tab, whether the terminal has
/// the keyboard, the line being typed and the lines on screen.
#[derive(Clone, Debug)]
pub struct DebugUiState {
    pub open: bool,
    pub active_tab: DebugTab,
    pub terminal_focused: bool,
    pub terminal_input: String,
    pub terminal_lines: Vec<String>,
}

/// The lines a fresh terminal shows.
pub open spec fn greeting_lines() -> Seq<Seq<char>> {
    seq![
        "Epiphany Aquarium debug terminal"@,
        "Type `help`; commands are internal debug verbs."@,
    ]
}

/// The last `n` of `s`, or all of `s` when it has no more than `n`.
pub open spec fn keep_last(s: Seq<Seq<char>>, n: nat) -> Seq<Seq<char>> {
    if s.len() > n {
        s.skip(s.len() - n)
    } else {
        s
    }
}

/// The terminal lines after `command` was entered on a terminal that showed
/// `lines`, and it printed `out`: the echoed command (unless the command
/// clears the screen), then what it printed, of which the last lines stay.
pub open spec fn terminal_shown(
    lines: Seq<Seq<char>>,
    command: Seq<char>,
    clear: bool,
    out: Seq<Seq<char>>,
) -> Seq<Seq<char>> {
    let base = if clear {
        seq![]
    } else {
        lines.push("> "@ + command)
    };
    keep_last(base + out, TERMINAL_KEEP as nat)
}

/// The terminal lines after `command` ran in mode `mode` on a terminal that
/// showed `lines`.
pub open spec fn terminal_after(
    lines: Seq<Seq<char>>,
    command: Seq<char>,
    mode: RendererDebugMode,
) -> Seq<Seq<char>> {
    let (clear, out, _) = spec_debug_command(command, mode);
    terminal_shown(lines, command, clear, out)
}

impl DebugUiState {
    /// A closed panel on the terminal tab, with the greeting on screen.
    pub fn new() -> (s: DebugUiState)
        ensures
            !s.open,
            s.active_tab == DebugTab::Terminal,
            !s.terminal_focused,
            s.terminal_input@ == Seq::<char>::empty(),
            strings_view(s.terminal_lines@) == greeting_lines(),
    {
        let mut lines: Vec<String> = Vec::new();
        proof {
            assert(strings_view(lines@) =~= seq![]);
        }
        push_line(&mut lines, String::from_str("Epiphany Aquarium debug terminal"));
        push_line(&mut lines, String::from_str("Type `help`; commands are internal debug verbs."));
        proof {
            assert(strings_view(lines@) =~= greeting_lines());
        }
        DebugUiState {
            open: false,
            active_tab: DebugTab::Terminal,
            terminal_focused: false,
            terminal_input: String::new(),
            terminal_lines: lines,
        }
    }

    /// The panel's button: opens a closed panel with the terminal focused,
    /// and closes an open one.
    pub fn press_trigger(&mut self)
        ensures
            final(self).open == !old(self).open,
            final(self).terminal_focused == !old(self).open,
            final(self).active_tab == old(self).active_tab,
            final(self).terminal_input@ == old(self).terminal_input@,
            final(self).terminal_lines@ == old(self).terminal_lines@,
    {
        self.open = !self.open;
        self.terminal_focused = self.open;
    }

    /// The terminal tab or the input line was pressed: the panel opens on
    /// the terminal, which takes the keyboard.
    pub fn focus_terminal(&mut self)
        ensures
            final(self).open,
            final(self).active_tab == DebugTab::Terminal,
            final(self).terminal_focused,
            final(self).terminal_input@ == old(self).terminal_input@,
            final(self).terminal_lines@ == old(self).terminal_lines@,
    {
        self.open = true;
        self.active_tab = DebugTab::Terminal;
        self.terminal_focused = true;
    }

    /// Whether keys go to the terminal.
    pub fn accepts_keys(&self) -> (b: bool)
        ensures
            b == keys_to_terminal(*self),
    {
        self.open && self.active_tab == DebugTab::Terminal && self.terminal_focused
    }

    /// Whether the camera takes the keyboard and mouse: not while the panel
    /// is open with the terminal focused.
    pub fn camera_takes_input(&self) -> (b: bool)
        ensures
            b == camera_input(*self),
    {
        !(self.open && self.terminal_focused)
    }

    /// The terminal's output: its lines, one below the other.
    pub fn output_text(&self) -> (t: String)
        ensures
            t@ == join_lines(strings_view(self.terminal_lines@)),
    {
        let ghost sv = strings_view(self.terminal_lines@);
        let mut t = String::new();
        let mut i: usize = 0;
        proof {
            assert(sv.take(0) =~= seq![]);
        }
        while i < self.terminal_lines.len()
            invariant
                i <= self.terminal_lines@.len(),
                sv == strings_view(self.terminal_lines@),
                t@ == join_lines(sv.take(i as int)),
            decreases self.terminal_lines@.len() - i,
        {
            proof {
                assert(sv.take(i + 1).drop_last() =~= sv.take(i as int));
                assert(sv.take(i + 1).last() == self.terminal_lines@[i as int]@);
            }
            if i > 0 {
                t.append("\n");
            }
            t.append(self.terminal_lines[i].as_str());
            proof {
                reveal_strlit("\n");
                if i == 0 {
                    assert(t@ =~= join_lines(sv.take(1)));
                } else {
                    assert(t@ =~= join_lines(sv.take(i + 1)));
                }
            }
            i = i + 1;
        }
        proof {
            assert(sv.take(sv.len() as int) =~= sv);
        }
        t
    }

    /// The input line as shown: the prompt, what was typed, and a caret
    /// while the terminal has the keyboard.
    pub fn input_text(&self) -> (t: String)
        ensures
            t@ == "> "@ + self.terminal_input@ + (if self.terminal_focused {
                "_"@
            } else {
                seq![]
            }),
    {
        let mut t = String::from_str("> ");
        t.append(self.terminal_input.as_str());
        if self.terminal_focused {
            t.append("_");
        }
        proof {
            assert(t@ =~= "> "@ + self.terminal_input@ + (if self.terminal_focused {
                "_"@
            } else {
                seq![]
            }));
        }
        t
    }

    /// Escape: the terminal lets go of the keyboard.
    pub fn escape(&mut self)
        ensures
            !final(self).terminal_focused,
            final(self).open == old(self).open,
            final(self).active_tab == old(self).active_tab,
            final(self).terminal_input@ == old(self).terminal_input@,
            final(self).terminal_lines@ == old(self).terminal_lines@,
    {
        self.terminal_focused = false;
    }

    /// Backspace: the last character typed goes, if there is one.
    pub fn backspace(&mut self)
        ensures
            final(self).terminal_input@ == (if old(self).terminal_input@.len() == 0 {
                old(self).terminal_input@
            } else {
                old(self).terminal_input@.drop_last()
            }),
            final(self).open == old(self).open,
            final(self).active_tab == old(self).active_tab,
            final(self).terminal_focused == old(self).terminal_focused,
            final(self).terminal_lines@ == old(self).terminal_lines@,
    {
        let n = self.terminal_input.as_str().unicode_len();
        if n > 0 {
            let kept = String::from_str(self.terminal_input.as_str().substring_char(0, n - 1));
            proof {
                assert(kept@ =~= old(self).terminal_input@.drop_last());
            }
            self.terminal_input = kept;
        }
    }

    /// Typed text: its characters that are not control characters join the
    /// input line.
    pub fn type_text(&mut self, text: &str)
        ensures
            final(self).terminal_input@ == old(self).terminal_input@ + crate::text::without_controls(
                text@,
            ),
            final(self).open == old(self).open,
            final(self).active_tab == old(self).active_tab,
            final(self).terminal_focused == old(self).terminal_focused,
            final(self).terminal_lines@ == old(self).terminal_lines@,
    {
        let n = text.unicode_len();
        let mut i: usize = 0;
        let ghost start = self.terminal_input@;
        while i < n
            invariant
                i <= n,
                n == text@.len(),
                self.terminal_input@ == start + crate::text::without_controls(text@.take(i as int)),
                self.open == old(self).open,
                self.active_tab == old(self).active_tab,
                self.terminal_focused == old(self).terminal_focused,
                self.terminal_lines@ == old(self).terminal_lines@,
            decreases n - i,
        {
            let c = text.get_char(i);
            proof {
                assert(text@.take(i + 1) =~= text@.take(i as int).push(c));
                lemma_filter_push(text@.take(i as int), c);
            }
            if !is_control_char(c) {
                self.terminal_input.append(text.substring_char(i, i + 1));
                proof {
                    assert(text@.subrange(i as int, i + 1) =~= seq![c]);
                }
            }
            proof {
                assert(self.terminal_input@ =~= start + crate::text::without_controls(
                    text@.take(i + 1),
                ));
            }
            i = i + 1;
        }
        proof {
            assert(text@.take(n as int) =~= text@);
        }
    }

    /// Enter, first half: the input line empties, and its trimmed text is
    /// the command to run, unless it is blank.
    pub fn take_command(&mut self) -> (c: Option<String>)
        ensures
            final(self).terminal_input@ == Seq::<char>::empty(),
            final(self).open == old(self).open,
            final(self).active_tab == old(self).active_tab,
            final(self).terminal_focused == old(self).terminal_focused,
            final(self).terminal_lines@ == old(self).terminal_lines@,
            match c {
                Some(command) => command@ == crate::text::trim(old(self).terminal_input@)
                    && command@.len() > 0,
                None => crate::text::trim(old(self).terminal_input@).len() == 0,
            },
    {
        let command = crate::text::trim_str(self.terminal_input.as_str());
        self.terminal_input = String::new();
        if command.as_str().unicode_len() == 0 {
            None
        } else {
            Some(command)
        }
    }

    /// Enter, second half: `command` is echoed, the terminal clears if the
    /// result says so, the result's lines are printed, and the last lines
    /// stay on screen.
    pub fn show_result(&mut self, command: &str, result: &DebugCommandResult)
        ensures
            strings_view(final(self).terminal_lines@) == terminal_shown(
                strings_view(old(self).terminal_lines@),
                command@,
                result.clear_terminal,
                strings_view(result.lines@),
            ),
            final(self).terminal_input@ == old(self).terminal_input@,
            final(self).open == old(self).open,
            final(self).active_tab == old(self).active_tab,
            final(self).terminal_focused == old(self).terminal_focused,
    {
        let ghost before = strings_view(self.terminal_lines@);
        let mut echo = String::from_str("> ");
        echo.append(command);
        let mut all: Vec<String> = Vec::new();
        proof {
            assert(strings_view(all@) =~= seq![]);
        }
        if !result.clear_terminal {
            let mut k: usize = 0;
            while k < self.terminal_lines.len()
                invariant
                    k <= self.terminal_lines@.len(),
                    strings_view(all@) == strings_view(self.terminal_lines@).take(k as int),
                decreases self.terminal_lines@.len() - k,
            {
                push_line(&mut all, self.terminal_lines[k].clone());
                proof {
                    assert(strings_view(self.terminal_lines@).take(k + 1) =~= strings_view(
                        self.terminal_lines@,
                    ).take(k as int).push(self.terminal_lines@[k as int]@));
                }
                k = k + 1;
            }
            proof {
                assert(strings_view(self.terminal_lines@).take(
                    self.terminal_lines@.len() as int,
                ) =~= before);
            }
            push_line(&mut all, echo);
        }
        let ghost base = strings_view(all@);
        let mut j: usize = 0;
        while j < result.lines.len()
            invariant
                j <= result.lines@.len(),
                strings_view(all@) == base + strings_view(result.lines@).take(j as int),
            decreases result.lines@.len() - j,
        {
            push_line(&mut all, result.lines[j].clone());
            proof {
                assert(strings_view(result.lines@).take(j + 1) =~= strings_view(
                    result.lines@,
                ).take(j as int).push(result.lines@[j as int]@));
            }
            j = j + 1;
        }
        proof {
            assert(strings_view(result.lines@).take(result.lines@.len() as int) =~= strings_view(
                result.lines@,
            ));
        }
        let ghost whole = strings_view(all@);
        let start: usize = if all.len() > TERMINAL_KEEP {
            all.len() - TERMINAL_KEEP
        } else {
            0
        };
        let mut kept: Vec<String> = Vec::new();
        proof {
            assert(strings_view(kept@) =~= seq![]);
        }
        let mut m: usize = start;
        while m < all.len()
            invariant
                start <= m <= all@.len(),
                strings_view(all@) == whole,
                strings_view(kept@) == whole.subrange(start as int, m as int),
            decreases all@.len() - m,
        {
            push_line(&mut kept, all[m].clone());
            proof {
                assert(whole.subrange(start as int, m + 1) =~= whole.subrange(
                    start as int,
                    m as int,
                ).push(all@[m as int]@));
            }
            m = m + 1;
        }
        proof {
            assert(whole.subrange(start as int, whole.len() as int) =~= keep_last(
                whole,
                TERMINAL_KEEP as nat,
            ));
        }
        self.terminal_lines = kept;
    }

    /// Enter: the trimmed input line runs as a debug command in `mode`, and
    /// the input line empties. A blank line does nothing more. Otherwise
    /// the command is echoed, its output printed, the last lines kept, and
    /// `mode` becomes the mode it set, which is returned for saving.
    pub fn submit(&mut self, mode: &mut RendererDebugMode) -> (saved: Option<RendererDebugMode>)
        ensures
            final(self).terminal_input@ == Seq::<char>::empty(),
            final(self).open == old(self).open,
            final(self).active_tab == old(self).active_tab,
            final(self).terminal_focused == old(self).terminal_focused,
            ({
                let command = crate::text::trim(old(self).terminal_input@);
                if command.len() == 0 {
                    &&& strings_view(final(self).terminal_lines@) == strings_view(
                        old(self).terminal_lines@,
                    )
                    &&& *final(mode) == *old(mode)
                    &&& saved is None
                } else {
                    &&& strings_view(final(self).terminal_lines@) == terminal_after(
                        strings_view(old(self).terminal_lines@),
                        command,
                        *old(mode),
                    )
                    &&& saved == spec_debug_command(command, *old(mode)).2
                    &&& *final(mode) == (match saved {
                        Some(m) => m,
                        None => *old(mode),
                    })
                }
            }),
    {
        match self.take_command() {
            None => None,
            Some(command) => {
                let result = execute_debug_command(command.as_str(), mode);
                self.show_result(command.as_str(), &result);
                result.persist
            },
        }
    }
}

/// A key the terminal reacts to: Escape, Enter (either Enter key),
/// Backspace, or any other key with the text it types (empty for keys that
/// type none).
#[derive(Clone, Debug)]
pub enum TerminalKey {
    Escape,
    Enter,
    Backspace,
    Text(String),
}

/// One keyboard event: the key, whether it was pressed (not released), and
/// whether it is a repeat of a held key.
#[derive(Clone, Debug)]
pub struct KeyEvent {
    pub key: TerminalKey,
    pub pressed: bool,
    pub repeat: bool,
}

/// What one event does to the terminal's focus and input line, and the
/// command it submits: released and repeated keys do nothing; Escape lets
/// go of the keyboard; Enter empties the input and submits its trimmed
/// text unless that is blank; Backspace drops the last character; text
/// joins the input without its control characters.
pub open spec fn after_event(focused: bool, input: Seq<char>, e: KeyEvent) -> (
    bool,
    Seq<char>,
    Option<Seq<char>>,
) {
    if !e.pressed || e.repeat {
        (focused, input, None)
    } else {
        match e.key {
            TerminalKey::Escape => (false, input, None),
            TerminalKey::Enter => {
                let c = crate::text::trim(input);
                (focused, seq![], if c.len() == 0 {
                    None
                } else {
                    Some(c)
                })
            },
            TerminalKey::Backspace => (focused, if input.len() == 0 {
                input
            } else {
                input.drop_last()
            }, None),
            TerminalKey::Text(t) => (focused, input + crate::text::without_controls(t@), None),
        }
    }
}

/// The events of one frame in order: the focus and input they leave and the
/// commands they submit.
pub open spec fn after_events(focused: bool, input: Seq<char>, events: Seq<KeyEvent>) -> (
    bool,
    Seq<char>,
    Seq<Seq<char>>,
)
    decreases events.len(),
{
    if events.len() == 0 {
        (focused, input, seq![])
    } else {
        let (f, i, cs) = after_events(focused, input, events.drop_last());
        let (f2, i2, c) = after_event(f, i, events.last());
        (f2, i2, match c {
            Some(x) => cs.push(x),
            None => cs,
        })
    }
}

/// What one frame's events leave of the focus and the input line, and the
/// commands they submit: nothing changes unless the terminal takes keys when
/// the frame starts.
pub open spec fn frame_result(d: DebugUiState, events: Seq<KeyEvent>) -> (
    bool,
    Seq<char>,
    Seq<Seq<char>>,
) {
    if keys_to_terminal(d) {
        after_events(d.terminal_focused, d.terminal_input@, events)
    } else {
        (d.terminal_focused, d.terminal_input@, seq![])
    }
}

impl DebugUiState {
    /// One frame's keyboard events. Unless the terminal takes keys when the
    /// frame starts, nothing changes; else each event in turn acts on the
    /// focus and the input line. The commands submitted are returned in
    /// order, to be run and shown; the panel and its lines stay as they are.
    pub fn frame_keys(&mut self, events: &Vec<KeyEvent>) -> (commands: Vec<String>)
        ensures
            final(self).open == old(self).open,
            final(self).active_tab == old(self).active_tab,
            final(self).terminal_lines@ == old(self).terminal_lines@,
            (final(self).terminal_focused, final(self).terminal_input@, strings_view(commands@))
                == frame_result(*old(self), events@),
    {
        let mut commands: Vec<String> = Vec::new();
        proof {
            assert(strings_view(commands@) =~= seq![]);
        }
        if !self.accepts_keys() {
            return commands;
        }
        let ghost f0 = self.terminal_focused;
        let ghost i0 = self.terminal_input@;
        let mut k: usize = 0;
        proof {
            assert(events@.take(0) =~= seq![]);
        }
        while k < events.len()
            invariant
                k <= events@.len(),
                self.open == old(self).open,
                self.active_tab == old(self).active_tab,
                self.terminal_lines@ == old(self).terminal_lines@,
                (self.terminal_focused, self.terminal_input@, strings_view(commands@))
                    == after_events(f0, i0, events@.take(k as int)),
            decreases events@.len() - k,
        {
            proof {
                assert(events@.take(k + 1).drop_last() =~= events@.take(k as int));
                assert(events@.take(k + 1).last() == events@[k as int]);
            }
            let e = &events[k];
            if e.pressed && !e.repeat {
                match &e.key {
                    TerminalKey::Escape => {
                        self.escape();
                    },
                    TerminalKey::Enter => {
                        match self.take_command() {
                            Some(c) => {
                                let ghost before = commands@;
                                let ghost cv = c@;
                                commands.push(c);
                                proof {
                                    assert(strings_view(commands@) =~= strings_view(before).push(
                                        cv,
                                    ));
                                }
                            },
                            None => {},
                        }
                    },
                    TerminalKey::Backspace => {
                        self.backspace();
                    },
                    TerminalKey::Text(t) => {
                        self.type_text(t.as_str());
                    },
                }
            }
            k = k + 1;
        }
        proof {
            assert(events@.take(events@.len() as int) =~= events@);
        }
        commands
    }
}

/// The terminal's handling of one key: released and repeated keys do
/// nothing; Enter on a blank line only empties the input; only Enter submits
/// a command, and never a blank one; and a command's result leaves at most
/// `TERMINAL_KEEP` lines on screen.
pub proof fn law_terminal_keys(
    focused: bool,
    input: Seq<char>,
    e: KeyEvent,
    lines: Seq<Seq<char>>,
    command: Seq<char>,
    clear: bool,
    out: Seq<Seq<char>>,
)
    ensures
        (!e.pressed || e.repeat) ==> after_event(focused, input, e) == (focused, input, None::<
            Seq<char>,
        >),
        (e.pressed && !e.repeat && e.key is Enter && crate::text::trim(input).len() == 0)
            ==> after_event(focused, input, e) == (focused, Seq::<char>::empty(), None::<Seq<char>>),
        after_event(focused, input, e).2 matches Some(c) ==> c.len() > 0 && e.key is Enter,
        terminal_shown(lines, command, clear, out).len() <= TERMINAL_KEEP,
{
}

proof fn lemma_released_keys(focused: bool, input: Seq<char>, events: Seq<KeyEvent>)
    requires
        forall|i: int| 0 <= i < events.len() ==> !(#[trigger] events[i]).pressed || events[i].repeat,
    ensures
        after_events(focused, input, events) == (focused, input, Seq::<Seq<char>>::empty()),
    decreases events.len(),
{
    if events.len() > 0 {
        lemma_released_keys(focused, input, events.drop_last());
        assert(!events.last().pressed || events.last().repeat);
    }
}

proof fn lemma_submitted_not_blank(focused: bool, input: Seq<char>, events: Seq<KeyEvent>)
    ensures
        forall|i: int|
            0 <= i < after_events(focused, input, events).2.len() ==> (#[trigger] after_events(
                focused,
                input,
                events,
            ).2[i]).len() > 0,
    decreases events.len(),
{
    if events.len() > 0 {
        lemma_submitted_not_blank(focused, input, events.drop_last());
        let (f, i, cs) = after_events(focused, input, events.drop_last());
        let r = after_event(f, i, events.last());
        assert(r.2 matches Some(c) ==> c.len() > 0);
        let all = after_events(focused, input, events).2;
        assert forall|k: int| 0 <= k < all.len() implies (#[trigger] all[k]).len() > 0 by {
            if k < cs.len() {
                assert(all[k] == cs[k]);
            }
        }
    }
}

/// A frame's keys as a whole: unless the terminal takes keys when the frame
/// starts they change nothing and submit nothing; a frame of released or
/// repeated keys changes nothing; a lone Enter on a blank line only empties
/// the input; every command submitted has text.
pub proof fn law_frame_keys(d: DebugUiState, events: Seq<KeyEvent>)
    ensures
        !keys_to_terminal(d) ==> frame_result(d, events) == (
            d.terminal_focused,
            d.terminal_input@,
            Seq::<Seq<char>>::empty(),
        ),
        (forall|i: int| 0 <= i < events.len() ==> !(#[trigger] events[i]).pressed || events[i].repeat)
            ==> frame_result(d, events) == (
            d.terminal_focused,
            d.terminal_input@,
            Seq::<Seq<char>>::empty(),
        ),
        (keys_to_terminal(d) && events.len() == 1 && events[0].pressed && !events[0].repeat
            && events[0].key is Enter && crate::text::trim(d.terminal_input@).len() == 0)
            ==> frame_result(d, events) == (
            d.terminal_focused,
            Seq::<char>::empty(),
            Seq::<Seq<char>>::empty(),
        ),
        forall|i: int|
            0 <= i < frame_result(d, events).2.len() ==> (#[trigger] frame_result(
                d,
                events,
            ).2[i]).len() > 0,
{
    if forall|i: int| 0 <= i < events.len() ==> !(#[trigger] events[i]).pressed || events[i].repeat {
        lemma_released_keys(d.terminal_focused, d.terminal_input@, events);
    }
    lemma_submitted_not_blank(d.terminal_focused, d.terminal_input@, events);
    if events.len() == 1 {
        let f = d.terminal_focused;
        let input = d.terminal_input@;
        assert(events.drop_last() =~= Seq::<KeyEvent>::empty());
        assert(after_events(f, input, events.drop_last()) == (f, input, Seq::<Seq<char>>::empty()));
        assert(events.last() == events[0]);
        if events[0].pressed && !events[0].repeat && events[0].key is Enter
            && crate::text::trim(input).len() == 0 {
            assert(after_event(f, input, events[0]) == (f, Seq::<char>::empty(), None::<Seq<char>>));
        }
    }
}

/// Whether `c` is a control character.
fn is_control_char(c: char) -> (b: bool)
    ensures
        b == crate::text::is_control(c),
{
    let u = c as u32;
    u <= 0x1F || (0x7F <= u && u <= 0x9F)
}

proof fn lemma_filter_push(s: Seq<char>, c: char)
    ensures
        crate::text::without_controls(s.push(c)) == if crate::text::is_control(c) {
            crate::text::without_controls(s)
        } else {
            crate::text::without_controls(s).push(c)
        },
{
    reveal_with_fuel(Seq::filter, 1);
    assert(s.push(c).drop_last() =~= s);
}

/// Whether keys go to the terminal: the panel is open on the terminal tab
/// and the terminal is focused.
pub open spec fn keys_to_terminal(s: DebugUiState) -> bool {
    s.open && s.active_tab == DebugTab::Terminal && s.terminal_focused
}

/// Whether the camera takes the keyboard and mouse.
pub open spec fn camera_input(s: DebugUiState) -> bool {
    !(s.open && s.terminal_focused)
}

/// While the terminal takes keys, the camera takes none: typing never moves
/// the view.
pub proof fn law_terminal_owns_focus(s: DebugUiState)
    ensures
        keys_to_terminal(s) ==> !camera_input(s),
{
}

/// After a command, the terminal shows at most `TERMINAL_KEEP` lines; the
/// last line the command printed is the last line on screen, and what was
/// on screen before stays in order above the echoed command as far as room
/// allows.
pub proof fn law_terminal_keeps_latest(
    lines: Seq<Seq<char>>,
    command: Seq<char>,
    clear: bool,
    out: Seq<Seq<char>>,
)
    ensures
        terminal_shown(lines, command, clear, out).len() <= TERMINAL_KEEP,
        out.len() > 0 ==> terminal_shown(lines, command, clear, out).last() == out.last(),
        ({
            let shown = terminal_shown(lines, command, clear, out);
            let all = lines.push("> "@ + command) + out;
            !clear ==> shown == all.skip(all.len() - shown.len())
        }),
{
}

} // verus!
