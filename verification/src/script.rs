//! The patch-script grammar: commands one per line or separated by `;`
//! (`patch`, `voice` or `v`, `sfxr`, and `d` and `def` for defaults and
//! templates), each followed by `key=value` fields, `#` starting a comment.
//!
//! Parsing checks every rule of the grammar and reports the first broken
//! one with its 1-based line number; numbers stay as the text that was
//! written, each one a literal that `f32::from_str` accepts.

use vstd::prelude::*;
use vstd::string::*;
use crate::text::{chars_of, first_index, is_float_literal, is_float_literal_range, lemma_first_index};

verus! {

broadcast use vstd::string::group_string_axioms;

/// One example script: a patch line, two voices and an sfxr voice.
pub const PATCH_SCRIPT_EXAMPLE: &'static str = "
# One command per line. Comments start with #.
patch gain=0.7 soft_clip=true
voice wave=sine freq=220 gain=0.12 attack=0.002 sustain=0.03 decay=0.2 vibrato=0.02 vibrato_hz=5
voice wave=triangle freq=440 gain=0.04 attack=0 sustain=0.02 decay=0.18 lpf=0.7 hpf=0.02
sfxr preset=laser mutate_seed=9 mutate=0.01
";

// ---------------------------------------------------------------------------
// Names
// ---------------------------------------------------------------------------

#[derive(Clone, Copy, Debug, PartialEq, Eq, Structural)]
pub enum Waveform {
    Sine,
    Square,
    Sawtooth,
    Triangle,
    Noise,
}

/// The classic sfxr presets that a script can name.
#[derive(Clone, Copy, Debug, PartialEq, Eq, Structural)]
pub enum SfxrPreset {
    Blip,
    Pickup,
    Laser,
    Explosion,
    Powerup,
    Hit,
    Jump,
}

/// Whether `a` and `b` hold the same characters.
pub fn str_eq(a: &str, b: &str) -> (r: bool)
    ensures
        r == (a@ == b@),
{
    let n = a.unicode_len();
    if n != b.unicode_len() {
        return false;
    }
    let mut i: usize = 0;
    while i < n
        invariant
            n == a@.len(),
            n == b@.len(),
            i <= n,
            forall|j: int| 0 <= j < i ==> a@[j] == b@[j],
        decreases n - i,
    {
        if a.get_char(i) != b.get_char(i) {
            return false;
        }
        i = i + 1;
    }
    proof {
        assert(a@ =~= b@);
    }
    true
}

pub open spec fn spec_waveform_named(name: Seq<char>) -> Option<Waveform> {
    if name == "sine"@ {
        Some(Waveform::Sine)
    } else if name == "square"@ {
        Some(Waveform::Square)
    } else if name == "saw"@ || name == "sawtooth"@ {
        Some(Waveform::Sawtooth)
    } else if name == "tri"@ || name == "triangle"@ {
        Some(Waveform::Triangle)
    } else if name == "noise"@ {
        Some(Waveform::Noise)
    } else {
        None
    }
}

/// The waveform that a script names `name`, if any.
pub fn waveform_named(name: &str) -> (r: Option<Waveform>)
    ensures
        r == spec_waveform_named(name@),
{
    if str_eq(name, "sine") {
        Some(Waveform::Sine)
    } else if str_eq(name, "square") {
        Some(Waveform::Square)
    } else if str_eq(name, "saw") || str_eq(name, "sawtooth") {
        Some(Waveform::Sawtooth)
    } else if str_eq(name, "tri") || str_eq(name, "triangle") {
        Some(Waveform::Triangle)
    } else if str_eq(name, "noise") {
        Some(Waveform::Noise)
    } else {
        None
    }
}

pub open spec fn spec_preset_named(name: Seq<char>) -> Option<SfxrPreset> {
    if name == "blip"@ {
        Some(SfxrPreset::Blip)
    } else if name == "pickup"@ || name == "coin"@ {
        Some(SfxrPreset::Pickup)
    } else if name == "laser"@ || name == "shoot"@ {
        Some(SfxrPreset::Laser)
    } else if name == "explosion"@ {
        Some(SfxrPreset::Explosion)
    } else if name == "powerup"@ {
        Some(SfxrPreset::Powerup)
    } else if name == "hit"@ || name == "hurt"@ {
        Some(SfxrPreset::Hit)
    } else if name == "jump"@ {
        Some(SfxrPreset::Jump)
    } else {
        None
    }
}

impl SfxrPreset {
    /// The preset that a script names `name`, if any.
    pub fn named(name: &str) -> (r: Option<SfxrPreset>)
        ensures
            r == spec_preset_named(name@),
    {
        if str_eq(name, "blip") {
            Some(SfxrPreset::Blip)
        } else if str_eq(name, "pickup") || str_eq(name, "coin") {
            Some(SfxrPreset::Pickup)
        } else if str_eq(name, "laser") || str_eq(name, "shoot") {
            Some(SfxrPreset::Laser)
        } else if str_eq(name, "explosion") {
            Some(SfxrPreset::Explosion)
        } else if str_eq(name, "powerup") {
            Some(SfxrPreset::Powerup)
        } else if str_eq(name, "hit") || str_eq(name, "hurt") {
            Some(SfxrPreset::Hit)
        } else if str_eq(name, "jump") {
            Some(SfxrPreset::Jump)
        } else {
            None
        }
    }
}

// ---------------------------------------------------------------------------
// Errors
// ---------------------------------------------------------------------------

/// A broken rule of the script: the 1-based line it is on (0 for the script
/// as a whole) and what is wrong.
#[derive(Clone, Debug)]
pub struct PatchScriptError {
    pub line: usize,
    pub message: String,
}

impl PatchScriptError {
    pub fn new(line: usize, message: String) -> (e: PatchScriptError)
        ensures
            e.line == line,
            e.message@ == message@,
    {
        PatchScriptError { line, message }
    }

    /// The error as it is shown: `patch script line <line>: <message>`.
    pub fn to_string(&self) -> (s: String)
        ensures
            s@ == "patch script line "@ + crate::text::decimal_digits(self.line as nat) + ": "@
                + self.message@,
    {
        let mut s = String::from_str("patch script line ");
        let n = crate::text::decimal_string(self.line as u128);
        s.append(n.as_str());
        s.append(": ");
        s.append(self.message.as_str());
        s
    }
}

pub open spec fn msg_expected_field(part: Seq<char>) -> Seq<char> {
    "expected key=value field, got `"@ + part + "`"@
}

pub open spec fn msg_unknown_command(command: Seq<char>) -> Seq<char> {
    "unknown command `"@ + command + "`"@
}

pub open spec fn msg_not_number(key: Seq<char>) -> Seq<char> {
    "`"@ + key + "` must be a number"@
}

pub open spec fn msg_not_bool(key: Seq<char>) -> Seq<char> {
    "`"@ + key + "` must be true or false"@
}

pub open spec fn msg_unknown_field(command: Seq<char>, field: Seq<char>) -> Seq<char> {
    "unknown "@ + command + " field `"@ + field + "`"@
}

pub open spec fn msg_unknown_waveform(name: Seq<char>) -> Seq<char> {
    "unknown waveform `"@ + name + "`"@
}

pub open spec fn msg_unknown_preset(name: Seq<char>) -> Seq<char> {
    "unknown sfxr preset `"@ + name + "`"@
}

pub open spec fn msg_arpeggio_pair() -> Seq<char> {
    "arpeggio needs both arp_delay and arp_mult"@
}

pub open spec fn msg_bad_seed() -> Seq<char> {
    "mutate_seed must be an integer"@
}

pub open spec fn msg_no_voices() -> Seq<char> {
    "script produced no voices"@
}

/// `prefix`, then `middle`, then `suffix`.
fn framed(prefix: &str, middle: &str, suffix: &str) -> (s: String)
    ensures
        s@ == prefix@ + middle@ + suffix@,
{
    let mut s = String::from_str(prefix);
    s.append(middle);
    s.append(suffix);
    s
}

/// The error for a field of `command` whose key the command does not know.
pub fn unknown_field(line: usize, command: &str, field: &str) -> (e: PatchScriptError)
    ensures
        e.line == line,
        e.message@ == msg_unknown_field(command@, field@),
{
    let mut m = String::from_str("unknown ");
    m.append(command);
    m.append(" field `");
    m.append(field);
    m.append("`");
    PatchScriptError::new(line, m)
}

// ---------------------------------------------------------------------------
// Fields
// ---------------------------------------------------------------------------

/// A `key=value` field, split at its first `=`.
#[derive(Clone, Debug)]
pub struct ScriptField {
    pub key: String,
    pub value: String,
}

impl View for ScriptField {
    type V = (Seq<char>, Seq<char>);

    open spec fn view(&self) -> (Seq<char>, Seq<char>) {
        (self.key@, self.value@)
    }
}

pub open spec fn fields_view(fields: Seq<ScriptField>) -> Seq<(Seq<char>, Seq<char>)> {
    fields.map_values(|f: ScriptField| f@)
}

/// A word split at its first `=`, or `None` when it has none.
pub open spec fn spec_split_field(part: Seq<char>) -> Option<(Seq<char>, Seq<char>)> {
    let i = first_index(part, '=') as int;
    if i < part.len() {
        Some((part.take(i), part.skip(i + 1)))
    } else {
        None
    }
}

/// The fields of a line's words after its command: each must hold an `=`;
/// the first one that does not is the error.
pub open spec fn spec_parse_fields(parts: Seq<Seq<char>>) -> Result<
    Seq<(Seq<char>, Seq<char>)>,
    Seq<char>,
>
    decreases parts.len(),
{
    if parts.len() == 0 {
        Ok(seq![])
    } else {
        match spec_parse_fields(parts.drop_last()) {
            Err(part) => Err(part),
            Ok(fields) => match spec_split_field(parts.last()) {
                None => Err(parts.last()),
                Some(field) => Ok(fields.push(field)),
            },
        }
    }
}

pub open spec fn strings_view(parts: Seq<String>) -> Seq<Seq<char>> {
    parts.map_values(|p: String| p@)
}

/// Splits each of `parts` into a field at its first `=`.
pub fn parse_fields(parts: &Vec<String>, line: usize) -> (r: Result<
    Vec<ScriptField>,
    PatchScriptError,
>)
    ensures
        match r {
            Ok(fields) => spec_parse_fields(strings_view(parts@)) == Ok::<
                Seq<(Seq<char>, Seq<char>)>,
                Seq<char>,
            >(fields_view(fields@)),
            Err(e) => spec_parse_fields(strings_view(parts@)) matches Err(part) && e.line == line
                && e.message@ == msg_expected_field(part),
        },
{
    let mut fields: Vec<ScriptField> = Vec::new();
    let mut i: usize = 0;
    proof {
        assert(strings_view(parts@).take(0) =~= seq![]);
        assert(fields_view(fields@) =~= seq![]);
    }
    while i < parts.len()
        invariant
            i <= parts@.len(),
            spec_parse_fields(strings_view(parts@).take(i as int)) == Ok::<
                Seq<(Seq<char>, Seq<char>)>,
                Seq<char>,
            >(fields_view(fields@)),
        decreases parts@.len() - i,
    {
        let part: &str = parts[i].as_str();
        let chars = chars_of(part);
        let n = chars.len();
        let mut k: usize = 0;
        while k < n && chars[k] != '='
            invariant
                k <= n,
                n == chars@.len(),
                forall|j: int| 0 <= j < k ==> chars@[j] != '=',
            decreases n - k,
        {
            k = k + 1;
        }
        proof {
            lemma_first_index(chars@, '=', k as int);
            let ps = strings_view(parts@);
            assert(ps.take(i + 1).drop_last() =~= ps.take(i as int));
            assert(ps.take(i + 1).last() == part@);
        }
        if k == n {
            let e = PatchScriptError::new(line, framed("expected key=value field, got `", part, "`"));
            proof {
                let ps = strings_view(parts@);
                lemma_parse_fields_error_persists(ps, i as int + 1);
                assert(ps.take(ps.len() as int) =~= ps);
            }
            return Err(e);
        }
        let key = String::from_str(part.substring_char(0, k));
        let value = String::from_str(part.substring_char(k + 1, n));
        proof {
            assert(chars@.take(k as int) =~= part@.subrange(0, k as int));
            assert(chars@.skip(k + 1) =~= part@.subrange(k + 1, n as int));
        }
        let ghost before = fields@;
        fields.push(ScriptField { key, value });
        proof {
            assert(fields_view(fields@) =~= fields_view(before).push((key@, value@)));
        }
        i = i + 1;
    }
    proof {
        assert(strings_view(parts@).take(parts@.len() as int) =~= strings_view(parts@));
    }
    Ok(fields)
}

pub proof fn lemma_parse_fields_error_persists(parts: Seq<Seq<char>>, k: int)
    requires
        0 <= k <= parts.len(),
        spec_parse_fields(parts.take(k)) is Err,
    ensures
        spec_parse_fields(parts) == spec_parse_fields(parts.take(k)),
    decreases parts.len() - k,
{
    if k < parts.len() {
        assert(parts.take(k + 1).drop_last() =~= parts.take(k));
        lemma_parse_fields_error_persists(parts, k + 1);
    } else {
        assert(parts.take(k) =~= parts);
    }
}

/// The value of the first field whose key is `key`.
pub open spec fn spec_field_value(fields: Seq<(Seq<char>, Seq<char>)>, key: Seq<char>) -> Option<
    Seq<char>,
>
    decreases fields.len(),
{
    if fields.len() == 0 {
        None
    } else {
        match spec_field_value(fields.drop_last(), key) {
            Some(v) => Some(v),
            None => if fields.last().0 == key {
                Some(fields.last().1)
            } else {
                None
            },
        }
    }
}

/// The value of the first field whose key is `key`.
pub fn field_value<'a>(fields: &'a Vec<ScriptField>, key: &str) -> (r: Option<&'a str>)
    ensures
        match r {
            Some(v) => spec_field_value(fields_view(fields@), key@) == Some(v@),
            None => spec_field_value(fields_view(fields@), key@) is None,
        },
{
    let mut i: usize = 0;
    while i < fields.len()
        invariant
            i <= fields@.len(),
            spec_field_value(fields_view(fields@).take(i as int), key@) is None,
        decreases fields@.len() - i,
    {
        proof {
            let fv = fields_view(fields@);
            assert(fv.take(i + 1).drop_last() =~= fv.take(i as int));
            assert(fv.take(i + 1).last() == fields@[i as int]@);
        }
        if str_eq(fields[i].key.as_str(), key) {
            proof {
                lemma_field_value_found_persists(fields_view(fields@), key@, i as int + 1);
            }
            return Some(fields[i].value.as_str());
        }
        i = i + 1;
    }
    proof {
        assert(fields_view(fields@).take(fields@.len() as int) =~= fields_view(fields@));
    }
    None
}

pub proof fn lemma_field_value_found_persists(
    fields: Seq<(Seq<char>, Seq<char>)>,
    key: Seq<char>,
    k: int,
)
    requires
        0 <= k <= fields.len(),
        spec_field_value(fields.take(k), key) is Some,
    ensures
        spec_field_value(fields, key) == spec_field_value(fields.take(k), key),
    decreases fields.len() - k,
{
    if k < fields.len() {
        assert(fields.take(k + 1).drop_last() =~= fields.take(k));
        lemma_field_value_found_persists(fields, key, k + 1);
    } else {
        assert(fields.take(k) =~= fields);
    }
}

pub open spec fn spec_parse_bool(value: Seq<char>) -> Option<bool> {
    if value == "true"@ || value == "yes"@ || value == "1"@ {
        Some(true)
    } else if value == "false"@ || value == "no"@ || value == "0"@ {
        Some(false)
    } else {
        None
    }
}

/// A switch field: `true`, `yes`, `1` or `false`, `no`, `0`.
pub fn parse_bool(value: &str, line: usize, key: &str) -> (r: Result<bool, PatchScriptError>)
    ensures
        match spec_parse_bool(value@) {
            Some(b) => r matches Ok(x) && x == b,
            None => r matches Err(e) && e.line == line && e.message@ == msg_not_bool(key@),
        },
{
    if str_eq(value, "true") || str_eq(value, "yes") || str_eq(value, "1") {
        Ok(true)
    } else if str_eq(value, "false") || str_eq(value, "no") || str_eq(value, "0") {
        Ok(false)
    } else {
        Err(PatchScriptError::new(line, framed("`", key, "` must be true or false")))
    }
}

/// Whether `value` is a number that `f32::from_str` accepts.
pub fn is_number(value: &str) -> (b: bool)
    ensures
        b == is_float_literal(value@),
{
    let chars = chars_of(value);
    proof {
        assert(chars@.subrange(0, chars@.len() as int) =~= chars@);
    }
    is_float_literal_range(&chars, 0, chars.len())
}


// ---------------------------------------------------------------------------
// Key lists
// ---------------------------------------------------------------------------

pub open spec fn strs_view(v: Seq<&str>) -> Seq<Seq<char>> {
    v.map_values(|s: &str| s@)
}

pub open spec fn opt_view(o: Option<String>) -> Option<Seq<char>> {
    match o {
        Some(s) => Some(s@),
        None => None,
    }
}

/// The voice numbers checked before the arpeggio pair, in the order they
/// are checked.
pub open spec fn voice_keys_head() -> Seq<Seq<char>> {
    seq!["freq"@, "attack"@, "sustain"@, "decay"@, "punch"@, "arp_delay"@, "arp_mult"@]
}

/// The voice numbers checked after the arpeggio pair, in order.
pub open spec fn voice_keys_tail() -> Seq<Seq<char>> {
    seq![
        "duty"@,
        "phase"@,
        "min_freq"@,
        "pitch_ramp"@,
        "pitch_dramp"@,
        "vibrato"@,
        "vibrato_hz"@,
        "vibrato_delay"@,
        "duty_ramp"@,
        "lpf"@,
        "lpf_ramp"@,
        "resonance"@,
        "hpf"@,
        "hpf_ramp"@,
        "phaser"@,
        "phaser_ramp"@,
        "gain"@,
    ]
}

/// Every key a voice line may hold.
pub open spec fn voice_known_keys() -> Seq<Seq<char>> {
    seq!["wave"@] + voice_keys_head() + voice_keys_tail()
}

/// The numeric keys of an sfxr line.
pub open spec fn sfxr_number_keys() -> Seq<Seq<char>> {
    seq![
        "base"@,
        "limit"@,
        "ramp"@,
        "dramp"@,
        "duty"@,
        "duty_ramp"@,
        "vib"@,
        "vib_speed"@,
        "vib_delay"@,
        "attack"@,
        "sustain"@,
        "decay"@,
        "punch"@,
        "resonance"@,
        "lpf"@,
        "lpf_ramp"@,
        "hpf"@,
        "hpf_ramp"@,
        "phaser"@,
        "phaser_ramp"@,
        "repeat"@,
        "arp"@,
        "arp_mod"@,
    ]
}

fn voice_keys_head_exec() -> (v: Vec<&'static str>)
    ensures
        strs_view(v@) == voice_keys_head(),
{
    let v = vec!["freq", "attack", "sustain", "decay", "punch", "arp_delay", "arp_mult"];
    proof {
        assert(strs_view(v@) =~= voice_keys_head());
    }
    v
}

fn voice_keys_tail_exec() -> (v: Vec<&'static str>)
    ensures
        strs_view(v@) == voice_keys_tail(),
{
    let v = vec![
        "duty",
        "phase",
        "min_freq",
        "pitch_ramp",
        "pitch_dramp",
        "vibrato",
        "vibrato_hz",
        "vibrato_delay",
        "duty_ramp",
        "lpf",
        "lpf_ramp",
        "resonance",
        "hpf",
        "hpf_ramp",
        "phaser",
        "phaser_ramp",
        "gain",
    ];
    proof {
        assert(strs_view(v@) =~= voice_keys_tail());
    }
    v
}

fn voice_known_keys_exec() -> (v: Vec<&'static str>)
    ensures
        strs_view(v@) == voice_known_keys(),
{
    let v = vec![
        "wave",
        "freq",
        "attack",
        "sustain",
        "decay",
        "punch",
        "arp_delay",
        "arp_mult",
        "duty",
        "phase",
        "min_freq",
        "pitch_ramp",
        "pitch_dramp",
        "vibrato",
        "vibrato_hz",
        "vibrato_delay",
        "duty_ramp",
        "lpf",
        "lpf_ramp",
        "resonance",
        "hpf",
        "hpf_ramp",
        "phaser",
        "phaser_ramp",
        "gain",
    ];
    proof {
        assert(strs_view(v@) =~= voice_known_keys());
    }
    v
}

fn sfxr_number_keys_exec() -> (v: Vec<&'static str>)
    ensures
        strs_view(v@) == sfxr_number_keys(),
{
    let v = vec![
        "base",
        "limit",
        "ramp",
        "dramp",
        "duty",
        "duty_ramp",
        "vib",
        "vib_speed",
        "vib_delay",
        "attack",
        "sustain",
        "decay",
        "punch",
        "resonance",
        "lpf",
        "lpf_ramp",
        "hpf",
        "hpf_ramp",
        "phaser",
        "phaser_ramp",
        "repeat",
        "arp",
        "arp_mod",
    ];
    proof {
        assert(strs_view(v@) =~= sfxr_number_keys());
    }
    v
}

pub(crate) fn contains_str(list: &Vec<&str>, s: &str) -> (b: bool)
    ensures
        b == strs_view(list@).contains(s@),
{
    let mut i: usize = 0;
    while i < list.len()
        invariant
            i <= list@.len(),
            forall|j: int| 0 <= j < i ==> list@[j]@ != s@,
        decreases list@.len() - i,
    {
        if str_eq(list[i], s) {
            proof {
                assert(strs_view(list@)[i as int] == s@);
            }
            return true;
        }
        i = i + 1;
    }
    proof {
        if strs_view(list@).contains(s@) {
            let j = choose|j: int| 0 <= j < list@.len() && strs_view(list@)[j] == s@;
            assert(list@[j]@ == s@);
        }
    }
    false
}


// ---------------------------------------------------------------------------
// Per-command rules
// ---------------------------------------------------------------------------

/// A number field `key`, when present, must be a number.
pub open spec fn number_check(fields: Seq<(Seq<char>, Seq<char>)>, key: Seq<char>) -> Option<
    Seq<char>,
> {
    match spec_field_value(fields, key) {
        Some(v) => if is_float_literal(v) {
            None
        } else {
            Some(msg_not_number(key))
        },
        None => None,
    }
}

/// The first of `keys`, in order, whose field is not a number.
pub open spec fn first_bad_number(fields: Seq<(Seq<char>, Seq<char>)>, keys: Seq<Seq<char>>) -> Option<
    Seq<char>,
>
    decreases keys.len(),
{
    if keys.len() == 0 {
        None
    } else {
        match first_bad_number(fields, keys.drop_last()) {
            Some(m) => Some(m),
            None => number_check(fields, keys.last()),
        }
    }
}

/// The key of the first field, in order, that is not one of `known`.
pub open spec fn first_unknown_key(fields: Seq<(Seq<char>, Seq<char>)>, known: Seq<Seq<char>>) -> Option<
    Seq<char>,
>
    decreases fields.len(),
{
    if fields.len() == 0 {
        None
    } else {
        match first_unknown_key(fields.drop_last(), known) {
            Some(k) => Some(k),
            None => if known.contains(fields.last().0) {
                None
            } else {
                Some(fields.last().0)
            },
        }
    }
}

/// The rule for one field of a `patch` line.
pub open spec fn patch_field_check(f: (Seq<char>, Seq<char>)) -> Option<Seq<char>> {
    if f.0 == "gain"@ || f.0 == "repeat"@ {
        if is_float_literal(f.1) {
            None
        } else {
            Some(msg_not_number(f.0))
        }
    } else if f.0 == "soft_clip"@ {
        if spec_parse_bool(f.1) is Some {
            None
        } else {
            Some(msg_not_bool(f.0))
        }
    } else {
        Some(msg_unknown_field("patch"@, f.0))
    }
}

/// What a `patch` line takes: `gain` and `repeat` are numbers, `soft_clip`
/// is one of `true`, `yes`, `1`, `false`, `no`, `0`; any other key is
/// refused as an unknown patch field.
pub proof fn law_patch_fields(key: Seq<char>, value: Seq<char>)
    ensures
        (key == "gain"@ || key == "repeat"@) ==> (patch_field_check((key, value)) is None
            <==> is_float_literal(value)),
        key == "soft_clip"@ ==> (patch_field_check((key, value)) is None <==> (value == "true"@
            || value == "yes"@ || value == "1"@ || value == "false"@ || value == "no"@ || value
            == "0"@)),
        (key != "gain"@ && key != "repeat"@ && key != "soft_clip"@) ==> patch_field_check(
            (key, value),
        ) == Some("unknown patch field `"@ + key + "`"@),
{
    reveal_strlit("gain");
    reveal_strlit("repeat");
    reveal_strlit("soft_clip");
    assert("soft_clip"@.len() != "gain"@.len());
    assert("soft_clip"@.len() != "repeat"@.len());
    reveal_strlit("unknown ");
    reveal_strlit("patch");
    reveal_strlit(" field `");
    reveal_strlit("unknown patch field `");
    assert("unknown "@ + "patch"@ + " field `"@ =~= "unknown patch field `"@);
    assert("unknown "@ + "patch"@ + " field `"@ + key + "`"@ =~= "unknown patch field `"@ + key
        + "`"@);
}

/// The rule for one field of an `sfxr` line.
pub open spec fn sfxr_field_check(f: (Seq<char>, Seq<char>)) -> Option<Seq<char>> {
    if f.0 == "preset"@ || f.0 == "mutate_seed"@ || f.0 == "mutate"@ {
        None
    } else if f.0 == "wave"@ {
        if spec_waveform_named(f.1) is Some {
            None
        } else {
            Some(msg_unknown_waveform(f.1))
        }
    } else if sfxr_number_keys().contains(f.0) {
        if is_float_literal(f.1) {
            None
        } else {
            Some(msg_not_number(f.0))
        }
    } else {
        Some(msg_unknown_field("sfxr"@, f.0))
    }
}

/// The waveform names: `sine`, `square`, `saw` or `sawtooth`, `tri` or
/// `triangle`, and `noise`; no other name is a waveform.
pub proof fn law_waveform_names(name: Seq<char>)
    ensures
        spec_waveform_named("sine"@) == Some(Waveform::Sine),
        spec_waveform_named("square"@) == Some(Waveform::Square),
        spec_waveform_named("saw"@) == Some(Waveform::Sawtooth),
        spec_waveform_named("sawtooth"@) == Some(Waveform::Sawtooth),
        spec_waveform_named("tri"@) == Some(Waveform::Triangle),
        spec_waveform_named("triangle"@) == Some(Waveform::Triangle),
        spec_waveform_named("noise"@) == Some(Waveform::Noise),
        spec_waveform_named(name) is Some ==> (name == "sine"@ || name == "square"@ || name == "saw"@ || name == "sawtooth"@ || name == "tri"@ || name == "triangle"@ || name == "noise"@),
{
    reveal_strlit("sine");
    reveal_strlit("square");
    reveal_strlit("saw");
    reveal_strlit("sawtooth");
    reveal_strlit("tri");
    reveal_strlit("triangle");
    reveal_strlit("noise");
    assert("square"@.len() != "sine"@.len());
    assert("saw"@.len() != "sine"@.len());
    assert("saw"@.len() != "square"@.len());
    assert("sawtooth"@.len() != "sine"@.len());
    assert("sawtooth"@.len() != "square"@.len());
    assert("sawtooth"@.len() != "saw"@.len());
    assert("tri"@.len() != "sine"@.len());
    assert("tri"@.len() != "square"@.len());
    assert("tri"@[0] != "saw"@[0]);
    assert("tri"@.len() != "sawtooth"@.len());
    assert("triangle"@.len() != "sine"@.len());
    assert("triangle"@.len() != "square"@.len());
    assert("triangle"@.len() != "saw"@.len());
    assert("triangle"@[0] != "sawtooth"@[0]);
    assert("triangle"@.len() != "tri"@.len());
    assert("noise"@.len() != "sine"@.len());
    assert("noise"@.len() != "square"@.len());
    assert("noise"@.len() != "saw"@.len());
    assert("noise"@.len() != "sawtooth"@.len());
    assert("noise"@.len() != "tri"@.len());
    assert("noise"@.len() != "triangle"@.len());
}

/// The short field names: `w` wave, `f` freq, `g` gain, `a` attack, `s`
/// sustain, `d` decay, `du` duty, `l` lpf, `h` hpf; every other key is
/// spelled out already and stays as it is.
pub proof fn law_short_field_names(key: Seq<char>)
    ensures
        spec_full_key("w"@) == "wave"@,
        spec_full_key("f"@) == "freq"@,
        spec_full_key("g"@) == "gain"@,
        spec_full_key("a"@) == "attack"@,
        spec_full_key("s"@) == "sustain"@,
        spec_full_key("d"@) == "decay"@,
        spec_full_key("du"@) == "duty"@,
        spec_full_key("l"@) == "lpf"@,
        spec_full_key("h"@) == "hpf"@,
        !(key == "w"@ || key == "f"@ || key == "g"@ || key == "a"@ || key == "s"@ || key == "d"@ || key == "du"@ || key == "l"@ || key == "h"@) ==> spec_full_key(key) == key,
{
    reveal_strlit("w");
    reveal_strlit("f");
    reveal_strlit("g");
    reveal_strlit("a");
    reveal_strlit("s");
    reveal_strlit("d");
    reveal_strlit("du");
    reveal_strlit("l");
    reveal_strlit("h");
    assert("f"@[0] != "w"@[0]);
    assert("g"@[0] != "w"@[0]);
    assert("g"@[0] != "f"@[0]);
    assert("a"@[0] != "w"@[0]);
    assert("a"@[0] != "f"@[0]);
    assert("a"@[0] != "g"@[0]);
    assert("s"@[0] != "w"@[0]);
    assert("s"@[0] != "f"@[0]);
    assert("s"@[0] != "g"@[0]);
    assert("s"@[0] != "a"@[0]);
    assert("d"@[0] != "w"@[0]);
    assert("d"@[0] != "f"@[0]);
    assert("d"@[0] != "g"@[0]);
    assert("d"@[0] != "a"@[0]);
    assert("d"@[0] != "s"@[0]);
    assert("du"@.len() != "w"@.len());
    assert("du"@.len() != "f"@.len());
    assert("du"@.len() != "g"@.len());
    assert("du"@.len() != "a"@.len());
    assert("du"@.len() != "s"@.len());
    assert("du"@.len() != "d"@.len());
    assert("l"@[0] != "w"@[0]);
    assert("l"@[0] != "f"@[0]);
    assert("l"@[0] != "g"@[0]);
    assert("l"@[0] != "a"@[0]);
    assert("l"@[0] != "s"@[0]);
    assert("l"@[0] != "d"@[0]);
    assert("l"@.len() != "du"@.len());
    assert("h"@[0] != "w"@[0]);
    assert("h"@[0] != "f"@[0]);
    assert("h"@[0] != "g"@[0]);
    assert("h"@[0] != "a"@[0]);
    assert("h"@[0] != "s"@[0]);
    assert("h"@[0] != "d"@[0]);
    assert("h"@.len() != "du"@.len());
    assert("h"@[0] != "l"@[0]);
}

/// The numbers a voice (and a `d` or `def` line) takes: `freq`, `attack`,
/// `sustain`, `decay`, `punch`, `arp_delay`, `arp_mult`, `duty`, `phase`,
/// `min_freq`, `pitch_ramp`, `pitch_dramp`, `vibrato`, `vibrato_hz`,
/// `vibrato_delay`, `duty_ramp`, `lpf`, `lpf_ramp`, `resonance`, `hpf`,
/// `hpf_ramp`, `phaser`, `phaser_ramp` and `gain`, each any number; `wave`
/// takes a waveform name.
pub proof fn law_voice_number_fields(command: Seq<char>, value: Seq<char>)
    ensures
        template_field_check(command, ("freq"@, value)) is None <==> is_float_literal(value),
        template_field_check(command, ("attack"@, value)) is None <==> is_float_literal(value),
        template_field_check(command, ("sustain"@, value)) is None <==> is_float_literal(value),
        template_field_check(command, ("decay"@, value)) is None <==> is_float_literal(value),
        template_field_check(command, ("punch"@, value)) is None <==> is_float_literal(value),
        template_field_check(command, ("arp_delay"@, value)) is None <==> is_float_literal(value),
        template_field_check(command, ("arp_mult"@, value)) is None <==> is_float_literal(value),
        template_field_check(command, ("duty"@, value)) is None <==> is_float_literal(value),
        template_field_check(command, ("phase"@, value)) is None <==> is_float_literal(value),
        template_field_check(command, ("min_freq"@, value)) is None <==> is_float_literal(value),
        template_field_check(command, ("pitch_ramp"@, value)) is None <==> is_float_literal(value),
        template_field_check(command, ("pitch_dramp"@, value)) is None <==> is_float_literal(value),
        template_field_check(command, ("vibrato"@, value)) is None <==> is_float_literal(value),
        template_field_check(command, ("vibrato_hz"@, value)) is None <==> is_float_literal(value),
        template_field_check(command, ("vibrato_delay"@, value)) is None <==> is_float_literal(value),
        template_field_check(command, ("duty_ramp"@, value)) is None <==> is_float_literal(value),
        template_field_check(command, ("lpf"@, value)) is None <==> is_float_literal(value),
        template_field_check(command, ("lpf_ramp"@, value)) is None <==> is_float_literal(value),
        template_field_check(command, ("resonance"@, value)) is None <==> is_float_literal(value),
        template_field_check(command, ("hpf"@, value)) is None <==> is_float_literal(value),
        template_field_check(command, ("hpf_ramp"@, value)) is None <==> is_float_literal(value),
        template_field_check(command, ("phaser"@, value)) is None <==> is_float_literal(value),
        template_field_check(command, ("phaser_ramp"@, value)) is None <==> is_float_literal(value),
        template_field_check(command, ("gain"@, value)) is None <==> is_float_literal(value),
        template_field_check(command, ("wave"@, value)) is None <==> spec_waveform_named(value) is Some,
{
    reveal_strlit("wave");
    reveal_strlit("freq");
    reveal_strlit("attack");
    reveal_strlit("sustain");
    reveal_strlit("decay");
    reveal_strlit("punch");
    reveal_strlit("arp_delay");
    reveal_strlit("arp_mult");
    reveal_strlit("duty");
    reveal_strlit("phase");
    reveal_strlit("min_freq");
    reveal_strlit("pitch_ramp");
    reveal_strlit("pitch_dramp");
    reveal_strlit("vibrato");
    reveal_strlit("vibrato_hz");
    reveal_strlit("vibrato_delay");
    reveal_strlit("duty_ramp");
    reveal_strlit("lpf");
    reveal_strlit("lpf_ramp");
    reveal_strlit("resonance");
    reveal_strlit("hpf");
    reveal_strlit("hpf_ramp");
    reveal_strlit("phaser");
    reveal_strlit("phaser_ramp");
    reveal_strlit("gain");
    assert(voice_known_keys()[0] == "wave"@);
    assert(voice_known_keys()[1] == "freq"@);
    assert(voice_known_keys()[2] == "attack"@);
    assert(voice_known_keys()[3] == "sustain"@);
    assert(voice_known_keys()[4] == "decay"@);
    assert(voice_known_keys()[5] == "punch"@);
    assert(voice_known_keys()[6] == "arp_delay"@);
    assert(voice_known_keys()[7] == "arp_mult"@);
    assert(voice_known_keys()[8] == "duty"@);
    assert(voice_known_keys()[9] == "phase"@);
    assert(voice_known_keys()[10] == "min_freq"@);
    assert(voice_known_keys()[11] == "pitch_ramp"@);
    assert(voice_known_keys()[12] == "pitch_dramp"@);
    assert(voice_known_keys()[13] == "vibrato"@);
    assert(voice_known_keys()[14] == "vibrato_hz"@);
    assert(voice_known_keys()[15] == "vibrato_delay"@);
    assert(voice_known_keys()[16] == "duty_ramp"@);
    assert(voice_known_keys()[17] == "lpf"@);
    assert(voice_known_keys()[18] == "lpf_ramp"@);
    assert(voice_known_keys()[19] == "resonance"@);
    assert(voice_known_keys()[20] == "hpf"@);
    assert(voice_known_keys()[21] == "hpf_ramp"@);
    assert(voice_known_keys()[22] == "phaser"@);
    assert(voice_known_keys()[23] == "phaser_ramp"@);
    assert(voice_known_keys()[24] == "gain"@);
    assert("freq"@[0] != "wave"@[0]);
    assert("attack"@.len() != "wave"@.len());
    assert("sustain"@.len() != "wave"@.len());
    assert("decay"@.len() != "wave"@.len());
    assert("punch"@.len() != "wave"@.len());
    assert("arp_delay"@.len() != "wave"@.len());
    assert("arp_mult"@.len() != "wave"@.len());
    assert("duty"@[0] != "wave"@[0]);
    assert("phase"@.len() != "wave"@.len());
    assert("min_freq"@.len() != "wave"@.len());
    assert("pitch_ramp"@.len() != "wave"@.len());
    assert("pitch_dramp"@.len() != "wave"@.len());
    assert("vibrato"@.len() != "wave"@.len());
    assert("vibrato_hz"@.len() != "wave"@.len());
    assert("vibrato_delay"@.len() != "wave"@.len());
    assert("duty_ramp"@.len() != "wave"@.len());
    assert("lpf"@.len() != "wave"@.len());
    assert("lpf_ramp"@.len() != "wave"@.len());
    assert("resonance"@.len() != "wave"@.len());
    assert("hpf"@.len() != "wave"@.len());
    assert("hpf_ramp"@.len() != "wave"@.len());
    assert("phaser"@.len() != "wave"@.len());
    assert("phaser_ramp"@.len() != "wave"@.len());
    assert("gain"@[0] != "wave"@[0]);
}

/// The fields of an `sfxr` line: `preset`, `mutate_seed` and `mutate` pass
/// this rule (they are checked on their own), `wave` takes a waveform name,
/// and `base`, `limit`, `ramp`, `dramp`, `duty`, `duty_ramp`, `vib`,
/// `vib_speed`, `vib_delay`, `attack`, `sustain`, `decay`, `punch`,
/// `resonance`, `lpf`, `lpf_ramp`, `hpf`, `hpf_ramp`, `phaser`,
/// `phaser_ramp`, `repeat`, `arp` and `arp_mod` take any number.
pub proof fn law_sfxr_fields(value: Seq<char>)
    ensures
        sfxr_field_check(("base"@, value)) is None <==> is_float_literal(value),
        sfxr_field_check(("limit"@, value)) is None <==> is_float_literal(value),
        sfxr_field_check(("ramp"@, value)) is None <==> is_float_literal(value),
        sfxr_field_check(("dramp"@, value)) is None <==> is_float_literal(value),
        sfxr_field_check(("duty"@, value)) is None <==> is_float_literal(value),
        sfxr_field_check(("duty_ramp"@, value)) is None <==> is_float_literal(value),
        sfxr_field_check(("vib"@, value)) is None <==> is_float_literal(value),
        sfxr_field_check(("vib_speed"@, value)) is None <==> is_float_literal(value),
        sfxr_field_check(("vib_delay"@, value)) is None <==> is_float_literal(value),
        sfxr_field_check(("attack"@, value)) is None <==> is_float_literal(value),
        sfxr_field_check(("sustain"@, value)) is None <==> is_float_literal(value),
        sfxr_field_check(("decay"@, value)) is None <==> is_float_literal(value),
        sfxr_field_check(("punch"@, value)) is None <==> is_float_literal(value),
        sfxr_field_check(("resonance"@, value)) is None <==> is_float_literal(value),
        sfxr_field_check(("lpf"@, value)) is None <==> is_float_literal(value),
        sfxr_field_check(("lpf_ramp"@, value)) is None <==> is_float_literal(value),
        sfxr_field_check(("hpf"@, value)) is None <==> is_float_literal(value),
        sfxr_field_check(("hpf_ramp"@, value)) is None <==> is_float_literal(value),
        sfxr_field_check(("phaser"@, value)) is None <==> is_float_literal(value),
        sfxr_field_check(("phaser_ramp"@, value)) is None <==> is_float_literal(value),
        sfxr_field_check(("repeat"@, value)) is None <==> is_float_literal(value),
        sfxr_field_check(("arp"@, value)) is None <==> is_float_literal(value),
        sfxr_field_check(("arp_mod"@, value)) is None <==> is_float_literal(value),
        sfxr_field_check(("preset"@, value)) is None,
        sfxr_field_check(("mutate_seed"@, value)) is None,
        sfxr_field_check(("mutate"@, value)) is None,
{
    reveal_strlit("base");
    reveal_strlit("limit");
    reveal_strlit("ramp");
    reveal_strlit("dramp");
    reveal_strlit("duty");
    reveal_strlit("duty_ramp");
    reveal_strlit("vib");
    reveal_strlit("vib_speed");
    reveal_strlit("vib_delay");
    reveal_strlit("attack");
    reveal_strlit("sustain");
    reveal_strlit("decay");
    reveal_strlit("punch");
    reveal_strlit("resonance");
    reveal_strlit("lpf");
    reveal_strlit("lpf_ramp");
    reveal_strlit("hpf");
    reveal_strlit("hpf_ramp");
    reveal_strlit("phaser");
    reveal_strlit("phaser_ramp");
    reveal_strlit("repeat");
    reveal_strlit("arp");
    reveal_strlit("arp_mod");
    reveal_strlit("preset");
    reveal_strlit("mutate_seed");
    reveal_strlit("mutate");
    reveal_strlit("wave");
    assert(sfxr_number_keys()[0] == "base"@);
    assert(sfxr_number_keys()[1] == "limit"@);
    assert(sfxr_number_keys()[2] == "ramp"@);
    assert(sfxr_number_keys()[3] == "dramp"@);
    assert(sfxr_number_keys()[4] == "duty"@);
    assert(sfxr_number_keys()[5] == "duty_ramp"@);
    assert(sfxr_number_keys()[6] == "vib"@);
    assert(sfxr_number_keys()[7] == "vib_speed"@);
    assert(sfxr_number_keys()[8] == "vib_delay"@);
    assert(sfxr_number_keys()[9] == "attack"@);
    assert(sfxr_number_keys()[10] == "sustain"@);
    assert(sfxr_number_keys()[11] == "decay"@);
    assert(sfxr_number_keys()[12] == "punch"@);
    assert(sfxr_number_keys()[13] == "resonance"@);
    assert(sfxr_number_keys()[14] == "lpf"@);
    assert(sfxr_number_keys()[15] == "lpf_ramp"@);
    assert(sfxr_number_keys()[16] == "hpf"@);
    assert(sfxr_number_keys()[17] == "hpf_ramp"@);
    assert(sfxr_number_keys()[18] == "phaser"@);
    assert(sfxr_number_keys()[19] == "phaser_ramp"@);
    assert(sfxr_number_keys()[20] == "repeat"@);
    assert(sfxr_number_keys()[21] == "arp"@);
    assert(sfxr_number_keys()[22] == "arp_mod"@);
    assert("base"@.len() != "preset"@.len());
    assert("base"@.len() != "mutate_seed"@.len());
    assert("base"@.len() != "mutate"@.len());
    assert("base"@[0] != "wave"@[0]);
    assert("limit"@.len() != "preset"@.len());
    assert("limit"@.len() != "mutate_seed"@.len());
    assert("limit"@.len() != "mutate"@.len());
    assert("limit"@.len() != "wave"@.len());
    assert("ramp"@.len() != "preset"@.len());
    assert("ramp"@.len() != "mutate_seed"@.len());
    assert("ramp"@.len() != "mutate"@.len());
    assert("ramp"@[0] != "wave"@[0]);
    assert("dramp"@.len() != "preset"@.len());
    assert("dramp"@.len() != "mutate_seed"@.len());
    assert("dramp"@.len() != "mutate"@.len());
    assert("dramp"@.len() != "wave"@.len());
    assert("duty"@.len() != "preset"@.len());
    assert("duty"@.len() != "mutate_seed"@.len());
    assert("duty"@.len() != "mutate"@.len());
    assert("duty"@[0] != "wave"@[0]);
    assert("duty_ramp"@.len() != "preset"@.len());
    assert("duty_ramp"@.len() != "mutate_seed"@.len());
    assert("duty_ramp"@.len() != "mutate"@.len());
    assert("duty_ramp"@.len() != "wave"@.len());
    assert("vib"@.len() != "preset"@.len());
    assert("vib"@.len() != "mutate_seed"@.len());
    assert("vib"@.len() != "mutate"@.len());
    assert("vib"@.len() != "wave"@.len());
    assert("vib_speed"@.len() != "preset"@.len());
    assert("vib_speed"@.len() != "mutate_seed"@.len());
    assert("vib_speed"@.len() != "mutate"@.len());
    assert("vib_speed"@.len() != "wave"@.len());
    assert("vib_delay"@.len() != "preset"@.len());
    assert("vib_delay"@.len() != "mutate_seed"@.len());
    assert("vib_delay"@.len() != "mutate"@.len());
    assert("vib_delay"@.len() != "wave"@.len());
    assert("attack"@[0] != "preset"@[0]);
    assert("attack"@.len() != "mutate_seed"@.len());
    assert("attack"@[0] != "mutate"@[0]);
    assert("attack"@.len() != "wave"@.len());
    assert("sustain"@.len() != "preset"@.len());
    assert("sustain"@.len() != "mutate_seed"@.len());
    assert("sustain"@.len() != "mutate"@.len());
    assert("sustain"@.len() != "wave"@.len());
    assert("decay"@.len() != "preset"@.len());
    assert("decay"@.len() != "mutate_seed"@.len());
    assert("decay"@.len() != "mutate"@.len());
    assert("decay"@.len() != "wave"@.len());
    assert("punch"@.len() != "preset"@.len());
    assert("punch"@.len() != "mutate_seed"@.len());
    assert("punch"@.len() != "mutate"@.len());
    assert("punch"@.len() != "wave"@.len());
    assert("resonance"@.len() != "preset"@.len());
    assert("resonance"@.len() != "mutate_seed"@.len());
    assert("resonance"@.len() != "mutate"@.len());
    assert("resonance"@.len() != "wave"@.len());
    assert("lpf"@.len() != "preset"@.len());
    assert("lpf"@.len() != "mutate_seed"@.len());
    assert("lpf"@.len() != "mutate"@.len());
    assert("lpf"@.len() != "wave"@.len());
    assert("lpf_ramp"@.len() != "preset"@.len());
    assert("lpf_ramp"@.len() != "mutate_seed"@.len());
    assert("lpf_ramp"@.len() != "mutate"@.len());
    assert("lpf_ramp"@.len() != "wave"@.len());
    assert("hpf"@.len() != "preset"@.len());
    assert("hpf"@.len() != "mutate_seed"@.len());
    assert("hpf"@.len() != "mutate"@.len());
    assert("hpf"@.len() != "wave"@.len());
    assert("hpf_ramp"@.len() != "preset"@.len());
    assert("hpf_ramp"@.len() != "mutate_seed"@.len());
    assert("hpf_ramp"@.len() != "mutate"@.len());
    assert("hpf_ramp"@.len() != "wave"@.len());
    assert("phaser"@[1] != "preset"@[1]);
    assert("phaser"@.len() != "mutate_seed"@.len());
    assert("phaser"@[0] != "mutate"@[0]);
    assert("phaser"@.len() != "wave"@.len());
    assert("phaser_ramp"@.len() != "preset"@.len());
    assert("phaser_ramp"@[0] != "mutate_seed"@[0]);
    assert("phaser_ramp"@.len() != "mutate"@.len());
    assert("phaser_ramp"@.len() != "wave"@.len());
    assert("repeat"@[0] != "preset"@[0]);
    assert("repeat"@.len() != "mutate_seed"@.len());
    assert("repeat"@[0] != "mutate"@[0]);
    assert("repeat"@.len() != "wave"@.len());
    assert("arp"@.len() != "preset"@.len());
    assert("arp"@.len() != "mutate_seed"@.len());
    assert("arp"@.len() != "mutate"@.len());
    assert("arp"@.len() != "wave"@.len());
    assert("arp_mod"@.len() != "preset"@.len());
    assert("arp_mod"@.len() != "mutate_seed"@.len());
    assert("arp_mod"@.len() != "mutate"@.len());
    assert("arp_mod"@.len() != "wave"@.len());
}

/// The sfxr preset names: `blip`, `pickup` or `coin`, `laser` or `shoot`,
/// `explosion`, `powerup`, `hit` or `hurt`, and `jump`; no other name is a
/// preset.
pub proof fn law_preset_names(name: Seq<char>)
    ensures
        spec_preset_named("blip"@) == Some(SfxrPreset::Blip),
        spec_preset_named("pickup"@) == Some(SfxrPreset::Pickup),
        spec_preset_named("coin"@) == Some(SfxrPreset::Pickup),
        spec_preset_named("laser"@) == Some(SfxrPreset::Laser),
        spec_preset_named("shoot"@) == Some(SfxrPreset::Laser),
        spec_preset_named("explosion"@) == Some(SfxrPreset::Explosion),
        spec_preset_named("powerup"@) == Some(SfxrPreset::Powerup),
        spec_preset_named("hit"@) == Some(SfxrPreset::Hit),
        spec_preset_named("hurt"@) == Some(SfxrPreset::Hit),
        spec_preset_named("jump"@) == Some(SfxrPreset::Jump),
        spec_preset_named(name) is Some ==> (name == "blip"@ || name == "pickup"@ || name == "coin"@ || name == "laser"@ || name == "shoot"@ || name == "explosion"@ || name == "powerup"@ || name == "hit"@ || name == "hurt"@ || name == "jump"@),
{
    reveal_strlit("blip");
    reveal_strlit("pickup");
    reveal_strlit("coin");
    reveal_strlit("laser");
    reveal_strlit("shoot");
    reveal_strlit("explosion");
    reveal_strlit("powerup");
    reveal_strlit("hit");
    reveal_strlit("hurt");
    reveal_strlit("jump");
    assert("pickup"@.len() != "blip"@.len());
    assert("coin"@[0] != "blip"@[0]);
    assert("coin"@.len() != "pickup"@.len());
    assert("laser"@.len() != "blip"@.len());
    assert("laser"@.len() != "pickup"@.len());
    assert("laser"@.len() != "coin"@.len());
    assert("shoot"@.len() != "blip"@.len());
    assert("shoot"@.len() != "pickup"@.len());
    assert("shoot"@.len() != "coin"@.len());
    assert("shoot"@[0] != "laser"@[0]);
    assert("explosion"@.len() != "blip"@.len());
    assert("explosion"@.len() != "pickup"@.len());
    assert("explosion"@.len() != "coin"@.len());
    assert("explosion"@.len() != "laser"@.len());
    assert("explosion"@.len() != "shoot"@.len());
    assert("powerup"@.len() != "blip"@.len());
    assert("powerup"@.len() != "pickup"@.len());
    assert("powerup"@.len() != "coin"@.len());
    assert("powerup"@.len() != "laser"@.len());
    assert("powerup"@.len() != "shoot"@.len());
    assert("powerup"@.len() != "explosion"@.len());
    assert("hit"@.len() != "blip"@.len());
    assert("hit"@.len() != "pickup"@.len());
    assert("hit"@.len() != "coin"@.len());
    assert("hit"@.len() != "laser"@.len());
    assert("hit"@.len() != "shoot"@.len());
    assert("hit"@.len() != "explosion"@.len());
    assert("hit"@.len() != "powerup"@.len());
    assert("hurt"@[0] != "blip"@[0]);
    assert("hurt"@.len() != "pickup"@.len());
    assert("hurt"@[0] != "coin"@[0]);
    assert("hurt"@.len() != "laser"@.len());
    assert("hurt"@.len() != "shoot"@.len());
    assert("hurt"@.len() != "explosion"@.len());
    assert("hurt"@.len() != "powerup"@.len());
    assert("hurt"@.len() != "hit"@.len());
    assert("jump"@[0] != "blip"@[0]);
    assert("jump"@.len() != "pickup"@.len());
    assert("jump"@[0] != "coin"@[0]);
    assert("jump"@.len() != "laser"@.len());
    assert("jump"@.len() != "shoot"@.len());
    assert("jump"@.len() != "explosion"@.len());
    assert("jump"@.len() != "powerup"@.len());
    assert("jump"@.len() != "hit"@.len());
    assert("jump"@[0] != "hurt"@[0]);
}

/// The first field of a `patch` line, in order, that breaks its rule.
pub open spec fn first_patch_error(fields: Seq<(Seq<char>, Seq<char>)>) -> Option<Seq<char>>
    decreases fields.len(),
{
    if fields.len() == 0 {
        None
    } else {
        match first_patch_error(fields.drop_last()) {
            Some(m) => Some(m),
            None => patch_field_check(fields.last()),
        }
    }
}

/// The first field of an `sfxr` line, in order, that breaks its rule.
pub open spec fn first_sfxr_error(fields: Seq<(Seq<char>, Seq<char>)>) -> Option<Seq<char>>
    decreases fields.len(),
{
    if fields.len() == 0 {
        None
    } else {
        match first_sfxr_error(fields.drop_last()) {
            Some(m) => Some(m),
            None => sfxr_field_check(fields.last()),
        }
    }
}

/// The name of a voice's waveform: its first `wave` field, `sine` without one.
pub open spec fn voice_wave_name(fields: Seq<(Seq<char>, Seq<char>)>) -> Seq<char> {
    match spec_field_value(fields, "wave"@) {
        Some(v) => v,
        None => "sine"@,
    }
}

/// The rules of a `voice` line, checked in order: its waveform, its numbers
/// up to the arpeggio, the arpeggio pair, the other numbers, unknown keys.
pub open spec fn spec_voice_check(fields: Seq<(Seq<char>, Seq<char>)>) -> Result<Waveform, Seq<char>> {
    match spec_waveform_named(voice_wave_name(fields)) {
        None => Err(msg_unknown_waveform(voice_wave_name(fields))),
        Some(w) => match first_bad_number(fields, voice_keys_head()) {
            Some(m) => Err(m),
            None => if (spec_field_value(fields, "arp_delay"@) is Some) != (spec_field_value(
                fields,
                "arp_mult"@,
            ) is Some) {
                Err(msg_arpeggio_pair())
            } else {
                match first_bad_number(fields, voice_keys_tail()) {
                    Some(m) => Err(m),
                    None => match first_unknown_key(fields, voice_known_keys()) {
                        Some(k) => Err(msg_unknown_field("voice"@, k)),
                        None => Ok(w),
                    },
                }
            },
        },
    }
}

/// What an `sfxr` line starts from and how it is mutated: its preset, then
/// its `mutate_seed` (with `mutate`, when there is one, a number), then each
/// field's rule.
pub open spec fn spec_sfxr_check(fields: Seq<(Seq<char>, Seq<char>)>) -> Result<
    (Option<SfxrPreset>, Option<u64>),
    Seq<char>,
> {
    let preset: Result<Option<SfxrPreset>, Seq<char>> = match spec_field_value(fields, "preset"@) {
        None => Ok(None),
        Some(name) => match spec_preset_named(name) {
            None => Err(msg_unknown_preset(name)),
            Some(p) => Ok(Some(p)),
        },
    };
    match preset {
        Err(m) => Err(m),
        Ok(p) => {
            let seed: Result<Option<u64>, Seq<char>> = match spec_field_value(
                fields,
                "mutate_seed"@,
            ) {
                None => Ok(None),
                Some(v) => if !crate::text::is_u64_literal(v) {
                    Err(msg_bad_seed())
                } else {
                    match number_check(fields, "mutate"@) {
                        Some(m) => Err(m),
                        None => Ok(Some(crate::text::u64_literal_value(v) as u64)),
                    }
                },
            };
            match seed {
                Err(m) => Err(m),
                Ok(sd) => match first_sfxr_error(fields) {
                    Some(m) => Err(m),
                    None => Ok((p, sd)),
                },
            }
        },
    }
}

fn check_number(fields: &Vec<ScriptField>, key: &str) -> (r: Option<String>)
    ensures
        opt_view(r) == number_check(fields_view(fields@), key@),
{
    match field_value(fields, key) {
        Some(v) => if is_number(v) {
            None
        } else {
            Some(framed("`", key, "` must be a number"))
        },
        None => None,
    }
}

fn first_bad_number_exec(fields: &Vec<ScriptField>, keys: &Vec<&str>) -> (r: Option<String>)
    ensures
        opt_view(r) == first_bad_number(fields_view(fields@), strs_view(keys@)),
{
    let mut i: usize = 0;
    let mut found: Option<String> = None;
    while i < keys.len()
        invariant
            i <= keys@.len(),
            opt_view(found) == first_bad_number(fields_view(fields@), strs_view(keys@).take(i as int)),
        decreases keys@.len() - i,
    {
        proof {
            let ks = strs_view(keys@);
            assert(ks.take(i + 1).drop_last() =~= ks.take(i as int));
            assert(ks.take(i + 1).last() == keys@[i as int]@);
        }
        if found.is_none() {
            found = check_number(fields, keys[i]);
        }
        i = i + 1;
    }
    proof {
        assert(strs_view(keys@).take(keys@.len() as int) =~= strs_view(keys@));
    }
    found
}

fn first_unknown_key_exec<'a>(fields: &'a Vec<ScriptField>, known: &Vec<&str>) -> (r: Option<&'a str>)
    ensures
        match r {
            Some(k) => first_unknown_key(fields_view(fields@), strs_view(known@)) == Some(k@),
            None => first_unknown_key(fields_view(fields@), strs_view(known@)) is None,
        },
{
    let mut i: usize = 0;
    while i < fields.len()
        invariant
            i <= fields@.len(),
            first_unknown_key(fields_view(fields@).take(i as int), strs_view(known@)) is None,
        decreases fields@.len() - i,
    {
        proof {
            let fv = fields_view(fields@);
            assert(fv.take(i + 1).drop_last() =~= fv.take(i as int));
            assert(fv.take(i + 1).last() == fields@[i as int]@);
        }
        if !contains_str(known, fields[i].key.as_str()) {
            proof {
                lemma_first_unknown_key_persists(fields_view(fields@), strs_view(known@), i + 1);
            }
            return Some(fields[i].key.as_str());
        }
        i = i + 1;
    }
    proof {
        assert(fields_view(fields@).take(fields@.len() as int) =~= fields_view(fields@));
    }
    None
}

pub proof fn lemma_first_unknown_key_persists(
    fields: Seq<(Seq<char>, Seq<char>)>,
    known: Seq<Seq<char>>,
    k: int,
)
    requires
        0 <= k <= fields.len(),
        first_unknown_key(fields.take(k), known) is Some,
    ensures
        first_unknown_key(fields, known) == first_unknown_key(fields.take(k), known),
    decreases fields.len() - k,
{
    if k < fields.len() {
        assert(fields.take(k + 1).drop_last() =~= fields.take(k));
        lemma_first_unknown_key_persists(fields, known, k + 1);
    } else {
        assert(fields.take(k) =~= fields);
    }
}

fn patch_field_check_exec(f: &ScriptField) -> (r: Option<String>)
    ensures
        opt_view(r) == patch_field_check(f@),
{
    let key = f.key.as_str();
    let value = f.value.as_str();
    if str_eq(key, "gain") || str_eq(key, "repeat") {
        if is_number(value) {
            None
        } else {
            Some(framed("`", key, "` must be a number"))
        }
    } else if str_eq(key, "soft_clip") {
        match parse_bool(value, 0, key) {
            Ok(_) => None,
            Err(e) => Some(e.message),
        }
    } else {
        Some(unknown_field(0, "patch", key).message)
    }
}

fn sfxr_field_check_exec(f: &ScriptField, numbers: &Vec<&str>) -> (r: Option<String>)
    requires
        strs_view(numbers@) == sfxr_number_keys(),
    ensures
        opt_view(r) == sfxr_field_check(f@),
{
    let key = f.key.as_str();
    let value = f.value.as_str();
    if str_eq(key, "preset") || str_eq(key, "mutate_seed") || str_eq(key, "mutate") {
        None
    } else if str_eq(key, "wave") {
        if waveform_named(value).is_some() {
            None
        } else {
            Some(framed("unknown waveform `", value, "`"))
        }
    } else if contains_str(numbers, key) {
        if is_number(value) {
            None
        } else {
            Some(framed("`", key, "` must be a number"))
        }
    } else {
        Some(unknown_field(0, "sfxr", key).message)
    }
}

fn first_patch_error_exec(fields: &Vec<ScriptField>) -> (r: Option<String>)
    ensures
        opt_view(r) == first_patch_error(fields_view(fields@)),
{
    let mut i: usize = 0;
    let mut found: Option<String> = None;
    while i < fields.len()
        invariant
            i <= fields@.len(),
            opt_view(found) == first_patch_error(fields_view(fields@).take(i as int)),
        decreases fields@.len() - i,
    {
        proof {
            let fv = fields_view(fields@);
            assert(fv.take(i + 1).drop_last() =~= fv.take(i as int));
            assert(fv.take(i + 1).last() == fields@[i as int]@);
        }
        if found.is_none() {
            found = patch_field_check_exec(&fields[i]);
        }
        i = i + 1;
    }
    proof {
        assert(fields_view(fields@).take(fields@.len() as int) =~= fields_view(fields@));
    }
    found
}

fn first_sfxr_error_exec(fields: &Vec<ScriptField>) -> (r: Option<String>)
    ensures
        opt_view(r) == first_sfxr_error(fields_view(fields@)),
{
    let numbers = sfxr_number_keys_exec();
    let mut i: usize = 0;
    let mut found: Option<String> = None;
    while i < fields.len()
        invariant
            i <= fields@.len(),
            strs_view(numbers@) == sfxr_number_keys(),
            opt_view(found) == first_sfxr_error(fields_view(fields@).take(i as int)),
        decreases fields@.len() - i,
    {
        proof {
            let fv = fields_view(fields@);
            assert(fv.take(i + 1).drop_last() =~= fv.take(i as int));
            assert(fv.take(i + 1).last() == fields@[i as int]@);
        }
        if found.is_none() {
            found = sfxr_field_check_exec(&fields[i], &numbers);
        }
        i = i + 1;
    }
    proof {
        assert(fields_view(fields@).take(fields@.len() as int) =~= fields_view(fields@));
    }
    found
}

fn voice_check_exec(fields: &Vec<ScriptField>) -> (r: Result<Waveform, String>)
    ensures
        match r {
            Ok(w) => spec_voice_check(fields_view(fields@)) == Ok::<Waveform, Seq<char>>(w),
            Err(m) => spec_voice_check(fields_view(fields@)) == Err::<Waveform, Seq<char>>(m@),
        },
{
    let name = match field_value(fields, "wave") {
        Some(v) => v,
        None => "sine",
    };
    let waveform = match waveform_named(name) {
        Some(w) => w,
        None => {
            return Err(framed("unknown waveform `", name, "`"));
        },
    };
    let head = voice_keys_head_exec();
    match first_bad_number_exec(fields, &head) {
        Some(m) => {
            return Err(m);
        },
        None => {},
    }
    let has_delay = field_value(fields, "arp_delay").is_some();
    let has_mult = field_value(fields, "arp_mult").is_some();
    if has_delay != has_mult {
        return Err(String::from_str("arpeggio needs both arp_delay and arp_mult"));
    }
    let tail = voice_keys_tail_exec();
    match first_bad_number_exec(fields, &tail) {
        Some(m) => {
            return Err(m);
        },
        None => {},
    }
    let known = voice_known_keys_exec();
    match first_unknown_key_exec(fields, &known) {
        Some(k) => Err(unknown_field(0, "voice", k).message),
        None => Ok(waveform),
    }
}

fn sfxr_check_exec(fields: &Vec<ScriptField>) -> (r: Result<(Option<SfxrPreset>, Option<u64>), String>)
    ensures
        match r {
            Ok(x) => spec_sfxr_check(fields_view(fields@)) == Ok::<
                (Option<SfxrPreset>, Option<u64>),
                Seq<char>,
            >(x),
            Err(m) => spec_sfxr_check(fields_view(fields@)) == Err::<
                (Option<SfxrPreset>, Option<u64>),
                Seq<char>,
            >(m@),
        },
{
    let preset = match field_value(fields, "preset") {
        None => None,
        Some(name) => match SfxrPreset::named(name) {
            None => {
                return Err(framed("unknown sfxr preset `", name, "`"));
            },
            Some(p) => Some(p),
        },
    };
    let seed = match field_value(fields, "mutate_seed") {
        None => None,
        Some(v) => {
            let chars = chars_of(v);
            proof {
                assert(chars@.subrange(0, chars@.len() as int) =~= chars@);
            }
            match crate::text::parse_u64_range(&chars, 0, chars.len()) {
                None => {
                    return Err(String::from_str("mutate_seed must be an integer"));
                },
                Some(x) => {
                    match check_number(fields, "mutate") {
                        Some(m) => {
                            return Err(m);
                        },
                        None => {},
                    }
                    Some(x)
                },
            }
        },
    };
    match first_sfxr_error_exec(fields) {
        Some(m) => Err(m),
        None => Ok((preset, seed)),
    }
}


// ---------------------------------------------------------------------------
// Short names, defaults and templates
// ---------------------------------------------------------------------------

/// A line's fields, as key and value.
pub type SpecFields = Seq<(Seq<char>, Seq<char>)>;

/// The full name of a voice field that is written short: `w` wave, `f`
/// freq, `g` gain, `a` attack, `s` sustain, `d` decay, `du` duty, `l` lpf,
/// `h` hpf. Every other key stands for itself.
pub open spec fn spec_full_key(k: Seq<char>) -> Seq<char> {
    if k == "w"@ {
        "wave"@
    } else if k == "f"@ {
        "freq"@
    } else if k == "g"@ {
        "gain"@
    } else if k == "a"@ {
        "attack"@
    } else if k == "s"@ {
        "sustain"@
    } else if k == "d"@ {
        "decay"@
    } else if k == "du"@ {
        "duty"@
    } else if k == "l"@ {
        "lpf"@
    } else if k == "h"@ {
        "hpf"@
    } else {
        k
    }
}

/// `fields` with their keys spelled out.
pub open spec fn full_fields(fields: SpecFields) -> SpecFields {
    fields.map_values(|f: (Seq<char>, Seq<char>)| (spec_full_key(f.0), f.1))
}

/// `fields` without those whose key is `key`, in order.
pub open spec fn without_key(fields: SpecFields, key: Seq<char>) -> SpecFields
    decreases fields.len(),
{
    if fields.len() == 0 {
        seq![]
    } else {
        let rest = without_key(fields.drop_last(), key);
        if fields.last().0 == key {
            rest
        } else {
            rest.push(fields.last())
        }
    }
}

/// What earlier lines set for later voices: the default fields (the newest
/// first) and the named templates (in the order they were defined).
pub struct SpecScope {
    pub defaults: SpecFields,
    pub templates: Seq<(Seq<char>, SpecFields)>,
}

/// Before the first line: no defaults, no templates.
pub open spec fn empty_scope() -> SpecScope {
    SpecScope { defaults: seq![], templates: seq![] }
}

/// The fields of the template named `name` that was defined last.
pub open spec fn find_template(templates: Seq<(Seq<char>, SpecFields)>, name: Seq<char>) -> Option<
    SpecFields,
>
    decreases templates.len(),
{
    if templates.len() == 0 {
        None
    } else if templates.last().0 == name {
        Some(templates.last().1)
    } else {
        find_template(templates.drop_last(), name)
    }
}

pub open spec fn msg_unknown_template(name: Seq<char>) -> Seq<char> {
    "unknown template `"@ + name + "`"@
}

pub open spec fn msg_def_name() -> Seq<char> {
    "def needs a name (n=...)"@
}

/// The rule for one field of a `d` or `def` line, its key spelled out: it
/// must be a voice field, its waveform known and its number a number.
pub open spec fn template_field_check(command: Seq<char>, f: (Seq<char>, Seq<char>)) -> Option<
    Seq<char>,
> {
    if !voice_known_keys().contains(f.0) {
        Some(msg_unknown_field(command, f.0))
    } else if f.0 == "wave"@ {
        if spec_waveform_named(f.1) is Some {
            None
        } else {
            Some(msg_unknown_waveform(f.1))
        }
    } else if is_float_literal(f.1) {
        None
    } else {
        Some(msg_not_number(f.0))
    }
}

/// The first field of a `d` or `def` line, in order, that breaks its rule.
pub open spec fn first_template_error(command: Seq<char>, fields: SpecFields) -> Option<Seq<char>>
    decreases fields.len(),
{
    if fields.len() == 0 {
        None
    } else {
        match first_template_error(command, fields.drop_last()) {
            Some(m) => Some(m),
            None => template_field_check(command, fields.last()),
        }
    }
}

/// `v` is the same command as `voice`, for any fields and scope; and the
/// only commands are `patch`, `voice`, `v`, `sfxr`, `d` and `def`: any other
/// word is refused.
pub proof fn law_command_words(n: nat, command: Seq<char>, fields: SpecFields, scope: SpecScope)
    ensures
        spec_command(n, "v"@, fields, scope) == spec_command(n, "voice"@, fields, scope),
        spec_command(n, command, fields, scope) is Ok ==> (command == "patch"@ || command
            == "voice"@ || command == "v"@ || command == "sfxr"@ || command == "d"@ || command
            == "def"@),
{
    reveal_strlit("patch");
    reveal_strlit("voice");
    reveal_strlit("v");
    reveal_strlit("sfxr");
    reveal_strlit("d");
    reveal_strlit("def");
    assert("voice"@[0] != "patch"@[0]);
    assert("v"@.len() != "patch"@.len());
    assert("v"@.len() != "voice"@.len());
    assert("sfxr"@.len() != "patch"@.len());
    assert("sfxr"@.len() != "voice"@.len());
    assert("sfxr"@.len() != "v"@.len());
    assert("d"@.len() != "patch"@.len());
    assert("d"@.len() != "voice"@.len());
    assert("d"@[0] != "v"@[0]);
    assert("d"@.len() != "sfxr"@.len());
    assert("def"@.len() != "patch"@.len());
    assert("def"@.len() != "voice"@.len());
    assert("def"@.len() != "v"@.len());
    assert("def"@.len() != "sfxr"@.len());
    assert("def"@.len() != "d"@.len());
}

/// The template fields a voice borrows with `u=`: none without `u`, the
/// named template's, or an error for a name no template has.
pub open spec fn borrowed_fields(fields: SpecFields, scope: SpecScope) -> Result<
    SpecFields,
    Seq<char>,
> {
    match spec_field_value(fields, "u"@) {
        None => Ok(seq![]),
        Some(name) => match find_template(scope.templates, name) {
            None => Err(msg_unknown_template(name)),
            Some(t) => Ok(t),
        },
    }
}

fn copy_field(f: &ScriptField) -> (r: ScriptField)
    ensures
        r@ == f@,
{
    ScriptField { key: String::from_str(f.key.as_str()), value: String::from_str(f.value.as_str()) }
}

fn full_key<'a>(k: &'a str) -> (r: &'a str)
    ensures
        r@ == spec_full_key(k@),
{
    if str_eq(k, "w") {
        "wave"
    } else if str_eq(k, "f") {
        "freq"
    } else if str_eq(k, "g") {
        "gain"
    } else if str_eq(k, "a") {
        "attack"
    } else if str_eq(k, "s") {
        "sustain"
    } else if str_eq(k, "d") {
        "decay"
    } else if str_eq(k, "du") {
        "duty"
    } else if str_eq(k, "l") {
        "lpf"
    } else if str_eq(k, "h") {
        "hpf"
    } else {
        k
    }
}

/// `fields` without those keyed `skip`, their keys spelled out.
fn spelled_out(fields: &Vec<ScriptField>, skip: &str) -> (r: Vec<ScriptField>)
    ensures
        fields_view(r@) == full_fields(without_key(fields_view(fields@), skip@)),
{
    let ghost fv = fields_view(fields@);
    let mut r: Vec<ScriptField> = Vec::new();
    let mut i: usize = 0;
    proof {
        assert(fv.take(0) =~= seq![]);
        assert(fields_view(r@) =~= full_fields(without_key(fv.take(0), skip@)));
    }
    while i < fields.len()
        invariant
            i <= fields@.len(),
            fv == fields_view(fields@),
            fields_view(r@) == full_fields(without_key(fv.take(i as int), skip@)),
        decreases fields@.len() - i,
    {
        proof {
            assert(fv.take(i + 1).drop_last() =~= fv.take(i as int));
            assert(fv.take(i + 1).last() == fields@[i as int]@);
        }
        if !str_eq(fields[i].key.as_str(), skip) {
            let f = ScriptField {
                key: String::from_str(full_key(fields[i].key.as_str())),
                value: String::from_str(fields[i].value.as_str()),
            };
            let ghost before = r@;
            r.push(f);
            proof {
                assert(fields_view(r@) =~= fields_view(before).push(f@));
                assert(full_fields(without_key(fv.take(i as int), skip@).push(fields@[i as int]@))
                    =~= full_fields(without_key(fv.take(i as int), skip@)).push(f@));
            }
        }
        i = i + 1;
    }
    proof {
        assert(fv.take(fields@.len() as int) =~= fv);
    }
    r
}

/// `fields` with their keys spelled out.
fn spelled_all(fields: &Vec<ScriptField>) -> (r: Vec<ScriptField>)
    ensures
        fields_view(r@) == full_fields(fields_view(fields@)),
{
    let ghost fv = fields_view(fields@);
    let mut r: Vec<ScriptField> = Vec::new();
    let mut i: usize = 0;
    while i < fields.len()
        invariant
            i <= fields@.len(),
            fv == fields_view(fields@),
            fields_view(r@) == full_fields(fv.take(i as int)),
        decreases fields@.len() - i,
    {
        let f = ScriptField {
            key: String::from_str(full_key(fields[i].key.as_str())),
            value: String::from_str(fields[i].value.as_str()),
        };
        let ghost before = r@;
        r.push(f);
        proof {
            assert(fields_view(r@) =~= fields_view(before).push(f@));
            assert(full_fields(fv.take(i + 1)) =~= full_fields(fv.take(i as int)).push(f@));
        }
        i = i + 1;
    }
    proof {
        assert(fv.take(fields@.len() as int) =~= fv);
    }
    r
}

/// Copies `src` onto the end of `dst`.
fn append_fields(dst: &mut Vec<ScriptField>, src: &Vec<ScriptField>)
    ensures
        fields_view(final(dst)@) == fields_view(old(dst)@) + fields_view(src@),
{
    let ghost start = fields_view(dst@);
    let mut i: usize = 0;
    while i < src.len()
        invariant
            i <= src@.len(),
            fields_view(dst@) == start + fields_view(src@).take(i as int),
        decreases src@.len() - i,
    {
        let f = copy_field(&src[i]);
        let ghost before = dst@;
        dst.push(f);
        proof {
            assert(fields_view(dst@) =~= fields_view(before).push(f@));
            assert(fields_view(src@).take(i + 1) =~= fields_view(src@).take(i as int).push(
                src@[i as int]@,
            ));
        }
        i = i + 1;
    }
    proof {
        assert(fields_view(src@).take(src@.len() as int) =~= fields_view(src@));
    }
}

/// A named template of voice fields.
struct Template {
    name: String,
    fields: Vec<ScriptField>,
}

/// What earlier lines set for later voices.
struct Scope {
    defaults: Vec<ScriptField>,
    templates: Vec<Template>,
}

spec fn templates_view(ts: Seq<Template>) -> Seq<(Seq<char>, SpecFields)> {
    ts.map_values(|t: Template| (t.name@, fields_view(t.fields@)))
}

spec fn scope_view(s: Scope) -> SpecScope {
    SpecScope { defaults: fields_view(s.defaults@), templates: templates_view(s.templates@) }
}

/// The index of the template named `name` that was defined last.
fn find_template_exec(templates: &Vec<Template>, name: &str) -> (r: Option<usize>)
    ensures
        match r {
            Some(i) => i < templates@.len() && find_template(templates_view(templates@), name@)
                == Some(fields_view(templates@[i as int].fields@)),
            None => find_template(templates_view(templates@), name@) is None,
        },
{
    let ghost tv = templates_view(templates@);
    let mut i: usize = templates.len();
    proof {
        assert(tv.take(i as int) =~= tv);
    }
    while i > 0
        invariant
            i <= templates@.len(),
            tv == templates_view(templates@),
            find_template(tv, name@) == find_template(tv.take(i as int), name@),
        decreases i,
    {
        proof {
            assert(tv.take(i as int).drop_last() =~= tv.take(i - 1));
            assert(tv.take(i as int).last() == tv[i - 1]);
        }
        if str_eq(templates[i - 1].name.as_str(), name) {
            return Some(i - 1);
        }
        i = i - 1;
    }
    None
}

fn template_field_check_exec(command: &str, f: &ScriptField, known: &Vec<&str>) -> (r: Option<
    String,
>)
    requires
        strs_view(known@) == voice_known_keys(),
    ensures
        opt_view(r) == template_field_check(command@, f@),
{
    let key = f.key.as_str();
    let value = f.value.as_str();
    if !contains_str(known, key) {
        Some(unknown_field(0, command, key).message)
    } else if str_eq(key, "wave") {
        if waveform_named(value).is_some() {
            None
        } else {
            Some(framed("unknown waveform `", value, "`"))
        }
    } else if is_number(value) {
        None
    } else {
        Some(framed("`", key, "` must be a number"))
    }
}

fn first_template_error_exec(command: &str, fields: &Vec<ScriptField>) -> (r: Option<String>)
    ensures
        opt_view(r) == first_template_error(command@, fields_view(fields@)),
{
    let known = voice_known_keys_exec();
    let mut i: usize = 0;
    let mut found: Option<String> = None;
    while i < fields.len()
        invariant
            i <= fields@.len(),
            strs_view(known@) == voice_known_keys(),
            opt_view(found) == first_template_error(command@, fields_view(fields@).take(i as int)),
        decreases fields@.len() - i,
    {
        proof {
            let fv = fields_view(fields@);
            assert(fv.take(i + 1).drop_last() =~= fv.take(i as int));
            assert(fv.take(i + 1).last() == fields@[i as int]@);
        }
        if found.is_none() {
            found = template_field_check_exec(command, &fields[i], &known);
        }
        i = i + 1;
    }
    proof {
        assert(fields_view(fields@).take(fields@.len() as int) =~= fields_view(fields@));
    }
    found
}

// ---------------------------------------------------------------------------
// Commands and scripts
// ---------------------------------------------------------------------------

/// One command of a script, with the line it is on and its fields in the
/// order they were written; numbers are left as their text.
#[derive(Clone, Debug)]
pub enum PatchCommand {
    /// `patch`: master gain, soft clipping and repeat interval.
    Patch { line: usize, fields: Vec<ScriptField> },
    /// `voice` or `v`: one oscillator voice of the given waveform. Its
    /// fields are its own (short names spelled out), then those of the
    /// template it borrows, then the defaults, newest first; the first field
    /// with a key is the one that counts.
    Voice { line: usize, fields: Vec<ScriptField>, waveform: Waveform },
    /// `sfxr`: one voice mapped from sfxr parameters, starting from `preset`
    /// (or the defaults) and mutated with `mutate_seed` when there is one.
    Sfxr {
        line: usize,
        fields: Vec<ScriptField>,
        preset: Option<SfxrPreset>,
        mutate_seed: Option<u64>,
    },
}

pub enum SpecCommand {
    Patch { line: nat, fields: Seq<(Seq<char>, Seq<char>)> },
    Voice { line: nat, fields: Seq<(Seq<char>, Seq<char>)>, waveform: Waveform },
    Sfxr {
        line: nat,
        fields: Seq<(Seq<char>, Seq<char>)>,
        preset: Option<SfxrPreset>,
        mutate_seed: Option<u64>,
    },
}

impl View for PatchCommand {
    type V = SpecCommand;

    open spec fn view(&self) -> SpecCommand {
        match self {
            PatchCommand::Patch { line, fields } => SpecCommand::Patch {
                line: *line as nat,
                fields: fields_view(fields@),
            },
            PatchCommand::Voice { line, fields, waveform } => SpecCommand::Voice {
                line: *line as nat,
                fields: fields_view(fields@),
                waveform: *waveform,
            },
            PatchCommand::Sfxr { line, fields, preset, mutate_seed } => SpecCommand::Sfxr {
                line: *line as nat,
                fields: fields_view(fields@),
                preset: *preset,
                mutate_seed: *mutate_seed,
            },
        }
    }
}

pub open spec fn commands_view(v: Seq<PatchCommand>) -> Seq<SpecCommand> {
    v.map_values(|c: PatchCommand| c@)
}

/// A script's commands that make or shape sound, in the order written.
#[derive(Clone, Debug)]
pub struct PatchScript {
    pub commands: Vec<PatchCommand>,
}

/// A line's number and message.
pub type SpecError = (nat, Seq<char>);

/// The command named `command`, with its fields, on line `n`, after the
/// lines before it left `scope`: the command it makes, if any, and the scope
/// it leaves. `v` is short for `voice`; a voice's own fields (short names
/// spelled out) come before those of the template it names with `u=`, and
/// those before the defaults. `d` adds default fields, `def n=<name>`
/// defines a template.
pub open spec fn spec_command(n: nat, command: Seq<char>, fields: SpecFields, scope: SpecScope) -> Result<
    (Option<SpecCommand>, SpecScope),
    SpecError,
> {
    if command == "patch"@ {
        match first_patch_error(fields) {
            Some(m) => Err((n, m)),
            None => Ok((Some(SpecCommand::Patch { line: n, fields }), scope)),
        }
    } else if command == "voice"@ || command == "v"@ {
        match borrowed_fields(fields, scope) {
            Err(m) => Err((n, m)),
            Ok(t) => {
                let all = full_fields(without_key(fields, "u"@)) + t + scope.defaults;
                match spec_voice_check(all) {
                    Err(m) => Err((n, m)),
                    Ok(w) => Ok((Some(SpecCommand::Voice { line: n, fields: all, waveform: w }), scope)),
                }
            },
        }
    } else if command == "sfxr"@ {
        match spec_sfxr_check(fields) {
            Err(m) => Err((n, m)),
            Ok((p, sd)) => Ok(
                (Some(SpecCommand::Sfxr { line: n, fields, preset: p, mutate_seed: sd }), scope),
            ),
        }
    } else if command == "d"@ {
        let body = full_fields(fields);
        match first_template_error("d"@, body) {
            Some(m) => Err((n, m)),
            None => Ok(
                (None, SpecScope { defaults: body + scope.defaults, templates: scope.templates }),
            ),
        }
    } else if command == "def"@ {
        match spec_field_value(fields, "n"@) {
            None => Err((n, msg_def_name())),
            Some(name) => {
                let body = full_fields(without_key(fields, "n"@));
                match first_template_error("def"@, body) {
                    Some(m) => Err((n, m)),
                    None => Ok(
                        (
                            None,
                            SpecScope {
                                defaults: scope.defaults,
                                templates: scope.templates.push((name, body)),
                            },
                        ),
                    ),
                }
            },
        }
    } else {
        Err((n, msg_unknown_command(command)))
    }
}

/// One `;`-separated piece of line `n`: its words are a command and its
/// fields, or nothing.
pub open spec fn spec_parse_piece(n: nat, piece: Seq<char>, scope: SpecScope) -> Result<
    (Option<SpecCommand>, SpecScope),
    SpecError,
> {
    let ws = crate::text::words(piece);
    if ws.len() == 0 {
        Ok((None, scope))
    } else {
        match spec_parse_fields(ws.drop_first()) {
            Err(part) => Err((n, msg_expected_field(part))),
            Ok(fields) => spec_command(n, ws[0], fields, scope),
        }
    }
}

/// The pieces of line `n`, in order.
pub open spec fn spec_parse_pieces(n: nat, pieces: Seq<Seq<char>>, scope: SpecScope) -> Result<
    (Seq<SpecCommand>, SpecScope),
    SpecError,
>
    decreases pieces.len(),
{
    if pieces.len() == 0 {
        Ok((seq![], scope))
    } else {
        match spec_parse_pieces(n, pieces.drop_last(), scope) {
            Err(e) => Err(e),
            Ok((cmds, sc)) => match spec_parse_piece(n, pieces.last(), sc) {
                Err(e) => Err(e),
                Ok((None, sc2)) => Ok((cmds, sc2)),
                Ok((Some(c), sc2)) => Ok((cmds.push(c), sc2)),
            },
        }
    }
}

/// Line `n` of a script, `raw` without its line ending: what precedes any
/// `#`, split at `;` into commands.
pub open spec fn spec_parse_line(n: nat, raw: Seq<char>, scope: SpecScope) -> Result<
    (Seq<SpecCommand>, SpecScope),
    SpecError,
> {
    spec_parse_pieces(n, crate::text::split_at_semis(crate::text::before_hash(raw)), scope)
}

/// The commands of `lines`, numbered from 1, and the scope they leave; the
/// first line that breaks a rule is the error.
pub open spec fn spec_parse_lines(lines: Seq<Seq<char>>) -> Result<(Seq<SpecCommand>, SpecScope), SpecError>
    decreases lines.len(),
{
    if lines.len() == 0 {
        Ok((seq![], empty_scope()))
    } else {
        match spec_parse_lines(lines.drop_last()) {
            Err(e) => Err(e),
            Ok((cmds, sc)) => match spec_parse_line(lines.len(), lines.last(), sc) {
                Err(e) => Err(e),
                Ok((more, sc2)) => Ok((cmds + more, sc2)),
            },
        }
    }
}

/// Whether a command contributes a voice (`voice` and `sfxr` do).
pub open spec fn makes_voice(c: SpecCommand) -> bool {
    !(c is Patch)
}

/// Whether some command makes a voice.
pub open spec fn has_voice(cmds: Seq<SpecCommand>) -> bool {
    exists|i: int| 0 <= i < cmds.len() && makes_voice(#[trigger] cmds[i])
}

/// The script `s`: its lines' commands, of which at least one must make a
/// voice; a script without one is an error on line 0.
pub open spec fn spec_parse_script(s: Seq<char>) -> Result<Seq<SpecCommand>, SpecError> {
    match spec_parse_lines(crate::text::spec_lines(s)) {
        Err(e) => Err(e),
        Ok((cmds, _)) => if has_voice(cmds) {
            Ok(cmds)
        } else {
            Err((0, msg_no_voices()))
        },
    }
}

pub proof fn lemma_parse_lines_error_persists(lines: Seq<Seq<char>>, k: int)
    requires
        0 <= k <= lines.len(),
        spec_parse_lines(lines.take(k)) is Err,
    ensures
        spec_parse_lines(lines) == spec_parse_lines(lines.take(k)),
    decreases lines.len() - k,
{
    if k < lines.len() {
        assert(lines.take(k + 1).drop_last() =~= lines.take(k));
        lemma_parse_lines_error_persists(lines, k + 1);
    } else {
        assert(lines.take(k) =~= lines);
    }
}

pub proof fn lemma_parse_pieces_error_persists(
    n: nat,
    pieces: Seq<Seq<char>>,
    scope: SpecScope,
    k: int,
)
    requires
        0 <= k <= pieces.len(),
        spec_parse_pieces(n, pieces.take(k), scope) is Err,
    ensures
        spec_parse_pieces(n, pieces, scope) == spec_parse_pieces(n, pieces.take(k), scope),
    decreases pieces.len() - k,
{
    if k < pieces.len() {
        assert(pieces.take(k + 1).drop_last() =~= pieces.take(k));
        lemma_parse_pieces_error_persists(n, pieces, scope, k + 1);
    } else {
        assert(pieces.take(k) =~= pieces);
    }
}

pub open spec fn opt_command_view(c: Option<PatchCommand>) -> Option<SpecCommand> {
    match c {
        Some(x) => Some(x@),
        None => None,
    }
}

/// Carries out command `command` on line `n` with its fields, checking its
/// rules; `scope` becomes the scope it leaves.
fn parse_command(n: usize, command: &str, fields: Vec<ScriptField>, scope: &mut Scope) -> (r: Result<
    Option<PatchCommand>,
    PatchScriptError,
>)
    ensures
        match r {
            Ok(c) => spec_command(n as nat, command@, fields_view(fields@), scope_view(*old(scope)))
                == Ok::<(Option<SpecCommand>, SpecScope), SpecError>(
                (opt_command_view(c), scope_view(*final(scope))),
            ),
            Err(e) => spec_command(n as nat, command@, fields_view(fields@), scope_view(*old(scope)))
                == Err::<(Option<SpecCommand>, SpecScope), SpecError>((e.line as nat, e.message@)),
        },
{
    if str_eq(command, "patch") {
        match first_patch_error_exec(&fields) {
            Some(m) => Err(PatchScriptError::new(n, m)),
            None => Ok(Some(PatchCommand::Patch { line: n, fields })),
        }
    } else if str_eq(command, "voice") || str_eq(command, "v") {
        let mut all = spelled_out(&fields, "u");
        match field_value(&fields, "u") {
            None => {
                proof {
                    assert(fields_view(all@) + seq![] =~= fields_view(all@));
                }
            },
            Some(name) => match find_template_exec(&scope.templates, name) {
                None => {
                    return Err(PatchScriptError::new(n, framed("unknown template `", name, "`")));
                },
                Some(i) => {
                    append_fields(&mut all, &scope.templates[i].fields);
                },
            },
        }
        append_fields(&mut all, &scope.defaults);
        match voice_check_exec(&all) {
            Err(m) => Err(PatchScriptError::new(n, m)),
            Ok(w) => Ok(Some(PatchCommand::Voice { line: n, fields: all, waveform: w })),
        }
    } else if str_eq(command, "sfxr") {
        match sfxr_check_exec(&fields) {
            Err(m) => Err(PatchScriptError::new(n, m)),
            Ok((p, sd)) => Ok(
                Some(PatchCommand::Sfxr { line: n, fields, preset: p, mutate_seed: sd }),
            ),
        }
    } else if str_eq(command, "d") {
        let mut body = spelled_all(&fields);
        match first_template_error_exec("d", &body) {
            Some(m) => Err(PatchScriptError::new(n, m)),
            None => {
                append_fields(&mut body, &scope.defaults);
                scope.defaults = body;
                Ok(None)
            },
        }
    } else if str_eq(command, "def") {
        match field_value(&fields, "n") {
            None => Err(PatchScriptError::new(n, String::from_str("def needs a name (n=...)"))),
            Some(name) => {
                let body = spelled_out(&fields, "n");
                match first_template_error_exec("def", &body) {
                    Some(m) => Err(PatchScriptError::new(n, m)),
                    None => {
                        let t = Template { name: String::from_str(name), fields: body };
                        let ghost before = scope.templates@;
                        scope.templates.push(t);
                        proof {
                            assert(templates_view(scope.templates@) =~= templates_view(before).push(
                                (t.name@, fields_view(t.fields@)),
                            ));
                        }
                        Ok(None)
                    },
                }
            },
        }
    } else {
        Err(PatchScriptError::new(n, framed("unknown command `", command, "`")))
    }
}

/// The piece `chars[a..b]` of line `n`.
fn parse_piece(script: &str, chars: &Vec<char>, a: usize, b: usize, n: usize, scope: &mut Scope) -> (r:
    Result<Option<PatchCommand>, PatchScriptError>)
    requires
        script@ == chars@,
        a <= b <= chars@.len(),
    ensures
        match r {
            Ok(c) => spec_parse_piece(n as nat, chars@.subrange(a as int, b as int), scope_view(*old(scope)))
                == Ok::<(Option<SpecCommand>, SpecScope), SpecError>(
                (opt_command_view(c), scope_view(*final(scope))),
            ),
            Err(e) => spec_parse_piece(n as nat, chars@.subrange(a as int, b as int), scope_view(*old(scope)))
                == Err::<(Option<SpecCommand>, SpecScope), SpecError>((e.line as nat, e.message@)),
        },
{
    let ws = crate::text::word_ranges(chars, a, b);
    let ghost words = crate::text::words(chars@.subrange(a as int, b as int));
    if ws.len() == 0 {
        return Ok(None);
    }
    let command = script.substring_char(ws[0].0, ws[0].1);
    let mut parts: Vec<String> = Vec::new();
    let mut j: usize = 1;
    while j < ws.len()
        invariant
            1 <= j <= ws@.len(),
            ws@.len() == words.len(),
            script@ == chars@,
            b <= chars@.len(),
            forall|i: int|
                #![trigger ws@[i]]
                0 <= i < ws@.len() ==> {
                    &&& a <= ws@[i].0 < ws@[i].1
                    &&& ws@[i].1 <= b
                    &&& words[i] == chars@.subrange(ws@[i].0 as int, ws@[i].1 as int)
                },
            strings_view(parts@) == words.subrange(1, j as int),
        decreases ws@.len() - j,
    {
        let (x, y) = ws[j];
        let part = String::from_str(script.substring_char(x, y));
        let ghost before = parts@;
        parts.push(part);
        proof {
            assert(strings_view(parts@) =~= strings_view(before).push(part@));
            assert(words.subrange(1, j + 1) =~= words.subrange(1, j as int).push(words[j as int]));
        }
        j = j + 1;
    }
    proof {
        assert(words.subrange(1, ws@.len() as int) =~= words.drop_first());
        assert(ws@[0].0 < ws@[0].1);
    }
    match parse_fields(&parts, n) {
        Err(e) => Err(e),
        Ok(fields) => parse_command(n, command, fields, scope),
    }
}

/// Line `n` of `script`, which occupies `chars[lo..hi]`: its commands, in
/// order; `scope` becomes the scope it leaves.
fn parse_line(script: &str, chars: &Vec<char>, lo: usize, hi: usize, n: usize, scope: &mut Scope) -> (r:
    Result<Vec<PatchCommand>, PatchScriptError>)
    requires
        script@ == chars@,
        lo <= hi <= chars@.len(),
    ensures
        match r {
            Ok(cs) => spec_parse_line(n as nat, chars@.subrange(lo as int, hi as int), scope_view(*old(scope)))
                == Ok::<(Seq<SpecCommand>, SpecScope), SpecError>(
                (commands_view(cs@), scope_view(*final(scope))),
            ),
            Err(e) => spec_parse_line(n as nat, chars@.subrange(lo as int, hi as int), scope_view(*old(scope)))
                == Err::<(Seq<SpecCommand>, SpecScope), SpecError>((e.line as nat, e.message@)),
        },
{
    let ghost sc0 = scope_view(*scope);
    let cut = crate::text::hash_cut(chars, lo, hi);
    let pieces = crate::text::piece_ranges(chars, lo, cut);
    let ghost ps = crate::text::split_at_semis(chars@.subrange(lo as int, cut as int));
    let mut out: Vec<PatchCommand> = Vec::new();
    let mut k: usize = 0;
    proof {
        assert(ps.take(0) =~= seq![]);
        assert(commands_view(out@) =~= seq![]);
    }
    while k < pieces.len()
        invariant
            k <= pieces@.len(),
            pieces@.len() == ps.len(),
            script@ == chars@,
            cut <= chars@.len(),
            lo <= hi <= chars@.len(),
            sc0 == scope_view(*old(scope)),
            ps == crate::text::split_at_semis(
                crate::text::before_hash(chars@.subrange(lo as int, hi as int)),
            ),
            forall|i: int|
                #![trigger pieces@[i]]
                0 <= i < pieces@.len() ==> {
                    &&& pieces@[i].0 <= pieces@[i].1
                    &&& pieces@[i].1 <= cut
                    &&& ps[i] == chars@.subrange(pieces@[i].0 as int, pieces@[i].1 as int)
                },
            spec_parse_pieces(n as nat, ps.take(k as int), sc0) == Ok::<
                (Seq<SpecCommand>, SpecScope),
                SpecError,
            >((commands_view(out@), scope_view(*scope))),
        decreases pieces@.len() - k,
    {
        let (a, b) = pieces[k];
        proof {
            assert(ps.take(k + 1).drop_last() =~= ps.take(k as int));
            assert(ps.take(k + 1).last() == ps[k as int]);
        }
        let ghost sc_before = scope_view(*scope);
        let ghost done = commands_view(out@);
        proof {
            assert(chars@.subrange(a as int, b as int) == ps[k as int]);
        }
        match parse_piece(script, chars, a, b, n, scope) {
            Err(e) => {
                proof {
                    assert(spec_parse_piece(n as nat, ps[k as int], sc_before) == Err::<
                        (Option<SpecCommand>, SpecScope),
                        SpecError,
                    >((e.line as nat, e.message@)));
                    assert(spec_parse_pieces(n as nat, ps.take(k + 1), sc0) == Err::<
                        (Seq<SpecCommand>, SpecScope),
                        SpecError,
                    >((e.line as nat, e.message@)));
                    lemma_parse_pieces_error_persists(n as nat, ps, sc0, k + 1);
                }
                return Err(e);
            },
            Ok(None) => {},
            Ok(Some(c)) => {
                let ghost before = out@;
                out.push(c);
                proof {
                    assert(commands_view(out@) =~= commands_view(before).push(c@));
                }
            },
        }
        k = k + 1;
    }
    proof {
        assert(ps.take(pieces@.len() as int) =~= ps);
    }
    Ok(out)
}

/// Parses a patch script: commands one per line or separated by `;`,
/// `key=value` fields after each, `#` starting a comment. The first line
/// that breaks a rule is the error, with its 1-based number; a script whose
/// commands make no voice is an error on line 0.
pub fn parse_patch_script(script: &str) -> (r: Result<PatchScript, PatchScriptError>)
    ensures
        match r {
            Ok(p) => spec_parse_script(script@) == Ok::<Seq<SpecCommand>, SpecError>(
                commands_view(p.commands@),
            ),
            Err(e) => spec_parse_script(script@) == Err::<Seq<SpecCommand>, SpecError>(
                (e.line as nat, e.message@),
            ),
        },
{
    let chars = crate::text::chars_of(script);
    let lines = crate::text::line_ranges(&chars);
    let ghost ls = crate::text::spec_lines(chars@);
    let mut commands: Vec<PatchCommand> = Vec::new();
    let mut scope = Scope { defaults: Vec::new(), templates: Vec::new() };
    let mut i: usize = 0;
    proof {
        assert(ls.take(0) =~= seq![]);
        assert(commands_view(commands@) =~= seq![]);
        assert(fields_view(scope.defaults@) =~= seq![]);
        assert(templates_view(scope.templates@) =~= seq![]);
        assert(scope_view(scope) == empty_scope());
    }
    while i < lines.len()
        invariant
            i <= lines@.len(),
            lines@.len() == ls.len(),
            ls == crate::text::spec_lines(chars@),
            script@ == chars@,
            forall|k: int|
                #![trigger lines@[k]]
                0 <= k < lines@.len() ==> {
                    &&& lines@[k].0 <= lines@[k].1
                    &&& lines@[k].1 <= chars@.len()
                    &&& ls[k] == chars@.subrange(lines@[k].0 as int, lines@[k].1 as int)
                },
            spec_parse_lines(ls.take(i as int)) == Ok::<(Seq<SpecCommand>, SpecScope), SpecError>(
                (commands_view(commands@), scope_view(scope)),
            ),
        decreases lines@.len() - i,
    {
        let (lo, hi) = lines[i];
        proof {
            assert(ls.take(i + 1).drop_last() =~= ls.take(i as int));
            assert(ls.take(i + 1).last() == ls[i as int]);
        }
        match parse_line(script, &chars, lo, hi, i + 1, &mut scope) {
            Err(e) => {
                proof {
                    lemma_parse_lines_error_persists(ls, i + 1);
                }
                return Err(e);
            },
            Ok(mut more) => {
                let ghost before = commands@;
                let ghost added = more@;
                commands.append(&mut more);
                proof {
                    assert(commands_view(commands@) =~= commands_view(before) + commands_view(added));
                }
            },
        }
        i = i + 1;
    }
    proof {
        assert(ls.take(lines@.len() as int) =~= ls);
    }
    let mut k: usize = 0;
    let ghost cmds = commands_view(commands@);
    let mut voiced = false;
    while k < commands.len()
        invariant
            k <= commands@.len(),
            cmds == commands_view(commands@),
            voiced == exists|j: int| 0 <= j < k && makes_voice(#[trigger] cmds[j]),
        decreases commands@.len() - k,
    {
        match &commands[k] {
            PatchCommand::Patch { .. } => {},
            _ => {
                voiced = true;
            },
        }
        proof {
            assert(makes_voice(cmds[k as int]) == !(commands@[k as int] is Patch));
        }
        k = k + 1;
    }
    proof {
        if voiced {
            let j = choose|j: int| 0 <= j < k && makes_voice(#[trigger] cmds[j]);
            assert(makes_voice(cmds[j]));
        }
    }
    if !voiced {
        return Err(PatchScriptError::new(0, String::from_str("script produced no voices")));
    }
    Ok(PatchScript { commands })
}


// ---------------------------------------------------------------------------
// Laws
// ---------------------------------------------------------------------------

pub open spec fn command_line(c: SpecCommand) -> nat {
    match c {
        SpecCommand::Patch { line, .. } => line,
        SpecCommand::Voice { line, .. } => line,
        SpecCommand::Sfxr { line, .. } => line,
    }
}

proof fn lemma_pieces_on_their_line(n: nat, pieces: Seq<Seq<char>>, scope: SpecScope)
    ensures
        spec_parse_pieces(n, pieces, scope) matches Err(e) ==> e.0 == n,
        spec_parse_pieces(n, pieces, scope) matches Ok((cmds, _)) ==> forall|i: int|
            0 <= i < cmds.len() ==> command_line(#[trigger] cmds[i]) == n,
    decreases pieces.len(),
{
    if pieces.len() > 0 {
        lemma_pieces_on_their_line(n, pieces.drop_last(), scope);
    }
}

/// An error on a line names that line: the lines before it parse, and the
/// lines up to it give the same error.
pub proof fn law_error_names_its_line(lines: Seq<Seq<char>>)
    requires
        spec_parse_lines(lines) is Err,
    ensures
        spec_parse_lines(lines) matches Err(e) && {
            &&& 1 <= e.0 <= lines.len()
            &&& spec_parse_lines(lines.take(e.0 - 1)) is Ok
            &&& spec_parse_lines(lines.take(e.0 as int)) == spec_parse_lines(lines)
        },
    decreases lines.len(),
{
    let prev = lines.drop_last();
    assert(lines.take(lines.len() as int) =~= lines);
    if spec_parse_lines(prev) is Err {
        law_error_names_its_line(prev);
        let e = spec_parse_lines(prev)->Err_0;
        assert(prev.take(e.0 - 1) =~= lines.take(e.0 - 1));
        assert(prev.take(e.0 as int) =~= lines.take(e.0 as int));
    } else {
        let sc = spec_parse_lines(prev)->Ok_0.1;
        lemma_pieces_on_their_line(
            lines.len(),
            crate::text::split_at_semis(crate::text::before_hash(lines.last())),
            sc,
        );
        assert(lines.take(lines.len() - 1) =~= prev);
    }
}

/// A script's error that is not about the script as a whole names the line
/// it is on, among the script's lines: the lines before it parse, and the
/// lines up to it give the same error.
pub proof fn law_script_error_names_its_line(s: Seq<char>)
    requires
        spec_parse_script(s) matches Err(e) && e.0 != 0,
    ensures
        spec_parse_script(s) matches Err(e) && {
            let lines = crate::text::spec_lines(s);
            &&& 1 <= e.0 <= lines.len()
            &&& spec_parse_lines(lines.take(e.0 - 1)) is Ok
            &&& spec_parse_lines(lines.take(e.0 as int)) is Err
            &&& spec_parse_lines(lines.take(e.0 as int))->Err_0 == e
        },
{
    law_error_names_its_line(crate::text::spec_lines(s));
}

/// A script that parses makes at least one voice.
pub proof fn law_parsed_script_has_voice(s: Seq<char>)
    requires
        spec_parse_script(s) is Ok,
    ensures
        spec_parse_script(s) matches Ok(cmds) && has_voice(cmds),
{
}

/// Commands come in the order of their lines, each on a line of the script;
/// commands that share a line come in the order they are written.
pub proof fn law_commands_in_line_order(lines: Seq<Seq<char>>)
    requires
        spec_parse_lines(lines) is Ok,
    ensures
        spec_parse_lines(lines) matches Ok((cmds, _)) && {
            &&& forall|i: int|
                0 <= i < cmds.len() ==> 1 <= command_line(#[trigger] cmds[i]) <= lines.len()
            &&& forall|i: int, j: int|
                0 <= i < j < cmds.len() ==> command_line(#[trigger] cmds[i]) <= command_line(
                    #[trigger] cmds[j],
                )
        },
    decreases lines.len(),
{
    if lines.len() > 0 {
        let prev = lines.drop_last();
        law_commands_in_line_order(prev);
        let (before, sc) = spec_parse_lines(prev)->Ok_0;
        let pieces = crate::text::split_at_semis(crate::text::before_hash(lines.last()));
        lemma_pieces_on_their_line(lines.len(), pieces, sc);
        let more = spec_parse_pieces(lines.len(), pieces, sc)->Ok_0.0;
        let cmds = before + more;
        assert forall|i: int| 0 <= i < cmds.len() implies 1 <= command_line(#[trigger] cmds[i])
            <= lines.len() by {
            if i >= before.len() {
                assert(cmds[i] == more[i - before.len()]);
            }
        }
        assert forall|i: int, j: int| 0 <= i < j < cmds.len() implies command_line(
            #[trigger] cmds[i],
        ) <= command_line(#[trigger] cmds[j]) by {
            if j >= before.len() {
                assert(cmds[j] == more[j - before.len()]);
                if i >= before.len() {
                    assert(cmds[i] == more[i - before.len()]);
                }
            }
        }
    }
}

/// What precedes the first `#` of a line with white space, `#` and a
/// comment appended: what preceded it before, or, in a line without `#`,
/// the line and the white space.
pub proof fn lemma_before_hash_comment(line: Seq<char>, gap: Seq<char>, comment: Seq<char>)
    requires
        crate::text::all_white_space(gap),
    ensures
        crate::text::first_index(line, '#') < line.len() ==> crate::text::before_hash(
            line + gap + seq!['#'] + comment,
        ) == crate::text::before_hash(line),
        crate::text::first_index(line, '#') >= line.len() ==> crate::text::before_hash(
            line + gap + seq!['#'] + comment,
        ) == line + gap && crate::text::before_hash(line) == line,
{
    let full = line + gap + seq!['#'] + comment;
    crate::text::lemma_first_index_bound(line, '#');
    let k = crate::text::first_index(line, '#') as int;
    assert forall|j: int| 0 <= j < k implies full[j] != '#' by {
        assert(full[j] == line[j]);
    }
    if k < line.len() {
        assert(full[k] == line[k]);
        crate::text::lemma_first_index(full, '#', k);
        assert(full.take(k) =~= line.take(k));
    } else {
        let m = (line.len() + gap.len()) as int;
        assert forall|j: int| 0 <= j < m implies full[j] != '#' by {
            if j >= line.len() {
                assert(full[j] == gap[j - line.len()]);
                assert(crate::text::is_white_space(gap[j - line.len()]));
            } else {
                assert(full[j] == line[j]);
            }
        }
        assert(full[m] == '#');
        crate::text::lemma_first_index(full, '#', m);
        assert(full.take(m) =~= line + gap);
        assert(line.take(k) =~= line);
    }
}

/// The pieces of a line with white space after its last piece parse as the
/// pieces without it.
proof fn lemma_pieces_trailing_white_space(
    n: nat,
    pieces: Seq<Seq<char>>,
    gap: Seq<char>,
    scope: SpecScope,
)
    requires
        pieces.len() > 0,
        crate::text::all_white_space(gap),
    ensures
        spec_parse_pieces(n, pieces.drop_last().push(pieces.last() + gap), scope)
            == spec_parse_pieces(n, pieces, scope),
{
    let longer = pieces.drop_last().push(pieces.last() + gap);
    assert(longer.drop_last() =~= pieces.drop_last());
    assert(longer.last() == pieces.last() + gap);
    crate::text::lemma_words_trailing_white_space(pieces.last(), gap);
}

/// A line with white space, `#` and a comment appended: the comment changes
/// nothing, whether or not the line held a `#` already.
pub proof fn law_comment_ignored(
    n: nat,
    line: Seq<char>,
    gap: Seq<char>,
    comment: Seq<char>,
    scope: SpecScope,
)
    requires
        crate::text::all_white_space(gap),
    ensures
        spec_parse_line(n, line + gap + seq!['#'] + comment, scope) == spec_parse_line(
            n,
            line,
            scope,
        ),
{
    lemma_before_hash_comment(line, gap, comment);
    if crate::text::first_index(line, '#') >= line.len() {
        assert forall|i: int| 0 <= i < gap.len() implies gap[i] != ';' by {
            assert(crate::text::is_white_space(gap[i]));
        }
        crate::text::lemma_split_append(line, gap);
        lemma_pieces_trailing_white_space(n, crate::text::split_at_semis(line), gap, scope);
    }
}

/// Every line with the same white space, `#` and comment appended.
pub open spec fn commented(lines: Seq<Seq<char>>, gap: Seq<char>, comment: Seq<char>) -> Seq<
    Seq<char>,
> {
    lines.map_values(|l: Seq<char>| l + gap + seq!['#'] + comment)
}

/// A comment appended to every line changes nothing of the lines' commands
/// or of their errors.
pub proof fn law_comments_ignored(lines: Seq<Seq<char>>, gap: Seq<char>, comment: Seq<char>)
    requires
        crate::text::all_white_space(gap),
    ensures
        spec_parse_lines(commented(lines, gap, comment)) == spec_parse_lines(lines),
    decreases lines.len(),
{
    if lines.len() > 0 {
        assert(commented(lines, gap, comment).drop_last() =~= commented(
            lines.drop_last(),
            gap,
            comment,
        ));
        law_comments_ignored(lines.drop_last(), gap, comment);
        match spec_parse_lines(lines.drop_last()) {
            Ok((_, sc)) => {
                law_comment_ignored(lines.len(), lines.last(), gap, comment, sc);
            },
            Err(_) => {},
        }
    }
}

/// A script whose lines are those of `s`, each with the same white space,
/// `#` and comment appended, parses as `s` does: the same commands, or the
/// same error.
pub proof fn law_script_comments_ignored(
    s: Seq<char>,
    commented_script: Seq<char>,
    gap: Seq<char>,
    comment: Seq<char>,
)
    requires
        crate::text::all_white_space(gap),
        crate::text::spec_lines(commented_script) == commented(
            crate::text::spec_lines(s),
            gap,
            comment,
        ),
    ensures
        spec_parse_script(commented_script) == spec_parse_script(s),
{
    law_comments_ignored(crate::text::spec_lines(s), gap, comment);
}

/// A script made of the lines of `s`, each followed by the same white space
/// (with no line feed in it), `#` and a comment without line breaks, the
/// lines joined by line feeds, parses as `s` does: the same commands, or the
/// same error.
pub proof fn law_commented_script(s: Seq<char>, gap: Seq<char>, comment: Seq<char>)
    requires
        crate::text::all_white_space(gap),
        forall|j: int| 0 <= j < gap.len() ==> gap[j] != '\n',
        forall|j: int| 0 <= j < comment.len() ==> comment[j] != '\n' && comment[j] != '\r',
    ensures
        spec_parse_script(
            crate::text::join_lines(commented(crate::text::spec_lines(s), gap, comment)),
        ) == spec_parse_script(s),
{
    let ls = crate::text::spec_lines(s);
    let cs = commented(ls, gap, comment);
    crate::text::lemma_lines_without_newline(s);
    assert forall|i: int, j: int| 0 <= i < cs.len() && 0 <= j < cs[i].len() implies cs[i][j]
        != '\n' by {
        let l = ls[i];
        assert(cs[i] == l + gap + seq!['#'] + comment);
        if j < l.len() {
            assert(cs[i][j] == l[j]);
        } else if j < l.len() + gap.len() {
            assert(cs[i][j] == gap[j - l.len()]);
        } else if j > l.len() + gap.len() {
            assert(cs[i][j] == comment[j - l.len() - gap.len() - 1]);
        }
    }
    assert forall|i: int| 0 <= i < cs.len() implies crate::text::strip_cr(#[trigger] cs[i])
        == cs[i] by {
        let l = ls[i];
        assert(cs[i] == l + gap + seq!['#'] + comment);
        if comment.len() > 0 {
            assert(cs[i].last() == comment.last());
        } else {
            assert(cs[i].last() == '#');
        }
    }
    if cs.len() > 0 {
        assert(cs.last() == ls.last() + gap + seq!['#'] + comment);
    }
    crate::text::lemma_lines_of_joined(cs);
    law_script_comments_ignored(s, crate::text::join_lines(cs), gap, comment);
}

/// A line with nothing but white space before its `#`: blank, or a comment.
pub open spec fn is_blank_line(l: Seq<char>) -> bool {
    forall|i: int|
        0 <= i < crate::text::before_hash(l).len() ==> crate::text::is_white_space(
            #[trigger] crate::text::before_hash(l)[i],
        )
}

proof fn lemma_blank_line(n: nat, l: Seq<char>, scope: SpecScope)
    requires
        is_blank_line(l),
    ensures
        spec_parse_line(n, l, scope) == Ok::<(Seq<SpecCommand>, SpecScope), SpecError>(
            (seq![], scope),
        ),
{
    let b = crate::text::before_hash(l);
    assert forall|j: int| 0 <= j < b.len() implies b[j] != ';' by {
        assert(crate::text::is_white_space(b[j]));
    }
    crate::text::lemma_first_index(b, ';', b.len() as int);
    assert(crate::text::split_at_semis(b) == seq![b]);
    crate::text::lemma_leading_ws(b, b.len() as int);
    assert(crate::text::words(b) =~= seq![]);
    let ps = seq![b];
    assert(ps.drop_last() =~= seq![]);
    assert(ps.last() == b);
    assert(spec_parse_piece(n, b, scope) == Ok::<(Option<SpecCommand>, SpecScope), SpecError>(
        (None, scope),
    ));
    assert(spec_parse_pieces(n, ps.drop_last(), scope) == Ok::<
        (Seq<SpecCommand>, SpecScope),
        SpecError,
    >((seq![], scope)));
    assert(spec_parse_pieces(n, ps, scope) == Ok::<(Seq<SpecCommand>, SpecScope), SpecError>(
        (seq![], scope),
    ));
}

/// Blank and comment lines after a script change nothing.
pub proof fn law_trailing_blank_lines_ignored(lines: Seq<Seq<char>>, extra: Seq<Seq<char>>)
    requires
        forall|i: int| 0 <= i < extra.len() ==> is_blank_line(#[trigger] extra[i]),
    ensures
        spec_parse_lines(lines + extra) == spec_parse_lines(lines),
    decreases extra.len(),
{
    if extra.len() > 0 {
        let shorter = extra.drop_last();
        assert((lines + extra).drop_last() =~= lines + shorter);
        assert((lines + extra).last() == extra.last());
        assert(is_blank_line(extra[extra.len() - 1]));
        law_trailing_blank_lines_ignored(lines, shorter);
        match spec_parse_lines(lines + shorter) {
            Ok((cmds, sc)) => {
                lemma_blank_line((lines + extra).len(), extra.last(), sc);
                assert(cmds + seq![] =~= cmds);
            },
            Err(_) => {},
        }
    } else {
        assert(lines + extra =~= lines);
    }
}

} // verus!
