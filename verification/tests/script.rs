use aquarium::script::{
    field_value, is_number, parse_bool, parse_fields, parse_patch_script, unknown_field,
    waveform_named, PatchCommand, PatchScriptError, SfxrPreset, Waveform, PATCH_SCRIPT_EXAMPLE,
};

fn strings(parts: &[&str]) -> Vec<String> {
    parts.iter().map(|p| p.to_string()).collect()
}

fn error_of(script: &str) -> PatchScriptError {
    match parse_patch_script(script) {
        Ok(_) => panic!("script was accepted: {script:?}"),
        Err(e) => e,
    }
}

#[test]
fn patch_script_reports_line_numbers() {
    let err = parse_patch_script("patch gain=1\nvoice wave=beige").unwrap_err();
    assert_eq!(err.line, 2);
}

#[test]
fn example_script_has_three_voice_commands() {
    let script = parse_patch_script(PATCH_SCRIPT_EXAMPLE).unwrap();
    assert_eq!(script.commands.len(), 4);
    match &script.commands[0] {
        PatchCommand::Patch { line, fields } => {
            assert_eq!(*line, 3);
            assert_eq!(fields.len(), 2);
            assert_eq!(fields[0].key, "gain");
            assert_eq!(fields[0].value, "0.7");
            assert_eq!(fields[1].key, "soft_clip");
            assert_eq!(fields[1].value, "true");
        }
        other => panic!("expected patch, got {other:?}"),
    }
    match &script.commands[1] {
        PatchCommand::Voice { line, fields, waveform } => {
            assert_eq!(*line, 4);
            assert_eq!(*waveform, Waveform::Sine);
            assert_eq!(fields.len(), 8);
            assert_eq!(fields[7].key, "vibrato_hz");
            assert_eq!(fields[7].value, "5");
        }
        other => panic!("expected voice, got {other:?}"),
    }
    match &script.commands[2] {
        PatchCommand::Voice { line, waveform, .. } => {
            assert_eq!(*line, 5);
            assert_eq!(*waveform, Waveform::Triangle);
        }
        other => panic!("expected voice, got {other:?}"),
    }
    match &script.commands[3] {
        PatchCommand::Sfxr { line, preset, mutate_seed, fields } => {
            assert_eq!(*line, 6);
            assert_eq!(*preset, Some(SfxrPreset::Laser));
            assert_eq!(*mutate_seed, Some(9));
            assert_eq!(fields.len(), 3);
        }
        other => panic!("expected sfxr, got {other:?}"),
    }
    let voices = script
        .commands
        .iter()
        .filter(|c| !matches!(c, PatchCommand::Patch { .. }))
        .count();
    assert_eq!(voices, 3);
}

#[test]
fn comments_and_blank_lines_are_skipped() {
    let script = parse_patch_script("# only a comment\n\n   \nvoice freq=110 # low\n").unwrap();
    assert_eq!(script.commands.len(), 1);
    match &script.commands[0] {
        PatchCommand::Voice { line, fields, waveform } => {
            assert_eq!(*line, 4);
            assert_eq!(*waveform, Waveform::Sine);
            assert_eq!(fields.len(), 1);
            assert_eq!(fields[0].value, "110");
        }
        other => panic!("expected voice, got {other:?}"),
    }
}

#[test]
fn crlf_line_endings_are_accepted() {
    let script = parse_patch_script("patch gain=0.5\r\nvoice wave=saw\r\n").unwrap();
    assert_eq!(script.commands.len(), 2);
    match &script.commands[1] {
        PatchCommand::Voice { line, waveform, .. } => {
            assert_eq!(*line, 2);
            assert_eq!(*waveform, Waveform::Sawtooth);
        }
        other => panic!("expected voice, got {other:?}"),
    }
}

#[test]
fn trailing_blank_lines_change_nothing() {
    let a = parse_patch_script("voice wave=square").unwrap();
    let b = parse_patch_script("voice wave=square\n\n\n").unwrap();
    assert_eq!(a.commands.len(), b.commands.len());
    assert_eq!(format!("{:?}", a.commands), format!("{:?}", b.commands));
}

#[test]
fn script_without_voices_is_refused() {
    let e = error_of("patch gain=0.3");
    assert_eq!(e.line, 0);
    assert_eq!(e.message, "script produced no voices");
    let e = error_of("");
    assert_eq!(e.line, 0);
    assert_eq!(e.message, "script produced no voices");
}

#[test]
fn unknown_command_is_refused() {
    let e = error_of("voice\nchord notes=3");
    assert_eq!(e.line, 2);
    assert_eq!(e.message, "unknown command `chord`");
}

#[test]
fn field_without_equals_is_refused() {
    let e = error_of("voice freq 220");
    assert_eq!(e.line, 1);
    assert_eq!(e.message, "expected key=value field, got `freq`");
}

#[test]
fn bad_numbers_are_refused() {
    let e = error_of("voice freq=high");
    assert_eq!(e.message, "`freq` must be a number");
    let e = error_of("voice\npatch gain=loud");
    assert_eq!((e.line, e.message.as_str()), (2, "`gain` must be a number"));
    let e = error_of("sfxr base=x");
    assert_eq!(e.message, "`base` must be a number");
}

#[test]
fn bad_booleans_are_refused() {
    let e = error_of("voice\npatch soft_clip=maybe");
    assert_eq!(e.line, 2);
    assert_eq!(e.message, "`soft_clip` must be true or false");
}

#[test]
fn unknown_fields_are_refused() {
    let e = error_of("voice color=red");
    assert_eq!(e.message, "unknown voice field `color`");
    let e = error_of("voice\npatch tempo=3");
    assert_eq!(e.message, "unknown patch field `tempo`");
    let e = error_of("sfxr sparkle=1");
    assert_eq!(e.message, "unknown sfxr field `sparkle`");
}

#[test]
fn arpeggio_needs_both_fields() {
    let e = error_of("voice arp_delay=0.1");
    assert_eq!(e.message, "arpeggio needs both arp_delay and arp_mult");
    assert!(parse_patch_script("voice arp_delay=0.1 arp_mult=2").is_ok());
}

#[test]
fn voice_checks_waveform_before_numbers() {
    let e = error_of("voice freq=x wave=beige");
    assert_eq!(e.message, "unknown waveform `beige`");
}

#[test]
fn sfxr_rules() {
    let e = error_of("sfxr preset=boom");
    assert_eq!(e.message, "unknown sfxr preset `boom`");
    let e = error_of("sfxr mutate_seed=-3");
    assert_eq!(e.message, "mutate_seed must be an integer");
    let e = error_of("sfxr mutate_seed=4 mutate=lots");
    assert_eq!(e.message, "`mutate` must be a number");
    let e = error_of("sfxr wave=beige");
    assert_eq!(e.message, "unknown waveform `beige`");
    let ok = parse_patch_script("sfxr preset=hurt mutate_seed=18446744073709551615").unwrap();
    match &ok.commands[0] {
        PatchCommand::Sfxr { preset, mutate_seed, .. } => {
            assert_eq!(*preset, Some(SfxrPreset::Hit));
            assert_eq!(*mutate_seed, Some(u64::MAX));
        }
        other => panic!("expected sfxr, got {other:?}"),
    }
    let e = error_of("sfxr mutate_seed=18446744073709551616");
    assert_eq!(e.message, "mutate_seed must be an integer");
    let plain = parse_patch_script("sfxr").unwrap();
    match &plain.commands[0] {
        PatchCommand::Sfxr { preset, mutate_seed, .. } => {
            assert_eq!(*preset, None);
            assert_eq!(*mutate_seed, None);
        }
        other => panic!("expected sfxr, got {other:?}"),
    }
}

#[test]
fn first_error_wins() {
    let e = error_of("voice wave=beige\nvoice freq=x");
    assert_eq!(e.line, 1);
    let e = error_of("voice gain=x color=red");
    assert_eq!(e.message, "`gain` must be a number");
}

#[test]
fn all_classic_presets_are_named() {
    for (name, preset) in [
        ("blip", SfxrPreset::Blip),
        ("pickup", SfxrPreset::Pickup),
        ("coin", SfxrPreset::Pickup),
        ("laser", SfxrPreset::Laser),
        ("shoot", SfxrPreset::Laser),
        ("explosion", SfxrPreset::Explosion),
        ("powerup", SfxrPreset::Powerup),
        ("hit", SfxrPreset::Hit),
        ("hurt", SfxrPreset::Hit),
        ("jump", SfxrPreset::Jump),
    ] {
        assert_eq!(SfxrPreset::named(name), Some(preset), "{name}");
    }
    assert_eq!(SfxrPreset::named("Laser"), None);
}

#[test]
fn waveform_names() {
    assert_eq!(waveform_named("sine"), Some(Waveform::Sine));
    assert_eq!(waveform_named("square"), Some(Waveform::Square));
    assert_eq!(waveform_named("saw"), Some(Waveform::Sawtooth));
    assert_eq!(waveform_named("sawtooth"), Some(Waveform::Sawtooth));
    assert_eq!(waveform_named("tri"), Some(Waveform::Triangle));
    assert_eq!(waveform_named("triangle"), Some(Waveform::Triangle));
    assert_eq!(waveform_named("noise"), Some(Waveform::Noise));
    assert_eq!(waveform_named("pulse"), None);
}

#[test]
fn fields_split_at_first_equals() {
    let fields = parse_fields(&strings(&["a=1", "b=x=y", "c="]), 7).unwrap();
    assert_eq!(fields.len(), 3);
    assert_eq!((fields[1].key.as_str(), fields[1].value.as_str()), ("b", "x=y"));
    assert_eq!((fields[2].key.as_str(), fields[2].value.as_str()), ("c", ""));
    assert_eq!(field_value(&fields, "b"), Some("x=y"));
    assert_eq!(field_value(&fields, "d"), None);
    let e = parse_fields(&strings(&["a=1", "oops"]), 7).unwrap_err();
    assert_eq!(e.line, 7);
    assert_eq!(e.message, "expected key=value field, got `oops`");
}

#[test]
fn field_value_takes_first_match() {
    let fields = parse_fields(&strings(&["k=1", "k=2"]), 1).unwrap();
    assert_eq!(field_value(&fields, "k"), Some("1"));
}

#[test]
fn booleans() {
    for v in ["true", "yes", "1"] {
        assert_eq!(parse_bool(v, 1, "soft_clip").unwrap(), true);
    }
    for v in ["false", "no", "0"] {
        assert_eq!(parse_bool(v, 1, "soft_clip").unwrap(), false);
    }
    let e = parse_bool("TRUE", 4, "soft_clip").unwrap_err();
    assert_eq!(e.line, 4);
    assert_eq!(e.message, "`soft_clip` must be true or false");
}

#[test]
fn number_grammar_matches_f32_parsing() {
    for v in [
        "0", "1", "-1", "+2.5", ".5", "5.", "1e3", "1E-3", "-1.5e+2", "inf", "-Infinity", "NaN",
        "infinity", "007",
    ] {
        assert!(is_number(v), "{v}");
        assert!(v.parse::<f32>().is_ok(), "{v}");
    }
    for v in ["", ".", "-", "e3", "1e", "1.2.3", "0x10", "1_000", " 1", "abc", "+", "in", "1e+"] {
        assert!(!is_number(v), "{v}");
        assert!(v.parse::<f32>().is_err(), "{v}");
    }
}

#[test]
fn error_text() {
    let e = PatchScriptError::new(12, "broken".to_string());
    assert_eq!(e.to_string(), "patch script line 12: broken");
    let e = unknown_field(3, "voice", "x");
    assert_eq!(e.line, 3);
    assert_eq!(e.to_string(), "patch script line 3: unknown voice field `x`");
}

#[test]
fn a_comment_changes_nothing() {
    let plain = parse_patch_script("voice freq=110 gain=0.3").unwrap();
    let commented = parse_patch_script("voice freq=110 gain=0.3 # gain=loud wave=beige").unwrap();
    assert_eq!(format!("{:?}", plain.commands), format!("{:?}", commented.commands));
}

fn voice_fields(c: &PatchCommand) -> (Vec<(String, String)>, Waveform) {
    match c {
        PatchCommand::Voice { fields, waveform, .. } => (
            fields.iter().map(|f| (f.key.clone(), f.value.clone())).collect(),
            *waveform,
        ),
        other => panic!("expected voice, got {other:?}"),
    }
}

fn kv(v: &[(&str, &str)]) -> Vec<(String, String)> {
    v.iter().map(|(k, x)| (k.to_string(), x.to_string())).collect()
}

#[test]
fn terse_voice_makes_one_voice() {
    let script = parse_patch_script("v f=110 g=.08 du=.42").unwrap();
    assert_eq!(script.commands.len(), 1);
    let (fields, wave) = voice_fields(&script.commands[0]);
    assert_eq!(fields, kv(&[("freq", "110"), ("gain", ".08"), ("duty", ".42")]));
    assert_eq!(wave, Waveform::Sine);
}

#[test]
fn defaults_reach_later_voices() {
    let script = parse_patch_script("d w=saw f=55 g=.18 s=.8 d=.25 l=.34 h=.02;v;v f=110 g=.08 du=.42")
        .unwrap();
    assert_eq!(script.commands.len(), 2);
    let (first, wave) = voice_fields(&script.commands[0]);
    assert_eq!(wave, Waveform::Sawtooth);
    assert_eq!(
        first,
        kv(&[
            ("wave", "saw"),
            ("freq", "55"),
            ("gain", ".18"),
            ("sustain", ".8"),
            ("decay", ".25"),
            ("lpf", ".34"),
            ("hpf", ".02"),
        ])
    );
    let (second, _) = voice_fields(&script.commands[1]);
    assert_eq!(&second[..3], &kv(&[("freq", "110"), ("gain", ".08"), ("duty", ".42")])[..]);
    assert_eq!(second.len(), 10);
    match &script.commands[1] {
        PatchCommand::Voice { line, .. } => assert_eq!(*line, 1),
        _ => unreachable!(),
    }
}

#[test]
fn newer_defaults_come_first() {
    let script = parse_patch_script("d f=1\nd f=2 a=.1\nvoice").unwrap();
    let (fields, _) = voice_fields(&script.commands[0]);
    assert_eq!(fields, kv(&[("freq", "2"), ("attack", ".1"), ("freq", "1")]));
}

#[test]
fn templates_are_borrowed() {
    let script = parse_patch_script(
        "d g=.5\ndef n=bell w=tri a=.01\ndef n=bell w=square\nv u=bell f=880\nv u=bell w=noise",
    )
    .unwrap();
    assert_eq!(script.commands.len(), 2);
    let (fields, wave) = voice_fields(&script.commands[0]);
    assert_eq!(fields, kv(&[("freq", "880"), ("wave", "square"), ("gain", ".5")]));
    assert_eq!(wave, Waveform::Square);
    let (_, wave) = voice_fields(&script.commands[1]);
    assert_eq!(wave, Waveform::Noise);
}

#[test]
fn template_rules() {
    let e = error_of("v u=nope");
    assert_eq!((e.line, e.message.as_str()), (1, "unknown template `nope`"));
    let e = error_of("def w=saw\nv");
    assert_eq!((e.line, e.message.as_str()), (1, "def needs a name (n=...)"));
    let e = error_of("v\nd x=1");
    assert_eq!((e.line, e.message.as_str()), (2, "unknown d field `x`"));
    let e = error_of("d w=beige");
    assert_eq!(e.message, "unknown waveform `beige`");
    let e = error_of("def n=t f=high");
    assert_eq!(e.message, "`freq` must be a number");
    let e = error_of("def n=t u=x");
    assert_eq!(e.message, "unknown def field `u`");
    let e = error_of("d g=1");
    assert_eq!((e.line, e.message.as_str()), (0, "script produced no voices"));
}

#[test]
fn semicolons_separate_commands_on_a_line() {
    let script = parse_patch_script("patch gain=.5; v ;; sfxr preset=jump\nv # c;hord").unwrap();
    assert_eq!(script.commands.len(), 4);
    let e = error_of("v;v\nv; chord x=1");
    assert_eq!((e.line, e.message.as_str()), (2, "unknown command `chord`"));
}

#[test]
fn comments_after_every_line_change_nothing() {
    let base = "d w=saw f=55\nv f=110 # already a comment\n\nsfxr preset=laser";
    let commented: String = base.lines().map(|l| format!("{l} #x;v u=nothing")).collect::<Vec<_>>().join("\n");
    let a = parse_patch_script(base).unwrap();
    let b = parse_patch_script(&commented).unwrap();
    assert_eq!(format!("{:?}", a.commands), format!("{:?}", b.commands));
    let bad = "v\nv wave=beige";
    let bad_commented: String = bad.lines().map(|l| format!("{l} #c")).collect::<Vec<_>>().join("\n");
    let e1 = error_of(bad);
    let e2 = error_of(&bad_commented);
    assert_eq!((e1.line, e1.message), (e2.line, e2.message));
}
