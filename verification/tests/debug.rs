use aquarium::debug::{
    KeyEvent, TerminalKey,
    debug_renderer_command, execute_debug_command, help_text, BodyClass, DebugTab, DebugUiState,
    DomainState, RendererDebugMode, RendererSettings, TERMINAL_KEEP,
};

fn strs(v: &[String]) -> Vec<&str> {
    v.iter().map(|s| s.as_str()).collect()
}

#[test]
fn mode_keys_round_trip() {
    for m in RendererDebugMode::all() {
        assert_eq!(RendererDebugMode::from_key_option(m.as_key()), Some(m));
    }
    assert_eq!(
        RendererDebugMode::from_key("sh-luminance"),
        RendererDebugMode::IrradianceLuminance
    );
    assert_eq!(RendererDebugMode::from_key("bogus"), RendererDebugMode::Final);
    assert_eq!(RendererDebugMode::from_key_option("bogus"), None);
}

#[test]
fn modes_cycle_in_order() {
    let all = RendererDebugMode::all();
    assert_eq!(all.len(), 6);
    for (i, m) in all.iter().enumerate() {
        assert_eq!(m.shader_index() as usize, i);
        assert_eq!(m.next(), all[(i + 1) % 6]);
    }
    let mut m = RendererDebugMode::Depth;
    for _ in 0..6 {
        m = m.next();
    }
    assert_eq!(m, RendererDebugMode::Depth);
    assert_eq!(RendererDebugMode::IrradianceLuminance.next(), RendererDebugMode::Final);
}

#[test]
fn body_class_keys() {
    for c in [BodyClass::SleepingEpiphany, BodyClass::LivingSelf, BodyClass::Agent] {
        assert_eq!(BodyClass::from_cache_key(c.cache_key()), c);
    }
    assert_eq!(BodyClass::from_cache_key("unheard-of"), BodyClass::SleepingEpiphany);
}

#[test]
fn help_lists_registered_commands() {
    let lines = help_text();
    assert_eq!(lines.len(), 3);
    assert_eq!(lines[0], "help       help                     list registered debug commands");
    assert_eq!(lines[1], "clear      clear                    clear the terminal output");
    assert_eq!(
        lines[2],
        "renderer   renderer [mode|next|list] inspect or change the renderer debug mode"
    );
}

#[test]
fn commands() {
    let mut mode = RendererDebugMode::Final;
    let r = execute_debug_command("   ", &mut mode);
    assert!(!r.clear_terminal && r.lines.is_empty() && r.persist.is_none());
    let r = execute_debug_command("clear", &mut mode);
    assert!(r.clear_terminal && r.lines.is_empty());
    let r = execute_debug_command("renderer", &mut mode);
    assert_eq!(strs(&r.lines), vec!["renderer mode: final"]);
    assert_eq!(r.persist, None);
    let r = execute_debug_command("renderer next", &mut mode);
    assert_eq!(strs(&r.lines), vec!["renderer mode: hit-coverage"]);
    assert_eq!(r.persist, Some(RendererDebugMode::HitCoverage));
    assert_eq!(mode, RendererDebugMode::HitCoverage);
    let r = execute_debug_command("  renderer   normals  extra", &mut mode);
    assert_eq!(strs(&r.lines), vec!["renderer mode: normals"]);
    assert_eq!(mode, RendererDebugMode::Normals);
    let r = execute_debug_command("renderer list", &mut mode);
    assert_eq!(
        strs(&r.lines),
        vec!["final", "hit-coverage", "depth", "normals", "brick-occupancy", "irradiance-luminance"]
    );
    let r = execute_debug_command("renderer fog", &mut mode);
    assert_eq!(strs(&r.lines), vec!["unknown renderer mode `fog`", "try `renderer list`"]);
    assert_eq!(mode, RendererDebugMode::Normals);
    let r = execute_debug_command("dance now", &mut mode);
    assert_eq!(
        strs(&r.lines),
        vec!["unknown debug command `dance`", "type `help` for registered commands"]
    );
    let r = execute_debug_command("help", &mut mode);
    assert_eq!(r.lines.len(), 3);
    let mut m2 = RendererDebugMode::Final;
    let r = debug_renderer_command(&vec!["depth".to_string()], &mut m2);
    assert_eq!(r.persist, Some(RendererDebugMode::Depth));
    assert_eq!(m2, RendererDebugMode::Depth);
}

#[test]
fn fresh_terminal() {
    let s = DebugUiState::new();
    assert!(!s.open && !s.terminal_focused);
    assert_eq!(s.active_tab, DebugTab::Terminal);
    assert_eq!(
        strs(&s.terminal_lines),
        vec!["Epiphany Aquarium debug terminal", "Type `help`; commands are internal debug verbs."]
    );
    assert_eq!(s.input_text(), "> ");
    assert_eq!(
        s.output_text(),
        "Epiphany Aquarium debug terminal\nType `help`; commands are internal debug verbs."
    );
}

#[test]
fn focus_follows_the_buttons() {
    let mut s = DebugUiState::new();
    assert!(!s.accepts_keys() && s.camera_takes_input());
    s.press_trigger();
    assert!(s.open && s.terminal_focused && s.accepts_keys() && !s.camera_takes_input());
    s.escape();
    assert!(s.open && !s.terminal_focused && !s.accepts_keys() && s.camera_takes_input());
    s.focus_terminal();
    assert!(s.accepts_keys());
    s.press_trigger();
    assert!(!s.open && !s.terminal_focused);
}

#[test]
fn typing_and_backspace() {
    let mut s = DebugUiState::new();
    s.type_text("ren\u{7}der\n");
    assert_eq!(s.terminal_input, "render");
    s.backspace();
    assert_eq!(s.terminal_input, "rende");
    s.type_text("é");
    s.backspace();
    assert_eq!(s.terminal_input, "rende");
    let mut e = DebugUiState::new();
    e.backspace();
    assert_eq!(e.terminal_input, "");
    e.terminal_focused = true;
    e.type_text("x");
    assert_eq!(e.input_text(), "> x_");
}

#[test]
fn submit_runs_the_trimmed_line() {
    let mut s = DebugUiState::new();
    let mut mode = RendererDebugMode::Final;
    s.type_text("   ");
    assert_eq!(s.submit(&mut mode), None);
    assert_eq!(s.terminal_lines.len(), 2);
    assert_eq!(s.terminal_input, "");
    s.type_text("  renderer next ");
    assert_eq!(s.submit(&mut mode), Some(RendererDebugMode::HitCoverage));
    assert_eq!(mode, RendererDebugMode::HitCoverage);
    assert_eq!(s.terminal_input, "");
    assert_eq!(
        strs(&s.terminal_lines)[2..].to_vec(),
        vec!["> renderer next", "renderer mode: hit-coverage"]
    );
    s.type_text("clear");
    assert_eq!(s.submit(&mut mode), None);
    assert!(s.terminal_lines.is_empty());
}

#[test]
fn terminal_keeps_the_latest_lines() {
    let mut s = DebugUiState::new();
    let mut mode = RendererDebugMode::Final;
    for _ in 0..20 {
        s.type_text("help");
        s.submit(&mut mode);
        assert!(s.terminal_lines.len() <= TERMINAL_KEEP);
    }
    assert_eq!(s.terminal_lines.len(), TERMINAL_KEEP);
    let last = s.terminal_lines.last().unwrap();
    assert!(last.starts_with("renderer   renderer [mode|next|list]"));
    assert_eq!(s.terminal_lines[TERMINAL_KEEP - 4], "> help");
}

#[test]
fn saved_settings() {
    for m in RendererDebugMode::all() {
        let settings = RendererSettings::for_mode(m);
        assert_eq!(settings.schema_version, "epiphany.aquarium.renderer-settings.v0");
        assert_eq!(settings.mode(), m);
    }
    assert_eq!(RendererSettings::default().debug_mode, "final");
    let mut d = DomainState::default();
    assert_eq!(d.reload_generation, 0);
    assert_eq!(d.swarm_label, "Epiphany");
    d.count_reload();
    assert_eq!(d.reload_generation, 1);
    d.reload_generation = u64::MAX;
    d.count_reload();
    assert_eq!(d.reload_generation, u64::MAX);
}

#[test]
fn enter_in_two_steps() {
    let mut s = DebugUiState::new();
    s.type_text("  \t ");
    assert_eq!(s.take_command(), None);
    assert_eq!(s.terminal_input, "");
    s.type_text(" renderer depth ");
    let command = s.take_command().unwrap();
    assert_eq!(command, "renderer depth");
    assert_eq!(s.terminal_input, "");
    let mut mode = RendererDebugMode::Final;
    let mut result = execute_debug_command(&command, &mut mode);
    result.lines.push("failed to persist renderer mode: disk full".to_string());
    s.show_result(&command, &result);
    assert_eq!(
        strs(&s.terminal_lines)[2..].to_vec(),
        vec![
            "> renderer depth",
            "renderer mode: depth",
            "failed to persist renderer mode: disk full"
        ]
    );
}

fn press(key: TerminalKey) -> KeyEvent {
    KeyEvent { key, pressed: true, repeat: false }
}

#[test]
fn frame_keys_follow_the_focus() {
    let mut s = DebugUiState::new();
    let typed = vec![press(TerminalKey::Text("help".to_string())), press(TerminalKey::Enter)];
    assert!(s.frame_keys(&typed).is_empty());
    assert_eq!(s.terminal_input, "");
    s.focus_terminal();
    let events = vec![
        press(TerminalKey::Text("hex".to_string())),
        press(TerminalKey::Backspace),
        KeyEvent { key: TerminalKey::Text("zz".to_string()), pressed: false, repeat: false },
        KeyEvent { key: TerminalKey::Text("zz".to_string()), pressed: true, repeat: true },
        press(TerminalKey::Text("lp".to_string())),
        press(TerminalKey::Enter),
        press(TerminalKey::Text("  ".to_string())),
        press(TerminalKey::Enter),
        press(TerminalKey::Text("clear".to_string())),
        press(TerminalKey::Escape),
        press(TerminalKey::Text("!".to_string())),
    ];
    let commands = s.frame_keys(&events);
    assert_eq!(commands, vec!["help".to_string()]);
    assert_eq!(s.terminal_input, "clear!");
    assert!(!s.terminal_focused);
    assert_eq!(s.terminal_lines.len(), 2);
    assert!(s.frame_keys(&vec![press(TerminalKey::Enter)]).is_empty());
    assert_eq!(s.terminal_input, "clear!");
}

#[test]
fn released_keys_and_a_blank_enter_change_little() {
    let mut s = DebugUiState::new();
    s.focus_terminal();
    s.frame_keys(&vec![press(TerminalKey::Text("  ".to_string()))]);
    assert_eq!(s.terminal_input, "  ");
    let released = vec![
        KeyEvent { key: TerminalKey::Enter, pressed: false, repeat: false },
        KeyEvent { key: TerminalKey::Escape, pressed: true, repeat: true },
        KeyEvent { key: TerminalKey::Backspace, pressed: false, repeat: true },
    ];
    assert!(s.frame_keys(&released).is_empty());
    assert_eq!(s.terminal_input, "  ");
    assert!(s.terminal_focused);
    assert!(s.frame_keys(&vec![press(TerminalKey::Enter)]).is_empty());
    assert_eq!(s.terminal_input, "");
    assert!(s.terminal_focused);
    assert_eq!(s.terminal_lines.len(), 2);
}
