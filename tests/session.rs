use lambdashell::commands::Outcome;
use lambdashell::history::History;
use lambdashell::ps::{Ps, PsMut};
use lambdashell::session::{version_global, Config, Pse, ScriptError, VmConfig, DEFAULT_PS};
use lambdashell::system::{SystemIdentity, DEFAULT_HOSTNAME};
use lambdashell::terminal::{Key, Processor, Step};

fn config() -> Config {
    Config { norc: false, vm: VmConfig { sandbox: true, jit: false } }
}

fn session() -> Pse {
    Pse::create(config(), History::init(None, Some(Vec::new())))
}

fn type_line(p: &mut Processor, s: &str) {
    for c in s.chars() {
        p.input_handler(Key::Char(c));
    }
}

#[test]
fn typing_echoes_and_appends() {
    let mut p = Processor::init();
    assert!(matches!(p.input_handler(Key::Char('l')), Step::Echo(s) if s == "l"));
    p.input_handler(Key::Char('s'));
    assert_eq!(p.line(), "ls");
    assert!(matches!(p.input_handler(Key::Char('\n')), Step::Ignore));
    assert_eq!(p.line(), "ls");
}

#[test]
fn backspace_removes_or_signals() {
    let mut p = Processor::init();
    assert!(matches!(p.input_handler(Key::Backspace), Step::Bell));
    type_line(&mut p, "ab");
    assert!(matches!(p.input_handler(Key::Backspace), Step::Repaint(s) if s == "a"));
    assert_eq!(p.line(), "a");
}

#[test]
fn enter_dispatches_and_clears() {
    let mut p = Processor::init();
    type_line(&mut p, "ls -l");
    assert!(matches!(p.input_handler(Key::Enter), Step::Dispatch(s) if s == "ls -l"));
    assert_eq!(p.line(), "");
}

#[test]
fn exit_ends_loop_without_history() {
    let mut s = session();
    for c in "exit".chars() {
        s.key(Key::Char(c));
    }
    assert!(matches!(s.key(Key::Enter), Step::Exit));
    assert_eq!(s.input.line(), "exit");
    assert!(s.history.entries().is_empty());
}

#[test]
fn interrupt_shows_marker_and_keeps_line() {
    let mut p = Processor::init();
    type_line(&mut p, "sl");
    assert!(matches!(p.input_handler(Key::Control('c')), Step::Echo(s) if s == "^C"));
    assert_eq!(p.line(), "sl");
    assert!(matches!(p.input_handler(Key::Control('x')), Step::Ignore));
}

#[test]
fn navigation_keys_are_unsupported() {
    let mut p = Processor::init();
    assert!(matches!(p.input_handler(Key::Tab), Step::Unsupported(s) if s == "Tab"));
    assert!(matches!(p.input_handler(Key::Up), Step::Unsupported(s) if s == "Up"));
    assert!(matches!(p.input_handler(Key::Other), Step::Ignore));
    assert_eq!(p.line(), "");
}

#[test]
fn session_starts_with_default_prompt() {
    let s = session();
    assert_eq!(s.ps.get(), DEFAULT_PS);
    assert_eq!(s.ps.render(), "pse-0.1.0$ ");
}

#[test]
fn script_setting_prompt_is_rendered() {
    let mut s = session();
    let mut staged = s.stage_prompt();
    staged.script_assign("PROMPT", "x".to_string());
    assert!(s.vm_exec_finished(staged, Ok(())).is_none());
    assert_eq!(s.ps.render(), "x");
}

#[test]
fn script_other_field_is_ignored() {
    let mut ps = Ps::set("a".to_string());
    ps.script_assign("TITLE", "b".to_string());
    assert_eq!(ps.get(), "a");
    ps.modify("c".to_string());
    assert_eq!(ps.get(), "c");
}

#[test]
fn failing_script_keeps_prompt_and_reports_once() {
    let mut s = session();
    let mut staged = s.stage_prompt();
    staged.script_assign("PROMPT", "x".to_string());
    let d = s.vm_exec_finished(staged, Err(ScriptError::Runtime("boom".to_string())));
    assert!(matches!(d, Some(ScriptError::Runtime(m)) if m == "boom"));
    assert_eq!(s.ps.render(), DEFAULT_PS);
    let staged = s.stage_prompt();
    let d = s.vm_exec_finished(staged, Err(ScriptError::Globals("setup".to_string())));
    assert!(matches!(d, Some(ScriptError::Globals(_))));
}

#[test]
fn finish_command_records_accepted_lines() {
    let mut s = session();
    s.finish_command(&"ls".to_string(), Outcome::Spawned);
    s.finish_command(&"ls".to_string(), Outcome::Spawned);
    s.finish_command(&"bogus".to_string(), Outcome::Unknown);
    assert_eq!(s.history.entries(), &vec!["ls".to_string()]);
}

#[test]
fn version_global_text() {
    assert_eq!(version_global("Luau", "lambdashell", "0.1.0"), "Luau, lambdashell 0.1.0");
}

#[test]
fn missing_hostname_uses_default() {
    let parts = |h: Option<String>| {
        SystemIdentity::from_parts(
            "gnome".to_string(),
            "box".to_string(),
            "ann".to_string(),
            "Ann".to_string(),
            "Linux".to_string(),
            "Debian".to_string(),
            "x86_64".to_string(),
            h,
        )
    };
    assert_eq!(parts(None).hostname, DEFAULT_HOSTNAME);
    assert_eq!(parts(Some("h1".to_string())).hostname, "h1");
    assert_eq!(parts(None).username, "ann");
}

#[test]
fn c1_control_characters_are_not_typed() {
    let mut p = Processor::init();
    assert!(matches!(p.input_handler(Key::Char('\u{85}')), Step::Ignore));
    assert!(matches!(p.input_handler(Key::Char('\u{7f}')), Step::Ignore));
    assert!(matches!(p.input_handler(Key::Char('\u{a0}')), Step::Echo(_)));
    assert_eq!(p.line(), "\u{a0}");
}
