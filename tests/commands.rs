use lambdashell::commands::{cd_plan, specific_user_dir, CdPlan, CdStep, Command, Dispatch, Outcome};
use lambdashell::history::History;
use lambdashell::rc::{config_dir_in, config_file_in, history_file_in};
use lambdashell::text::split_words;
use lambdashell::valid_pbuf::{push_path, IsValid, IsValidDirErr, Probe, Validity};

fn strings(v: &[&str]) -> Vec<String> {
    v.iter().map(|s| s.to_string()).collect()
}

fn dir() -> Probe {
    Probe { exists: Ok(true), is_kind: true }
}

fn file() -> Probe {
    Probe { exists: Ok(true), is_kind: false }
}

fn missing() -> Probe {
    Probe { exists: Ok(false), is_kind: false }
}

fn broken() -> Probe {
    Probe { exists: Err("permission denied".to_string()), is_kind: false }
}

fn entered(step: CdStep) -> Option<String> {
    match step {
        CdStep::Enter(p) => Some(p),
        _ => None,
    }
}

#[test]
fn split_words_on_white_space() {
    assert_eq!(split_words("  ls   -la \t /tmp\n"), strings(&["ls", "-la", "/tmp"]));
    assert_eq!(split_words(""), Vec::<String>::new());
    assert_eq!(split_words(" \u{3000} "), Vec::<String>::new());
    assert_eq!(split_words("a\u{a0}b"), strings(&["a", "b"]));
}

#[test]
fn dispatch_blank_cd_and_program() {
    let blank = "   ".to_string();
    assert!(matches!(Command::new(&blank).dispatch(), Dispatch::Nothing));
    let cd = "cd /tmp".to_string();
    match Command::new(&cd).dispatch() {
        Dispatch::Cd(args) => assert_eq!(args, strings(&["/tmp"])),
        _ => panic!("expected cd"),
    }
    let run = "ls -l /".to_string();
    match Command::new(&run).dispatch() {
        Dispatch::Run { program, args } => {
            assert_eq!(program, "ls");
            assert_eq!(args, strings(&["-l", "/"]));
        },
        _ => panic!("expected a program"),
    }
    let cdx = "cdx".to_string();
    assert!(matches!(Command::new(&cdx).dispatch(), Dispatch::Run { .. }));
}

#[test]
fn exec_records_only_accepted_lines() {
    let mut h = History::init(None, Some(Vec::new()));
    let ok = "ls".to_string();
    Command::new(&ok).exec(&mut h, Outcome::Spawned);
    let unknown = "nosuchprogram".to_string();
    Command::new(&unknown).exec(&mut h, Outcome::Unknown);
    let cd = "cd /".to_string();
    Command::new(&cd).exec(&mut h, Outcome::Changed);
    let bad_cd = "cd /nowhere".to_string();
    Command::new(&bad_cd).exec(&mut h, Outcome::Unchanged);
    let blank = "  ".to_string();
    Command::new(&blank).exec(&mut h, Outcome::Spawned);
    assert_eq!(h.entries(), &strings(&["ls", "cd /"]));
}

#[test]
fn cd_without_arguments_goes_home() {
    let home = Some("/home/ann".to_string());
    let plan = cd_plan(&Vec::new(), &home, &Vec::new());
    assert_eq!(plan.target(), Some(&"/home/ann".to_string()));
    assert_eq!(entered(plan.resolve(&dir())), Some("/home/ann".to_string()));
}

#[test]
fn cd_without_home_goes_to_root() {
    let plan = cd_plan(&Vec::new(), &None, &Vec::new());
    assert_eq!(entered(plan.resolve(&dir())), Some("/".to_string()));
}

#[test]
fn cd_root_always_enters_root() {
    for home in [None, Some("/home/ann".to_string())] {
        let plan = cd_plan(&strings(&["/"]), &home, &strings(&["ann"]));
        assert_eq!(plan.target(), Some(&"/".to_string()));
        assert_eq!(entered(plan.resolve(&dir())), Some("/".to_string()));
    }
}

#[test]
fn cd_unknown_user_falls_back_home() {
    let home = Some("/home/ann".to_string());
    let plan = cd_plan(&strings(&["~nonexistent_user"]), &home, &strings(&["ann", "bob"]));
    assert_eq!(plan.target(), Some(&"/home/ann".to_string()));
    assert_eq!(entered(plan.resolve(&dir())), Some("/home/ann".to_string()));
}

#[test]
fn cd_tilde_alone_goes_home() {
    let home = Some("/home/ann".to_string());
    let plan = cd_plan(&strings(&["~"]), &home, &Vec::new());
    assert_eq!(entered(plan.resolve(&dir())), Some("/home/ann".to_string()));
}

#[test]
fn cd_known_user_directory_or_home() {
    let home = Some("/home/ann".to_string());
    let users = strings(&["ann", "bob"]);
    let plan = cd_plan(&strings(&["~bob"]), &home, &users);
    assert_eq!(plan.target(), Some(&"/home/bob".to_string()));
    assert_eq!(entered(plan.resolve(&dir())), Some("/home/bob".to_string()));
    assert_eq!(entered(plan.resolve(&missing())), Some("/home/ann".to_string()));
    assert_eq!(entered(plan.resolve(&file())), Some("/home/ann".to_string()));
    assert!(matches!(plan.resolve(&broken()), CdStep::Failed(e) if e == "permission denied"));
}

#[test]
fn cd_root_user_directory() {
    let plan = specific_user_dir("root", &Some("/home/ann".to_string()), &Vec::new());
    assert_eq!(plan.target(), Some(&"/root".to_string()));
    assert_eq!(entered(plan.resolve(&missing())), Some("/home/ann".to_string()));
}

#[test]
fn cd_dash_is_unsupported() {
    let plan = cd_plan(&strings(&["-"]), &None, &Vec::new());
    assert!(matches!(plan, CdPlan::Unsupported));
    assert!(matches!(plan.resolve(&dir()), CdStep::Unsupported));
}

#[test]
fn cd_literal_path_outcomes() {
    let plan = cd_plan(&strings(&["src", "dir"]), &None, &Vec::new());
    assert_eq!(plan.target(), Some(&"srcdir".to_string()));
    assert_eq!(entered(plan.resolve(&dir())), Some("srcdir".to_string()));
    assert!(matches!(plan.resolve(&missing()), CdStep::Missing(p) if p == "srcdir"));
    assert!(matches!(plan.resolve(&file()), CdStep::NotADirectory(p) if p == "srcdir"));
    assert!(matches!(plan.resolve(&broken()), CdStep::Failed(_)));
}

#[test]
fn probe_verdicts() {
    assert!(matches!(dir().is_valid(), Ok(())));
    assert!(matches!(file().is_valid(), Err(IsValidDirErr::NotAnEntry)));
    assert!(matches!(missing().is_valid(), Err(IsValidDirErr::Missing)));
    assert!(matches!(broken().is_valid(), Err(IsValidDirErr::TryExists(e)) if e == "permission denied"));
    assert!(dir().is_valid_option());
    assert!(!missing().is_valid_option());
    assert!(matches!(dir().is_valid_or(), Validity::Valid));
    assert!(matches!(file().is_valid_or(), Validity::Fallback));
    assert!(matches!(missing().is_valid_or(), Validity::Fallback));
    assert!(matches!(broken().is_valid_or(), Validity::Abort(_)));
}

#[test]
fn path_push_rules() {
    assert_eq!(push_path("/home", "ann"), "/home/ann");
    assert_eq!(push_path("/home/", "ann"), "/home/ann");
    assert_eq!(push_path("", "ann"), "ann");
    assert_eq!(push_path("/home", "/etc"), "/etc");
}

#[test]
fn config_paths() {
    assert_eq!(config_dir_in("/home/ann"), "/home/ann/.config/lambdashell");
    assert_eq!(
        config_file_in("/home/ann/.config/lambdashell"),
        "/home/ann/.config/lambdashell/init.luau"
    );
    assert_eq!(
        history_file_in("/home/ann/.config/lambdashell"),
        "/home/ann/.config/lambdashell/.history"
    );
}

#[test]
fn cd_home_is_checked_before_entering() {
    let home = Some("/home/gone".to_string());
    let plan = cd_plan(&Vec::new(), &home, &Vec::new());
    assert!(matches!(plan.resolve(&missing()), CdStep::Missing(p) if p == "/home/gone"));
    assert!(matches!(plan.resolve(&file()), CdStep::NotADirectory(p) if p == "/home/gone"));
    assert!(matches!(plan.resolve(&broken()), CdStep::Failed(e) if e == "permission denied"));
}
