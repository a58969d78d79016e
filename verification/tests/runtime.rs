use lune::cli::{
    discover_script_path_including_lune_dirs, find_luau_file_path, find_parse_file_path,
    first_found, run_outcome, Cli, CliAction, LuauFileChoice,
};
use lune::files::{
    decide_script_path, description_is_readable, extension_result, init_file_candidates, init_file_result,
    lune_dir_candidates,
    parse_lune_description_from_file, strip_shebang, try_parse_lune_description_from_file,
    ScriptPathDecision,
};
use lune::formatting::{format_label, LuauError};
use lune::repl::{banner, EvalResult, PromptState, ReadAction, ReadEvent, ReplState};
use lune::runtime::{
    script_error_text, Lune, LuneError, LuneGlobal, LuneMessage, RunError, RunState,
};

#[test]
fn lune_globals_are_a_set() {
    let l = Lune::new().with_global(LuneGlobal::Fs).with_global(LuneGlobal::Fs);
    assert!(l.has_global(LuneGlobal::Fs));
    assert!(!l.has_global(LuneGlobal::Net));
    let all = Lune::new().with_all_globals();
    for g in LuneGlobal::get_all() {
        assert!(all.has_global(g));
    }
    assert_eq!(LuneGlobal::get_all().len(), 6);
    let with_args = Lune::new().with_args(vec!["Foo".to_string(), "Bar".to_string()]);
    assert_eq!(with_args.args(), &vec!["Foo".to_string(), "Bar".to_string()]);
}

#[test]
fn run_state_counts_tasks() {
    let mut st = RunState::new();
    let o = st.step(&LuneMessage::Spawned).unwrap();
    assert!(!o.close && !o.stop && o.print_error.is_none());
    assert_eq!(st.task_count, 1);
    let o = st.step(&LuneMessage::Finished).unwrap();
    assert!(o.close);
    assert_eq!(st.task_count, 0);
    assert_eq!(st.exit_code(), 0);
}

#[test]
fn run_state_error_without_tasks() {
    let mut st = RunState::new();
    assert!(matches!(st.step(&LuneMessage::Finished), Err(RunError::MessageWithoutTasks)));
    assert_eq!(st, RunState::new());
}

#[test]
fn run_state_errors_exit_with_failure_unless_code_given() {
    let mut st = RunState::new();
    st.step(&LuneMessage::Spawned).unwrap();
    let o = st.step(&LuneMessage::Error("boom".to_string())).unwrap();
    assert_eq!(o.print_error, Some("boom".to_string()));
    assert!(st.got_error);
    assert_eq!(st.exit_code(), 1);
    let o = st.step(&LuneMessage::Exit(7)).unwrap();
    assert!(o.stop);
    assert_eq!(st.exit_code(), 7);
}

#[test]
fn run_state_lua_errors_are_pretty_printed() {
    let mut st = RunState::new();
    st.step(&LuneMessage::Spawned).unwrap();
    let o = st.step(&LuneMessage::LuaError(LuauError::Runtime("bad".to_string()))).unwrap();
    assert_eq!(o.print_error, Some("bad".to_string()));
    assert_eq!(st.exit_code(), 1);
}

#[test]
fn script_error_has_label() {
    let e = LuauError::Other("x".to_string());
    assert_eq!(script_error_text(&e), format!("\n{}\nx", format_label("ERROR")));
    let le = LuneError::from_lua_error(&e, true);
    assert!(le.is_incomplete_input());
    assert_eq!(le.message(), "x");
}

#[test]
fn repl_lines_and_continuations() {
    let mut r = ReplState::new();
    assert_eq!(r.prompt(), "> ");
    match r.on_read(ReadEvent::Line("local x =".to_string())) {
        ReadAction::Eval { history, notice } => {
            assert_eq!(history, Some("local x =".to_string()));
            assert!(notice.is_none());
        }
        _ => panic!("expected an evaluation"),
    }
    assert_eq!(r.source(), "local x =");
    assert!(r.on_eval(EvalResult::Incomplete).is_none());
    assert_eq!(r.prompt(), ">> ");
    assert_eq!(r.source(), "local x =\n");
    r.on_read(ReadEvent::Line(" 5".to_string()));
    assert_eq!(r.source(), "local x =\n 5");
    assert!(r.on_eval(EvalResult::Success).is_none());
    assert_eq!(r.prompt(), "> ");
    assert_eq!(r.on_eval(EvalResult::Failed("err".to_string())), Some("err".to_string()));
    let _ = PromptState::Regular;
}

#[test]
fn repl_interrupts_and_errors() {
    let mut r = ReplState::new();
    match r.on_read(ReadEvent::Interrupted) {
        ReadAction::Eval { history, notice } => {
            assert!(history.is_none());
            assert_eq!(notice, Some("Interrupt: ^C again to exit".to_string()));
        }
        _ => panic!("expected an evaluation"),
    }
    assert!(matches!(r.on_read(ReadEvent::Interrupted), ReadAction::SaveAndExit));
    let mut r = ReplState::new();
    assert!(matches!(r.on_read(ReadEvent::Eof), ReadAction::SaveAndExit));
    match r.on_read(ReadEvent::Failed("io".to_string())) {
        ReadAction::Abort(m) => assert_eq!(m, "REPL ERROR: io"),
        _ => panic!("expected an abort"),
    }
    assert_eq!(banner("0.8.0"), "Lune v0.8.0");
}

#[test]
fn cli_plans() {
    let c = Cli::from_path("script");
    assert_eq!(c.plan().action, CliAction::RunScript);
    let c = Cli::from_path_with_args("script", vec!["a".to_string()]);
    assert_eq!(c.script_args, vec!["a".to_string()]);
    let c = Cli::download_selene_types();
    let p = c.plan();
    assert!(p.download_selene && !p.download_luau);
    assert_eq!(p.action, CliAction::ExitSuccess);
    let c = Cli::download_luau_types();
    assert!(c.plan().download_luau);
    let none = Cli {
        script_path: None,
        script_args: vec![],
        download_selene_types: false,
        download_luau_types: false,
    };
    assert_eq!(none.plan().action, CliAction::ShowHelp);
    assert_eq!(run_outcome(Ok(3)), (3, None));
    assert_eq!(run_outcome(Err("e".to_string())), (1, Some("e".to_string())));
}

#[test]
fn find_luau_files() {
    assert_eq!(find_luau_file_path(Some("lua"), false, false, false), Some(LuauFileChoice::AsGiven));
    assert_eq!(find_luau_file_path(Some("luau"), true, false, false), Some(LuauFileChoice::AsGiven));
    assert_eq!(find_luau_file_path(Some("luau"), false, false, false), None);
    assert_eq!(find_luau_file_path(Some("txt"), true, false, false), None);
    assert_eq!(find_luau_file_path(None, false, true, true), Some(LuauFileChoice::WithLua));
    assert_eq!(find_luau_file_path(None, false, false, true), Some(LuauFileChoice::WithLuau));
    assert_eq!(find_luau_file_path(None, false, false, false), None);
    assert_eq!(
        first_found(None, Some("b".to_string()), Some("c".to_string())),
        Some("b".to_string())
    );
    assert_eq!(find_parse_file_path("x", Some("x.lua".to_string()), true), Ok("x.lua".to_string()));
    assert_eq!(
        find_parse_file_path("x", Some("x.lua".to_string()), false),
        Err("File does not exist at path: 'x'".to_string())
    );
    assert_eq!(find_parse_file_path("x", None, false), Err("Invalid file path: 'x'".to_string()));
}

#[test]
fn discover_including_lune_dirs() {
    let found = discover_script_path_including_lune_dirs(
        Err("first".to_string()),
        false,
        vec![Err("a".to_string()), Ok("lune/x.luau".to_string()), Ok("other".to_string())],
    );
    assert_eq!(found, Ok("lune/x.luau".to_string()));
    let absolute = discover_script_path_including_lune_dirs(
        Err("first".to_string()),
        true,
        vec![Ok("lune/x.luau".to_string())],
    );
    assert_eq!(absolute, Err("first".to_string()));
    let none = discover_script_path_including_lune_dirs(
        Err("first".to_string()),
        false,
        vec![Err("a".to_string()), Err("b".to_string())],
    );
    assert_eq!(none, Err("first".to_string()));
    assert_eq!(
        discover_script_path_including_lune_dirs(Ok("x.lua".to_string()), false, vec![]),
        Ok("x.lua".to_string())
    );
    let c = lune_dir_candidates("x", '/');
    assert_eq!(c.len(), 4);
    assert_eq!(c[0].path, "lune/x");
    assert!(!c[0].in_home_dir);
    assert_eq!(c[3].path, ".lune/x");
    assert!(c[3].in_home_dir);
}

#[test]
fn script_path_decisions() {
    assert_eq!(decide_script_path(true, false, true, false, None), ScriptPathDecision::Found);
    assert_eq!(decide_script_path(true, false, false, false, Some("luau")), ScriptPathDecision::Found);
    assert_eq!(
        decide_script_path(true, false, false, false, Some("txt")),
        ScriptPathDecision::WrongExtension
    );
    assert_eq!(decide_script_path(true, false, false, false, None), ScriptPathDecision::NoExtension);
    assert_eq!(decide_script_path(false, true, false, false, None), ScriptPathDecision::TryInitFiles);
    assert_eq!(decide_script_path(false, false, true, false, None), ScriptPathDecision::NotFound);
    assert_eq!(
        decide_script_path(false, false, false, false, None),
        ScriptPathDecision::TryLuaExtensions
    );
    assert_eq!(decide_script_path(false, false, false, false, Some("lua")), ScriptPathDecision::NotFound);
    let (a, b) = init_file_candidates("dir");
    assert_eq!(a, "dir/init.luau");
    assert_eq!(b, "dir/init.lua");
}

#[test]
fn shebang_is_stripped_keeping_the_newline() {
    assert_eq!(strip_shebang(b"#!/usr/bin/env lune\nprint(1)".to_vec()), b"\nprint(1)".to_vec());
    assert_eq!(strip_shebang(b"print(1)".to_vec()), b"print(1)".to_vec());
    assert_eq!(strip_shebang(b"#!no newline".to_vec()), b"#!no newline".to_vec());
}

#[test]
fn lune_description_comments() {
    let contents = "--> A script that\n-->   does things\nprint(1)";
    assert_eq!(
        parse_lune_description_from_file(contents),
        Some("A script that   does things".to_string())
    );
    assert_eq!(parse_lune_description_from_file("print(1)"), None);
}

#[test]
fn lune_descriptions_that_cannot_be_read() {
    let ok = "--> A script that\n-->   does things\nprint(1)";
    assert!(description_is_readable(ok));
    assert_eq!(
        try_parse_lune_description_from_file(ok),
        Some(Some("A script that   does things".to_string()))
    );
    assert_eq!(try_parse_lune_description_from_file("print(1)"), Some(None));
    // a comment line without any alphanumeric character
    assert!(!description_is_readable("--> !!!\nprint(1)"));
    assert_eq!(try_parse_lune_description_from_file("--> !!!"), None);
    // the common indentation ends inside a two-byte character
    assert!(!description_is_readable("--> a\n-->\u{b7}b"));
    assert_eq!(try_parse_lune_description_from_file("--> a\n-->\u{b7}b"), None);
    // a common indentation that ends on a boundary of every line
    assert!(description_is_readable("-->\u{b7}a\n-->\u{b7}b"));
}

#[test]
fn directory_scripts_use_their_init_file() {
    let missing = || "no init file".to_string();
    assert_eq!(
        init_file_result(Ok("d/init.luau".to_string()), Ok("d/init.lua".to_string()), missing()),
        Ok("d/init.luau".to_string())
    );
    assert_eq!(
        init_file_result(Err("x".to_string()), Ok("d/init.lua".to_string()), missing()),
        Ok("d/init.lua".to_string())
    );
    assert_eq!(
        init_file_result(Err("x".to_string()), Err("y".to_string()), missing()),
        Err("no init file".to_string())
    );
}

#[test]
fn extensionless_scripts_try_lua_then_luau() {
    let missing = || "nothing here".to_string();
    assert_eq!(
        extension_result(Some("s.lua".to_string()), Some("s.luau".to_string()), missing()),
        Ok("s.lua".to_string())
    );
    assert_eq!(extension_result(None, Some("s.luau".to_string()), missing()), Ok("s.luau".to_string()));
    assert_eq!(extension_result(None, None, missing()), Err("nothing here".to_string()));
}
