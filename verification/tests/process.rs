use lune::process::{
    check_env_assignment, exit_code, resolve_cwd, spawn_result, OptionField, OptionsTable,
    OptionsValue, ProcessSpawnOptions, SpawnOptionsError, Utf8Option,
};

fn table(cwd: OptionField, env: OptionField, shell: OptionField, stdio: OptionField, stdin: OptionField) -> OptionsValue {
    OptionsValue::Table(OptionsTable { cwd, env, shell, stdio, stdin })
}

fn nil_table() -> OptionsValue {
    table(OptionField::Nil, OptionField::Nil, OptionField::Nil, OptionField::Nil, OptionField::Nil)
}

fn runtime_message(r: Result<ProcessSpawnOptions, SpawnOptionsError>) -> String {
    match r {
        Err(SpawnOptionsError::Runtime(m)) => m,
        other => panic!("expected a runtime error, got {:?}", other),
    }
}

#[test]
fn spawn_options_defaults() {
    let o = ProcessSpawnOptions::from_lua(&OptionsValue::Nil, None, false, "unix").unwrap();
    assert!(o.cwd.is_none() && o.envs.is_empty() && o.shell.is_none());
    assert!(!o.inherit_stdio && o.stdin.is_none());
    let o = ProcessSpawnOptions::from_lua(&nil_table(), None, false, "unix").unwrap();
    assert!(o.cwd.is_none() && o.shell.is_none());
}

#[test]
fn spawn_options_not_a_table() {
    match ProcessSpawnOptions::from_lua(&OptionsValue::Other("number".to_string()), None, true, "unix") {
        Err(SpawnOptionsError::NotATable(m)) => {
            assert_eq!(m, "Invalid spawn options - expected table, got number")
        }
        other => panic!("unexpected {:?}", other),
    }
}

#[test]
fn spawn_options_full_table() {
    let v = table(
        OptionField::String(b"/tmp".to_vec()),
        OptionField::Table(vec![
            Some(("A".to_string(), "1".to_string())),
            Some(("B".to_string(), "2".to_string())),
            Some(("A".to_string(), "3".to_string())),
        ]),
        OptionField::Boolean(true),
        OptionField::String(b"inherit".to_vec()),
        OptionField::String(vec![0, 159, 1]),
    );
    let o = ProcessSpawnOptions::from_lua(&v, Some("/home/u"), true, "unix").unwrap();
    assert_eq!(o.cwd, Some("/tmp".to_string()));
    assert_eq!(
        o.envs,
        vec![("A".to_string(), "3".to_string()), ("B".to_string(), "2".to_string())]
    );
    assert_eq!(o.shell, Some("/bin/sh".to_string()));
    assert!(o.inherit_stdio);
    assert_eq!(o.stdin, Some(vec![0, 159, 1]));
    let o = ProcessSpawnOptions::from_lua(&v, Some("/home/u"), true, "windows").unwrap();
    assert_eq!(o.shell, Some("powershell".to_string()));
    let o = ProcessSpawnOptions::from_lua(&v, Some("/home/u"), true, "wasm").unwrap();
    assert_eq!(o.shell, None);
}

#[test]
fn spawn_options_cwd_home_and_errors() {
    assert_eq!(resolve_cwd("~/code", Some("/home/u")).unwrap(), "/home/u/code");
    assert_eq!(resolve_cwd("/abs", None).unwrap(), "/abs");
    match resolve_cwd("~/code", None) {
        Err(SpawnOptionsError::Runtime(m)) => {
            assert_eq!(m, "Invalid value for option 'cwd' - failed to get home directory")
        }
        other => panic!("unexpected {:?}", other),
    }
    let v = table(OptionField::String(b"/nope".to_vec()), OptionField::Nil, OptionField::Nil, OptionField::Nil, OptionField::Nil);
    assert_eq!(
        runtime_message(ProcessSpawnOptions::from_lua(&v, None, false, "unix")),
        "Invalid value for option 'cwd' - path does not exist"
    );
    let v = table(OptionField::Boolean(true), OptionField::Nil, OptionField::Nil, OptionField::Nil, OptionField::Nil);
    assert_eq!(
        runtime_message(ProcessSpawnOptions::from_lua(&v, None, true, "unix")),
        "Invalid type for option 'cwd' - expected string, got 'boolean'"
    );
    let v = table(OptionField::String(vec![0xFF]), OptionField::Nil, OptionField::Nil, OptionField::Nil, OptionField::Nil);
    assert!(matches!(
        ProcessSpawnOptions::from_lua(&v, None, true, "unix"),
        Err(SpawnOptionsError::NotUtf8(Utf8Option::Cwd))
    ));
}

#[test]
fn spawn_options_type_errors() {
    let v = table(OptionField::Nil, OptionField::String(b"x".to_vec()), OptionField::Nil, OptionField::Nil, OptionField::Nil);
    assert_eq!(
        runtime_message(ProcessSpawnOptions::from_lua(&v, None, true, "unix")),
        "Invalid type for option 'env' - expected table, got 'string'"
    );
    let v = table(OptionField::Nil, OptionField::Table(vec![None]), OptionField::Nil, OptionField::Nil, OptionField::Nil);
    assert!(matches!(
        ProcessSpawnOptions::from_lua(&v, None, true, "unix"),
        Err(SpawnOptionsError::EnvNotStrings)
    ));
    let v = table(OptionField::Nil, OptionField::Nil, OptionField::Boolean(false), OptionField::Nil, OptionField::Nil);
    assert_eq!(
        runtime_message(ProcessSpawnOptions::from_lua(&v, None, true, "unix")),
        "Invalid type for option 'shell' - expected 'true' or 'string', got 'boolean'"
    );
    let v = table(OptionField::Nil, OptionField::Nil, OptionField::Nil, OptionField::String(b"loud".to_vec()), OptionField::Nil);
    assert_eq!(
        runtime_message(ProcessSpawnOptions::from_lua(&v, None, true, "unix")),
        "Invalid value for option 'stdio' - expected 'inherit' or 'default', got 'loud'"
    );
    let v = table(OptionField::Nil, OptionField::Nil, OptionField::Nil, OptionField::Other("function".to_string()), OptionField::Nil);
    assert_eq!(
        runtime_message(ProcessSpawnOptions::from_lua(&v, None, true, "unix")),
        "Invalid type for option 'stdio' - expected 'string', got 'function'"
    );
    let v = table(OptionField::Nil, OptionField::Nil, OptionField::Nil, OptionField::Nil, OptionField::Table(vec![]));
    assert_eq!(
        runtime_message(ProcessSpawnOptions::from_lua(&v, None, true, "unix")),
        "Invalid type for option 'stdin' - expected 'string', got 'table'"
    );
}

#[test]
fn commands_through_shell() {
    let v = table(OptionField::Nil, OptionField::Nil, OptionField::String(b"/bin/bash".to_vec()), OptionField::Nil, OptionField::Nil);
    let o = ProcessSpawnOptions::from_lua(&v, None, true, "unix").unwrap();
    let c = o.into_command("echo".to_string(), Some(vec!["a".to_string(), "b".to_string()]));
    assert_eq!(c.program, "/bin/bash");
    assert_eq!(c.args, Some(vec!["-c".to_string(), "echo a b".to_string()]));
    let o = ProcessSpawnOptions::from_lua(&v, None, true, "unix").unwrap();
    let c = o.into_command("ls".to_string(), None);
    assert_eq!(c.args, Some(vec!["-c".to_string(), "ls".to_string()]));
    let o = ProcessSpawnOptions::new();
    let c = o.into_command("ls".to_string(), Some(vec!["-l".to_string()]));
    assert_eq!(c.program, "ls");
    assert_eq!(c.args, Some(vec!["-l".to_string()]));
}

#[test]
fn exit_codes_default_on_signal() {
    assert_eq!(exit_code(Some(3), b""), 3);
    assert_eq!(exit_code(None, b""), 0);
    assert_eq!(exit_code(None, b"error"), 1);
    let r = spawn_result(Some(0), b"out".to_vec(), vec![]);
    assert!(r.ok);
    assert_eq!(r.stdout, b"out".to_vec());
    let r = spawn_result(None, vec![], b"err".to_vec());
    assert!(!r.ok);
    assert_eq!(r.code, 1);
}

#[test]
fn env_assignments_are_checked() {
    assert_eq!(check_env_assignment("KEY", Some("value")), Ok(()));
    assert_eq!(check_env_assignment("KEY", None), Ok(()));
    assert_eq!(check_env_assignment("", None), Err("Key must not be empty".to_string()));
    assert_eq!(
        check_env_assignment("A=B", None),
        Err("Key must not contain the equals character '='".to_string())
    );
    assert_eq!(
        check_env_assignment("A\0", None),
        Err("Key must not contain the NUL character".to_string())
    );
    assert_eq!(
        check_env_assignment("A", Some("x\0")),
        Err("Value must not contain the NUL character".to_string())
    );
}
