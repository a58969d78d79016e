use lune::cli::{
    BuildCommand, CliSubcommand, ListCommand, ListOutput, ReplCommand, RunCommand,
};
use lune::standalone::BaseExePlan;

fn list_output(
    relative: Result<Option<String>, String>,
    home: Result<Option<String>, String>,
) -> ListOutput {
    ListCommand {}.output(relative, home)
}

#[test]
fn list_both_searches_failed() {
    assert_eq!(
        list_output(Err("no lune dir".to_string()), Err("no home".to_string())),
        ListOutput::Failure("no lune dir".to_string())
    );
}

#[test]
fn list_only_relative_scripts() {
    assert_eq!(
        list_output(Ok(Some("\n  a\n".to_string())), Err("no home".to_string())),
        ListOutput::Scripts("Available scripts:\n  a\n".to_string())
    );
    assert_eq!(
        list_output(Ok(Some("\n  a\n".to_string())), Ok(None)),
        ListOutput::Scripts("Available scripts:\n  a\n".to_string())
    );
}

#[test]
fn list_relative_and_global_scripts() {
    assert_eq!(
        list_output(Ok(Some("\n  a\n".to_string())), Ok(Some("\n  b\n".to_string()))),
        ListOutput::Scripts(
            "Available scripts in current directory:\n  a\nAvailable global scripts:\n  b\n"
                .to_string()
        )
    );
    assert_eq!(
        list_output(Err("x".to_string()), Ok(Some("\n  b\n".to_string()))),
        ListOutput::Scripts("Available global scripts:\n  b\n".to_string())
    );
}

#[test]
fn list_no_scripts() {
    assert_eq!(list_output(Ok(None), Ok(None)), ListOutput::NoScripts);
    assert_eq!(list_output(Ok(None), Err("x".to_string())), ListOutput::NoScripts);
}

#[test]
fn subcommand_defaults_to_repl() {
    assert!(matches!(CliSubcommand::default(), CliSubcommand::Repl(_)));
    assert!(matches!(CliSubcommand::or_default(None), CliSubcommand::Repl(_)));
    let run = CliSubcommand::Run(RunCommand {
        script_path: "hello".to_string(),
        script_args: vec!["a".to_string()],
    });
    match CliSubcommand::or_default(Some(run)) {
        CliSubcommand::Run(r) => {
            assert_eq!(r.script_path, "hello");
            assert_eq!(r.script_args, vec!["a".to_string()]);
        }
        other => panic!("unexpected {:?}", other),
    }
    assert!(matches!(
        CliSubcommand::or_default(Some(CliSubcommand::Repl(ReplCommand {}))),
        CliSubcommand::Repl(_)
    ));
}

#[test]
fn build_command_base_executable() {
    let host = BuildCommand { input: "a.luau".to_string(), output: None, target: None };
    assert!(matches!(host.base_exe_plan("linux-x86_64"), BaseExePlan::Current));
    let same = BuildCommand { target: Some("linux-x86_64".to_string()), ..host.clone() };
    assert!(matches!(same.base_exe_plan("linux-x86_64"), BaseExePlan::Current));
    let win = BuildCommand { target: Some("windows-x86_64".to_string()), ..host.clone() };
    match win.base_exe_plan("linux-x86_64") {
        BaseExePlan::Cached { file_name, output_extension } => {
            assert_eq!(file_name, "lune-windows-x86_64.exe");
            assert_eq!(output_extension, "exe");
        }
        other => panic!("unexpected {:?}", other),
    }
}
