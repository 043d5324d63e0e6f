use dprint_core::cli::arg_parser::{
    get_args_form, parse_args, ArgsForm, CliArgs, EditorServiceSubCommand, HiddenSubCommand, Matches, ParserOutput,
    StdInFmtSubCommand, SubCommand, SubCommandMatches,
};

fn args(args: &[&str]) -> Vec<String> {
    args.iter().map(|arg| arg.to_string()).collect()
}

fn sub_matches() -> SubCommandMatches {
    SubCommandMatches {
        stdin: None,
        parent_pid: None,
        incremental: false,
        allow_node_modules: false,
        files: vec![],
        excludes: vec![],
        hidden_sub_command: String::new(),
        install_path: None,
    }
}

fn matches(sub_command: &str, sub_command_matches: Option<SubCommandMatches>) -> Matches {
    Matches {
        sub_command: sub_command.to_string(),
        sub_command_matches,
        verbose: false,
        config: None,
        plugins: vec![],
    }
}

fn output(matches: Result<Matches, String>) -> ParserOutput {
    ParserOutput {
        help_text: Ok(String::from("help text")),
        matches,
        std_in_text: Ok(String::from("text of the input")),
    }
}

fn parse(arguments: &[&str], found: Matches) -> CliArgs {
    assert!(found.is_supported());
    parse_args(args(arguments), output(Ok(found))).unwrap()
}

#[test]
fn no_argument_asks_for_help() {
    assert_eq!(get_args_form(&args(&["dprint"])), ArgsForm::Help);
    assert_eq!(get_args_form(&args(&["dprint", "help"])), ArgsForm::Help);
    assert_eq!(get_args_form(&args(&["dprint", "--help"])), ArgsForm::Help);
    assert_eq!(get_args_form(&args(&["dprint", "-v"])), ArgsForm::Version);
    assert_eq!(get_args_form(&args(&["dprint", "--version"])), ArgsForm::Version);
    assert_eq!(get_args_form(&args(&["dprint", "fmt"])), ArgsForm::Other);
    assert_eq!(get_args_form(&args(&["dprint", "help", "fmt"])), ArgsForm::Other);
    assert_eq!(get_args_form(&args(&[])), ArgsForm::Other);
}

#[test]
fn help_is_answered_with_the_help_text() {
    let result = parse_args(args(&["dprint", "--help"]), output(Err(String::from("not looked at")))).unwrap();
    assert_eq!(result, CliArgs::new_with_sub_command(SubCommand::Help(String::from("help text"))));
    assert!(!result.is_silent_output());
    let mut found = output(Err(String::from("not looked at")));
    found.help_text = Err(String::from("no help"));
    assert_eq!(parse_args(args(&["dprint"]), found), Err(String::from("no help")));
}

#[test]
fn version_is_answered_without_the_parser() {
    let result = parse_args(args(&["dprint", "-v"]), output(Err(String::from("not looked at")))).unwrap();
    assert_eq!(result, CliArgs::new_with_sub_command(SubCommand::Version));
}

#[test]
fn refusal_of_the_parser_is_handed_on() {
    let result = parse_args(args(&["dprint", "unknown"]), output(Err(String::from("refused"))));
    assert_eq!(result, Err(String::from("refused")));
}

#[test]
fn sub_commands_are_told_by_their_names() {
    let cases = [
        ("check", SubCommand::Check),
        ("init", SubCommand::Init),
        ("clear-cache", SubCommand::ClearCache),
        ("output-file-paths", SubCommand::OutputFilePaths),
        ("output-resolved-config", SubCommand::OutputResolvedConfig),
        ("output-format-times", SubCommand::OutputFormatTimes),
        ("version", SubCommand::Version),
        ("license", SubCommand::License),
        ("editor-info", SubCommand::EditorInfo),
        ("fmt", SubCommand::Fmt),
    ];
    for (name, expected) in cases {
        let result = parse(&["dprint", name], matches(name, Some(sub_matches())));
        assert_eq!(result.sub_command, expected);
    }
    assert!(!matches("unknown", Some(sub_matches())).is_supported());
    assert!(!matches("fmt", None).is_supported());
    assert!(matches("check", None).is_supported());
}

#[test]
fn fmt_takes_over_what_was_found() {
    let mut found = matches(
        "fmt",
        Some(SubCommandMatches {
            incremental: true,
            allow_node_modules: true,
            files: args(&["**/*.ts"]),
            excludes: args(&["**/dist"]),
            ..sub_matches()
        }),
    );
    found.verbose = true;
    found.config = Some(String::from("dprint.json"));
    found.plugins = args(&["https://plugins.dprint.dev/json-0.2.3.wasm"]);
    let result = parse(&["dprint", "fmt", "--incremental"], found);
    assert_eq!(
        result,
        CliArgs {
            sub_command: SubCommand::Fmt,
            verbose: true,
            plugins: args(&["https://plugins.dprint.dev/json-0.2.3.wasm"]),
            config: Some(String::from("dprint.json")),
            incremental: true,
            file_patterns: args(&["**/*.ts"]),
            exclude_file_patterns: args(&["**/dist"]),
            allow_node_modules: true,
        }
    );
    let result = parse(&["dprint", "check", "--verbose"], matches("check", None));
    assert_eq!(result.file_patterns, Vec::<String>::new());
    assert!(!result.incremental);
}

#[test]
fn fmt_of_the_input_is_silent() {
    let found = matches("fmt", Some(SubCommandMatches { stdin: Some(String::from("ts")), ..sub_matches() }));
    assert!(found.needs_std_in());
    let result = parse(&["dprint", "fmt", "--stdin", "ts"], found);
    assert_eq!(
        result.sub_command,
        SubCommand::StdInFmt(StdInFmtSubCommand {
            file_name_or_path: String::from("file.ts"),
            file_text: String::from("text of the input"),
        })
    );
    assert!(result.is_silent_output());
    let found = matches("fmt", Some(SubCommandMatches { stdin: Some(String::from("src/mod.rs")), ..sub_matches() }));
    let result = parse(&["dprint", "fmt", "--stdin", "src/mod.rs"], found);
    assert_eq!(
        result.sub_command,
        SubCommand::StdInFmt(StdInFmtSubCommand {
            file_name_or_path: String::from("src/mod.rs"),
            file_text: String::from("text of the input"),
        })
    );
}

#[test]
fn input_that_cannot_be_read_is_an_error() {
    let found = matches("fmt", Some(SubCommandMatches { stdin: Some(String::from("ts")), ..sub_matches() }));
    let mut found = output(Ok(found));
    found.std_in_text = Err(String::from("no input"));
    assert_eq!(parse_args(args(&["dprint", "fmt", "--stdin", "ts"]), found), Err(String::from("no input")));
    let mut found = output(Ok(matches("fmt", Some(sub_matches()))));
    found.std_in_text = Err(String::from("no input"));
    assert!(!found.matches.as_ref().unwrap().needs_std_in());
    assert_eq!(parse_args(args(&["dprint", "fmt"]), found).unwrap().sub_command, SubCommand::Fmt);
}

#[test]
fn editor_service_needs_the_parent() {
    let found = matches("editor-service", Some(SubCommandMatches { parent_pid: Some(1234), ..sub_matches() }));
    let result = parse(&["dprint", "editor-service", "--parent-pid", "1234"], found);
    assert_eq!(result.sub_command, SubCommand::EditorService(EditorServiceSubCommand { parent_pid: 1234 }));
    assert!(!matches("editor-service", Some(sub_matches())).is_supported());
}

#[test]
fn hidden_sub_commands_take_the_install_path() {
    let hidden = |name: &str| {
        matches(
            "hidden",
            Some(SubCommandMatches {
                hidden_sub_command: name.to_string(),
                install_path: Some(String::from("C:\\dprint")),
                ..sub_matches()
            }),
        )
    };
    let result = parse(&["dprint", "hidden", "windows-install", "C:\\dprint"], hidden("windows-install"));
    assert_eq!(result.sub_command, SubCommand::Hidden(HiddenSubCommand::WindowsInstall(String::from("C:\\dprint"))));
    let result = parse(&["dprint", "hidden", "windows-uninstall", "C:\\dprint"], hidden("windows-uninstall"));
    assert_eq!(
        result.sub_command,
        SubCommand::Hidden(HiddenSubCommand::WindowsUninstall(String::from("C:\\dprint")))
    );
    assert!(!hidden("other").is_supported());
}
