use crate::formatting::text::to_chars;
use vstd::prelude::*;

verus! {

/// What the command line asks for.
#[derive(Debug, PartialEq)]
pub struct CliArgs {
    pub sub_command: SubCommand,
    pub verbose: bool,
    pub plugins: Vec<String>,
    pub config: Option<String>,
    // It depends on the command whether these will exist... it
    // was just a lot easier to store these on a global object.
    pub incremental: bool,
    pub file_patterns: Vec<String>,
    pub exclude_file_patterns: Vec<String>,
    pub allow_node_modules: bool,
}

#[derive(Debug, PartialEq)]
pub enum SubCommand {
    Check,
    Fmt,
    Init,
    ClearCache,
    OutputFilePaths,
    OutputResolvedConfig,
    OutputFormatTimes,
    Version,
    License,
    Help(String),
    EditorInfo,
    EditorService(EditorServiceSubCommand),
    StdInFmt(StdInFmtSubCommand),
    Hidden(HiddenSubCommand),
}

#[derive(Debug, PartialEq)]
pub struct EditorServiceSubCommand {
    pub parent_pid: u32,
}

#[derive(Debug, PartialEq)]
pub struct StdInFmtSubCommand {
    pub file_name_or_path: String,
    pub file_text: String,
}

#[derive(Debug, PartialEq)]
pub enum HiddenSubCommand {
    WindowsInstall(String),
    WindowsUninstall(String),
}

/// Whether the arguments ask for the sub command and nothing else.
pub open spec fn asks_only_for(args: CliArgs, sub_command: SubCommand) -> bool {
    &&& args.sub_command == sub_command
    &&& !args.verbose
    &&& args.config is None
    &&& args.plugins@.len() == 0
    &&& !args.incremental
    &&& !args.allow_node_modules
    &&& args.file_patterns@.len() == 0
    &&& args.exclude_file_patterns@.len() == 0
}

impl CliArgs {
    pub open spec fn spec_is_silent_output(&self) -> bool {
        self.sub_command is StdInFmt
    }

    /// Whether nothing but the result may be written to the output.
    #[verifier::when_used_as_spec(spec_is_silent_output)]
    pub fn is_silent_output(&self) -> (silent: bool)
        ensures
            silent == self.spec_is_silent_output(),
    {
        match self.sub_command {
            SubCommand::StdInFmt(..) => true,
            _ => false,
        }
    }

    /// The arguments that ask for the sub command and nothing else.
    pub fn new_with_sub_command(sub_command: SubCommand) -> (args: CliArgs)
        ensures
            asks_only_for(args, sub_command),
    {
        CliArgs {
            sub_command,
            verbose: false,
            config: None,
            plugins: Vec::new(),
            incremental: false,
            allow_node_modules: false,
            file_patterns: Vec::new(),
            exclude_file_patterns: Vec::new(),
        }
    }
}

/// What the argument parser found of a sub command.
#[derive(Debug)]
pub struct SubCommandMatches {
    /// The file name, path or extension given for formatting the input.
    pub stdin: Option<String>,
    pub parent_pid: Option<u32>,
    pub incremental: bool,
    pub allow_node_modules: bool,
    pub files: Vec<String>,
    pub excludes: Vec<String>,
    /// The name of the sub command of the hidden sub command; empty when
    /// there is none.
    pub hidden_sub_command: String,
    pub install_path: Option<String>,
}

/// What the argument parser found.
#[derive(Debug)]
pub struct Matches {
    /// The name of the sub command; empty when there is none.
    pub sub_command: String,
    pub sub_command_matches: Option<SubCommandMatches>,
    pub verbose: bool,
    pub config: Option<String>,
    pub plugins: Vec<String>,
}

/// What was found outside for the arguments.
#[derive(Debug)]
pub struct ParserOutput {
    /// The help text, or why it could not be had.
    pub help_text: Result<String, String>,
    /// What the argument parser found, or why it refused the arguments.
    pub matches: Result<Matches, String>,
    /// The text of the input, or why it could not be read. It is looked at
    /// only where `needs_std_in` says so.
    pub std_in_text: Result<String, String>,
}

/// What the arguments are at first sight.
#[derive(Clone, Copy, Debug, PartialEq, Eq, Structural)]
pub enum ArgsForm {
    /// No argument, or a call for help alone.
    Help,
    /// A call for the version alone.
    Version,
    Other,
}

pub open spec fn args_form(args: Seq<String>) -> ArgsForm {
    if args.len() == 1 || (args.len() == 2 && (args[1]@ == "help"@ || args[1]@ == "--help"@)) {
        ArgsForm::Help
    } else if args.len() == 2 && (args[1]@ == "-v"@ || args[1]@ == "--version"@) {
        ArgsForm::Version
    } else {
        ArgsForm::Other
    }
}

fn is_text(value: &String, text: &str) -> (same: bool)
    ensures
        same == (value@ == text@),
{
    let text = text.to_owned();
    *value == text
}

/// What the arguments are at first sight: this is all done because the
/// argument parser does not output help exactly as wanted.
pub fn get_args_form(args: &Vec<String>) -> (form: ArgsForm)
    ensures
        form == args_form(args@),
{
    if args.len() == 1 || (args.len() == 2 && (is_text(&args[1], "help") || is_text(&args[1], "--help"))) {
        ArgsForm::Help
    } else if args.len() == 2 && (is_text(&args[1], "-v") || is_text(&args[1], "--version")) {
        ArgsForm::Version
    } else {
        ArgsForm::Other
    }
}

/// Whether the sub command named is one that the arguments can be parsed
/// for, with all it needs.
pub open spec fn supports(name: Seq<char>, sub_command_matches: Option<SubCommandMatches>) -> bool {
    if name == "fmt"@ {
        sub_command_matches is Some
    } else if name == "editor-service"@ {
        sub_command_matches is Some && sub_command_matches.unwrap().parent_pid is Some
    } else if name == "hidden"@ {
        sub_command_matches is Some && sub_command_matches.unwrap().install_path is Some && (
        sub_command_matches.unwrap().hidden_sub_command@ == "windows-install"@
            || sub_command_matches.unwrap().hidden_sub_command@ == "windows-uninstall"@)
    } else {
        name == "check"@ || name == "init"@ || name == "clear-cache"@ || name == "output-file-paths"@ || name
            == "output-resolved-config"@ || name == "output-format-times"@ || name == "version"@ || name
            == "license"@ || name == "editor-info"@
    }
}

impl Matches {
    pub open spec fn spec_needs_std_in(&self) -> bool {
        self.sub_command@ == "fmt"@ && self.sub_command_matches is Some
            && self.sub_command_matches.unwrap().stdin is Some
    }

    /// Whether the input has to be read: it is to be formatted.
    #[verifier::when_used_as_spec(spec_needs_std_in)]
    pub fn needs_std_in(&self) -> (needed: bool)
        ensures
            needed == self.spec_needs_std_in(),
    {
        is_text(&self.sub_command, "fmt") && match &self.sub_command_matches {
            Some(matches) => matches.stdin.is_some(),
            None => false,
        }
    }

    /// Whether the sub command is one that the arguments can be parsed
    /// for, with all it needs.
    pub open spec fn spec_is_supported(&self) -> bool {
        supports(self.sub_command@, self.sub_command_matches)
    }

    #[verifier::when_used_as_spec(spec_is_supported)]
    pub fn is_supported(&self) -> (supported: bool)
        ensures
            supported == self.spec_is_supported(),
    {
        let name = &self.sub_command;
        if is_text(name, "fmt") {
            self.sub_command_matches.is_some()
        } else if is_text(name, "editor-service") {
            match &self.sub_command_matches {
                Some(matches) => matches.parent_pid.is_some(),
                None => false,
            }
        } else if is_text(name, "hidden") {
            match &self.sub_command_matches {
                Some(matches) => matches.install_path.is_some() && (is_text(
                    &matches.hidden_sub_command,
                    "windows-install",
                ) || is_text(&matches.hidden_sub_command, "windows-uninstall")),
                None => false,
            }
        } else {
            is_text(name, "check") || is_text(name, "init") || is_text(name, "clear-cache") || is_text(
                name,
                "output-file-paths",
            ) || is_text(name, "output-resolved-config") || is_text(name, "output-format-times") || is_text(
                name,
                "version",
            ) || is_text(name, "license") || is_text(name, "editor-info")
        }
    }
}

/// The file that the input is taken to be: what was given when that
/// holds a dot, else a file with what was given as its extension.
pub open spec fn std_in_file_name_or_path(given: Seq<char>) -> Seq<char> {
    if given.contains('.') {
        given
    } else {
        "file."@ + given
    }
}

fn get_std_in_file_name_or_path(file_name_path_or_extension: String) -> (file_name_or_path: String)
    ensures
        file_name_or_path@ == std_in_file_name_or_path(file_name_path_or_extension@),
{
    let chars = to_chars(file_name_path_or_extension.as_str());
    let mut has_dot = false;
    let mut index: usize = 0;
    while index < chars.len()
        invariant
            index <= chars@.len(),
            has_dot == chars@.take(index as int).contains('.'),
        decreases chars@.len() - index,
    {
        let ghost seen = chars@.take(index as int);
        if chars[index] == '.' {
            has_dot = true;
        }
        index = index + 1;
        proof {
            let now = chars@.take(index as int);
            assert(now =~= seen.push(chars@[index - 1]));
            if seen.contains('.') {
                let place = choose|i: int| 0 <= i < seen.len() && seen[i] == '.';
                assert(now[place] == '.');
            }
            if chars@[index - 1] == '.' {
                assert(now[now.len() - 1] == '.');
            }
        }
    }
    assert(chars@.take(index as int) =~= chars@);
    if has_dot {
        file_name_path_or_extension
    } else {
        // convert extension to file path
        let mut file_name_or_path = String::from_str("file.");
        file_name_or_path.append(file_name_path_or_extension.as_str());
        file_name_or_path
    }
}

/// Whether `sub_command` is what the matches ask for, the input reading
/// `std_in_text`.
pub open spec fn is_sub_command_of(
    sub_command: SubCommand,
    name: Seq<char>,
    sub_command_matches: Option<SubCommandMatches>,
    std_in_text: Seq<char>,
) -> bool {
    if name == "fmt"@ {
        match sub_command_matches.unwrap().stdin {
            Some(given) => sub_command matches SubCommand::StdInFmt(std_in) && std_in.file_name_or_path@
                == std_in_file_name_or_path(given@) && std_in.file_text@ == std_in_text,
            None => sub_command == SubCommand::Fmt,
        }
    } else if name == "check"@ {
        sub_command == SubCommand::Check
    } else if name == "init"@ {
        sub_command == SubCommand::Init
    } else if name == "clear-cache"@ {
        sub_command == SubCommand::ClearCache
    } else if name == "output-file-paths"@ {
        sub_command == SubCommand::OutputFilePaths
    } else if name == "output-resolved-config"@ {
        sub_command == SubCommand::OutputResolvedConfig
    } else if name == "output-format-times"@ {
        sub_command == SubCommand::OutputFormatTimes
    } else if name == "version"@ {
        sub_command == SubCommand::Version
    } else if name == "license"@ {
        sub_command == SubCommand::License
    } else if name == "editor-info"@ {
        sub_command == SubCommand::EditorInfo
    } else if name == "editor-service"@ {
        sub_command == SubCommand::EditorService(
            EditorServiceSubCommand { parent_pid: sub_command_matches.unwrap().parent_pid.unwrap() },
        )
    } else if sub_command_matches.unwrap().hidden_sub_command@ == "windows-install"@ {
        sub_command == SubCommand::Hidden(
            HiddenSubCommand::WindowsInstall(sub_command_matches.unwrap().install_path.unwrap()),
        )
    } else {
        sub_command == SubCommand::Hidden(
            HiddenSubCommand::WindowsUninstall(sub_command_matches.unwrap().install_path.unwrap()),
        )
    }
}

/// Whether `args` is what the matches ask for.
pub open spec fn is_args_of(args: CliArgs, matches: Matches, std_in_text: Seq<char>) -> bool {
    &&& is_sub_command_of(args.sub_command, matches.sub_command@, matches.sub_command_matches, std_in_text)
    &&& args.verbose == matches.verbose
    &&& args.config == matches.config
    &&& args.plugins == matches.plugins
    &&& match matches.sub_command_matches {
        Some(sub_matches) => {
            &&& args.incremental == sub_matches.incremental
            &&& args.allow_node_modules == sub_matches.allow_node_modules
            &&& args.file_patterns == sub_matches.files
            &&& args.exclude_file_patterns == sub_matches.excludes
        },
        None => {
            &&& !args.incremental
            &&& !args.allow_node_modules
            &&& args.file_patterns@.len() == 0
            &&& args.exclude_file_patterns@.len() == 0
        },
    }
}

/// Whether `result` is what the arguments come to, given what was found
/// outside for them.
pub open spec fn is_parsed(args: Seq<String>, output: ParserOutput, result: Result<CliArgs, String>) -> bool {
    match args_form(args) {
        ArgsForm::Help => match output.help_text {
            Ok(help_text) => result is Ok && asks_only_for(result.unwrap(), SubCommand::Help(help_text)),
            Err(error) => result == Err::<CliArgs, String>(error),
        },
        ArgsForm::Version => result is Ok && asks_only_for(result.unwrap(), SubCommand::Version),
        ArgsForm::Other => match output.matches {
            Err(error) => result == Err::<CliArgs, String>(error),
            Ok(matches) => if matches.needs_std_in() {
                match output.std_in_text {
                    Ok(text) => result is Ok && is_args_of(result.unwrap(), matches, text@),
                    Err(error) => result == Err::<CliArgs, String>(error),
                }
            } else {
                result is Ok && is_args_of(result.unwrap(), matches, Seq::empty())
            },
        },
    }
}

/// What the matches ask for, the input reading `std_in_text`.
fn get_sub_command(
    name: &String,
    sub_command_matches: &mut Option<SubCommandMatches>,
    std_in_text: String,
) -> (sub_command: SubCommand)
    requires
        supports(name@, *old(sub_command_matches)),
    ensures
        is_sub_command_of(sub_command, name@, *old(sub_command_matches), std_in_text@),
        match (*old(sub_command_matches), *final(sub_command_matches)) {
            (Some(before), Some(after)) => after.incremental == before.incremental && after.allow_node_modules
                == before.allow_node_modules && after.files == before.files && after.excludes == before.excludes,
            (None, None) => true,
            _ => false,
        },
{
    if is_text(name, "fmt") {
        match sub_command_matches {
            Some(matches) => match matches.stdin.take() {
                Some(file_name_path_or_extension) => SubCommand::StdInFmt(
                    StdInFmtSubCommand {
                        file_name_or_path: get_std_in_file_name_or_path(file_name_path_or_extension),
                        file_text: std_in_text,
                    },
                ),
                None => SubCommand::Fmt,
            },
            None => SubCommand::Fmt,
        }
    } else if is_text(name, "check") {
        SubCommand::Check
    } else if is_text(name, "init") {
        SubCommand::Init
    } else if is_text(name, "clear-cache") {
        SubCommand::ClearCache
    } else if is_text(name, "output-file-paths") {
        SubCommand::OutputFilePaths
    } else if is_text(name, "output-resolved-config") {
        SubCommand::OutputResolvedConfig
    } else if is_text(name, "output-format-times") {
        SubCommand::OutputFormatTimes
    } else if is_text(name, "version") {
        SubCommand::Version
    } else if is_text(name, "license") {
        SubCommand::License
    } else if is_text(name, "editor-info") {
        SubCommand::EditorInfo
    } else if is_text(name, "editor-service") {
        match sub_command_matches {
            Some(matches) => match matches.parent_pid {
                Some(parent_pid) => SubCommand::EditorService(EditorServiceSubCommand { parent_pid }),
                None => SubCommand::EditorInfo,
            },
            None => SubCommand::EditorInfo,
        }
    } else {
        match sub_command_matches {
            Some(matches) => {
                let install = is_text(&matches.hidden_sub_command, "windows-install");
                match matches.install_path.take() {
                    Some(install_path) => if install {
                        SubCommand::Hidden(HiddenSubCommand::WindowsInstall(install_path))
                    } else {
                        SubCommand::Hidden(HiddenSubCommand::WindowsUninstall(install_path))
                    },
                    None => SubCommand::EditorInfo,
                }
            },
            None => SubCommand::EditorInfo,
        }
    }
}

/// What the arguments come to, given what was found outside for them:
/// the help text, what the argument parser made of the arguments, and the
/// text of the input. A call for help or for the version alone is
/// answered without the argument parser.
pub fn parse_args(args: Vec<String>, output: ParserOutput) -> (result: Result<CliArgs, String>)
    requires
        args_form(args@) is Other && output.matches is Ok ==> output.matches.unwrap().is_supported(),
    ensures
        is_parsed(args@, output, result),
{
    match get_args_form(&args) {
        ArgsForm::Help => {
            return match output.help_text {
                Ok(help_text) => Ok(CliArgs::new_with_sub_command(SubCommand::Help(help_text))),
                Err(error) => Err(error),
            };
        },
        ArgsForm::Version => {
            return Ok(CliArgs::new_with_sub_command(SubCommand::Version));
        },
        ArgsForm::Other => {},
    }
    let matches = match output.matches {
        Ok(result) => result,
        Err(err) => {
            return Err(err);
        },
    };
    let std_in_text = if matches.needs_std_in() {
        match output.std_in_text {
            Ok(text) => text,
            Err(error) => {
                return Err(error);
            },
        }
    } else {
        String::new()
    };
    let Matches { sub_command: name, sub_command_matches, verbose, config, plugins } = matches;
    let mut sub_command_matches = sub_command_matches;
    let sub_command = get_sub_command(&name, &mut sub_command_matches, std_in_text);
    let args = match sub_command_matches {
        Some(sub_matches) => CliArgs {
            sub_command,
            verbose,
            config,
            plugins,
            incremental: sub_matches.incremental,
            allow_node_modules: sub_matches.allow_node_modules,
            file_patterns: sub_matches.files,
            exclude_file_patterns: sub_matches.excludes,
        },
        None => CliArgs {
            sub_command,
            verbose,
            config,
            plugins,
            incremental: false,
            allow_node_modules: false,
            file_patterns: Vec::new(),
            exclude_file_patterns: Vec::new(),
        },
    };
    Ok(args)
}

} // verus!
