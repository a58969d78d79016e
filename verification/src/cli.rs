//! The command line: what a run of `lune` does with its arguments, and how a
//! script name is resolved to a file.
//!
//! Resolving a name looks at the file system between decisions; the caller
//! does the looking and hands the answers to the functions here.

use vstd::prelude::*;

use crate::text::{chars_eq_str, str_chars};

verus! {

/// The file that the Selene type definitions are downloaded to.
pub const LUNE_SELENE_FILE_NAME: &'static str = "lune.yml";

/// The file that the Luau type definitions are downloaded to.
pub const LUNE_LUAU_FILE_NAME: &'static str = "luneTypes.d.luau";

/// The arguments of a run of `lune`.
#[derive(Debug)]
pub struct Cli {
    /// The file to run, or the name of a script in a `lune` directory.
    pub script_path: Option<String>,
    /// The arguments the script gets.
    pub script_args: Vec<String>,
    /// Whether to download the Selene type definitions.
    pub download_selene_types: bool,
    /// Whether to download the Luau type definitions.
    pub download_luau_types: bool,
}

/// What a run does after any downloads.
#[derive(Debug, Clone, Copy, PartialEq, Eq, Structural)]
pub enum CliAction {
    /// Exit with success: only type definitions were wanted.
    ExitSuccess,
    /// Show the help: nothing was asked for.
    ShowHelp,
    /// Run the script.
    RunScript,
}

/// The plan of a run.
#[derive(Debug, Clone, Copy, PartialEq, Eq, Structural)]
pub struct CliPlan {
    /// Whether to download the Selene type definitions first.
    pub download_selene: bool,
    /// Whether to download the Luau type definitions first.
    pub download_luau: bool,
    /// What to do then.
    pub action: CliAction,
}

/// The plan of a run: the downloads that were asked for, then the script
/// if there is one; without a script, success after downloads and the help
/// otherwise.
pub open spec fn spec_plan(
    has_script: bool,
    download_selene: bool,
    download_luau: bool,
) -> CliPlan {
    CliPlan {
        download_selene,
        download_luau,
        action: if has_script {
            CliAction::RunScript
        } else if download_selene || download_luau {
            CliAction::ExitSuccess
        } else {
            CliAction::ShowHelp
        },
    }
}

impl Cli {
    /// A run of the script at `path`, with no arguments.
    pub fn from_path(path: &str) -> (r: Self)
        ensures
            r.script_path matches Some(p) && p@ == path@,
            r.script_args@.len() == 0,
            !r.download_selene_types,
            !r.download_luau_types,
    {
        Cli {
            script_path: Some(path.to_string()),
            script_args: Vec::new(),
            download_selene_types: false,
            download_luau_types: false,
        }
    }

    /// A run of the script at `path` with arguments.
    pub fn from_path_with_args(path: &str, args: Vec<String>) -> (r: Self)
        ensures
            r.script_path matches Some(p) && p@ == path@,
            r.script_args@ == args@,
            !r.download_selene_types,
            !r.download_luau_types,
    {
        Cli {
            script_path: Some(path.to_string()),
            script_args: args,
            download_selene_types: false,
            download_luau_types: false,
        }
    }

    /// A run that downloads the Selene type definitions.
    pub fn download_selene_types() -> (r: Self)
        ensures
            r.script_path is None,
            r.script_args@.len() == 0,
            r.download_selene_types,
            !r.download_luau_types,
    {
        Cli {
            script_path: None,
            script_args: Vec::new(),
            download_selene_types: true,
            download_luau_types: false,
        }
    }

    /// A run that downloads the Luau type definitions.
    pub fn download_luau_types() -> (r: Self)
        ensures
            r.script_path is None,
            r.script_args@.len() == 0,
            !r.download_selene_types,
            r.download_luau_types,
    {
        Cli {
            script_path: None,
            script_args: Vec::new(),
            download_selene_types: false,
            download_luau_types: true,
        }
    }

    /// The plan of this run.
    pub fn plan(&self) -> (r: CliPlan)
        ensures
            r == spec_plan(
                self.script_path is Some,
                self.download_selene_types,
                self.download_luau_types,
            ),
    {
        let action = if self.script_path.is_some() {
            CliAction::RunScript
        } else if self.download_selene_types || self.download_luau_types {
            CliAction::ExitSuccess
        } else {
            CliAction::ShowHelp
        };
        CliPlan {
            download_selene: self.download_selene_types,
            download_luau: self.download_luau_types,
            action,
        }
    }
}

/// The exit code of a run of a script, and the error to print if it
/// failed: the script's own code, or 1 after an error.
pub fn run_outcome(result: Result<u8, String>) -> (r: (u8, Option<String>))
    ensures
        match result {
            Ok(c) => r.0 == c && r.1 is None,
            Err(e) => r.0 == 1 && (r.1 matches Some(m) && m@ == e@),
        },
{
    match result {
        Ok(c) => (c, None),
        Err(e) => (1, Some(e)),
    }
}

// ---------------------------------------------------------------------
// Finding scripts

/// Which file a script name resolves to.
#[derive(Debug, Clone, Copy, PartialEq, Eq, Structural)]
pub enum LuauFileChoice {
    /// The path as it was given.
    AsGiven,
    /// The path with a `lua` extension.
    WithLua,
    /// The path with a `luau` extension.
    WithLuau,
}

/// The file that a path resolves to: a path with a `lua` extension as it
/// is, one with a `luau` extension if it exists, and a path without an
/// extension with a `lua` or else a `luau` extension added, if that exists.
pub open spec fn spec_find_luau_file(
    extension: Option<Seq<char>>,
    exists: bool,
    lua_exists: bool,
    luau_exists: bool,
) -> Option<LuauFileChoice> {
    match extension {
        Some(e) => if e == "lua"@ || (e == "luau"@ && exists) {
            Some(LuauFileChoice::AsGiven)
        } else {
            None
        },
        None => if lua_exists {
            Some(LuauFileChoice::WithLua)
        } else if luau_exists {
            Some(LuauFileChoice::WithLuau)
        } else {
            None
        },
    }
}

/// The file that a path resolves to, from its extension and from whether
/// the path, the path with a `lua` extension, and the path with a `luau`
/// extension exist.
pub fn find_luau_file_path(
    extension: Option<&str>,
    exists: bool,
    lua_exists: bool,
    luau_exists: bool,
) -> (r: Option<LuauFileChoice>)
    ensures
        r == spec_find_luau_file(crate::files::opt_view(extension), exists, lua_exists, luau_exists),
{
    match extension {
        Some(e) => {
            let c = str_chars(e);
            if chars_eq_str(c.as_slice(), "lua") || (chars_eq_str(c.as_slice(), "luau") && exists) {
                Some(LuauFileChoice::AsGiven)
            } else {
                None
            }
        },
        None => if lua_exists {
            Some(LuauFileChoice::WithLua)
        } else if luau_exists {
            Some(LuauFileChoice::WithLuau)
        } else {
            None
        },
    }
}

/// The file that a script name resolves to, from what the name, then
/// `lune/{name}`, then `.lune/{name}` resolve to (the first found wins) and
/// whether that file exists; or the message for a name that resolves to no
/// file.
pub open spec fn spec_find_parse_file(
    name: Seq<char>,
    found: Option<Seq<char>>,
    found_exists: bool,
) -> Result<Seq<char>, Seq<char>> {
    match found {
        Some(p) => if found_exists {
            Ok(p)
        } else {
            Err("File does not exist at path: '"@ + name + "'"@)
        },
        None => Err("Invalid file path: '"@ + name + "'"@),
    }
}

/// The first of three lookups that found something.
pub fn first_found(a: Option<String>, b: Option<String>, c: Option<String>) -> (r: Option<String>)
    ensures
        r == (if a is Some {
            a
        } else if b is Some {
            b
        } else {
            c
        }),
{
    if a.is_some() {
        a
    } else if b.is_some() {
        b
    } else {
        c
    }
}

/// The file that a script name resolves to.
pub fn find_parse_file_path(name: &str, found: Option<String>, found_exists: bool) -> (r: Result<
    String,
    String,
>)
    ensures
        match r {
            Ok(p) => spec_find_parse_file(
                name@,
                crate::process::opt_text(found),
                found_exists,
            ) == Ok::<Seq<char>, Seq<char>>(p@),
            Err(m) => spec_find_parse_file(
                name@,
                crate::process::opt_text(found),
                found_exists,
            ) == Err::<Seq<char>, Seq<char>>(m@),
        },
{
    match found {
        Some(p) => if found_exists {
            Ok(p)
        } else {
            let mut m = "File does not exist at path: '".to_string();
            m.append(name);
            m.append("'");
            Err(m)
        },
        None => {
            let mut m = "Invalid file path: '".to_string();
            m.append(name);
            m.append("'");
            Err(m)
        },
    }
}

/// What discovering a script gives when `lune` and `.lune` directories are
/// searched too: the path found directly; else, for an absolute path, the
/// first error; else the first of the candidates (see
/// `lune_dir_candidates`) that was found, and the first error if none was.
pub open spec fn spec_discover_including_lune_dirs(
    direct: Result<Seq<char>, Seq<char>>,
    is_absolute: bool,
    candidates: Seq<Result<Seq<char>, Seq<char>>>,
) -> Result<Seq<char>, Seq<char>>
    decreases candidates.len(),
{
    match direct {
        Ok(p) => Ok(p),
        Err(e) => if is_absolute || candidates.len() == 0 {
            Err(e)
        } else {
            match candidates[0] {
                Ok(p) => Ok(p),
                Err(_) => spec_discover_including_lune_dirs(direct, is_absolute, candidates.skip(1)),
            }
        },
    }
}

/// The text of a lookup's result.
pub open spec fn result_text(r: Result<String, String>) -> Result<Seq<char>, Seq<char>> {
    match r {
        Ok(p) => Ok(p@),
        Err(e) => Err(e@),
    }
}

/// The texts of lookups' results.
pub open spec fn results_text(s: Seq<Result<String, String>>) -> Seq<Result<Seq<char>, Seq<char>>> {
    s.map_values(|c: Result<String, String>| result_text(c))
}

/// Discovers a script, searching `lune` and `.lune` directories when the
/// path is relative and was not found directly: `direct` is what looking up
/// the path gave, `candidates` what looking up each candidate gave, in
/// order.
pub fn discover_script_path_including_lune_dirs(
    direct: Result<String, String>,
    is_absolute: bool,
    candidates: Vec<Result<String, String>>,
) -> (r: Result<String, String>)
    ensures
        result_text(r) == spec_discover_including_lune_dirs(
            result_text(direct),
            is_absolute,
            results_text(candidates@),
        ),
{
    let ghost cs = results_text(candidates@);
    let ghost dv = result_text(direct);
    match direct {
        Ok(p) => Ok(p),
        Err(e) => {
            if is_absolute {
                return Err(e);
            }
            let mut i: usize = 0;
            assert(cs.skip(0) =~= cs);
            while i < candidates.len()
                invariant
                    i <= candidates@.len(),
                    cs == results_text(candidates@),
                    !is_absolute,
                    dv == Err::<Seq<char>, Seq<char>>(e@),
                    dv == result_text(direct),
                    spec_discover_including_lune_dirs(Err(e@), false, cs)
                        == spec_discover_including_lune_dirs(Err(e@), false, cs.skip(i as int)),
                decreases candidates@.len() - i,
            {
                assert(cs.skip(i as int)[0] == result_text(candidates@[i as int]));
                assert(cs.skip(i as int).skip(1) =~= cs.skip(i + 1));
                match &candidates[i] {
                    Ok(p) => {
                        assert(cs.skip(i as int)[0] == Ok::<Seq<char>, Seq<char>>(p@));
                        assert(spec_discover_including_lune_dirs(Err(e@), false, cs.skip(i as int))
                            == Ok::<Seq<char>, Seq<char>>(p@));
                        return Ok(p.clone());
                    },
                    Err(_) => {},
                }
                i = i + 1;
            }
            assert(cs.skip(i as int).len() == 0);
            Err(e)
        },
    }
}

// ---------------------------------------------------------------------
// Listing scripts

/// What listing the available scripts prints.
#[derive(Debug, PartialEq, Eq)]
pub enum ListOutput {
    /// Neither place could be searched: print the message to the error
    /// stream and exit with a failure.
    Failure(String),
    /// Print the text as it is and exit with success.
    Scripts(String),
    /// No script was found: print `No scripts found.` on a line.
    NoScripts,
}

/// The mathematical value of a listing.
pub ghost enum ListOutputView {
    Failure(Seq<char>),
    Scripts(Seq<char>),
    NoScripts,
}

impl ListOutput {
    pub open spec fn view(&self) -> ListOutputView {
        match self {
            ListOutput::Failure(m) => ListOutputView::Failure(m@),
            ListOutput::Scripts(t) => ListOutputView::Scripts(t@),
            ListOutput::NoScripts => ListOutputView::NoScripts,
        }
    }
}

/// A search for scripts as text: `Err` with its message, or the written
/// list, `None` when no script was found.
pub open spec fn search_text(r: Result<Option<String>, String>) -> Result<Option<Seq<char>>, Seq<char>> {
    match r {
        Ok(Some(t)) => Ok(Some(t@)),
        Ok(None) => Ok(None),
        Err(m) => Err(m@),
    }
}

/// What listing prints from the two searches, in the working directory and
/// in the home directory: each gives the written list of the scripts it
/// found, `None` when it found none, or its error. When both fail, the
/// first error is printed; otherwise the lists found are printed, each
/// under its heading, the first heading naming the current directory only
/// when both searches found scripts.
pub open spec fn spec_list_output(
    relative: Result<Option<Seq<char>>, Seq<char>>,
    home: Result<Option<Seq<char>>, Seq<char>>,
) -> ListOutputView {
    match (relative, home) {
        (Err(m), Err(_)) => ListOutputView::Failure(m),
        _ => {
            let rel = match relative {
                Ok(Some(t)) => Some(t),
                _ => None,
            };
            let hom = match home {
                Ok(Some(t)) => Some(t),
                _ => None,
            };
            let first = match rel {
                Some(t) => if hom is Some {
                    "Available scripts in current directory:"@ + t
                } else {
                    "Available scripts:"@ + t
                },
                None => seq![],
            };
            let second = match hom {
                Some(t) => "Available global scripts:"@ + t,
                None => seq![],
            };
            if rel is None && hom is None {
                ListOutputView::NoScripts
            } else {
                ListOutputView::Scripts(first + second)
            }
        },
    }
}

/// Lists the scripts available to run.
#[derive(Debug, Clone)]
pub struct ListCommand {}

impl ListCommand {
    /// Decides what listing the available scripts prints; see
    /// `spec_list_output`.
    pub fn output(
        &self,
        relative: Result<Option<String>, String>,
        home: Result<Option<String>, String>,
    ) -> (r: ListOutput)
        ensures
            r.view() == spec_list_output(search_text(relative), search_text(home)),
    {
        if relative.is_err() && home.is_err() {
            match relative {
                Err(m) => {
                    return ListOutput::Failure(m);
                },
                Ok(_) => {
                    return ListOutput::NoScripts;
                },
            }
        }
        let rel = match relative {
            Ok(Some(t)) => Some(t),
            _ => None,
        };
        let hom = match home {
            Ok(Some(t)) => Some(t),
            _ => None,
        };
        let mut buffer = String::new();
        match &rel {
            Some(t) => {
                if hom.is_some() {
                    buffer.append("Available scripts in current directory:");
                } else {
                    buffer.append("Available scripts:");
                }
                buffer.append(t.as_str());
            },
            None => {},
        }
        match &hom {
            Some(t) => {
                buffer.append("Available global scripts:");
                buffer.append(t.as_str());
            },
            None => {},
        }
        proof {
            let first = match &rel {
                Some(t) => if hom is Some {
                    "Available scripts in current directory:"@ + t@
                } else {
                    "Available scripts:"@ + t@
                },
                None => seq![],
            };
            let second = match &hom {
                Some(t) => "Available global scripts:"@ + t@,
                None => seq![],
            };
            assert(buffer@ =~= first + second);
        }
        if rel.is_none() && hom.is_none() {
            ListOutput::NoScripts
        } else {
            ListOutput::Scripts(buffer)
        }
    }
}

// ---------------------------------------------------------------------
// Subcommands

/// Runs a script.
#[derive(Debug, Clone)]
pub struct RunCommand {
    /// The script's name or the full path to its file.
    pub script_path: String,
    /// The arguments that the script gets in `process.args`.
    pub script_args: Vec<String>,
}

/// Sets up type definitions for editors.
#[derive(Debug, Clone)]
pub struct SetupCommand {}

/// Starts the interactive prompt.
#[derive(Debug, Clone)]
pub struct ReplCommand {}

/// Builds a standalone executable.
#[derive(Debug, Clone)]
pub struct BuildCommand {
    /// The path to the input file.
    pub input: String,
    /// The path to the output file; by default the input's path with an
    /// executable extension.
    pub output: Option<String>,
    /// The target to compile for; by default the host's.
    pub target: Option<String>,
}

impl BuildCommand {
    /// The base executable to build from, for the host's target; see
    /// `base_exe_plan`.
    pub fn base_exe_plan(&self, current_target: &str) -> (r: crate::standalone::BaseExePlan)
        ensures
            match self.target {
                None => r is Current,
                Some(t) => if t@ == current_target@ {
                    r is Current
                } else {
                    r matches crate::standalone::BaseExePlan::Cached { file_name, output_extension }
                        && file_name@ == "lune-"@ + t@ + "."@
                        + crate::standalone::spec_target_exe_extension(t@) && output_extension@
                        == crate::standalone::spec_target_exe_extension(t@)
                },
            },
    {
        match &self.target {
            Some(t) => crate::standalone::base_exe_plan(Some(t.as_str()), current_target),
            None => crate::standalone::base_exe_plan(None, current_target),
        }
    }
}

/// A subcommand of the command line.
#[derive(Debug, Clone)]
pub enum CliSubcommand {
    Run(RunCommand),
    List(ListCommand),
    Setup(SetupCommand),
    Build(BuildCommand),
    Repl(ReplCommand),
}

impl Default for CliSubcommand {
    /// Without a subcommand, the interactive prompt starts.
    fn default() -> (r: Self)
        ensures
            r is Repl,
    {
        CliSubcommand::Repl(ReplCommand {})
    }
}

impl CliSubcommand {
    /// The subcommand to run: the one given, else the interactive prompt.
    pub fn or_default(sub: Option<CliSubcommand>) -> (r: CliSubcommand)
        ensures
            match sub {
                Some(s) => r == s,
                None => r is Repl,
            },
    {
        match sub {
            Some(s) => s,
            None => CliSubcommand::Repl(ReplCommand {}),
        }
    }
}

} // verus!
