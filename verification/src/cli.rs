//! The command line: which options the tool takes, and its exit codes.
use vstd::prelude::*;
use vstd::string::StrSliceExecFns;

use crate::error::MsdmError;

verus! {

pub const EXIT_SUCCESS: u8 = 0;
pub const EXIT_USAGE: u8 = 1;
pub const EXIT_NOT_FOUND: u8 = 2;
pub const EXIT_PERMISSION: u8 = 3;
pub const EXIT_PARSE_ERROR: u8 = 4;

/// The options of a run.
#[derive(Debug)]
pub struct Args {
    pub verbose: bool,
    pub file_path: Option<String>,
}

/// Why the tool stops before reading any table.
#[derive(Debug)]
pub enum ArgsExit {
    /// `-h` or `--help`: print the usage text.
    Help,
    /// `-V` or `--version`: print the version.
    Version,
    /// `-f` or `--file` came last, with no path after it.
    MissingFilePath,
    /// An argument that is not an option of the tool.
    UnknownOption(String),
}

/// What the arguments ask for.
pub enum ArgsPlan {
    Run { verbose: bool, file: Option<Seq<char>> },
    Help,
    Version,
    MissingFilePath,
    Unknown(Seq<char>),
}

/// What the arguments from `args[i]` on ask for, when the earlier ones set
/// `verbose` and `file`.
pub open spec fn args_plan(
    args: Seq<Seq<char>>,
    i: int,
    verbose: bool,
    file: Option<Seq<char>>,
) -> ArgsPlan
    decreases args.len() - i,
{
    if i < 0 || i >= args.len() {
        ArgsPlan::Run { verbose, file }
    } else {
        let a = args[i];
        if a == "-v"@ || a == "--verbose"@ {
            args_plan(args, i + 1, true, file)
        } else if a == "-f"@ || a == "--file"@ {
            if i + 1 < args.len() {
                args_plan(args, i + 2, verbose, Some(args[i + 1]))
            } else {
                ArgsPlan::MissingFilePath
            }
        } else if a == "-h"@ || a == "--help"@ {
            ArgsPlan::Help
        } else if a == "-V"@ || a == "--version"@ {
            ArgsPlan::Version
        } else {
            ArgsPlan::Unknown(a)
        }
    }
}

/// The text of each argument.
pub open spec fn args_text(args: Seq<String>) -> Seq<Seq<char>> {
    args.map_values(|s: String| s@)
}

/// The text of an optional string.
pub open spec fn opt_text(o: Option<String>) -> Option<Seq<char>> {
    match o {
        Some(s) => Some(s@),
        None => None,
    }
}

/// Whether two strings hold the same characters.
pub fn str_eq(a: &str, b: &str) -> (r: bool)
    ensures
        r == (a@ == b@),
{
    let n = a.unicode_len();
    let m = b.unicode_len();
    if n != m {
        return false;
    }
    for i in 0..n
        invariant
            n == a@.len(),
            m == b@.len(),
            n == m,
            forall|j: int| 0 <= j < i ==> a@[j] == b@[j],
    {
        if a.get_char(i) != b.get_char(i) {
            return false;
        }
    }
    assert(a@ =~= b@);
    true
}

/// Parses the arguments that follow the program name.
pub fn parse_args(args: &Vec<String>) -> (r: Result<Args, ArgsExit>)
    ensures
        match args_plan(args_text(args@), 0, false, None) {
            ArgsPlan::Run { verbose, file } => r matches Ok(a) && a.verbose == verbose && opt_text(
                a.file_path,
            ) == file,
            ArgsPlan::Help => r matches Err(ArgsExit::Help),
            ArgsPlan::Version => r matches Err(ArgsExit::Version),
            ArgsPlan::MissingFilePath => r matches Err(ArgsExit::MissingFilePath),
            ArgsPlan::Unknown(o) => r matches Err(ArgsExit::UnknownOption(s)) && s@ == o,
        },
{
    let ghost text = args_text(args@);
    let mut verbose = false;
    let mut file_path: Option<String> = None;
    let mut i: usize = 0;
    while i < args.len()
        invariant
            text == args_text(args@),
            i <= args@.len(),
            args_plan(text, 0, false, None) == args_plan(text, i as int, verbose, opt_text(file_path)),
        decreases args@.len() - i,
    {
        let a = args[i].as_str();
        assert(a@ == text[i as int]);
        if str_eq(a, "-v") || str_eq(a, "--verbose") {
            verbose = true;
            i = i + 1;
        } else if str_eq(a, "-f") || str_eq(a, "--file") {
            if i + 1 < args.len() {
                let path = args[i + 1].clone();
                assert(path@ == text[i + 1]);
                file_path = Some(path);
                i = i + 2;
            } else {
                return Err(ArgsExit::MissingFilePath);
            }
        } else if str_eq(a, "-h") || str_eq(a, "--help") {
            return Err(ArgsExit::Help);
        } else if str_eq(a, "-V") || str_eq(a, "--version") {
            return Err(ArgsExit::Version);
        } else {
            return Err(ArgsExit::UnknownOption(args[i].clone()));
        }
    }
    Ok(Args { verbose, file_path })
}

impl ArgsExit {
    /// The exit code of the tool when it stops for this reason.
    pub fn exit_code(&self) -> (r: u8)
        ensures
            r == match self {
                ArgsExit::Help | ArgsExit::Version => EXIT_SUCCESS,
                _ => EXIT_USAGE,
            },
    {
        match self {
            ArgsExit::Help | ArgsExit::Version => EXIT_SUCCESS,
            _ => EXIT_USAGE,
        }
    }
}

/// The exit code of the tool when reading the key failed with `err`.
pub fn exit_code_for_error(err: &MsdmError) -> (r: u8)
    ensures
        r == match err {
            MsdmError::NotFound => EXIT_NOT_FOUND,
            MsdmError::PermissionDenied => EXIT_PERMISSION,
            _ => EXIT_PARSE_ERROR,
        },
{
    match err {
        MsdmError::NotFound => EXIT_NOT_FOUND,
        MsdmError::PermissionDenied => EXIT_PERMISSION,
        _ => EXIT_PARSE_ERROR,
    }
}

/// Whether `a` is one of the option words of the tool.
pub open spec fn is_option_word(a: Seq<char>) -> bool {
    ||| a == "-v"@
    ||| a == "--verbose"@
    ||| a == "-f"@
    ||| a == "--file"@
    ||| a == "-h"@
    ||| a == "--help"@
    ||| a == "-V"@
    ||| a == "--version"@
}

proof fn lemma_option_words_differ()
    ensures
        "-v"@ != "-V"@,
        "-v"@ != "-h"@,
        "-v"@ != "-f"@,
        "-V"@ != "-h"@,
        "-V"@ != "-f"@,
        "-h"@ != "-f"@,
        "--verbose"@ != "--version"@,
        "--verbose"@.len() != "--help"@.len(),
        "--verbose"@.len() != "--file"@.len(),
        "--version"@.len() != "--help"@.len(),
        "--version"@.len() != "--file"@.len(),
        "--help"@ != "--file"@,
        "-v"@.len() == 2 && "-V"@.len() == 2 && "-h"@.len() == 2 && "-f"@.len() == 2,
        "--verbose"@.len() == 9 && "--version"@.len() == 9,
        "--help"@.len() == 6 && "--file"@.len() == 6,
{
    reveal_strlit("-v");
    reveal_strlit("-V");
    reveal_strlit("-h");
    reveal_strlit("-f");
    reveal_strlit("--verbose");
    reveal_strlit("--version");
    reveal_strlit("--help");
    reveal_strlit("--file");
    assert("-v"@[1] != "-V"@[1]);
    assert("-v"@[1] != "-h"@[1]);
    assert("-v"@[1] != "-f"@[1]);
    assert("-V"@[1] != "-h"@[1]);
    assert("-V"@[1] != "-f"@[1]);
    assert("-h"@[1] != "-f"@[1]);
    assert("--verbose"@[5] != "--version"@[5]);
    assert("--help"@[2] != "--file"@[2]);
}

/// What the first argument alone decides: `-h` or `--help` asks for the usage text,
/// `-V` or `--version` for the version, and a word that is no option is refused.
pub proof fn law_args_first_word(args: Seq<Seq<char>>)
    requires
        args.len() > 0,
    ensures
        args[0] == "-h"@ || args[0] == "--help"@ ==> args_plan(args, 0, false, None) is Help,
        args[0] == "-V"@ || args[0] == "--version"@ ==> args_plan(args, 0, false, None) is Version,
        !is_option_word(args[0]) ==> args_plan(args, 0, false, None) == ArgsPlan::Unknown(args[0]),
{
    lemma_option_words_differ();
}

/// `-f` or `--file` takes the next argument as the path of the table to read, and
/// is refused when nothing follows it.
pub proof fn law_args_file(args: Seq<Seq<char>>)
    requires
        args.len() > 0,
        args[0] == "-f"@ || args[0] == "--file"@,
    ensures
        args.len() == 1 ==> args_plan(args, 0, false, None) is MissingFilePath,
        args.len() >= 2 ==> args_plan(args, 0, false, None) == args_plan(
            args,
            2,
            false,
            Some(args[1]),
        ),
{
    lemma_option_words_differ();
}

/// Without arguments, the firmware is read, quietly.
pub proof fn law_args_none(args: Seq<Seq<char>>)
    requires
        args.len() == 0,
    ensures
        args_plan(args, 0, false, None) == (ArgsPlan::Run { verbose: false, file: None }),
{
}

proof fn lemma_verbose_needs_flag(
    args: Seq<Seq<char>>,
    i: int,
    file: Option<Seq<char>>,
)
    requires
        0 <= i,
        forall|j: int| 0 <= j < args.len() ==> #[trigger] args[j] != "-v"@ && args[j] != "--verbose"@,
    ensures
        args_plan(args, i, false, file) matches ArgsPlan::Run { verbose, .. } ==> !verbose,
    decreases args.len() - i,
{
    if i < args.len() {
        let a = args[i];
        if a == "-f"@ || a == "--file"@ {
            if i + 1 < args.len() {
                lemma_verbose_needs_flag(args, i + 2, Some(args[i + 1]));
            }
        }
    }
}

proof fn lemma_verbose_stays(args: Seq<Seq<char>>, i: int, file: Option<Seq<char>>)
    requires
        0 <= i,
    ensures
        args_plan(args, i, true, file) matches ArgsPlan::Run { verbose, .. } ==> verbose,
    decreases args.len() - i,
{
    if i < args.len() {
        let a = args[i];
        if a == "-v"@ || a == "--verbose"@ {
            lemma_verbose_stays(args, i + 1, file);
        } else if a == "-f"@ || a == "--file"@ {
            if i + 1 < args.len() {
                lemma_verbose_stays(args, i + 2, Some(args[i + 1]));
            }
        }
    }
}

/// Only `-v` and `--verbose` turn on the verbose report: without either word among
/// the arguments a run is quiet, and a run that starts with one of them is verbose.
pub proof fn law_args_verbose(args: Seq<Seq<char>>)
    ensures
        (forall|j: int| 0 <= j < args.len() ==> #[trigger] args[j] != "-v"@ && args[j]
            != "--verbose"@) ==> (args_plan(args, 0, false, None) matches ArgsPlan::Run {
            verbose,
            ..
        } ==> !verbose),
        args.len() > 0 && (args[0] == "-v"@ || args[0] == "--verbose"@) ==> (args_plan(
            args,
            0,
            false,
            None,
        ) matches ArgsPlan::Run { verbose, .. } ==> verbose),
{
    if forall|j: int| 0 <= j < args.len() ==> #[trigger] args[j] != "-v"@ && args[j]
        != "--verbose"@ {
        lemma_verbose_needs_flag(args, 0, None);
    }
    if args.len() > 0 && (args[0] == "-v"@ || args[0] == "--verbose"@) {
        lemma_verbose_stays(args, 1, None);
    }
}

} // verus!
