//! What each kind of command decides, apart from the file system and
//! processes that the caller drives.

use vstd::prelude::*;
use crate::config::{Replace, Run};
use crate::execution::CommandError;

verus! {

// ---------------------------------------------------------------- copy

/// How the source tree of a copy is traversed.
#[derive(Clone, Debug, PartialEq, Eq)]
pub struct WalkSettings {
    /// Whether the usual ignore conventions apply (ignore files, version
    /// control ignores, hidden files).
    pub standard_filters: bool,
    /// An ignore file name honoured in every directory, besides the usual ones.
    pub custom_ignore_file: Option<String>,
}

/// The traversal of a copy: every file when ignore rules are off; otherwise
/// the usual ignore conventions and the copy's own ignore file name.
pub fn walk_settings(copy: &crate::config::Copy) -> (r: WalkSettings)
    ensures
        r.standard_filters == copy.use_gitignore,
        copy.use_gitignore ==> r.custom_ignore_file == Some(copy.gitignore_path),
        !copy.use_gitignore ==> r.custom_ignore_file is None,
{
    if copy.use_gitignore {
        WalkSettings {
            standard_filters: true,
            custom_ignore_file: Some(copy.gitignore_path.clone()),
        }
    } else {
        WalkSettings { standard_filters: false, custom_ignore_file: None }
    }
}

/// Where a file at `relative` under the source goes: `destination/relative`.
pub fn copy_target(destination: &str, relative: &str) -> (r: String)
    ensures
        r@ == destination@ + seq!['/'] + relative@,
{
    let mut r = String::from_str(destination);
    r.append("/");
    proof {
        reveal_strlit("/");
    }
    r.append(relative);
    r
}

// ---------------------------------------------------------------- replace

#[verifier::external_type_specification]
#[verifier::external_body]
pub struct ExRegex(regex::Regex);

#[verifier::external_type_specification]
#[verifier::external_body]
pub struct ExRegexError(regex::Error);

/// Whether `pattern` is accepted by `regex::Regex::new`.
pub uninterp spec fn regex_compiles(pattern: Seq<char>) -> bool;

/// What `regex::Regex::replace_all` gives for the regex compiled from
/// `pattern`: every non-overlapping match in `text` replaced by `replacement`,
/// with `$name` and `${n}` expanded to capture groups.
pub uninterp spec fn regex_replace(
    pattern: Seq<char>,
    text: Seq<char>,
    replacement: Seq<char>,
) -> Seq<char>;

/// Relies on `regex::Regex::new`: it fails exactly on the patterns that do not
/// compile.
#[verifier::external_body]
fn compile_regex(pattern: &str) -> (r: Result<regex::Regex, regex::Error>)
    ensures
        r is Ok <==> regex_compiles(pattern@),
{
    regex::Regex::new(pattern)
}

/// A compiled regular expression, kept with the text it was compiled from.
pub struct Pattern {
    source: String,
    compiled: regex::Regex,
}

impl Pattern {
    /// The text the pattern was compiled from.
    pub closed spec fn source(&self) -> Seq<char> {
        self.source@
    }

    /// Compiles `source`.
    pub fn new(source: &str) -> (r: Result<Pattern, CommandError>)
        ensures
            r is Ok <==> regex_compiles(source@),
            r matches Ok(p) ==> p.source() == source@,
            r matches Err(e) ==> e is InvalidPattern && e->InvalidPattern_0@ == source@,
    {
        match compile_regex(source) {
            Ok(compiled) => Ok(Pattern { source: String::from_str(source), compiled }),
            Err(_) => Err(CommandError::InvalidPattern(String::from_str(source))),
        }
    }

    /// Relies on `regex::Regex::replace_all`, applied to the regex that `new`
    /// compiled from `source`.
    #[verifier::external_body]
    fn replace_all(&self, text: &str, replacement: &str) -> (r: String)
        ensures
            r@ == regex_replace(self.source(), text@, replacement@),
    {
        self.compiled.replace_all(text, replacement).into_owned()
    }
}

/// The pattern of a replace, or `InvalidPattern` where it does not compile.
pub fn replace_pattern(replace: &Replace) -> (r: Result<Pattern, CommandError>)
    ensures
        r is Ok <==> regex_compiles(replace.regex@),
        r matches Ok(p) ==> p.source() == replace.regex@,
        r matches Err(e) ==> e is InvalidPattern && e->InvalidPattern_0@ == replace.regex@,
{
    Pattern::new(replace.regex.as_str())
}

/// The new contents of a file that a replace rewrites.
pub fn replaced_content(pattern: &Pattern, replace: &Replace, content: &str) -> (r: String)
    ensures
        r@ == regex_replace(pattern.source(), content@, replace.replacement@),
{
    pattern.replace_all(content, replace.replacement.as_str())
}

/// A replace whose glob matched no entry fails with `NoFilesMatched`.
pub fn check_matches(replace: &Replace, matched: usize) -> (r: Result<(), CommandError>)
    ensures
        r is Ok <==> matched > 0,
        r is Err ==> r == Err::<(), CommandError>(
            CommandError::NoFilesMatched(replace.source),
        ),
{
    if matched == 0 {
        Err(CommandError::NoFilesMatched(replace.source.clone()))
    } else {
        Ok(())
    }
}

// ---------------------------------------------------------------- run

#[verifier::external_type_specification]
#[verifier::external_body]
pub struct ExParseError(shell_words::ParseError);

/// The words that `shell_words::split` makes of `line`, or `None` where a
/// quote is left open.
pub uninterp spec fn shell_split(line: Seq<char>) -> Option<Seq<Seq<char>>>;

pub open spec fn strings_view(v: Seq<String>) -> Seq<Seq<char>> {
    v.map_values(|s: String| s@)
}

/// Relies on `shell_words::split`: the words of a command line under shell
/// quoting and escaping; an error only for a quote left open. An empty line
/// has no words.
#[verifier::external_body]
fn split_words(line: &str) -> (r: Result<Vec<String>, shell_words::ParseError>)
    ensures
        r is Ok ==> shell_split(line@) == Some(strings_view(r->Ok_0@)),
        r is Err ==> shell_split(line@) is None,
        line@.len() == 0 ==> r is Ok && r->Ok_0@.len() == 0,
{
    shell_words::split(line)
}

/// A program and its arguments.
#[derive(Clone, Debug, PartialEq, Eq)]
pub struct Invocation {
    pub program: String,
    pub args: Vec<String>,
}

/// How a run is started: `direct` first, and `fallback`, the platform shell,
/// where the direct program cannot be launched.
#[derive(Clone, Debug, PartialEq, Eq)]
pub struct RunPlan {
    pub direct: Invocation,
    pub fallback: Invocation,
}

/// The shell of the platform and its flag for a command.
pub open spec fn shell_program(windows: bool) -> Seq<char> {
    if windows {
        seq!['c', 'm', 'd']
    } else {
        seq!['s', 'h']
    }
}

pub open spec fn shell_flag(windows: bool) -> Seq<char> {
    if windows {
        seq!['/', 'C']
    } else {
        seq!['-', 'c']
    }
}

/// `p` runs the command line `line`, split into the words `ws`: the first word
/// as the program and the rest as its arguments; else the shell, given its
/// flag and the whole line as its one script argument, so that pipes,
/// redirections and builtins work there.
pub open spec fn plan_runs(p: RunPlan, line: Seq<char>, ws: Seq<Seq<char>>, windows: bool) -> bool {
    &&& ws.len() > 0
    &&& p.direct.program@ == ws[0]
    &&& strings_view(p.direct.args@) == ws.drop_first()
    &&& p.fallback.program@ == shell_program(windows)
    &&& strings_view(p.fallback.args@) == seq![shell_flag(windows), line]
}

fn clone_words(words: &Vec<String>, from: usize, into: &mut Vec<String>)
    requires
        from <= words@.len(),
    ensures
        strings_view(final(into)@) == strings_view(old(into)@) + strings_view(words@).subrange(
            from as int,
            words@.len() as int,
        ),
{
    let ghost start = strings_view(into@);
    let mut i: usize = from;
    while i < words.len()
        invariant
            from <= i <= words@.len(),
            strings_view(into@) == start + strings_view(words@).subrange(from as int, i as int),
        decreases words@.len() - i,
    {
        let ghost prev = into@;
        into.push(words[i].clone());
        assert(strings_view(into@) =~= strings_view(prev).push(words@[i as int]@));
        assert(strings_view(words@).subrange(from as int, i + 1) =~= strings_view(
            words@,
        ).subrange(from as int, i as int).push(words@[i as int]@));
        i = i + 1;
    }
}

/// The plan of a run whose command line `command` split into `words`; a line
/// without words is `InvalidCommandLine`.
pub fn plan_from_words(command: &str, words: &Vec<String>, windows: bool) -> (r: Result<
    RunPlan,
    CommandError,
>)
    ensures
        r is Ok <==> words@.len() > 0,
        r matches Ok(p) ==> plan_runs(p, command@, strings_view(words@), windows),
        r matches Err(e) ==> e is InvalidCommandLine && e->InvalidCommandLine_0@ == command@,
{
    if words.len() == 0 {
        return Err(CommandError::InvalidCommandLine(String::from_str(command)));
    }
    let mut args: Vec<String> = Vec::new();
    clone_words(words, 1, &mut args);
    let mut shell_args: Vec<String> = Vec::new();
    let shell: String;
    if windows {
        shell_args.push(String::from_str("/C"));
        shell = String::from_str("cmd");
        proof {
            reveal_strlit("/C");
            reveal_strlit("cmd");
            assert(shell_args@[0]@ =~= shell_flag(windows));
            assert(strings_view(shell_args@) =~= seq![shell_flag(windows)]);
        }
    } else {
        shell_args.push(String::from_str("-c"));
        shell = String::from_str("sh");
        proof {
            reveal_strlit("-c");
            reveal_strlit("sh");
            assert(shell_args@[0]@ =~= shell_flag(windows));
            assert(strings_view(shell_args@) =~= seq![shell_flag(windows)]);
        }
    }
    shell_args.push(String::from_str(command));
    let ghost ws = strings_view(words@);
    assert(ws.subrange(1, ws.len() as int) =~= ws.drop_first());
    assert(strings_view(args@) =~= ws.drop_first());
    assert(shell@ =~= shell_program(windows));
    assert(strings_view(shell_args@) =~= seq![shell_flag(windows), command@]);
    Ok(
        RunPlan {
            direct: Invocation { program: words[0].clone(), args },
            fallback: Invocation { program: shell, args: shell_args },
        },
    )
}

/// The plan of a run: its command line split under shell rules, or
/// `InvalidCommandLine` where a quote is left open or no word remains.
pub fn plan_run(run: &Run, windows: bool) -> (r: Result<RunPlan, CommandError>)
    ensures
        match shell_split(run.command@) {
            Some(ws) => {
                &&& r is Ok <==> ws.len() > 0
                &&& r matches Ok(p) ==> plan_runs(p, run.command@, ws, windows)
            },
            None => r is Err,
        },
        r matches Err(e) ==> e is InvalidCommandLine && e->InvalidCommandLine_0@ == run.command@,
{
    match split_words(run.command.as_str()) {
        Ok(words) => plan_from_words(run.command.as_str(), &words, windows),
        Err(_) => Err(CommandError::InvalidCommandLine(run.command.clone())),
    }
}

/// A finished process: success exactly on a successful exit status; else
/// `CommandFailed` with the captured standard error.
pub fn run_outcome(success: bool, stderr: String) -> (r: Result<(), CommandError>)
    ensures
        r is Ok <==> success,
        !success ==> r == Err::<(), CommandError>(CommandError::CommandFailed(stderr)),
{
    if success {
        Ok(())
    } else {
        Err(CommandError::CommandFailed(stderr))
    }
}

} // verus!
