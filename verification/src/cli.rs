//! Command line interface.
//!
//! The arguments are taken apart by `lexopt`; this module decides what they ask for.

use vstd::prelude::*;

use crate::launch::views;
use crate::text::{chars_of, owned, push_str, string_of, trim, trimmed};

verus! {

/// The help text printed for `--help`.
pub const HELP: &'static str = "Breakbar - Guild Wars 2 multi-launcher

USAGE:
    breakbar [OPTIONS]

OPTIONS:
    -l, --launch <NAMES>    Launch the given accounts (comma separated) without opening the window
    -h, --help              Print this help
    -V, --version           Print the version
";

/// The version `--version` prints.
pub const VERSION: &'static str = "0.8.1";

/// What the command line asks for.
#[derive(Debug, Clone, PartialEq, Eq)]
pub enum Command {
    /// Open the window.
    Gui,
    /// Print the help.
    Help,
    /// Print the version.
    Version,
    /// Start the named accounts without opening the window.
    Launch(Vec<String>),
}

/// Why the command line was not accepted.
#[derive(Debug, Clone, PartialEq, Eq)]
pub enum CliError {
    /// `--launch` named no account.
    NoAccountNames,
    /// What the argument parser reported.
    Usage(String),
}

impl CliError {
    /// The text shown for the error.
    pub fn message(&self) -> (r: String)
        ensures
            match self {
                CliError::NoAccountNames => r@ == "--launch requires at least one account name"@,
                CliError::Usage(m) => r@ == m@,
            },
    {
        match self {
            CliError::NoAccountNames => owned("--launch requires at least one account name"),
            CliError::Usage(m) => owned(m.as_str()),
        }
    }
}

/// One item of the command line, as the argument parser hands it out.
#[derive(Debug, Clone, PartialEq, Eq)]
pub enum CliArg {
    /// A short option such as `-l`.
    Short(char),
    /// A long option such as `--launch` (without the dashes).
    Long(String),
    /// A free-standing value.
    Value(String),
}

/// `lexopt::Parser`, the state of the argument parser, carried through as it is.
#[verifier::external_type_specification]
#[verifier::external_body]
pub struct ExParser(lexopt::Parser);

/// `lexopt::Error`, an error of the argument parser, carried through as it is.
#[verifier::external_type_specification]
#[verifier::external_body]
pub struct ExLexoptError(lexopt::Error);

/// The arguments a `lexopt::Parser` has not read yet, each as text.
pub uninterp spec fn unread_args(parser: lexopt::Parser) -> Seq<Seq<char>>;

/// Whether a `lexopt::Parser` stands between two arguments: no value is left over from an
/// `--option=value`, no character of a `-abc` chain is unread, and no `--` has been read.
pub uninterp spec fn between_args(parser: lexopt::Parser) -> bool;

/// The arguments after the program's name.
pub open spec fn after_program(args: Seq<Seq<char>>) -> Seq<Seq<char>> {
    if args.len() == 0 {
        Seq::empty()
    } else {
        args.drop_first()
    }
}

/// The first position at or after `i` that holds a `=`, or the end of `s`.
pub open spec fn next_equals(s: Seq<char>, i: int) -> int
    decreases s.len() - i,
{
    if i < 0 || i >= s.len() {
        s.len() as int
    } else if s[i] == '=' {
        i
    } else {
        next_equals(s, i + 1)
    }
}

/// `next_equals` lies between its start and the end of the text.
pub proof fn lemma_next_equals(s: Seq<char>, i: int)
    requires
        0 <= i <= s.len(),
    ensures
        i <= next_equals(s, i) <= s.len(),
    decreases s.len() - i,
{
    if i < s.len() && s[i] != '=' {
        lemma_next_equals(s, i + 1);
    }
}

/// Whether `f` is a long option: `--` and more, as in `--name` or `--name=value`.
pub open spec fn is_long_form(f: Seq<char>) -> bool {
    f.len() > 2 && f[0] == '-' && f[1] == '-'
}

/// The name of the long option `f`: what follows `--`, up to a `=`.
pub open spec fn long_name(f: Seq<char>) -> Seq<char> {
    f.subrange(2, next_equals(f, 2))
}

/// The value written into the long option `f` after its `=`, if it has one.
pub open spec fn long_inline(f: Seq<char>) -> Option<Seq<char>> {
    if next_equals(f, 2) < f.len() {
        Some(f.skip(next_equals(f, 2) + 1))
    } else {
        None
    }
}

/// Whether `f` starts with a short option: `-` and a character that is not `-`, as in `-c`,
/// `-abc` or `-cvalue`.
pub open spec fn is_short_form(f: Seq<char>) -> bool {
    f.len() >= 2 && f[0] == '-' && f[1] != '-'
}

/// What follows the first short option in `f`, without a leading `=`, if anything does: the value
/// of that option when it takes one.
pub open spec fn short_inline(f: Seq<char>) -> Option<Seq<char>> {
    if f.len() > 2 {
        let rest = f.skip(2);
        Some(
            if rest[0] == '=' {
                rest.drop_first()
            } else {
                rest
            },
        )
    } else {
        None
    }
}

/// Whether `f` is a free-standing value: empty, `-` alone, or not starting with `-`.
pub open spec fn is_value_form(f: Seq<char>) -> bool {
    f.len() == 0 || f.len() == 1 || f[0] != '-'
}

/// The value written into the option `f` itself, if any.
pub open spec fn inline_of(f: Seq<char>) -> Option<Seq<char>> {
    if is_long_form(f) {
        long_inline(f)
    } else if is_short_form(f) {
        short_inline(f)
    } else {
        None
    }
}

/// The value a `lexopt::Parser` hands to `value()` without reading another argument: what is left
/// of an `--option=value`, or the unread rest of a `-abc` chain without a leading `=`; `None` in
/// every other state.
pub uninterp spec fn inline_value(parser: lexopt::Parser) -> Option<Seq<char>>;

/// Calls `lexopt::Parser::from_iter`, which keeps the arguments for parsing; the first of them
/// is the program's name. As its source shows, the parser starts between arguments, with all
/// arguments after the program's name unread.
#[verifier::external_body]
fn new_parser(args: Vec<String>) -> (r: lexopt::Parser)
    ensures
        between_args(r),
        unread_args(r) == after_program(views(args@)),
{
    lexopt::Parser::from_iter(args)
}

/// Calls `lexopt::Parser::next`: the next option or value, `None` at the end, or the parser's
/// error. A value that is not valid Unicode is handed out with its invalid parts replaced.
/// As `lexopt`'s source shows, a parser between arguments gives `None` when none is left, and
/// otherwise reads the next argument `f`: `--name` or `--name=value` as the long option `name`
/// (keeping `value` for `value()`), `-c...` as the short option `c` (keeping what follows for
/// `value()`), `--` as the end of the options (everything after it is a value), anything else as
/// a value. Nothing is stated of what a parser that is not between arguments gives.
#[verifier::external_body]
fn next_arg(parser: &mut lexopt::Parser) -> (r: Result<Option<CliArg>, lexopt::Error>)
    ensures
        between_args(*old(parser)) && unread_args(*old(parser)).len() == 0 ==> r matches Ok(None),
        between_args(*old(parser)) && unread_args(*old(parser)).len() > 0 ==> {
            let a = unread_args(*old(parser));
            let f = a[0];
            &&& f == "--"@ && a.len() == 1 ==> (r matches Ok(None))
            &&& f == "--"@ && a.len() > 1 ==> (r matches Ok(Some(CliArg::Value(s))) && s@ == a[1])
            &&& is_long_form(f) ==> (r matches Ok(Some(CliArg::Long(s))) && s@ == long_name(f))
            &&& is_short_form(f) ==> (r matches Ok(Some(CliArg::Short(c))) && c == f[1])
            &&& is_value_form(f) ==> (r matches Ok(Some(CliArg::Value(s))) && s@ == f)
            &&& is_long_form(f) || is_short_form(f) || is_value_form(f) ==> unread_args(
                *final(parser),
            ) == a.drop_first() && (if inline_of(f) is Some {
                inline_value(*final(parser)) == inline_of(f)
            } else {
                between_args(*final(parser))
            })
        },
{
    match parser.next()? {
        None => Ok(None),
        Some(lexopt::Arg::Short(c)) => Ok(Some(CliArg::Short(c))),
        Some(lexopt::Arg::Long(s)) => Ok(Some(CliArg::Long(s.to_owned()))),
        Some(lexopt::Arg::Value(v)) => Ok(Some(CliArg::Value(v.to_string_lossy().into_owned()))),
    }
}

/// Calls `lexopt::Parser::value` for the value of the option just read, taken as text with
/// `lexopt::ValueExt::string` (an error if it is not valid Unicode). As `lexopt`'s source shows,
/// a value kept from the option itself is taken first, and the parser is then between arguments;
/// a parser between arguments takes the next argument as the value, whatever it looks like, and
/// fails when none is left. Nothing is stated of other states.
#[verifier::external_body]
fn option_value(parser: &mut lexopt::Parser) -> (r: Result<String, lexopt::Error>)
    ensures
        inline_value(*old(parser)) is Some ==> (r matches Ok(v) && v@ == inline_value(
            *old(parser),
        )->0 && between_args(*final(parser)) && unread_args(*final(parser)) == unread_args(
            *old(parser),
        )),
        between_args(*old(parser)) && unread_args(*old(parser)).len() == 0 ==> r is Err,
        between_args(*old(parser)) && unread_args(*old(parser)).len() > 0 ==> (r matches Ok(v)
            && v@ == unread_args(*old(parser))[0] && between_args(*final(parser)) && unread_args(
            *final(parser),
        ) == unread_args(*old(parser)).drop_first()),
{
    lexopt::ValueExt::string(parser.value()?)
}

/// Calls `lexopt::Arg::unexpected` for `arg` and formats the error with its `Display`. As
/// `lexopt`'s source shows, an option `-c` gives `invalid option '-c'` and `--name` gives
/// `invalid option '--name'`; what a value gives (its `Debug` form) is not stated.
#[verifier::external_body]
fn unexpected_message(arg: CliArg) -> (r: String)
    ensures
        match arg {
            CliArg::Short(c) => r@ == "invalid option '-"@ + seq![c] + "'"@,
            CliArg::Long(s) => r@ == "invalid option '--"@ + s@ + "'"@,
            CliArg::Value(_) => true,
        },
{
    match arg {
        CliArg::Short(c) => lexopt::Arg::Short(c).unexpected().to_string(),
        CliArg::Long(s) => lexopt::Arg::Long(&s).unexpected().to_string(),
        CliArg::Value(v) => lexopt::Arg::Value(v.into()).unexpected().to_string(),
    }
}

/// Formats a `lexopt::Error` with its `Display`. Nothing is stated of the text.
#[verifier::external_body]
fn error_text(error: &lexopt::Error) -> String {
    error.to_string()
}

/// What an item of the command line asks for.
#[derive(Debug, Clone, Copy, PartialEq, Eq, Structural)]
pub enum ArgAction {
    Help,
    Version,
    /// `--launch`, whose value names the accounts.
    Launch,
    /// Anything else, which is an error.
    Unexpected,
}

/// What `arg` asks for.
pub open spec fn action_spec(arg: CliArg) -> ArgAction {
    match arg {
        CliArg::Short(c) => if c == 'h' {
            ArgAction::Help
        } else if c == 'V' {
            ArgAction::Version
        } else if c == 'l' {
            ArgAction::Launch
        } else {
            ArgAction::Unexpected
        },
        CliArg::Long(s) => if s@ == "help"@ {
            ArgAction::Help
        } else if s@ == "version"@ {
            ArgAction::Version
        } else if s@ == "launch"@ {
            ArgAction::Launch
        } else {
            ArgAction::Unexpected
        },
        CliArg::Value(_) => ArgAction::Unexpected,
    }
}

/// What `arg` asks for: `-h`/`--help`, `-V`/`--version`, `-l`/`--launch`, or something unknown.
pub fn arg_action(arg: &CliArg) -> (r: ArgAction)
    ensures
        r == action_spec(*arg),
{
    match arg {
        CliArg::Short(c) => {
            if *c == 'h' {
                ArgAction::Help
            } else if *c == 'V' {
                ArgAction::Version
            } else if *c == 'l' {
                ArgAction::Launch
            } else {
                ArgAction::Unexpected
            }
        },
        CliArg::Long(s) => {
            if crate::text::str_eq(s.as_str(), "help") {
                ArgAction::Help
            } else if crate::text::str_eq(s.as_str(), "version") {
                ArgAction::Version
            } else if crate::text::str_eq(s.as_str(), "launch") {
                ArgAction::Launch
            } else {
                ArgAction::Unexpected
            }
        },
        CliArg::Value(_) => ArgAction::Unexpected,
    }
}

/// The first position at or after `i` that holds a `,`, or the end of `s`.
pub open spec fn next_comma(s: Seq<char>, i: int) -> int
    decreases s.len() - i,
{
    if i < 0 || i >= s.len() {
        s.len() as int
    } else if s[i] == ',' {
        i
    } else {
        next_comma(s, i + 1)
    }
}

/// `next_comma` lies between its start and the end of the text.
pub proof fn lemma_next_comma(s: Seq<char>, i: int)
    requires
        0 <= i <= s.len(),
    ensures
        i <= next_comma(s, i) <= s.len(),
    decreases s.len() - i,
{
    if i < s.len() && s[i] != ',' {
        lemma_next_comma(s, i + 1);
    }
}

/// The account names in `s` from position `i` on: the pieces between commas, trimmed, without
/// the empty ones.
pub open spec fn names_from(s: Seq<char>, i: int) -> Seq<Seq<char>>
    decreases s.len() - i,
{
    if i < 0 || i > s.len() {
        Seq::empty()
    } else {
        let j = next_comma(s, i);
        proof {
            lemma_next_comma(s, i);
        }
        let piece = trim(s.subrange(i, j));
        let first = if piece.len() > 0 {
            seq![piece]
        } else {
            Seq::empty()
        };
        if j < s.len() {
            first + names_from(s, j + 1)
        } else {
            first
        }
    }
}

/// The account names `--launch` was given: the comma-separated pieces of `value`, trimmed, without
/// the empty ones.
pub fn launch_names(value: &str) -> (r: Vec<String>)
    ensures
        views(r@) == names_from(value@, 0),
{
    let s = chars_of(value);
    let n = s.len();
    let mut names: Vec<String> = Vec::new();
    let mut i: usize = 0;
    let mut done = false;
    while !done
        invariant
            n == s@.len(),
            s@ == value@,
            i <= n,
            !done ==> views(names@) + names_from(s@, i as int) == names_from(s@, 0),
            done ==> views(names@) == names_from(s@, 0),
        decreases n - i + (if done { 0int } else { 1int }),
    {
        let mut j = i;
        proof {
            lemma_next_comma(s@, i as int);
        }
        while j < n && s[j] != ','
            invariant
                i <= j <= n == s@.len(),
                next_comma(s@, i as int) == next_comma(s@, j as int),
            decreases n - j,
        {
            j = j + 1;
        }
        let piece = crate::text::slice_chars(s.as_slice(), i, j);
        let t = trimmed(piece.as_slice());
        let ghost before = names@;
        if t.len() > 0 {
            let name = string_of(t.as_slice());
            names.push(name);
            assert(views(names@) =~= views(before) + seq![t@]);
        } else {
            assert(views(names@) =~= views(before) + Seq::<Seq<char>>::empty());
        }
        if j < n {
            assert(views(names@) + names_from(s@, j + 1) =~= views(before) + names_from(
                s@,
                i as int,
            ));
            i = j + 1;
        } else {
            assert(views(names@) =~= views(before) + names_from(s@, i as int));
            done = true;
        }
    }
    names
}

/// The command of `--launch` with the value `value`: it must name at least one account.
pub fn launch_command(value: &str) -> (r: Result<Command, CliError>)
    ensures
        names_from(value@, 0).len() == 0 ==> r == Err::<Command, CliError>(
            CliError::NoAccountNames,
        ),
        names_from(value@, 0).len() > 0 ==> r is Ok && (match r->Ok_0 {
            Command::Launch(names) => views(names@) == names_from(value@, 0),
            _ => false,
        }),
{
    let names = launch_names(value);
    if names.len() == 0 {
        Err(CliError::NoAccountNames)
    } else {
        Ok(Command::Launch(names))
    }
}

/// What reading one item of the command line leads to.
#[derive(Debug, PartialEq, Eq)]
pub enum Step {
    /// Read on: this is the command so far.
    Next(Command),
    /// The command line is decided.
    Done(Result<Command, CliError>),
}

/// What reading `arg` leads to. `value` is what the parser gave as the value of `--launch` (its
/// error already as text); it is looked at only for `--launch`, which must have one.
pub fn step(arg: CliArg, value: Option<Result<String, String>>) -> (r: Step)
    requires
        action_spec(arg) == ArgAction::Launch ==> value is Some,
    ensures
        action_spec(arg) == ArgAction::Help ==> r == Step::Done(Ok::<Command, CliError>(Command::Help)),
        action_spec(arg) == ArgAction::Version ==> r == Step::Done(
            Ok::<Command, CliError>(Command::Version),
        ),
        action_spec(arg) == ArgAction::Launch ==> match value {
            Some(Err(e)) => r == Step::Done(Err::<Command, CliError>(CliError::Usage(e))),
            Some(Ok(v)) => if names_from(v@, 0).len() == 0 {
                r == Step::Done(Err::<Command, CliError>(CliError::NoAccountNames))
            } else {
                r matches Step::Next(Command::Launch(names)) && views(names@) == names_from(v@, 0)
                    && names@.len() > 0
            },
            None => false,
        },
        action_spec(arg) == ArgAction::Unexpected ==> (r matches Step::Done(
            Err(CliError::Usage(m)),
        ) && match arg {
            CliArg::Short(c) => m@ == "invalid option '-"@ + seq![c] + "'"@,
            CliArg::Long(s) => m@ == "invalid option '--"@ + s@ + "'"@,
            CliArg::Value(_) => true,
        }),
{
    match arg_action(&arg) {
        ArgAction::Help => Step::Done(Ok(Command::Help)),
        ArgAction::Version => Step::Done(Ok(Command::Version)),
        ArgAction::Launch => match value {
            Some(Ok(v)) => match launch_command(v.as_str()) {
                Ok(command) => {
                    proof {
                        if command is Launch {
                            assert(views(command->Launch_0@).len() == command->Launch_0@.len());
                        }
                    }
                    Step::Next(command)
                },
                Err(e) => Step::Done(Err(e)),
            },
            Some(Err(e)) => Step::Done(Err(CliError::Usage(e))),
            None => Step::Done(Err(CliError::NoAccountNames)),
        },
        ArgAction::Unexpected => Step::Done(Err(CliError::Usage(unexpected_message(arg)))),
    }
}

/// What the argument `f` asks for, by its first option.
pub open spec fn item_action(f: Seq<char>) -> ArgAction {
    if is_long_form(f) {
        let name = long_name(f);
        if name == "help"@ {
            ArgAction::Help
        } else if name == "version"@ {
            ArgAction::Version
        } else if name == "launch"@ {
            ArgAction::Launch
        } else {
            ArgAction::Unexpected
        }
    } else if is_short_form(f) {
        let c = f[1];
        if c == 'h' {
            ArgAction::Help
        } else if c == 'V' {
            ArgAction::Version
        } else if c == 'l' {
            ArgAction::Launch
        } else {
            ArgAction::Unexpected
        }
    } else {
        ArgAction::Unexpected
    }
}

/// The accounts of `command` so far: `None` while it is `Gui`.
pub open spec fn launch_of(command: Command) -> Option<Seq<Seq<char>>> {
    match command {
        Command::Launch(names) => Some(views(names@)),
        _ => None,
    }
}

/// What the command line ends in once nothing is left to read, with the accounts `launch` named.
pub open spec fn ends_in(r: Result<Command, CliError>, launch: Option<Seq<Seq<char>>>) -> bool {
    match launch {
        None => r == Ok::<Command, CliError>(Command::Gui),
        Some(n) => r matches Ok(Command::Launch(names)) && views(names@) == n,
    }
}

/// Whether `r` is what the arguments `a` answer, read with the accounts `launch` named so far.
/// The value of `--launch` is the one written into the option (`--launch=v`, `-lv`, `-l=v`) or
/// else the next argument, whatever it looks like; after `--` every argument is a value, and so
/// an error.
pub open spec fn answers(
    r: Result<Command, CliError>,
    a: Seq<Seq<char>>,
    launch: Option<Seq<Seq<char>>>,
) -> bool
    decreases a.len(),
{
    if a.len() == 0 || (a[0] == "--"@ && a.len() == 1) {
        ends_in(r, launch)
    } else if a[0] == "--"@ {
        r matches Err(CliError::Usage(_))
    } else {
        let f = a[0];
        match item_action(f) {
            ArgAction::Help => r == Ok::<Command, CliError>(Command::Help),
            ArgAction::Version => r == Ok::<Command, CliError>(Command::Version),
            ArgAction::Launch => match inline_of(f) {
                Some(v) => if names_from(v, 0).len() == 0 {
                    r == Err::<Command, CliError>(CliError::NoAccountNames)
                } else {
                    answers(r, a.drop_first(), Some(names_from(v, 0)))
                },
                None => if a.len() < 2 {
                    r matches Err(CliError::Usage(_))
                } else if names_from(a[1], 0).len() == 0 {
                    r == Err::<Command, CliError>(CliError::NoAccountNames)
                } else {
                    answers(r, a.skip(2), Some(names_from(a[1], 0)))
                },
            },
            ArgAction::Unexpected => r matches Err(CliError::Usage(m)) && (is_long_form(f) ==> m@
                == "invalid option '--"@ + long_name(f) + "'"@) && (is_short_form(f) ==> m@
                == "invalid option '-"@ + seq![f[1]] + "'"@),
        }
    }
}

/// Every argument is `--`, a long option, a short option or a value.
proof fn lemma_forms(f: Seq<char>)
    ensures
        f == "--"@ || is_long_form(f) || is_short_form(f) || is_value_form(f),
        f == "--"@ ==> !is_long_form(f) && !is_short_form(f) && !is_value_form(f),
{
    reveal_strlit("--");
    if f.len() == 2 && f[0] == '-' && f[1] == '-' {
        assert(f =~= "--"@);
    }
}

/// Parses the process arguments. The first item is the program name and is skipped. Options are
/// read in order: `--help` and `--version` answer at once, each `--launch` (whose value must name
/// at least one account) replaces the accounts of an earlier one, and anything else is an error.
/// What each item leads to is `step`'s; the result is `answers`'.
pub fn parse(args: Vec<String>) -> (r: Result<Command, CliError>)
    ensures
        r matches Ok(Command::Launch(names)) ==> names@.len() > 0,
        answers(r, after_program(views(args@)), None),
{
    let ghost all = after_program(views(args@));
    let mut budget: usize = 1;
    for i in 0..args.len()
        invariant
            budget >= i + 1 || budget == usize::MAX,
    {
        let step_len = chars_of(args[i].as_str()).len();
        let step_len = if step_len < usize::MAX {
            step_len + 1
        } else {
            step_len
        };
        budget = if budget < usize::MAX - step_len {
            budget + step_len
        } else {
            usize::MAX
        };
    }
    let mut parser = new_parser(args);
    let mut command = Command::Gui;
    // Every item the parser hands out uses up at least one character or one argument, so there
    // are never more items than that.
    while budget > 0
        invariant
            all == after_program(views(args@)),
            command is Gui || command is Launch,
            command matches Command::Launch(names) ==> names@.len() > 0,
            between_args(parser),
            budget > unread_args(parser).len(),
            forall|r: Result<Command, CliError>| #[trigger]
                answers(r, unread_args(parser), launch_of(command)) ==> answers(r, all, None),
        decreases budget,
    {
        budget = budget - 1;
        let ghost a = unread_args(parser);
        let ghost launch = launch_of(command);
        proof {
            if a.len() > 0 {
                lemma_forms(a[0]);
            }
        }
        let arg = match next_arg(&mut parser) {
            Err(e) => {
                return Err(CliError::Usage(error_text(&e)));
            },
            Ok(None) => {
                proof {
                    assert(answers(Ok(command), a, launch));
                }
                return Ok(command);
            },
            Ok(Some(arg)) => arg,
        };
        let action = arg_action(&arg);
        proof {
            if a[0] != "--"@ {
                assert(action == item_action(a[0]));
            }
        }
        let value = match action {
            ArgAction::Launch => match option_value(&mut parser) {
                Ok(v) => Some(Ok(v)),
                Err(e) => Some(Err(error_text(&e))),
            },
            _ => None,
        };
        proof {
            if action == ArgAction::Launch && inline_of(a[0]) is None && a.len() >= 2 {
                assert(unread_args(parser) =~= a.skip(2));
            }
        }
        match step(arg, value) {
            Step::Next(c) => {
                command = c;
                proof {
                    assert forall|r: Result<Command, CliError>| #[trigger]
                        answers(r, unread_args(parser), launch_of(command)) implies answers(
                        r,
                        all,
                        None,
                    ) by {
                        assert(answers(r, a, launch));
                    }
                }
            },
            Step::Done(r) => {
                proof {
                    assert(answers(r, a, launch));
                }
                return r;
            },
        }
    }
    Ok(command)
}

} // verus!
