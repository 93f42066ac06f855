//! Command-line grammars and their parser.
//!
//! A grammar is a tree of `Command`s; each command has arguments (flags,
//! options with a value, positionals and one trailing list taken after `--`).
//! `Command::try_get_matches_from` reads a command line against the tree and
//! gives the `ArgMatches` of every command on the chosen path, or the first
//! error met.  `parse_outcome` states what it gives on every input.
use vstd::prelude::*;
use crate::text::{copy_str, str_eq, join, join_strings};
use crate::help::{help_text, help_text_exec};

verus! {

/// How an argument takes its values.
#[derive(PartialEq, Eq, Structural, Clone, Copy)]
pub enum ArgKind {
    /// `--name` or `-n`, without a value.
    Flag,
    /// `--name VALUE`, `--name=VALUE`, `-n VALUE` or `-nVALUE`.
    Value,
    /// A value given by its position.
    Positional,
    /// Every value after `--` once the positionals are filled.
    Trailing,
}

/// One argument of a command.
pub struct Arg {
    pub id: String,
    pub short: Option<char>,
    pub long: Option<String>,
    pub kind: ArgKind,
    pub required: bool,
    pub default: Option<String>,
    /// Arguments that must be given whenever this one is.
    pub needs: Vec<String>,
    /// Arguments that must not be given together with this one.
    pub conflicts: Vec<String>,
    /// Each value must be a decimal `u32`.
    pub numeric: bool,
    pub value_name: String,
    pub help: String,
}

/// A set of arguments of which at most one may be given, and, when the group
/// is required, at least one.
pub struct Group {
    pub id: String,
    pub members: Vec<String>,
    pub required: bool,
}

/// A command, with its arguments and subcommands.
pub struct Command {
    pub name: String,
    pub about: String,
    pub args: Vec<Arg>,
    pub groups: Vec<Group>,
    pub subcommands: Vec<Command>,
    pub subcommand_required: bool,
}

/// Why a command line was not accepted (or asks for help or the version).
#[derive(PartialEq, Eq, Structural, Clone, Copy, Debug)]
pub enum CliErrorKind {
    UnknownArgument,
    UnexpectedValue,
    MissingValue,
    UnrecognizedSubcommand,
    UnexpectedArgument,
    Duplicate,
    MissingSubcommand,
    MissingRequired,
    Conflict,
    InvalidValue,
    DisplayHelp,
    DisplayVersion,
    /// A command that needs a subcommand got no argument at all: its help
    /// is shown, as an error.
    HelpForMissingSubcommand,
}

/// An error, with the token, argument or command it is about.
#[derive(Debug)]
pub struct CliError {
    pub kind: CliErrorKind,
    pub detail: String,
}

/// What the parser found for one command of the chosen path.
#[derive(Debug)]
pub struct ArgMatches {
    pub name: String,
    /// The values of each argument that has some, given or by default, in
    /// the order of the command's arguments.
    pub values: Vec<(String, Vec<String>)>,
    /// The flags that were given.
    pub flags: Vec<String>,
    /// The chosen subcommand.
    pub sub: Option<Box<ArgMatches>>,
}

// ---------------------------------------------------------------------------
// Specification

/// The first index `i` in `from..n` with `p(i)`.
pub open spec fn first_from(n: nat, from: nat, p: spec_fn(nat) -> bool) -> Option<nat>
    decreases n - from,
{
    if from >= n {
        None
    } else if p(from) {
        Some(from)
    } else {
        first_from(n, from + 1, p)
    }
}

/// The argument that `--name` stands for.
pub open spec fn find_long(args: Seq<Arg>, name: Seq<char>) -> Option<nat> {
    first_from(args.len(), 0, |i: nat| long_named(args, name, i))
}

/// Argument `i` is an option or flag whose long name is `name`.
pub open spec fn long_named(args: Seq<Arg>, name: Seq<char>, i: nat) -> bool {
    (args[i as int].kind == ArgKind::Flag || args[i as int].kind == ArgKind::Value) && (match args[i as int].long {
        Some(l) => l@ == name,
        None => false,
    })
}

/// The argument that `-c` stands for.
pub open spec fn find_short(args: Seq<Arg>, c: char) -> Option<nat> {
    first_from(
        args.len(),
        0,
        |i: nat|
            (args[i as int].kind == ArgKind::Flag || args[i as int].kind == ArgKind::Value)
                && args[i as int].short == Some(c),
    )
}

/// The subcommand named `name`.
pub open spec fn find_sub(subs: Seq<Command>, name: Seq<char>) -> Option<nat> {
    first_from(subs.len(), 0, |i: nat| subs[i as int].name@ == name)
}

/// The first positional argument at or after `from`.
pub open spec fn next_positional(args: Seq<Arg>, from: nat) -> Option<nat> {
    first_from(args.len(), from, |i: nat| args[i as int].kind == ArgKind::Positional)
}

/// The trailing argument.
pub open spec fn find_trailing(args: Seq<Arg>) -> Option<nat> {
    first_from(args.len(), 0, |i: nat| args[i as int].kind == ArgKind::Trailing)
}

/// The state of one command of the path while the line is read: the index of
/// the command among its parent's subcommands, the occurrences of its
/// arguments so far (argument index and value), and where the search for the
/// next positional starts.
pub struct LevelState {
    pub sub: nat,
    pub occs: Seq<(nat, Option<Seq<char>>)>,
    pub cursor: nat,
}

/// The state of the reader: the path so far, whether `--` was seen, and the
/// option that waits for its value.
pub struct ParseState {
    pub levels: Seq<LevelState>,
    pub dashdash: bool,
    pub pending: Option<nat>,
    /// `help` was read where a subcommand was expected: the tokens after it
    /// name the command whose help is asked for.
    pub help: bool,
}

/// The state before the first token.
pub open spec fn initial_state() -> ParseState {
    ParseState {
        levels: seq![LevelState { sub: 0, occs: Seq::empty(), cursor: 0 }],
        dashdash: false,
        pending: None,
        help: false,
    }
}

/// The command reached from `c` by the subcommand indices `subs` (an index
/// out of range leaves the command as it is).
pub open spec fn cmd_at(c: Command, subs: Seq<nat>) -> Command
    decreases subs.len(),
{
    if subs.len() == 0 {
        c
    } else if subs[0] < c.subcommands@.len() {
        cmd_at(c.subcommands@[subs[0] as int], subs.drop_first())
    } else {
        cmd_at(c, subs.drop_first())
    }
}

/// The subcommand indices of the levels below the root.
pub open spec fn sub_path(levels: Seq<LevelState>) -> Seq<nat> {
    levels.drop_first().map_values(|l: LevelState| l.sub)
}

/// The command of level `k`.
pub open spec fn level_cmd(root: Command, levels: Seq<LevelState>, k: int) -> Command {
    cmd_at(root, sub_path(levels.take(k + 1)))
}

/// The command whose arguments the reader matches now.
pub open spec fn current_cmd(root: Command, st: ParseState) -> Command {
    level_cmd(root, st.levels, st.levels.len() - 1)
}

/// The names of the commands on the path so far, from the root down.
pub open spec fn path_names(root: Command, st: ParseState) -> Seq<Seq<char>> {
    Seq::new(st.levels.len(), |k: int| level_cmd(root, st.levels, k).name@)
}

/// The command path so far, as typed: the names separated by spaces.
pub open spec fn path_text(root: Command, st: ParseState) -> Seq<char> {
    join(path_names(root, st), " "@)
}

/// An error value.
pub open spec fn err(kind: CliErrorKind, detail: Seq<char>) -> Result<ParseState, (CliErrorKind, Seq<char>)> {
    Err((kind, detail))
}

/// `st` with one more occurrence of argument `a` at the current level.
pub open spec fn record(st: ParseState, a: nat, v: Option<Seq<char>>) -> ParseState {
    let last = st.levels.last();
    ParseState {
        levels: st.levels.update(
            st.levels.len() - 1,
            LevelState { occs: last.occs.push((a, v)), ..last },
        ),
        ..st
    }
}

/// Whether a token reads as an option rather than a value.
pub open spec fn is_dash_token(t: Seq<char>) -> bool {
    t.len() > 1 && t[0] == '-'
}

/// The position of the first `=` in `s`.
pub open spec fn eq_pos(s: Seq<char>) -> Option<nat> {
    first_from(s.len(), 0, |i: nat| s[i as int] == '=')
}

/// `--name` or `--name=value` (`body` is the token without its two dashes).
pub open spec fn step_long(root: Command, st: ParseState, tok: Seq<char>, body: Seq<char>) -> Result<
    ParseState,
    (CliErrorKind, Seq<char>),
> {
    let name = match eq_pos(body) {
        Some(p) => body.take(p as int),
        None => body,
    };
    let args = current_cmd(root, st).args@;
    if name == "help"@ {
        err(CliErrorKind::DisplayHelp, help_text(current_cmd(root, st), path_text(root, st)))
    } else if name == "version"@ && st.levels.len() == 1 {
        err(CliErrorKind::DisplayVersion, Seq::empty())
    } else {
        match find_long(args, name) {
            None => err(CliErrorKind::UnknownArgument, tok),
            Some(a) => match eq_pos(body) {
                Some(p) => if args[a as int].kind == ArgKind::Flag {
                    err(CliErrorKind::UnexpectedValue, tok)
                } else {
                    Ok(record(st, a, Some(body.skip((p + 1) as int))))
                },
                None => if args[a as int].kind == ArgKind::Flag {
                    Ok(record(st, a, None))
                } else {
                    Ok(ParseState { pending: Some(a), ..st })
                },
            },
        }
    }
}

/// A cluster of short options (`cs` is the token without its dash).
pub open spec fn step_short(root: Command, st: ParseState, cs: Seq<char>) -> Result<
    ParseState,
    (CliErrorKind, Seq<char>),
>
    decreases cs.len(),
{
    if cs.len() == 0 {
        Ok(st)
    } else {
        let c = cs[0];
        let args = current_cmd(root, st).args@;
        if c == 'h' {
            err(CliErrorKind::DisplayHelp, help_text(current_cmd(root, st), path_text(root, st)))
        } else if c == 'V' && st.levels.len() == 1 {
            err(CliErrorKind::DisplayVersion, Seq::empty())
        } else {
            match find_short(args, c) {
                None => err(CliErrorKind::UnknownArgument, seq!['-', c]),
                Some(a) => if args[a as int].kind == ArgKind::Flag {
                    step_short(root, record(st, a, None), cs.drop_first())
                } else {
                    let rest = cs.drop_first();
                    if rest.len() == 0 {
                        Ok(ParseState { pending: Some(a), ..st })
                    } else if rest[0] == '=' {
                        Ok(record(st, a, Some(rest.drop_first())))
                    } else {
                        Ok(record(st, a, Some(rest)))
                    }
                },
            }
        }
    }
}

/// A value given by position.
pub open spec fn step_positional(root: Command, st: ParseState, tok: Seq<char>) -> Result<
    ParseState,
    (CliErrorKind, Seq<char>),
> {
    let c = current_cmd(root, st);
    let last = st.levels.last();
    match next_positional(c.args@, last.cursor) {
        Some(p) => {
            let st2 = record(st, p, Some(tok));
            let l2 = st2.levels.last();
            Ok(
                ParseState {
                    levels: st2.levels.update(
                        st2.levels.len() - 1,
                        LevelState { cursor: p + 1, ..l2 },
                    ),
                    ..st2
                },
            )
        },
        None => if st.dashdash {
            match find_trailing(c.args@) {
                Some(t) => Ok(record(st, t, Some(tok))),
                None => err(CliErrorKind::UnexpectedArgument, tok),
            }
        } else {
            err(CliErrorKind::UnexpectedArgument, tok)
        },
    }
}

/// What one token does to the reader's state.
pub open spec fn step(root: Command, st: ParseState, tok: Seq<char>) -> Result<
    ParseState,
    (CliErrorKind, Seq<char>),
> {
    let c = current_cmd(root, st);
    if st.help {
        match find_sub(c.subcommands@, tok) {
            Some(s) => Ok(
                ParseState {
                    levels: st.levels.push(LevelState { sub: s, occs: Seq::empty(), cursor: 0 }),
                    ..st
                },
            ),
            None => err(CliErrorKind::UnrecognizedSubcommand, tok),
        }
    } else {
    match st.pending {
        Some(a) => if is_dash_token(tok) {
            err(CliErrorKind::MissingValue, c.args@[a as int].id@)
        } else {
            Ok(ParseState { pending: None, ..record(st, a, Some(tok)) })
        },
        None => if st.dashdash {
            step_positional(root, st, tok)
        } else if tok == "--"@ {
            Ok(ParseState { dashdash: true, ..st })
        } else if tok.len() > 2 && tok[0] == '-' && tok[1] == '-' {
            step_long(root, st, tok, tok.skip(2))
        } else if is_dash_token(tok) {
            step_short(root, st, tok.drop_first())
        } else if c.subcommands@.len() > 0 {
            match find_sub(c.subcommands@, tok) {
                Some(s) => Ok(
                    ParseState {
                        levels: st.levels.push(LevelState { sub: s, occs: Seq::empty(), cursor: 0 }),
                        ..st
                    },
                ),
                None => if tok == "help"@ {
                    Ok(ParseState { help: true, ..st })
                } else {
                    err(CliErrorKind::UnrecognizedSubcommand, tok)
                },
            }
        } else {
            step_positional(root, st, tok)
        }
    }
    }
}

/// The state after reading `toks`, or the first error.
pub open spec fn run(root: Command, st: ParseState, toks: Seq<Seq<char>>) -> Result<
    ParseState,
    (CliErrorKind, Seq<char>),
>
    decreases toks.len(),
{
    if toks.len() == 0 {
        Ok(st)
    } else {
        match step(root, st, toks[0]) {
            Ok(s2) => run(root, s2, toks.drop_first()),
            Err(e) => Err(e),
        }
    }
}

/// How often argument `a` occurs.
pub open spec fn count_of(occs: Seq<(nat, Option<Seq<char>>)>, a: nat) -> nat
    decreases occs.len(),
{
    if occs.len() == 0 {
        0
    } else {
        count_of(occs.drop_last(), a) + if occs.last().0 == a { 1nat } else { 0nat }
    }
}

/// The values given to argument `a`, in order.
pub open spec fn values_of(occs: Seq<(nat, Option<Seq<char>>)>, a: nat) -> Seq<Seq<char>>
    decreases occs.len(),
{
    if occs.len() == 0 {
        Seq::empty()
    } else {
        let rest = values_of(occs.drop_last(), a);
        if occs.last().0 == a && occs.last().1 is Some {
            rest.push(occs.last().1->0)
        } else {
            rest
        }
    }
}

/// The index of the argument whose id is `id`.
pub open spec fn arg_index(args: Seq<Arg>, id: Seq<char>) -> Option<nat> {
    first_from(args.len(), 0, |i: nat| args[i as int].id@ == id)
}

/// Whether the argument whose id is `id` was given.
pub open spec fn given(args: Seq<Arg>, occs: Seq<(nat, Option<Seq<char>>)>, id: Seq<char>) -> bool {
    match arg_index(args, id) {
        Some(i) => count_of(occs, i) > 0,
        None => false,
    }
}

/// The decimal `u32` that `s` spells, if it spells one (an optional `+`, then
/// at least one digit).
pub open spec fn parse_u32(s: Seq<char>) -> Option<u32> {
    let digits = if s.len() > 0 && s[0] == '+' { s.drop_first() } else { s };
    if digits.len() > 0 && all_digits(digits) && digits_value(digits) <= u32::MAX {
        Some(digits_value(digits) as u32)
    } else {
        None
    }
}

/// Every character of `d` is a decimal digit.
pub open spec fn all_digits(d: Seq<char>) -> bool {
    forall|i: int| 0 <= i < d.len() ==> '0' <= #[trigger] d[i] <= '9'
}

/// The value of a string of decimal digits.
pub open spec fn digits_value(d: Seq<char>) -> nat
    decreases d.len(),
{
    if d.len() == 0 {
        0
    } else {
        digits_value(d.drop_last()) * 10 + ((d.last() as nat) - ('0' as nat)) as nat
    }
}

/// Argument `i` is given more than once (only the trailing list may be).
pub open spec fn dup_at(args: Seq<Arg>, occs: Seq<(nat, Option<Seq<char>>)>, i: nat) -> bool {
    args[i as int].kind != ArgKind::Trailing && count_of(occs, i) > 1
}

/// Argument `i` is required and missing.
pub open spec fn missing_at(args: Seq<Arg>, occs: Seq<(nat, Option<Seq<char>>)>, i: nat) -> bool {
    args[i as int].required && count_of(occs, i) == 0
}

/// Argument `i` is given together with one it conflicts with.
pub open spec fn conflict_at(args: Seq<Arg>, occs: Seq<(nat, Option<Seq<char>>)>, i: nat) -> bool {
    count_of(occs, i) > 0 && exists|j: int|
        0 <= j < args[i as int].conflicts@.len() && given(
            args,
            occs,
            #[trigger] args[i as int].conflicts@[j]@,
        )
}

/// Argument `i` is given without one it needs.
pub open spec fn lacking_at(args: Seq<Arg>, occs: Seq<(nat, Option<Seq<char>>)>, i: nat) -> bool {
    count_of(occs, i) > 0 && exists|j: int|
        0 <= j < args[i as int].needs@.len() && !given(args, occs, #[trigger] args[i as int].needs@[j]@)
}

/// Group `g` is required and none of its members is given.
pub open spec fn empty_group_at(
    args: Seq<Arg>,
    occs: Seq<(nat, Option<Seq<char>>)>,
    groups: Seq<Group>,
    g: nat,
) -> bool {
    groups[g as int].required && forall|j: int|
        0 <= j < groups[g as int].members@.len() ==> !given(
            args,
            occs,
            #[trigger] groups[g as int].members@[j]@,
        )
}

/// Two members of group `g` are given.
pub open spec fn crowded_group_at(
    args: Seq<Arg>,
    occs: Seq<(nat, Option<Seq<char>>)>,
    groups: Seq<Group>,
    g: nat,
) -> bool {
    exists|j: int, k: int|
        0 <= j < k < groups[g as int].members@.len() && given(
            args,
            occs,
            #[trigger] groups[g as int].members@[j]@,
        ) && given(args, occs, #[trigger] groups[g as int].members@[k]@)
}

/// Argument `i` takes numbers and one of its values is none.
pub open spec fn bad_number_at(args: Seq<Arg>, occs: Seq<(nat, Option<Seq<char>>)>, i: nat) -> bool {
    args[i as int].numeric && exists|j: int|
        0 <= j < values_of(occs, i).len() && parse_u32(#[trigger] values_of(occs, i)[j]) is None
}

/// The checks made of each argument of a level.
#[derive(PartialEq, Eq, Structural, Clone, Copy)]
pub enum ArgCheck {
    Repeated,
    Missing,
    Conflicting,
    Lacking,
    NotNumber,
}

/// Argument `i` fails check `c`.
pub open spec fn arg_fails(c: ArgCheck, args: Seq<Arg>, occs: Seq<(nat, Option<Seq<char>>)>, i: nat) -> bool {
    match c {
        ArgCheck::Repeated => dup_at(args, occs, i),
        ArgCheck::Missing => missing_at(args, occs, i),
        ArgCheck::Conflicting => conflict_at(args, occs, i),
        ArgCheck::Lacking => lacking_at(args, occs, i),
        ArgCheck::NotNumber => bad_number_at(args, occs, i),
    }
}

/// The first check that a level fails, with its error; `None` when it passes
/// them all.  The checks, in order: an argument given twice; a missing
/// subcommand; a missing required argument; two conflicting arguments; an
/// argument given without one it needs; a required group with no member
/// given; a group with two members given; a value that is no `u32` where one
/// is expected.
pub open spec fn level_error(cmd: Command, occs: Seq<(nat, Option<Seq<char>>)>, is_last: bool) -> Option<
    (CliErrorKind, Seq<char>),
> {
    let args = cmd.args@;
    let n = args.len();
    let groups = cmd.groups@;
    let dup = first_from(n, 0, |i: nat| arg_fails(ArgCheck::Repeated, args, occs, i));
    let missing = first_from(n, 0, |i: nat| arg_fails(ArgCheck::Missing, args, occs, i));
    let conflict = first_from(n, 0, |i: nat| arg_fails(ArgCheck::Conflicting, args, occs, i));
    let lacking = first_from(n, 0, |i: nat| arg_fails(ArgCheck::Lacking, args, occs, i));
    let empty_group = first_from(groups.len(), 0, |g: nat| empty_group_at(args, occs, groups, g));
    let crowded_group = first_from(groups.len(), 0, |g: nat| crowded_group_at(args, occs, groups, g));
    let bad_number = first_from(n, 0, |i: nat| arg_fails(ArgCheck::NotNumber, args, occs, i));
    if dup is Some {
        Some((CliErrorKind::Duplicate, args[dup->0 as int].id@))
    } else if is_last && cmd.subcommands@.len() > 0 && cmd.subcommand_required {
        Some((CliErrorKind::MissingSubcommand, cmd.name@))
    } else if missing is Some {
        Some((CliErrorKind::MissingRequired, args[missing->0 as int].id@))
    } else if conflict is Some {
        Some((CliErrorKind::Conflict, args[conflict->0 as int].id@))
    } else if lacking is Some {
        Some((CliErrorKind::MissingRequired, args[lacking->0 as int].id@))
    } else if empty_group is Some {
        Some((CliErrorKind::MissingRequired, groups[empty_group->0 as int].id@))
    } else if crowded_group is Some {
        Some((CliErrorKind::Conflict, groups[crowded_group->0 as int].id@))
    } else if bad_number is Some {
        Some((CliErrorKind::InvalidValue, args[bad_number->0 as int].id@))
    } else {
        None
    }
}

/// What the matches of a level hold: for each argument in order, its values
/// (the given ones, or else its default), and the flags given.
pub struct LevelMatches {
    pub name: Seq<char>,
    pub values: Seq<(Seq<char>, Seq<Seq<char>>)>,
    pub flags: Seq<Seq<char>>,
}

/// The values of the first `n` arguments that have any.
pub open spec fn level_values(args: Seq<Arg>, occs: Seq<(nat, Option<Seq<char>>)>, n: nat) -> Seq<
    (Seq<char>, Seq<Seq<char>>),
>
    decreases n,
{
    if n == 0 {
        Seq::empty()
    } else {
        let rest = level_values(args, occs, (n - 1) as nat);
        let i = (n - 1) as nat;
        let a = args[i as int];
        let given_vals = values_of(occs, i);
        if a.kind == ArgKind::Flag {
            rest
        } else if given_vals.len() > 0 {
            rest.push((a.id@, given_vals))
        } else if a.default is Some {
            rest.push((a.id@, seq![a.default->0@]))
        } else {
            rest
        }
    }
}

/// The flags among the first `n` arguments that were given.
pub open spec fn level_flags(args: Seq<Arg>, occs: Seq<(nat, Option<Seq<char>>)>, n: nat) -> Seq<
    Seq<char>,
>
    decreases n,
{
    if n == 0 {
        Seq::empty()
    } else {
        let rest = level_flags(args, occs, (n - 1) as nat);
        let i = (n - 1) as nat;
        if args[i as int].kind == ArgKind::Flag && count_of(occs, i) > 0 {
            rest.push(args[i as int].id@)
        } else {
            rest
        }
    }
}

/// The matches of level `k`.
pub open spec fn level_matches(root: Command, levels: Seq<LevelState>, k: int) -> LevelMatches {
    let cmd = level_cmd(root, levels, k);
    LevelMatches {
        name: cmd.name@,
        values: level_values(cmd.args@, levels[k].occs, cmd.args@.len()),
        flags: level_flags(cmd.args@, levels[k].occs, cmd.args@.len()),
    }
}

/// The first error among the levels `k` onwards.
pub open spec fn levels_error(root: Command, levels: Seq<LevelState>, k: nat) -> Option<
    (CliErrorKind, Seq<char>),
>
    decreases levels.len() - k,
{
    if k >= levels.len() {
        None
    } else {
        match level_error(level_cmd(root, levels, k as int), levels[k as int].occs, k + 1 == levels.len()) {
            Some(e) => Some(e),
            None => levels_error(root, levels, k + 1),
        }
    }
}

/// What reading the arguments `toks` (without the program name) against the
/// grammar `root` gives: the matches of each command on the chosen path, from
/// the root down, or the first error.  `help` where a subcommand is expected
/// asks for the help of the command that the tokens after it name; a
/// command that needs a subcommand and got no argument at all answers with
/// its help, as an error.
pub open spec fn parse_outcome(root: Command, toks: Seq<Seq<char>>) -> Result<
    Seq<LevelMatches>,
    (CliErrorKind, Seq<char>),
> {
    match run(root, initial_state(), toks) {
        Err(e) => Err(e),
        Ok(st) => if st.help {
            Err((CliErrorKind::DisplayHelp, help_text(current_cmd(root, st), path_text(root, st))))
        } else {
        match st.pending {
            Some(a) => Err((CliErrorKind::MissingValue, current_cmd(root, st).args@[a as int].id@)),
            None => match levels_error(root, st.levels, 0) {
                Some(e) => if e.0 == CliErrorKind::MissingSubcommand && st.levels.last().occs.len() == 0 {
                    Err((CliErrorKind::HelpForMissingSubcommand, help_text(current_cmd(root, st), path_text(root, st))))
                } else {
                    Err(e)
                },
                None => Ok(Seq::new(st.levels.len(), |k: int| level_matches(root, st.levels, k))),
            },
        }
        },
    }
}

/// What every accepted level satisfies: each required argument is given,
/// no argument but the trailing list is given twice, and every value of a
/// numeric argument is a `u32`.
pub open spec fn level_accepted(cmd: Command, occs: Seq<(nat, Option<Seq<char>>)>) -> bool {
    forall|i: nat|
        #![trigger cmd.args@[i as int]]
        i < cmd.args@.len() ==> {
            &&& (cmd.args@[i as int].required ==> count_of(occs, i) > 0)
            &&& (cmd.args@[i as int].kind != ArgKind::Trailing ==> count_of(occs, i) <= 1)
            &&& (cmd.args@[i as int].numeric ==> forall|j: int|
                0 <= j < values_of(occs, i).len() ==> parse_u32(#[trigger] values_of(occs, i)[j]) is Some)
        }
}

proof fn lemma_first_from_none(n: nat, from: nat, p: spec_fn(nat) -> bool)
    requires
        first_from(n, from, p) is None,
    ensures
        forall|i: nat| from <= i < n ==> !#[trigger] p(i),
    decreases n - from,
{
    if from < n {
        lemma_first_from_none(n, from + 1, p);
    }
}

proof fn lemma_level_error_none(cmd: Command, occs: Seq<(nat, Option<Seq<char>>)>, is_last: bool)
    requires
        level_error(cmd, occs, is_last) is None,
    ensures
        level_accepted(cmd, occs),
{
    let args = cmd.args@;
    let n = args.len();
    let p_dup = |i: nat| arg_fails(ArgCheck::Repeated, args, occs, i);
    let p_missing = |i: nat| arg_fails(ArgCheck::Missing, args, occs, i);
    let p_number = |i: nat| arg_fails(ArgCheck::NotNumber, args, occs, i);
    lemma_first_from_none(n, 0, p_dup);
    lemma_first_from_none(n, 0, p_missing);
    lemma_first_from_none(n, 0, p_number);
    assert forall|i: nat| #![trigger cmd.args@[i as int]] i < cmd.args@.len() implies {
        &&& (cmd.args@[i as int].required ==> count_of(occs, i) > 0)
        &&& (cmd.args@[i as int].kind != ArgKind::Trailing ==> count_of(occs, i) <= 1)
        &&& (cmd.args@[i as int].numeric ==> forall|j: int|
            0 <= j < values_of(occs, i).len() ==> parse_u32(#[trigger] values_of(occs, i)[j]) is Some)
    } by {
        assert(!p_dup(i));
        assert(!p_missing(i));
        assert(!p_number(i));
    }
}

proof fn lemma_levels_error_none(root: Command, levels: Seq<LevelState>, k: nat)
    requires
        levels_error(root, levels, k) is None,
    ensures
        forall|j: nat| k <= j < levels.len() ==> level_accepted(#[trigger] level_cmd(root, levels, j as int), levels[j as int].occs),
    decreases levels.len() - k,
{
    if k < levels.len() {
        lemma_level_error_none(level_cmd(root, levels, k as int), levels[k as int].occs, k + 1 == levels.len());
        lemma_levels_error_none(root, levels, k + 1);
    }
}

/// A command line is accepted only when every command on its path got
/// each of its required arguments, no argument but a trailing list twice,
/// and only `u32`s for its numeric arguments.
pub proof fn lemma_accepted_lines(root: Command, toks: Seq<Seq<char>>)
    requires
        parse_outcome(root, toks) is Ok,
    ensures
        run(root, initial_state(), toks) is Ok,
        ({
            let st = run(root, initial_state(), toks)->Ok_0;
            forall|k: nat| k < st.levels.len() ==> level_accepted(#[trigger] level_cmd(root, st.levels, k as int), st.levels[k as int].occs)
        }),
{
    let st = run(root, initial_state(), toks)->Ok_0;
    lemma_levels_error_none(root, st.levels, 0);
}

proof fn lemma_first_from_some(n: nat, from: nat, p: spec_fn(nat) -> bool)
    requires
        first_from(n, from, p) is Some,
    ensures
        from <= first_from(n, from, p)->0 < n,
        p(first_from(n, from, p)->0),
    decreases n - from,
{
    if from < n && !p(from) {
        lemma_first_from_some(n, from + 1, p);
    }
}

proof fn lemma_first_from_at(n: nat, from: nat, p: spec_fn(nat) -> bool, k: nat)
    requires
        from <= k < n,
        p(k),
        forall|i: nat| from <= i < k ==> !#[trigger] p(i),
    ensures
        first_from(n, from, p) == Some(k),
    decreases k - from,
{
    if from < k {
        lemma_first_from_at(n, from + 1, p, k);
    }
}

proof fn lemma_first_from_absent(n: nat, from: nat, p: spec_fn(nat) -> bool)
    requires
        forall|i: nat| from <= i < n ==> !#[trigger] p(i),
    ensures
        first_from(n, from, p) is None,
    decreases n - from,
{
    if from < n {
        lemma_first_from_absent(n, from + 1, p);
    }
}

/// Reading `a` then `b` is reading `a`, then reading `b` from where `a`
/// left off.
pub proof fn lemma_run_append(root: Command, st: ParseState, a: Seq<Seq<char>>, b: Seq<Seq<char>>)
    ensures
        run(root, st, a + b) == match run(root, st, a) {
            Ok(s2) => run(root, s2, b),
            Err(e) => Err(e),
        },
    decreases a.len(),
{
    if a.len() == 0 {
        assert(a + b =~= b);
    } else {
        assert((a + b)[0] == a[0]);
        assert((a + b).drop_first() =~= a.drop_first() + b);
        match step(root, st, a[0]) {
            Ok(s2) => lemma_run_append(root, s2, a.drop_first(), b),
            Err(_) => {},
        }
    }
}

/// The conditions under which `--L=v` and `--L v` are two spellings of one
/// option: the reader expects an option (no value pending, no `--` seen, no
/// `help` request), `L` is the long name of an option that takes a value
/// (not `help`, nor `version` at the top), and `v` does not read as an
/// option.
pub open spec fn long_value_spellings(root: Command, st: ParseState, l: Seq<char>, v: Seq<char>) -> bool {
    &&& st.levels.len() >= 1
    &&& !st.help
    &&& st.pending is None
    &&& !st.dashdash
    &&& l.len() > 0
    &&& !l.contains('=')
    &&& l != "help"@
    &&& !(l == "version"@ && st.levels.len() == 1)
    &&& find_long(current_cmd(root, st).args@, l) is Some
    &&& current_cmd(root, st).args@[find_long(current_cmd(root, st).args@, l)->0 as int].kind == ArgKind::Value
    &&& !is_dash_token(v)
}

/// `--L=v` is the option `L` with the value `v`, the text after the first
/// `=`: reading it leaves the reader where reading `--L` and then `v` does,
/// whatever follows, and the occurrence it records holds `v`.
pub proof fn lemma_long_value_spellings(root: Command, st: ParseState, l: Seq<char>, v: Seq<char>, rest: Seq<Seq<char>>)
    requires
        long_value_spellings(root, st, l, v),
    ensures
        run(root, st, seq!["--"@ + l + "="@ + v] + rest) == run(root, st, seq!["--"@ + l, v] + rest),
        step(root, st, "--"@ + l + "="@ + v) matches Ok(s2) && s2.levels.last().occs.last() == (
            find_long(current_cmd(root, st).args@, l)->0,
            Some(v),
        ),
{
    reveal_strlit("--");
    reveal_strlit("=");
    let c = current_cmd(root, st);
    let a = find_long(c.args@, l)->0;
    let tok1 = "--"@ + l + "="@ + v;
    let tok2 = "--"@ + l;
    let body1 = tok1.skip(2);
    assert(body1 =~= l + "="@ + v);
    assert(tok1[0] == '-' && tok1[1] == '-');
    assert(tok2[0] == '-' && tok2[1] == '-');
    assert(tok1 != "--"@);
    assert(tok2 != "--"@);
    assert(tok2.skip(2) =~= l);
    let pe = |i: nat| body1[i as int] == '=';
    assert forall|i: nat| 0 <= i < l.len() implies !#[trigger] pe(i) by {
        assert(body1[i as int] == l[i as int]);
    }
    lemma_first_from_at(body1.len(), 0, pe, l.len());
    assert(eq_pos(body1) == Some(l.len()));
    assert(body1.take(l.len() as int) =~= l);
    assert(body1.skip((l.len() + 1) as int) =~= v);
    let pl = |i: nat| l[i as int] == '=';
    assert forall|i: nat| 0 <= i < l.len() implies !#[trigger] pl(i) by {}
    lemma_first_from_absent(l.len(), 0, pl);
    assert(eq_pos(l) is None);
    lemma_find_long_some(c.args@, l);
    let s1 = record(st, a, Some(v));
    assert(step_long(root, st, tok1, body1) == Ok::<ParseState, (CliErrorKind, Seq<char>)>(s1));
    assert(step(root, st, tok1) == Ok::<ParseState, (CliErrorKind, Seq<char>)>(s1));
    let st2 = ParseState { pending: Some(a), ..st };
    assert(step_long(root, st, tok2, tok2.skip(2)) == Ok::<ParseState, (CliErrorKind, Seq<char>)>(st2));
    assert(step(root, st, tok2) == Ok::<ParseState, (CliErrorKind, Seq<char>)>(st2));
    let s3 = ParseState { pending: None, ..record(st2, a, Some(v)) };
    assert(step(root, st2, v) == Ok::<ParseState, (CliErrorKind, Seq<char>)>(s3));
    assert(s3.levels =~= s1.levels);
    assert(s3 == s1);
    let r1 = seq![tok1] + rest;
    let r2 = seq![tok2, v] + rest;
    assert(r1[0] == tok1);
    assert(r1.drop_first() =~= rest);
    assert(r2[0] == tok2);
    assert(r2.drop_first() =~= seq![v] + rest);
    assert((seq![v] + rest)[0] == v);
    assert((seq![v] + rest).drop_first() =~= rest);
    assert(s1.levels.last().occs =~= st.levels.last().occs.push((a, Some(v))));
    assert(run(root, st, r1) == run(root, s1, rest));
    assert(run(root, st2, seq![v] + rest) == run(root, s3, rest));
    assert(run(root, st, r2) == run(root, st2, seq![v] + rest));
}

proof fn lemma_find_long_some(args: Seq<Arg>, name: Seq<char>)
    requires
        find_long(args, name) is Some,
    ensures
        find_long(args, name)->0 < args.len(),
{
    lemma_first_from_some(args.len(), 0, |i: nat| long_named(args, name, i));
}

/// On a whole command line: where the reader, after the tokens `pre`,
/// expects an option, `--L=v` and `--L v` give the same outcome.
pub proof fn lemma_long_value_spellings_in_lines(
    root: Command,
    pre: Seq<Seq<char>>,
    l: Seq<char>,
    v: Seq<char>,
    post: Seq<Seq<char>>,
)
    requires
        run(root, initial_state(), pre) is Ok,
        long_value_spellings(root, run(root, initial_state(), pre)->Ok_0, l, v),
    ensures
        parse_outcome(root, pre + seq!["--"@ + l + "="@ + v] + post) == parse_outcome(
            root,
            pre + seq!["--"@ + l, v] + post,
        ),
{
    let st = run(root, initial_state(), pre)->Ok_0;
    assert(pre + seq!["--"@ + l + "="@ + v] + post =~= pre + (seq!["--"@ + l + "="@ + v] + post));
    assert(pre + seq!["--"@ + l, v] + post =~= pre + (seq!["--"@ + l, v] + post));
    lemma_run_append(root, initial_state(), pre, seq!["--"@ + l + "="@ + v] + post);
    lemma_run_append(root, initial_state(), pre, seq!["--"@ + l, v] + post);
    lemma_long_value_spellings(root, st, l, v, post);
}

impl ArgMatches {
    /// The levels of the matches, from this one down the chosen path.
    pub open spec fn levels(self) -> Seq<LevelMatches>
        decreases self,
    {
        match self.sub {
            Some(b) => seq![self.here()] + (*b).levels(),
            None => seq![self.here()],
        }
    }

    /// What this level holds.
    pub open spec fn here(self) -> LevelMatches {
        LevelMatches {
            name: self.name@,
            values: self.values@.map_values(|e: (String, Vec<String>)| (e.0@, e.1@.map_values(|v: String| v@))),
            flags: self.flags@.map_values(|f: String| f@),
        }
    }
}


// ---------------------------------------------------------------------------
// The reader

/// The state of one level while the line is read.
pub struct Level {
    pub sub: usize,
    pub occs: Vec<(usize, Option<String>)>,
    pub cursor: usize,
}

/// The state of the reader.
pub struct Reader {
    pub levels: Vec<Level>,
    pub dashdash: bool,
    pub pending: Option<usize>,
    pub help: bool,
}

/// An optional string as the specification sees it.
pub open spec fn opt_view(v: Option<String>) -> Option<Seq<char>> {
    match v {
        Some(s) => Some(s@),
        None => None,
    }
}

/// An occurrence as the specification sees it.
pub open spec fn occ_view(o: (usize, Option<String>)) -> (nat, Option<Seq<char>>) {
    (
        o.0 as nat,
        match o.1 {
            Some(s) => Some(s@),
            None => None,
        },
    )
}

impl Level {
    pub open spec fn view(self) -> LevelState {
        LevelState {
            sub: self.sub as nat,
            occs: self.occs@.map_values(|o: (usize, Option<String>)| occ_view(o)),
            cursor: self.cursor as nat,
        }
    }
}

impl Reader {
    pub open spec fn view(self) -> ParseState {
        ParseState {
            levels: self.levels@.map_values(|l: Level| l.view()),
            dashdash: self.dashdash,
            pending: match self.pending {
                Some(a) => Some(a as nat),
                None => None,
            },
            help: self.help,
        }
    }
}

/// A reader's state that the parser can continue from.
pub open spec fn reader_wf(root: Command, st: ParseState) -> bool {
    &&& st.levels.len() >= 1
    &&& st.pending matches Some(a) ==> a < current_cmd(root, st).args@.len()
    &&& st.help ==> st.pending is None
}

proof fn lemma_cmd_at_push(c: Command, s: Seq<nat>, x: nat)
    ensures
        cmd_at(c, s.push(x)) == (if x < cmd_at(c, s).subcommands@.len() {
            cmd_at(c, s).subcommands@[x as int]
        } else {
            cmd_at(c, s)
        }),
    decreases s.len(),
{
    if s.len() == 0 {
        assert(s.push(x).drop_first() =~= Seq::<nat>::empty());
        assert(cmd_at(c, s) == c);
        if x < c.subcommands@.len() {
            assert(cmd_at(c.subcommands@[x as int], Seq::<nat>::empty()) == c.subcommands@[x as int]);
        } else {
            assert(cmd_at(c, Seq::<nat>::empty()) == c);
        }
    } else {
        assert(s.push(x).drop_first() =~= s.drop_first().push(x));
        if s[0] < c.subcommands@.len() {
            lemma_cmd_at_push(c.subcommands@[s[0] as int], s.drop_first(), x);
        } else {
            lemma_cmd_at_push(c, s.drop_first(), x);
        }
    }
}

/// The command of level `k`.
fn cmd_of<'a>(root: &'a Command, levels: &Vec<Level>, k: usize) -> (r: &'a Command)
    requires
        k < levels.len(),
    ensures
        *r == level_cmd(*root, levels@.map_values(|l: Level| l.view()), k as int),
{
    let ghost lv = levels@.map_values(|l: Level| l.view());
    let mut cur = root;
    let mut i: usize = 1;
    proof {
        assert(sub_path(lv.take(1)) =~= Seq::<nat>::empty());
    }
    while i <= k
        invariant
            1 <= i <= k + 1,
            k < levels.len(),
            lv == levels@.map_values(|l: Level| l.view()),
            *cur == cmd_at(*root, sub_path(lv.take(i as int))),
        decreases k + 1 - i,
    {
        let s = levels[i].sub;
        proof {
            assert(sub_path(lv.take(i + 1)) =~= sub_path(lv.take(i as int)).push(s as nat));
            lemma_cmd_at_push(*root, sub_path(lv.take(i as int)), s as nat);
        }
        if s < cur.subcommands.len() {
            cur = &cur.subcommands[s];
        }
        i = i + 1;
    }
    cur
}

/// `find_long`.
fn find_long_exec(args: &Vec<Arg>, name: &str) -> (r: Option<usize>)
    ensures
        match r {
            Some(i) => find_long(args@, name@) == Some(i as nat) && i < args@.len(),
            None => find_long(args@, name@) is None,
        },
{
    let mut i: usize = 0;
    while i < args.len()
        invariant
            i <= args.len(),
            find_long(args@, name@) == first_from(args@.len(), i as nat, |i: nat| long_named(args@, name@, i)),
        decreases args.len() - i,
    {
        let a = &args[i];
        let hit = (a.kind == ArgKind::Flag || a.kind == ArgKind::Value) && match &a.long {
            Some(l) => str_eq(l.as_str(), name),
            None => false,
        };
        if hit {
            return Some(i);
        }
        i = i + 1;
    }
    None
}

/// `find_short`.
fn find_short_exec(args: &Vec<Arg>, c: char) -> (r: Option<usize>)
    ensures
        match r {
            Some(i) => find_short(args@, c) == Some(i as nat) && i < args@.len(),
            None => find_short(args@, c) is None,
        },
{
    let mut i: usize = 0;
    while i < args.len()
        invariant
            i <= args.len(),
            find_short(args@, c) == first_from(args@.len(), i as nat, |i: nat|
        (args@[i as int].kind == ArgKind::Flag || args@[i as int].kind == ArgKind::Value)
            && args@[i as int].short == Some(c)),
        decreases args.len() - i,
    {
        let a = &args[i];
        if (a.kind == ArgKind::Flag || a.kind == ArgKind::Value) && a.short == Some(c) {
            return Some(i);
        }
        i = i + 1;
    }
    None
}

/// `find_sub`.
fn find_sub_exec(subs: &Vec<Command>, name: &str) -> (r: Option<usize>)
    ensures
        match r {
            Some(i) => find_sub(subs@, name@) == Some(i as nat) && i < subs@.len(),
            None => find_sub(subs@, name@) is None,
        },
{
    let mut i: usize = 0;
    while i < subs.len()
        invariant
            i <= subs.len(),
            find_sub(subs@, name@) == first_from(subs@.len(), i as nat, |i: nat| subs@[i as int].name@ == name@),
        decreases subs.len() - i,
    {
        if str_eq(subs[i].name.as_str(), name) {
            return Some(i);
        }
        i = i + 1;
    }
    None
}

/// `next_positional`.
fn next_positional_exec(args: &Vec<Arg>, from: usize) -> (r: Option<usize>)
    ensures
        match r {
            Some(i) => next_positional(args@, from as nat) == Some(i as nat) && i < args@.len(),
            None => next_positional(args@, from as nat) is None,
        },
{
    let mut i: usize = from;
    while i < args.len()
        invariant
            from <= i,
            next_positional(args@, from as nat) == first_from(args@.len(), i as nat, |i: nat| args@[i as int].kind == ArgKind::Positional),
        decreases args.len() - i,
    {
        if args[i].kind == ArgKind::Positional {
            return Some(i);
        }
        i = i + 1;
    }
    None
}

/// `find_trailing`.
fn find_trailing_exec(args: &Vec<Arg>) -> (r: Option<usize>)
    ensures
        match r {
            Some(i) => find_trailing(args@) == Some(i as nat) && i < args@.len(),
            None => find_trailing(args@) is None,
        },
{
    let mut i: usize = 0;
    while i < args.len()
        invariant
            i <= args.len(),
            find_trailing(args@) == first_from(args@.len(), i as nat, |i: nat| args@[i as int].kind == ArgKind::Trailing),
        decreases args.len() - i,
    {
        if args[i].kind == ArgKind::Trailing {
            return Some(i);
        }
        i = i + 1;
    }
    None
}

/// `eq_pos`.
fn eq_pos_exec(s: &str) -> (r: Option<usize>)
    ensures
        match r {
            Some(i) => eq_pos(s@) == Some(i as nat) && i < s@.len(),
            None => eq_pos(s@) is None,
        },
{
    let n = s.unicode_len();
    let mut i: usize = 0;
    while i < n
        invariant
            i <= n,
            n == s@.len(),
            eq_pos(s@) == first_from(s@.len(), i as nat, |i: nat| s@[i as int] == '='),
        decreases n - i,
    {
        if s.get_char(i) == '=' {
            return Some(i);
        }
        i = i + 1;
    }
    None
}


/// An error of the parser.
fn cli_error(kind: CliErrorKind, detail: String) -> (e: CliError)
    ensures
        e.kind == kind,
        e.detail@ == detail@,
{
    CliError { kind, detail }
}

/// Writes the command path that the reader has reached.
fn path_text_exec(root: &Command, st: &Reader) -> (r: String)
    ensures
        r@ == path_text(*root, st@),
{
    let ghost names = path_names(*root, st@);
    let mut out: Vec<String> = Vec::new();
    let mut k: usize = 0;
    while k < st.levels.len()
        invariant
            k <= st.levels@.len(),
            names == path_names(*root, st@),
            out@.map_values(|x: String| x@) == names.take(k as int),
        decreases st.levels.len() - k,
    {
        let c = cmd_of(root, &st.levels, k);
        let ghost before = out@.map_values(|x: String| x@);
        out.push(copy_str(c.name.as_str()));
        proof {
            assert(st@.levels == st.levels@.map_values(|l: Level| l.view()));
            assert(names[k as int] == c.name@);
            assert(out@.map_values(|x: String| x@) =~= before.push(c.name@));
            assert(out@.map_values(|x: String| x@) =~= names.take(k + 1));
        }
        k = k + 1;
    }
    proof {
        assert(names.take(st.levels@.len() as int) =~= names);
    }
    join_strings(&out, " ")
}

proof fn lemma_record_keeps_commands(root: Command, st: ParseState, a: nat, v: Option<Seq<char>>)
    requires
        st.levels.len() >= 1,
    ensures
        record(st, a, v).levels.len() == st.levels.len(),
        current_cmd(root, record(st, a, v)) == current_cmd(root, st),
        forall|k: int|
            0 <= k < st.levels.len() ==> #[trigger] level_cmd(root, record(st, a, v).levels, k)
                == level_cmd(root, st.levels, k),
{
    let l2 = record(st, a, v).levels;
    assert forall|k: int| 0 <= k < st.levels.len() implies #[trigger] level_cmd(root, l2, k)
        == level_cmd(root, st.levels, k) by {
        assert(sub_path(l2.take(k + 1)) =~= sub_path(st.levels.take(k + 1)));
    }
    assert(sub_path(l2.take(l2.len() as int)) =~= sub_path(st.levels.take(st.levels.len() as int)));
}

/// Adds an occurrence of argument `a` to the current level.
fn record_exec(st: &mut Reader, a: usize, v: Option<String>)
    requires
        old(st).levels.len() >= 1,
    ensures
        final(st)@ == record(old(st)@, a as nat, opt_view(v)),
{
    let ghost vv = opt_view(v);
    let mut last = st.levels.pop().unwrap();
    last.occs.push((a, v));
    st.levels.push(last);
    proof {
        let expect = record(old(st)@, a as nat, vv);
        assert(last.view().occs =~= old(st)@.levels.last().occs.push((a as nat, vv)));
        assert(final(st)@.levels =~= expect.levels);
    }
}

/// Reads one token: the executable counterpart of `step`.
fn step_exec(root: &Command, st: &mut Reader, tok: &str) -> (r: Result<(), CliError>)
    requires
        reader_wf(*root, old(st)@),
    ensures
        match step(*root, old(st)@, tok@) {
            Ok(s) => r is Ok && final(st)@ == s && reader_wf(*root, s),
            Err(e) => r matches Err(x) && x.kind == e.0 && x.detail@ == e.1,
        },
{
    let ghost st0 = st@;
    let depth = st.levels.len();
    let c = cmd_of(root, &st.levels, depth - 1);
    assert(*c == current_cmd(*root, st0));
    if st.help {
        return match find_sub_exec(&c.subcommands, tok) {
            Some(sidx) => {
                let lv = Level { sub: sidx, occs: Vec::new(), cursor: 0 };
                proof {
                    assert(lv.view().occs =~= Seq::<(nat, Option<Seq<char>>)>::empty());
                }
                st.levels.push(lv);
                proof {
                    assert(st@.levels =~= st0.levels.push(
                        LevelState { sub: sidx as nat, occs: Seq::empty(), cursor: 0 },
                    ));
                }
                Ok(())
            },
            None => Err(cli_error(CliErrorKind::UnrecognizedSubcommand, copy_str(tok))),
        };
    }
    let len = tok.unicode_len();
    match st.pending {
        Some(a) => {
            if len > 1 && tok.get_char(0) == '-' {
                return Err(cli_error(CliErrorKind::MissingValue, copy_str(c.args[a].id.as_str())));
            }
            record_exec(st, a, Some(copy_str(tok)));
            st.pending = None;
            proof {
                lemma_record_keeps_commands(*root, st0, a as nat, Some(tok@));
                assert(st@.levels =~= record(st0, a as nat, Some(tok@)).levels);
            }
            return Ok(());
        },
        None => {},
    }
    if st.dashdash {
        return step_positional_exec(root, c, st, tok);
    }
    if str_eq(tok, "--") {
        st.dashdash = true;
        return Ok(());
    }
    if len > 2 && tok.get_char(0) == '-' && tok.get_char(1) == '-' {
        let body = tok.substring_char(2, len);
        proof {
            assert(body@ =~= tok@.skip(2));
        }
        return step_long_exec(root, c, st, tok, body);
    }
    if len > 1 && tok.get_char(0) == '-' {
        let cs = tok.substring_char(1, len);
        proof {
            assert(cs@ =~= tok@.drop_first());
        }
        return step_short_exec(root, c, st, cs);
    }
    if c.subcommands.len() > 0 {
        match find_sub_exec(&c.subcommands, tok) {
            Some(sidx) => {
                let lv = Level { sub: sidx, occs: Vec::new(), cursor: 0 };
                proof {
                    assert(lv.view().occs =~= Seq::<(nat, Option<Seq<char>>)>::empty());
                }
                st.levels.push(lv);
                proof {
                    assert(st@.levels =~= st0.levels.push(
                        LevelState { sub: sidx as nat, occs: Seq::empty(), cursor: 0 },
                    ));
                }
                return Ok(());
            },
            None => {
                if str_eq(tok, "help") {
                    st.help = true;
                    return Ok(());
                }
                return Err(cli_error(CliErrorKind::UnrecognizedSubcommand, copy_str(tok)));
            },
        }
    }
    step_positional_exec(root, c, st, tok)
}

/// `step_positional`.
fn step_positional_exec(root: &Command, c: &Command, st: &mut Reader, tok: &str) -> (r: Result<(), CliError>)
    requires
        reader_wf(*root, old(st)@),
        *c == current_cmd(*root, old(st)@),
    ensures
        match step_positional(*root, old(st)@, tok@) {
            Ok(s) => r is Ok && final(st)@ == s && reader_wf(*root, s),
            Err(e) => r matches Err(x) && x.kind == e.0 && x.detail@ == e.1,
        },
{
    let ghost st0 = st@;
    let cursor = st.levels[st.levels.len() - 1].cursor;
    match next_positional_exec(&c.args, cursor) {
        Some(p) => {
            record_exec(st, p, Some(copy_str(tok)));
            let mut last = st.levels.pop().unwrap();
            let nargs = c.args.len();
            assert(p < nargs);
            last.cursor = p + 1;
            st.levels.push(last);
            proof {
                let st2 = record(st0, p as nat, Some(tok@));
                lemma_record_keeps_commands(*root, st0, p as nat, Some(tok@));
                let l2 = st2.levels.last();
                let expect = st2.levels.update(st2.levels.len() - 1, LevelState { cursor: (p + 1) as nat, ..l2 });
                assert(st@.levels =~= expect);
                let fin = ParseState { levels: expect, ..st2 };
                assert(sub_path(fin.levels.take(fin.levels.len() as int)) =~= sub_path(st2.levels.take(st2.levels.len() as int)));
            }
            Ok(())
        },
        None => {
            if st.dashdash {
                match find_trailing_exec(&c.args) {
                    Some(t) => {
                        record_exec(st, t, Some(copy_str(tok)));
                        proof {
                            lemma_record_keeps_commands(*root, st0, t as nat, Some(tok@));
                        }
                        Ok(())
                    },
                    None => Err(cli_error(CliErrorKind::UnexpectedArgument, copy_str(tok))),
                }
            } else {
                Err(cli_error(CliErrorKind::UnexpectedArgument, copy_str(tok)))
            }
        },
    }
}

/// `step_long`.
fn step_long_exec(root: &Command, c: &Command, st: &mut Reader, tok: &str, body: &str) -> (r: Result<(), CliError>)
    requires
        reader_wf(*root, old(st)@),
        old(st)@.pending is None,
        !old(st)@.help,
        *c == current_cmd(*root, old(st)@),
    ensures
        match step_long(*root, old(st)@, tok@, body@) {
            Ok(s) => r is Ok && final(st)@ == s && reader_wf(*root, s),
            Err(e) => r matches Err(x) && x.kind == e.0 && x.detail@ == e.1,
        },
{
    let ghost st0 = st@;
    let blen = body.unicode_len();
    let eq = eq_pos_exec(body);
    let name = match eq {
        Some(p) => body.substring_char(0, p),
        None => body,
    };
    proof {
        match eq {
            Some(p) => assert(name@ =~= body@.take(p as int)),
            None => {},
        }
    }
    if str_eq(name, "help") {
        let path = path_text_exec(root, st);
        return Err(cli_error(CliErrorKind::DisplayHelp, help_text_exec(c, path.as_str())));
    }
    if str_eq(name, "version") && st.levels.len() == 1 {
        return Err(cli_error(CliErrorKind::DisplayVersion, String::new()));
    }
    match find_long_exec(&c.args, name) {
        None => Err(cli_error(CliErrorKind::UnknownArgument, copy_str(tok))),
        Some(a) => {
            match eq {
                Some(p) => {
                    if c.args[a].kind == ArgKind::Flag {
                        Err(cli_error(CliErrorKind::UnexpectedValue, copy_str(tok)))
                    } else {
                        let v = body.substring_char(p + 1, blen);
                        proof {
                            assert(v@ =~= body@.skip((p + 1) as int));
                            lemma_record_keeps_commands(*root, st0, a as nat, Some(v@));
                        }
                        record_exec(st, a, Some(copy_str(v)));
                        Ok(())
                    }
                },
                None => {
                    if c.args[a].kind == ArgKind::Flag {
                        record_exec(st, a, None);
                        proof {
                            lemma_record_keeps_commands(*root, st0, a as nat, None);
                        }
                        Ok(())
                    } else {
                        st.pending = Some(a);
                        proof {
                            assert(st@.levels =~= st0.levels);
                        }
                        Ok(())
                    }
                },
            }
        },
    }
}

/// `step_short`, one character at a time.
fn step_short_exec(root: &Command, c: &Command, st: &mut Reader, cs: &str) -> (r: Result<(), CliError>)
    requires
        reader_wf(*root, old(st)@),
        old(st)@.pending is None,
        !old(st)@.help,
        *c == current_cmd(*root, old(st)@),
    ensures
        match step_short(*root, old(st)@, cs@) {
            Ok(s) => r is Ok && final(st)@ == s && reader_wf(*root, s),
            Err(e) => r matches Err(x) && x.kind == e.0 && x.detail@ == e.1,
        },
{
    let ghost st0 = st@;
    let n = cs.unicode_len();
    let mut i: usize = 0;
    proof {
        assert(cs@.skip(0) =~= cs@);
    }
    while i < n
        invariant
            i <= n,
            n == cs@.len(),
            reader_wf(*root, st@),
            st@.pending is None,
            !st@.help,
            st@.levels.len() == st0.levels.len(),
            st0 == old(st)@,
            *c == current_cmd(*root, st@),
            step_short(*root, st0, cs@) == step_short(*root, st@, cs@.skip(i as int)),
        decreases n - i,
    {
        let ghost sti = st@;
        let ch = cs.get_char(i);
        proof {
            assert(cs@.skip(i as int)[0] == ch);
            assert(cs@.skip(i as int).drop_first() =~= cs@.skip(i + 1));
        }
        if ch == 'h' {
            let path = path_text_exec(root, st);
            return Err(cli_error(CliErrorKind::DisplayHelp, help_text_exec(c, path.as_str())));
        }
        if ch == 'V' && st.levels.len() == 1 {
            return Err(cli_error(CliErrorKind::DisplayVersion, String::new()));
        }
        match find_short_exec(&c.args, ch) {
            None => {
                let mut d = String::new();
                crate::text::push_char(&mut d, '-');
                crate::text::push_char(&mut d, ch);
                proof {
                    assert(d@ =~= seq!['-', ch]);
                }
                return Err(cli_error(CliErrorKind::UnknownArgument, d));
            },
            Some(a) => {
                if c.args[a].kind == ArgKind::Flag {
                    record_exec(st, a, None);
                    proof {
                        lemma_record_keeps_commands(*root, sti, a as nat, None);
                    }
                } else {
                    let rest = cs.substring_char(i + 1, n);
                    proof {
                        assert(rest@ =~= cs@.skip(i as int).drop_first());
                    }
                    if i + 1 == n {
                        st.pending = Some(a);
                        proof {
                            assert(st@.levels =~= sti.levels);
                        }
                        return Ok(());
                    } else if rest.get_char(0) == '=' {
                        let v = rest.substring_char(1, n - i - 1);
                        proof {
                            assert(v@ =~= rest@.drop_first());
                            lemma_record_keeps_commands(*root, sti, a as nat, Some(v@));
                        }
                        record_exec(st, a, Some(copy_str(v)));
                        return Ok(());
                    } else {
                        proof {
                            lemma_record_keeps_commands(*root, sti, a as nat, Some(rest@));
                        }
                        record_exec(st, a, Some(copy_str(rest)));
                        return Ok(());
                    }
                }
            },
        }
        i = i + 1;
    }
    Ok(())
}


/// The occurrences of a level as the specification sees them.
pub open spec fn occs_view(occs: Seq<(usize, Option<String>)>) -> Seq<(nat, Option<Seq<char>>)> {
    occs.map_values(|o: (usize, Option<String>)| occ_view(o))
}

/// `count_of`.
fn count_exec(occs: &Vec<(usize, Option<String>)>, a: usize) -> (r: usize)
    ensures
        r == count_of(occs_view(occs@), a as nat),
{
    let ghost ov = occs_view(occs@);
    let mut n: usize = 0;
    let mut i: usize = 0;
    proof {
        assert(ov.take(0) =~= Seq::<(nat, Option<Seq<char>>)>::empty());
    }
    while i < occs.len()
        invariant
            i <= occs.len(),
            ov == occs_view(occs@),
            n == count_of(ov.take(i as int), a as nat),
            n <= i,
        decreases occs.len() - i,
    {
        proof {
            assert(ov.take(i + 1).drop_last() =~= ov.take(i as int));
        }
        if occs[i].0 == a {
            n = n + 1;
        }
        i = i + 1;
    }
    proof {
        assert(ov.take(occs.len() as int) =~= ov);
    }
    n
}

/// `values_of`.
fn values_exec(occs: &Vec<(usize, Option<String>)>, a: usize) -> (r: Vec<String>)
    ensures
        r@.map_values(|v: String| v@) == values_of(occs_view(occs@), a as nat),
{
    let ghost ov = occs_view(occs@);
    let mut r: Vec<String> = Vec::new();
    let mut i: usize = 0;
    proof {
        assert(ov.take(0) =~= Seq::<(nat, Option<Seq<char>>)>::empty());
        assert(r@.map_values(|v: String| v@) =~= Seq::<Seq<char>>::empty());
    }
    while i < occs.len()
        invariant
            i <= occs.len(),
            ov == occs_view(occs@),
            r@.map_values(|v: String| v@) == values_of(ov.take(i as int), a as nat),
        decreases occs.len() - i,
    {
        proof {
            assert(ov.take(i + 1).drop_last() =~= ov.take(i as int));
        }
        if occs[i].0 == a {
            match &occs[i].1 {
                Some(v) => {
                    let ghost before = r@.map_values(|v: String| v@);
                    r.push(copy_str(v.as_str()));
                    proof {
                        assert(r@.map_values(|v: String| v@) =~= before.push(v@));
                    }
                },
                None => {},
            }
        }
        i = i + 1;
    }
    proof {
        assert(ov.take(occs.len() as int) =~= ov);
    }
    r
}

/// `arg_index`.
fn arg_index_exec(args: &Vec<Arg>, id: &str) -> (r: Option<usize>)
    ensures
        match r {
            Some(i) => arg_index(args@, id@) == Some(i as nat) && i < args@.len(),
            None => arg_index(args@, id@) is None,
        },
{
    let mut i: usize = 0;
    while i < args.len()
        invariant
            i <= args.len(),
            arg_index(args@, id@) == first_from(args@.len(), i as nat, |i: nat| args@[i as int].id@ == id@),
        decreases args.len() - i,
    {
        if str_eq(args[i].id.as_str(), id) {
            return Some(i);
        }
        i = i + 1;
    }
    None
}

/// `given`.
fn given_exec(args: &Vec<Arg>, occs: &Vec<(usize, Option<String>)>, id: &str) -> (r: bool)
    ensures
        r == given(args@, occs_view(occs@), id@),
{
    match arg_index_exec(args, id) {
        Some(i) => count_exec(occs, i) > 0,
        None => false,
    }
}

proof fn lemma_digits_value_prefix(d: Seq<char>, j: int)
    requires
        0 <= j <= d.len(),
        forall|i: int| 0 <= i < d.len() ==> '0' <= #[trigger] d[i] <= '9',
    ensures
        digits_value(d.take(j)) <= digits_value(d),
    decreases d.len() - j,
{
    if j < d.len() {
        let e = d.take(j + 1);
        assert(e.drop_last() =~= d.take(j));
        assert(digits_value(e) == digits_value(d.take(j)) * 10 + ((e.last() as nat) - ('0' as nat)) as nat);
        assert(digits_value(d.take(j)) <= digits_value(e)) by (nonlinear_arith)
            requires digits_value(e) >= digits_value(d.take(j)) * 10, digits_value(d.take(j)) >= 0;
        lemma_digits_value_prefix(d, j + 1);
    } else {
        assert(d.take(j) =~= d);
    }
}

/// `parse_u32`.
pub fn parse_u32_exec(s: &str) -> (r: Option<u32>)
    ensures
        r == parse_u32(s@),
{
    let n = s.unicode_len();
    let start: usize = if n > 0 && s.get_char(0) == '+' { 1 } else { 0 };
    let digits = s.substring_char(start, n);
    let ghost d = if s@.len() > 0 && s@[0] == '+' { s@.drop_first() } else { s@ };
    proof {
        assert(digits@ =~= d);
    }
    let m = n - start;
    if m == 0 {
        return None;
    }
    let mut v: u64 = 0;
    let mut i: usize = 0;
    proof {
        assert(d.take(0) =~= Seq::<char>::empty());
    }
    while i < m
        invariant
            i <= m,
            m == d.len(),
            digits@ == d,
            d == (if s@.len() > 0 && s@[0] == '+' { s@.drop_first() } else { s@ }),
            v == digits_value(d.take(i as int)),
            v <= u32::MAX,
            forall|j: int| 0 <= j < i ==> '0' <= #[trigger] d[j] <= '9',
        decreases m - i,
    {
        let c = digits.get_char(i);
        if !('0' <= c && c <= '9') {
            assert(d[i as int] == c);
            assert(!all_digits(d));
            return None;
        }
        let dv: u64 = (c as u32 - '0' as u32) as u64;
        proof {
            let e = d.take(i + 1);
            assert(e.drop_last() =~= d.take(i as int));
            assert(e.last() == c);
        }
        v = v * 10 + dv;
        if v > 4294967295 {
            proof {
                if all_digits(d) {
                    lemma_digits_value_prefix(d, i + 1);
                }
            }
            return None;
        }
        i = i + 1;
    }
    proof {
        assert(d.take(m as int) =~= d);
    }
    Some(v as u32)
}


/// `arg_fails`.
fn arg_fails_exec(c: ArgCheck, args: &Vec<Arg>, occs: &Vec<(usize, Option<String>)>, i: usize) -> (r: bool)
    requires
        i < args@.len(),
    ensures
        r == arg_fails(c, args@, occs_view(occs@), i as nat),
{
    let ghost ov = occs_view(occs@);
    let a = &args[i];
    let count = count_exec(occs, i);
    match c {
        ArgCheck::Repeated => a.kind != ArgKind::Trailing && count > 1,
        ArgCheck::Missing => a.required && count == 0,
        ArgCheck::Conflicting => {
            if count == 0 {
                return false;
            }
            let mut j: usize = 0;
            while j < a.conflicts.len()
                invariant
                    j <= a.conflicts@.len(),
                    *a == args@[i as int],
                    i < args@.len(),
                    c == ArgCheck::Conflicting,
                    count == count_of(ov, i as nat),
                    count > 0,
                    ov == occs_view(occs@),
                    forall|k: int| 0 <= k < j ==> !given(args@, ov, #[trigger] a.conflicts@[k]@),
                decreases a.conflicts.len() - j,
            {
                if given_exec(args, occs, a.conflicts[j].as_str()) {
                    assert(given(args@, ov, a.conflicts@[j as int]@));
                    return true;
                }
                j = j + 1;
            }
            false
        },
        ArgCheck::Lacking => {
            if count == 0 {
                return false;
            }
            let mut j: usize = 0;
            while j < a.needs.len()
                invariant
                    j <= a.needs@.len(),
                    *a == args@[i as int],
                    i < args@.len(),
                    c == ArgCheck::Lacking,
                    count == count_of(ov, i as nat),
                    count > 0,
                    ov == occs_view(occs@),
                    forall|k: int| 0 <= k < j ==> given(args@, ov, #[trigger] a.needs@[k]@),
                decreases a.needs.len() - j,
            {
                if !given_exec(args, occs, a.needs[j].as_str()) {
                    assert(!given(args@, ov, a.needs@[j as int]@));
                    return true;
                }
                j = j + 1;
            }
            false
        },
        ArgCheck::NotNumber => {
            if !a.numeric {
                return false;
            }
            let vals = values_exec(occs, i);
            let ghost vv = values_of(ov, i as nat);
            let mut j: usize = 0;
            while j < vals.len()
                invariant
                    j <= vals@.len(),
                    vals@.map_values(|v: String| v@) == vv,
                    vv == values_of(ov, i as nat),
                    ov == occs_view(occs@),
                    *a == args@[i as int],
                    i < args@.len(),
                    a.numeric,
                    c == ArgCheck::NotNumber,
                    forall|k: int| 0 <= k < j ==> parse_u32(#[trigger] vv[k]) is Some,
                decreases vals.len() - j,
            {
                assert(vals@.map_values(|v: String| v@)[j as int] == vals@[j as int]@);
                if parse_u32_exec(vals[j].as_str()).is_none() {
                    assert(parse_u32(vv[j as int]) is None);
                    return true;
                }
                j = j + 1;
            }
            false
        },
    }
}

/// The first argument that fails check `c`.
fn first_failing_arg(c: ArgCheck, args: &Vec<Arg>, occs: &Vec<(usize, Option<String>)>) -> (r: Option<usize>)
    ensures
        match r {
            Some(i) => first_from(args@.len(), 0, |i: nat| arg_fails(c, args@, occs_view(occs@), i))
                == Some(i as nat) && i < args@.len(),
            None => first_from(args@.len(), 0, |i: nat| arg_fails(c, args@, occs_view(occs@), i))
                is None,
        },
{
    let mut i: usize = 0;
    while i < args.len()
        invariant
            i <= args.len(),
            first_from(args@.len(), 0, |i: nat| arg_fails(c, args@, occs_view(occs@), i))
                == first_from(args@.len(), i as nat, |i: nat| arg_fails(c, args@, occs_view(occs@), i)),
        decreases args.len() - i,
    {
        if arg_fails_exec(c, args, occs, i) {
            return Some(i);
        }
        i = i + 1;
    }
    None
}

/// `empty_group_at`.
fn empty_group_exec(args: &Vec<Arg>, occs: &Vec<(usize, Option<String>)>, g: &Group) -> (r: bool)
    ensures
        r == (g.required && forall|j: int|
            0 <= j < g.members@.len() ==> !given(args@, occs_view(occs@), #[trigger] g.members@[j]@)),
{
    if !g.required {
        return false;
    }
    let mut j: usize = 0;
    while j < g.members.len()
        invariant
            j <= g.members@.len(),
            forall|k: int| 0 <= k < j ==> !given(args@, occs_view(occs@), #[trigger] g.members@[k]@),
        decreases g.members.len() - j,
    {
        if given_exec(args, occs, g.members[j].as_str()) {
            return false;
        }
        j = j + 1;
    }
    true
}

/// `crowded_group_at`.
fn crowded_group_exec(args: &Vec<Arg>, occs: &Vec<(usize, Option<String>)>, g: &Group) -> (r: bool)
    ensures
        r == exists|j: int, k: int|
            0 <= j < k < g.members@.len() && given(args@, occs_view(occs@), #[trigger] g.members@[j]@)
                && given(args@, occs_view(occs@), #[trigger] g.members@[k]@),
{
    let ghost ov = occs_view(occs@);
    let mut first: Option<usize> = None;
    let mut j: usize = 0;
    while j < g.members.len()
        invariant
            j <= g.members@.len(),
            ov == occs_view(occs@),
            match first {
                None => forall|k: int| 0 <= k < j ==> !given(args@, ov, #[trigger] g.members@[k]@),
                Some(f) => f < j && given(args@, ov, g.members@[f as int]@) && forall|k: int|
                    0 <= k < j && k != f ==> !given(args@, ov, #[trigger] g.members@[k]@),
            },
        decreases g.members.len() - j,
    {
        if given_exec(args, occs, g.members[j].as_str()) {
            match first {
                Some(f) => {
                    assert(given(args@, ov, g.members@[f as int]@) && given(args@, ov, g.members@[j as int]@));
                    return true;
                },
                None => {
                    first = Some(j);
                },
            }
        }
        j = j + 1;
    }
    false
}

/// The first group that fails: with no member given (`empty`) or with two.
fn first_failing_group(args: &Vec<Arg>, occs: &Vec<(usize, Option<String>)>, groups: &Vec<Group>, empty: bool) -> (r: Option<usize>)
    ensures
        empty ==> match r {
            Some(g) => first_from(groups@.len(), 0, |g: nat| empty_group_at(args@, occs_view(occs@), groups@, g))
                == Some(g as nat) && g < groups@.len(),
            None => first_from(groups@.len(), 0, |g: nat| empty_group_at(args@, occs_view(occs@), groups@, g)) is None,
        },
        !empty ==> match r {
            Some(g) => first_from(groups@.len(), 0, |g: nat| crowded_group_at(args@, occs_view(occs@), groups@, g))
                == Some(g as nat) && g < groups@.len(),
            None => first_from(groups@.len(), 0, |g: nat| crowded_group_at(args@, occs_view(occs@), groups@, g)) is None,
        },
{
    let mut g: usize = 0;
    while g < groups.len()
        invariant
            g <= groups.len(),
            empty ==> first_from(groups@.len(), 0, |g: nat| empty_group_at(args@, occs_view(occs@), groups@, g))
                == first_from(groups@.len(), g as nat, |g: nat| empty_group_at(args@, occs_view(occs@), groups@, g)),
            !empty ==> first_from(groups@.len(), 0, |g: nat| crowded_group_at(args@, occs_view(occs@), groups@, g))
                == first_from(groups@.len(), g as nat, |g: nat| crowded_group_at(args@, occs_view(occs@), groups@, g)),
        decreases groups.len() - g,
    {
        let hit = if empty {
            empty_group_exec(args, occs, &groups[g])
        } else {
            crowded_group_exec(args, occs, &groups[g])
        };
        if hit {
            return Some(g);
        }
        g = g + 1;
    }
    None
}

/// `level_error`.
fn level_error_exec(cmd: &Command, occs: &Vec<(usize, Option<String>)>, is_last: bool) -> (r: Option<CliError>)
    ensures
        match level_error(*cmd, occs_view(occs@), is_last) {
            Some(e) => r matches Some(x) && x.kind == e.0 && x.detail@ == e.1,
            None => r is None,
        },
{
    let args = &cmd.args;
    if let Some(i) = first_failing_arg(ArgCheck::Repeated, args, occs) {
        return Some(cli_error(CliErrorKind::Duplicate, copy_str(args[i].id.as_str())));
    }
    if is_last && cmd.subcommands.len() > 0 && cmd.subcommand_required {
        return Some(cli_error(CliErrorKind::MissingSubcommand, copy_str(cmd.name.as_str())));
    }
    if let Some(i) = first_failing_arg(ArgCheck::Missing, args, occs) {
        return Some(cli_error(CliErrorKind::MissingRequired, copy_str(args[i].id.as_str())));
    }
    if let Some(i) = first_failing_arg(ArgCheck::Conflicting, args, occs) {
        return Some(cli_error(CliErrorKind::Conflict, copy_str(args[i].id.as_str())));
    }
    if let Some(i) = first_failing_arg(ArgCheck::Lacking, args, occs) {
        return Some(cli_error(CliErrorKind::MissingRequired, copy_str(args[i].id.as_str())));
    }
    if let Some(g) = first_failing_group(args, occs, &cmd.groups, true) {
        return Some(cli_error(CliErrorKind::MissingRequired, copy_str(cmd.groups[g].id.as_str())));
    }
    if let Some(g) = first_failing_group(args, occs, &cmd.groups, false) {
        return Some(cli_error(CliErrorKind::Conflict, copy_str(cmd.groups[g].id.as_str())));
    }
    if let Some(i) = first_failing_arg(ArgCheck::NotNumber, args, occs) {
        return Some(cli_error(CliErrorKind::InvalidValue, copy_str(args[i].id.as_str())));
    }
    None
}


/// The matches of one level, without its subcommand.
fn level_matches_exec(cmd: &Command, occs: &Vec<(usize, Option<String>)>) -> (m: ArgMatches)
    ensures
        m.sub is None,
        m.here() == (LevelMatches {
            name: cmd.name@,
            values: level_values(cmd.args@, occs_view(occs@), cmd.args@.len()),
            flags: level_flags(cmd.args@, occs_view(occs@), cmd.args@.len()),
        }),
{
    let ghost ov = occs_view(occs@);
    let args = &cmd.args;
    let mut values: Vec<(String, Vec<String>)> = Vec::new();
    let mut flags: Vec<String> = Vec::new();
    let mut i: usize = 0;
    proof {
        assert(values@.map_values(|e: (String, Vec<String>)| (e.0@, e.1@.map_values(|v: String| v@)))
            =~= Seq::<(Seq<char>, Seq<Seq<char>>)>::empty());
        assert(flags@.map_values(|f: String| f@) =~= Seq::<Seq<char>>::empty());
    }
    while i < args.len()
        invariant
            i <= args@.len(),
            ov == occs_view(occs@),
            values@.map_values(|e: (String, Vec<String>)| (e.0@, e.1@.map_values(|v: String| v@)))
                == level_values(args@, ov, i as nat),
            flags@.map_values(|f: String| f@) == level_flags(args@, ov, i as nat),
        decreases args.len() - i,
    {
        let ghost vbefore = values@.map_values(|e: (String, Vec<String>)| (e.0@, e.1@.map_values(|v: String| v@)));
        let ghost fbefore = flags@.map_values(|f: String| f@);
        let a = &args[i];
        if a.kind == ArgKind::Flag {
            if count_exec(occs, i) > 0 {
                flags.push(copy_str(a.id.as_str()));
                proof {
                    assert(flags@.map_values(|f: String| f@) =~= fbefore.push(a.id@));
                }
            }
        } else {
            let vals = values_exec(occs, i);
            if vals.len() > 0 {
                let entry = (copy_str(a.id.as_str()), vals);
                values.push(entry);
                proof {
                    assert(values@.map_values(|e: (String, Vec<String>)| (e.0@, e.1@.map_values(|v: String| v@)))
                        =~= vbefore.push((a.id@, values_of(ov, i as nat))));
                }
            } else {
                match &a.default {
                    Some(d) => {
                        let mut dv: Vec<String> = Vec::new();
                        dv.push(copy_str(d.as_str()));
                        proof {
                            assert(dv@.map_values(|v: String| v@) =~= seq![d@]);
                        }
                        values.push((copy_str(a.id.as_str()), dv));
                        proof {
                            assert(values@.map_values(|e: (String, Vec<String>)| (e.0@, e.1@.map_values(|v: String| v@)))
                                =~= vbefore.push((a.id@, seq![d@])));
                        }
                    },
                    None => {},
                }
            }
        }
        i = i + 1;
    }
    ArgMatches { name: copy_str(cmd.name.as_str()), values, flags, sub: None }
}

/// The arguments of a command line, without the program name.
pub open spec fn tokens_of(argv: Seq<&str>) -> Seq<Seq<char>> {
    (if argv.len() > 0 { argv.drop_first() } else { argv }).map_values(|t: &str| t@)
}

impl Command {
    /// Reads the command line `argv` (program name first) against this
    /// grammar.
    pub fn try_get_matches_from(&self, argv: &[&str]) -> (r: Result<ArgMatches, CliError>)
        ensures
            match parse_outcome(*self, tokens_of(argv@)) {
                Ok(ls) => r matches Ok(m) && m.levels() == ls,
                Err(e) => r matches Err(x) && x.kind == e.0 && x.detail@ == e.1,
            },
    {
        let ghost toks = tokens_of(argv@);
        let mut first = Level { sub: 0, occs: Vec::new(), cursor: 0 };
        let mut levels: Vec<Level> = Vec::new();
        levels.push(first);
        let mut st = Reader { levels, dashdash: false, pending: None, help: false };
        proof {
            assert(first.view().occs =~= Seq::<(nat, Option<Seq<char>>)>::empty());
            assert(st@.levels =~= initial_state().levels);
            assert(sub_path(st@.levels.take(1)) =~= Seq::<nat>::empty());
        }
        let mut i: usize = if argv.len() > 0 { 1 } else { 0 };
        proof {
            assert(toks =~= argv@.skip(i as int).map_values(|t: &str| t@));
        }
        while i < argv.len()
            invariant
                i <= argv@.len(),
                toks == tokens_of(argv@),
                reader_wf(*self, st@),
                run(*self, initial_state(), toks) == run(*self, st@, argv@.skip(i as int).map_values(|t: &str| t@)),
            decreases argv.len() - i,
        {
            let ghost rest = argv@.skip(i as int).map_values(|t: &str| t@);
            proof {
                assert(rest[0] == argv@[i as int]@);
                assert(rest.drop_first() =~= argv@.skip(i + 1).map_values(|t: &str| t@));
            }
            match step_exec(self, &mut st, argv[i]) {
                Ok(()) => {},
                Err(e) => {
                    return Err(e);
                },
            }
            i = i + 1;
        }
        proof {
            assert(argv@.skip(i as int).map_values(|t: &str| t@) =~= Seq::<Seq<char>>::empty());
        }
        let ghost fin = st@;
        assert(run(*self, st@, Seq::<Seq<char>>::empty()) == Ok::<ParseState, (CliErrorKind, Seq<char>)>(st@));
        let nlev = st.levels.len();
        if st.help {
            let path = path_text_exec(self, &st);
            let c = cmd_of(self, &st.levels, nlev - 1);
            return Err(cli_error(CliErrorKind::DisplayHelp, help_text_exec(c, path.as_str())));
        }
        match st.pending {
            Some(a) => {
                let c = cmd_of(self, &st.levels, nlev - 1);
                return Err(cli_error(CliErrorKind::MissingValue, copy_str(c.args[a].id.as_str())));
            },
            None => {},
        }
        let mut k: usize = 0;
        while k < nlev
            invariant
                k <= nlev,
                nlev == st.levels@.len(),
                fin == st@,
                fin.pending is None,
                !fin.help,
                run(*self, initial_state(), tokens_of(argv@)) == Ok::<ParseState, (CliErrorKind, Seq<char>)>(fin),
                levels_error(*self, fin.levels, 0) == levels_error(*self, fin.levels, k as nat),
            decreases nlev - k,
        {
            let c = cmd_of(self, &st.levels, k);
            match level_error_exec(c, &st.levels[k].occs, k + 1 == nlev) {
                Some(e) => {
                    proof {
                        if e.kind == CliErrorKind::MissingSubcommand {
                            assert(k + 1 == nlev);
                            assert(fin.levels.last() == fin.levels[k as int]);
                            assert(fin.levels[k as int].occs.len() == st.levels@[k as int].occs@.len());
                        }
                    }
                    if e.kind == CliErrorKind::MissingSubcommand && st.levels[k].occs.len() == 0 {
                        let path = path_text_exec(self, &st);
                        return Err(cli_error(CliErrorKind::HelpForMissingSubcommand, help_text_exec(c, path.as_str())));
                    }
                    return Err(e);
                },
                None => {},
            }
            k = k + 1;
        }
        let ghost ls = Seq::new(fin.levels.len(), |k: int| level_matches(*self, fin.levels, k));
        let mut out: Vec<ArgMatches> = Vec::new();
        let mut k: usize = 0;
        while k < nlev
            invariant
                k <= nlev,
                nlev == st.levels@.len(),
                fin == st@,
                ls == Seq::new(fin.levels.len(), |k: int| level_matches(*self, fin.levels, k)),
                out@.len() == k,
                forall|j: int| 0 <= j < k ==> (#[trigger] out@[j]).sub is None && out@[j].here() == ls[j],
            decreases nlev - k,
        {
            let c = cmd_of(self, &st.levels, k);
            let m = level_matches_exec(c, &st.levels[k].occs);
            out.push(m);
            k = k + 1;
        }
        let mut cur = out.pop().unwrap();
        proof {
            assert(cur.levels() =~= ls.skip(nlev - 1));
        }
        while out.len() > 0
            invariant
                1 <= out@.len() + 1 <= nlev,
                ls.len() == nlev,
                forall|j: int| 0 <= j < out@.len() ==> (#[trigger] out@[j]).sub is None && out@[j].here() == ls[j],
                cur.levels() == ls.skip(out@.len() as int),
            decreases out.len(),
        {
            let mut m = out.pop().unwrap();
            let ghost mhere = m.here();
            m.sub = Some(Box::new(cur));
            proof {
                assert(m.here() == mhere);
                assert(m.levels() =~= ls.skip(out@.len() as int));
            }
            cur = m;
        }
        proof {
            assert(ls.skip(0) =~= ls);
        }
        Ok(cur)
    }
}


/// The values recorded for `id`, if any.
pub open spec fn values_for(vals: Seq<(Seq<char>, Seq<Seq<char>>)>, id: Seq<char>) -> Option<Seq<Seq<char>>>
    decreases vals.len(),
{
    if vals.len() == 0 {
        None
    } else if vals[0].0 == id {
        Some(vals[0].1)
    } else {
        values_for(vals.drop_first(), id)
    }
}

impl ArgMatches {
    /// The chosen subcommand's name and matches.
    pub fn subcommand(&self) -> (r: Option<(&str, &ArgMatches)>)
        ensures
            match self.sub {
                Some(b) => r matches Some(p) && p.0@ == b.name@ && *p.1 == *b,
                None => r is None,
            },
    {
        match &self.sub {
            Some(b) => Some((b.name.as_str(), &**b)),
            None => None,
        }
    }

    /// The values of argument `id`.
    pub fn get_many(&self, id: &str) -> (r: Option<&Vec<String>>)
        ensures
            match values_for(self.here().values, id@) {
                Some(vs) => r matches Some(v) && v@.map_values(|x: String| x@) == vs,
                None => r is None,
            },
    {
        let ghost hv = self.here().values;
        let mut i: usize = 0;
        proof {
            assert(hv.skip(0) =~= hv);
        }
        while i < self.values.len()
            invariant
                i <= self.values@.len(),
                hv == self.here().values,
                values_for(hv, id@) == values_for(hv.skip(i as int), id@),
            decreases self.values.len() - i,
        {
            proof {
                assert(hv.skip(i as int).drop_first() =~= hv.skip(i + 1));
                assert(hv.skip(i as int)[0] == hv[i as int]);
            }
            if str_eq(self.values[i].0.as_str(), id) {
                return Some(&self.values[i].1);
            }
            i = i + 1;
        }
        None
    }

    /// The first value of argument `id`.
    pub fn get_one(&self, id: &str) -> (r: Option<&String>)
        ensures
            match values_for(self.here().values, id@) {
                Some(vs) => if vs.len() > 0 {
                    r matches Some(v) && v@ == vs[0]
                } else {
                    r is None
                },
                None => r is None,
            },
    {
        match self.get_many(id) {
            Some(v) => {
                if v.len() > 0 {
                    assert(v@.map_values(|x: String| x@)[0] == v@[0]@);
                    Some(&v[0])
                } else {
                    None
                }
            },
            None => None,
        }
    }

    /// The first value of argument `id`, read as a `u32`.
    pub fn get_u32(&self, id: &str) -> (r: Option<u32>)
        ensures
            match values_for(self.here().values, id@) {
                Some(vs) => if vs.len() > 0 {
                    r == parse_u32(vs[0])
                } else {
                    r is None
                },
                None => r is None,
            },
    {
        match self.get_one(id) {
            Some(v) => parse_u32_exec(v.as_str()),
            None => None,
        }
    }

    /// Whether the flag `id` was given.
    pub fn get_flag(&self, id: &str) -> (r: bool)
        ensures
            r == self.here().flags.contains(id@),
    {
        let ghost fl = self.here().flags;
        let mut i: usize = 0;
        while i < self.flags.len()
            invariant
                i <= self.flags@.len(),
                fl == self.here().flags,
                forall|j: int| 0 <= j < i ==> fl[j] != id@,
            decreases self.flags.len() - i,
        {
            if str_eq(self.flags[i].as_str(), id) {
                assert(fl[i as int] == id@);
                return true;
            }
            i = i + 1;
        }
        false
    }
}

} // verus!
