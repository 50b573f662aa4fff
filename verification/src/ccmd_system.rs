//! The console command language: a line is split into shell-style words,
//! and the words name a command and give its arguments.
//!
//! Commands:
//! - `test-vfx PATH POS_X POS_Y POS_Z`: spawn a test effect (the position
//!   components are read as numbers by the caller);
//! - `delete-entity ID`: delete the entity with that (32-bit) id;
//! - `clear-cache`: clear all resource caches;
//! - `set NAME VALUE`: set a console variable;
//! - `cvarlist`: list the console variables.
//!
//! `help`, `-h` and `--help` ask for the command summary in place of a
//! command. A word that starts with `-` (other than a lone `-`) is an option,
//! and no command takes one; after a `--` word every word is a value, so
//! `set r_gamma -- -1` sets `r_gamma` to `-1`.
use vstd::prelude::*;
use crate::parse_utils::{parse_u32, spec_parse_unsigned, spec_is_digit, spec_unsigned_digits};
use crate::text::{chars_of, str_eq};
use crate::cvar::{lemma_decimal_reads_back, spec_decimal};

verus! {

/// The words that shell-style splitting makes of `input` (quotes group
/// words, backslashes escape), or `None` when a quote is not closed.
pub uninterp spec fn shell_words(input: Seq<char>) -> Option<Seq<Seq<char>>>;

/// `shellwords::split`.
/// Trusted: the words are named, not described; the only error the crate
/// reports is a quote that is not closed, which becomes `None`.
#[verifier::external_body]
fn split_words(input: &str) -> (r: Option<Vec<String>>)
    ensures
        r is None <==> shell_words(input@) is None,
        r matches Some(v) ==> v@.map_values(|s: String| s@) == shell_words(input@)->0,
{
    shellwords::split(input).ok()
}

/// A console command with its arguments.
pub enum ConsoleCommand {
    TestVfx { path: String, pos_x: String, pos_y: String, pos_z: String },
    DeleteEntity { id: u32 },
    ClearCache,
    SetCVar { name: String, value: String },
    CvarList,
}

/// A console command as the contracts see it.
pub enum ConsoleCommandView {
    TestVfx(Seq<char>, Seq<char>, Seq<char>, Seq<char>),
    DeleteEntity(u32),
    ClearCache,
    SetCVar(Seq<char>, Seq<char>),
    CvarList,
}

impl View for ConsoleCommand {
    type V = ConsoleCommandView;

    open spec fn view(&self) -> ConsoleCommandView {
        match self {
            ConsoleCommand::TestVfx { path, pos_x, pos_y, pos_z } => ConsoleCommandView::TestVfx(path@, pos_x@, pos_y@, pos_z@),
            ConsoleCommand::DeleteEntity { id } => ConsoleCommandView::DeleteEntity(*id),
            ConsoleCommand::ClearCache => ConsoleCommandView::ClearCache,
            ConsoleCommand::SetCVar { name, value } => ConsoleCommandView::SetCVar(name@, value@),
            ConsoleCommand::CvarList => ConsoleCommandView::CvarList,
        }
    }
}

/// Why a console line is not a command.
#[derive(Debug, Clone, Copy, PartialEq, Eq, Structural)]
pub enum CommandError {
    /// A quote is not closed.
    MismatchedQuotes,
    /// The line names no command.
    MissingCommand,
    /// The line names an unknown command.
    UnknownCommand,
    /// The command is given too few or too many arguments.
    WrongArgumentCount,
    /// An entity id is not a 32-bit unsigned number.
    InvalidNumber,
    /// The line asks for help (`help`, `-h` or `--help`) in place of a command.
    HelpRequested,
    /// An option word (one that starts with `-`) that no command takes.
    UnexpectedArgument,
}

/// Whether a word is an option: at least two characters, the first a `-`.
/// A lone `-` is a value.
pub open spec fn spec_is_flag(word: Seq<char>) -> bool {
    word.len() >= 2 && word[0] == '-'
}

/// Whether a word asks for help.
pub open spec fn spec_is_help_flag(word: Seq<char>) -> bool {
    word == "-h"@ || word == "--help"@
}

/// The error that an option word gives.
pub open spec fn spec_flag_error(word: Seq<char>) -> CommandError {
    if spec_is_help_flag(word) { CommandError::HelpRequested } else { CommandError::UnexpectedArgument }
}

/// Whether a word names a command.
pub open spec fn spec_is_command_name(word: Seq<char>) -> bool {
    ||| word == "test-vfx"@
    ||| word == "delete-entity"@
    ||| word == "clear-cache"@
    ||| word == "set"@
    ||| word == "cvarlist"@
    ||| word == "help"@
}

/// Reads the arguments `w[i..]` of a command that takes `k` values, left to
/// right: `vals` holds the values read so far, and `raw` whether a `--` word
/// has been seen. Before the first `--`, the `--` word itself is dropped and
/// an option word ends the reading with its error; a value beyond the `k`-th
/// is an error, and so is a count short of `k` at the end.
pub open spec fn spec_scan_args(
    w: Seq<Seq<char>>,
    k: nat,
    i: nat,
    raw: bool,
    vals: Seq<Seq<char>>,
) -> Result<Seq<Seq<char>>, CommandError>
    decreases w.len() - i,
{
    if i >= w.len() {
        if vals.len() == k { Ok(vals) } else { Err(CommandError::WrongArgumentCount) }
    } else {
        let a = w[i as int];
        if !raw && a == "--"@ {
            spec_scan_args(w, k, i + 1, true, vals)
        } else if !raw && spec_is_flag(a) {
            Err(spec_flag_error(a))
        } else if vals.len() >= k {
            Err(CommandError::WrongArgumentCount)
        } else {
            spec_scan_args(w, k, i + 1, raw, vals.push(a))
        }
    }
}

/// The values that the arguments of the command `w[0]` give, for a command
/// that takes `k` of them.
pub open spec fn spec_command_args(w: Seq<Seq<char>>, k: nat) -> Result<Seq<Seq<char>>, CommandError> {
    spec_scan_args(w, k, 1, false, Seq::empty())
}

/// The command that the words `w` give.
pub open spec fn spec_parse_command(w: Seq<Seq<char>>) -> Result<ConsoleCommandView, CommandError> {
    if w.len() == 0 {
        Err(CommandError::MissingCommand)
    } else {
        let name = w[0];
        let n = w.len() - 1;
        if spec_is_flag(name) {
            Err(spec_flag_error(name))
        } else if name == "help"@ {
            if n == 0 || (n == 1 && spec_is_command_name(w[1])) {
                Err(CommandError::HelpRequested)
            } else {
                Err(CommandError::UnknownCommand)
            }
        } else if name == "test-vfx"@ {
            match spec_command_args(w, 4) {
                Ok(v) => Ok(ConsoleCommandView::TestVfx(v[0], v[1], v[2], v[3])),
                Err(e) => Err(e),
            }
        } else if name == "delete-entity"@ {
            match spec_command_args(w, 1) {
                Ok(v) => match spec_parse_unsigned(v[0], 0xffff_ffff) {
                    Some(id) => Ok(ConsoleCommandView::DeleteEntity(id as u32)),
                    None => Err(CommandError::InvalidNumber),
                },
                Err(e) => Err(e),
            }
        } else if name == "clear-cache"@ {
            match spec_command_args(w, 0) {
                Ok(_) => Ok(ConsoleCommandView::ClearCache),
                Err(e) => Err(e),
            }
        } else if name == "set"@ {
            match spec_command_args(w, 2) {
                Ok(v) => Ok(ConsoleCommandView::SetCVar(v[0], v[1])),
                Err(e) => Err(e),
            }
        } else if name == "cvarlist"@ {
            match spec_command_args(w, 0) {
                Ok(_) => Ok(ConsoleCommandView::CvarList),
                Err(e) => Err(e),
            }
        } else {
            Err(CommandError::UnknownCommand)
        }
    }
}

/// The command of a console line.
pub open spec fn spec_parse_line(line: Seq<char>) -> Result<ConsoleCommandView, CommandError> {
    match shell_words(line) {
        None => Err(CommandError::MismatchedQuotes),
        Some(w) => spec_parse_command(w),
    }
}

/// Whether `s` is an option word.
fn is_flag(s: &str) -> (r: bool)
    ensures
        r == spec_is_flag(s@),
{
    let c = chars_of(s);
    c.len() >= 2 && c[0] == '-'
}

/// The error that the option word `s` gives.
fn flag_error(s: &str) -> (r: CommandError)
    ensures
        r == spec_flag_error(s@),
{
    if str_eq(s, "-h") || str_eq(s, "--help") {
        CommandError::HelpRequested
    } else {
        CommandError::UnexpectedArgument
    }
}

/// Whether `s` names a command.
fn is_command_name(s: &str) -> (r: bool)
    ensures
        r == spec_is_command_name(s@),
{
    str_eq(s, "test-vfx") || str_eq(s, "delete-entity") || str_eq(s, "clear-cache") || str_eq(s, "set")
        || str_eq(s, "cvarlist") || str_eq(s, "help")
}

/// The `k` values that the arguments `words[1..]` give.
fn command_args(words: &Vec<String>, k: usize) -> (r: Result<Vec<String>, CommandError>)
    requires
        words.len() >= 1,
    ensures
        r matches Ok(v) ==> v.len() == k && spec_command_args(words@.map_values(|s: String| s@), k as nat)
            == Ok::<Seq<Seq<char>>, CommandError>(v@.map_values(|s: String| s@)),
        r matches Err(e) ==> spec_command_args(words@.map_values(|s: String| s@), k as nat)
            == Err::<Seq<Seq<char>>, CommandError>(e),
{
    let ghost w = words@.map_values(|s: String| s@);
    let mut vals: Vec<String> = Vec::new();
    let mut raw = false;
    let mut i: usize = 1;
    proof {
        assert(vals@.map_values(|s: String| s@) =~= Seq::<Seq<char>>::empty());
    }
    while i < words.len()
        invariant
            1 <= i <= words.len(),
            w == words@.map_values(|s: String| s@),
            vals.len() <= k,
            spec_scan_args(w, k as nat, i as nat, raw, vals@.map_values(|s: String| s@))
                == spec_command_args(w, k as nat),
        decreases words.len() - i,
    {
        let a = words[i].as_str();
        proof {
            assert(w[i as int] == a@);
        }
        if !raw && str_eq(a, "--") {
            raw = true;
        } else if !raw && is_flag(a) {
            return Err(flag_error(a));
        } else if vals.len() >= k {
            return Err(CommandError::WrongArgumentCount);
        } else {
            let ghost before = vals@.map_values(|s: String| s@);
            vals.push(words[i].clone());
            proof {
                assert(vals@.map_values(|s: String| s@) =~= before.push(a@));
            }
        }
        i = i + 1;
    }
    if vals.len() == k {
        Ok(vals)
    } else {
        Err(CommandError::WrongArgumentCount)
    }
}

/// The command that the words `words` give.
pub fn parse_command(words: &Vec<String>) -> (r: Result<ConsoleCommand, CommandError>)
    ensures
        r matches Ok(c) ==> spec_parse_command(words@.map_values(|s: String| s@)) == Ok::<ConsoleCommandView, CommandError>(c@),
        r matches Err(e) ==> spec_parse_command(words@.map_values(|s: String| s@)) == Err::<ConsoleCommandView, CommandError>(e),
{
    let ghost w = words@.map_values(|s: String| s@);
    if words.len() == 0 {
        return Err(CommandError::MissingCommand);
    }
    let name = words[0].as_str();
    let n = words.len() - 1;
    proof {
        assert(w[0] == words@[0]@);
    }
    if is_flag(name) {
        Err(flag_error(name))
    } else if str_eq(name, "help") {
        if n == 0 {
            Err(CommandError::HelpRequested)
        } else {
            proof { assert(w[1] == words@[1]@); }
            if n == 1 && is_command_name(words[1].as_str()) {
                Err(CommandError::HelpRequested)
            } else {
                Err(CommandError::UnknownCommand)
            }
        }
    } else if str_eq(name, "test-vfx") {
        match command_args(words, 4) {
            Ok(v) => {
                let ghost vv = v@.map_values(|s: String| s@);
                proof {
                    assert(vv[0] == v@[0]@ && vv[1] == v@[1]@ && vv[2] == v@[2]@ && vv[3] == v@[3]@);
                }
                Ok(ConsoleCommand::TestVfx {
                    path: v[0].clone(),
                    pos_x: v[1].clone(),
                    pos_y: v[2].clone(),
                    pos_z: v[3].clone(),
                })
            },
            Err(e) => Err(e),
        }
    } else if str_eq(name, "delete-entity") {
        match command_args(words, 1) {
            Ok(v) => {
                let ghost vv = v@.map_values(|s: String| s@);
                proof { assert(vv[0] == v@[0]@); }
                match parse_u32(v[0].as_str()) {
                    Some(id) => Ok(ConsoleCommand::DeleteEntity { id }),
                    None => Err(CommandError::InvalidNumber),
                }
            },
            Err(e) => Err(e),
        }
    } else if str_eq(name, "clear-cache") {
        match command_args(words, 0) {
            Ok(_) => Ok(ConsoleCommand::ClearCache),
            Err(e) => Err(e),
        }
    } else if str_eq(name, "set") {
        match command_args(words, 2) {
            Ok(v) => {
                let ghost vv = v@.map_values(|s: String| s@);
                proof { assert(vv[0] == v@[0]@ && vv[1] == v@[1]@); }
                Ok(ConsoleCommand::SetCVar { name: v[0].clone(), value: v[1].clone() })
            },
            Err(e) => Err(e),
        }
    } else if str_eq(name, "cvarlist") {
        match command_args(words, 0) {
            Ok(_) => Ok(ConsoleCommand::CvarList),
            Err(e) => Err(e),
        }
    } else {
        Err(CommandError::UnknownCommand)
    }
}

/// The command of the console line `line`. A line whose quotes do not
/// close is refused with `MismatchedQuotes`.
pub fn parse_line(line: &str) -> (r: Result<ConsoleCommand, CommandError>)
    ensures
        r matches Ok(c) ==> spec_parse_line(line@) == Ok::<ConsoleCommandView, CommandError>(c@),
        r matches Err(e) ==> spec_parse_line(line@) == Err::<ConsoleCommandView, CommandError>(e),
{
    match split_words(line) {
        None => Err(CommandError::MismatchedQuotes),
        Some(words) => parse_command(&words),
    }
}

/// Plain words (none of them an option or `--`) are the arguments of the
/// command the first word names: `set NAME VALUE` sets `NAME` to `VALUE`,
/// `test-vfx` takes its four words as they are, `delete-entity` reads its
/// decimal id, `clear-cache` and `cvarlist` take nothing, and a missing or
/// extra word is a wrong argument count; after `--` any word is a value.
pub proof fn law_plain_words_are_arguments(a: Seq<char>, b: Seq<char>, c: Seq<char>, d: Seq<char>, x: Seq<char>, id: u32)
    requires
        !spec_is_flag(a),
        !spec_is_flag(b),
        !spec_is_flag(c),
        !spec_is_flag(d),
    ensures
        spec_parse_command(seq!["set"@, a, b]) == Ok::<ConsoleCommandView, CommandError>(ConsoleCommandView::SetCVar(a, b)),
        spec_parse_command(seq!["set"@, a, "--"@, x]) == Ok::<ConsoleCommandView, CommandError>(ConsoleCommandView::SetCVar(a, x)),
        spec_parse_command(seq!["set"@, a]) == Err::<ConsoleCommandView, CommandError>(CommandError::WrongArgumentCount),
        spec_parse_command(seq!["set"@, a, b, c]) == Err::<ConsoleCommandView, CommandError>(CommandError::WrongArgumentCount),
        spec_parse_command(seq!["test-vfx"@, a, b, c, d]) == Ok::<ConsoleCommandView, CommandError>(ConsoleCommandView::TestVfx(a, b, c, d)),
        spec_parse_command(seq!["delete-entity"@, spec_decimal(id as nat)]) == Ok::<ConsoleCommandView, CommandError>(ConsoleCommandView::DeleteEntity(id)),
        spec_parse_command(seq!["clear-cache"@]) == Ok::<ConsoleCommandView, CommandError>(ConsoleCommandView::ClearCache),
        spec_parse_command(seq!["cvarlist"@]) == Ok::<ConsoleCommandView, CommandError>(ConsoleCommandView::CvarList),
        spec_parse_command(seq!["cvarlist"@, a]) == Err::<ConsoleCommandView, CommandError>(CommandError::WrongArgumentCount),
{
    reveal_strlit("set");
    reveal_strlit("--");
    reveal_strlit("test-vfx");
    reveal_strlit("delete-entity");
    reveal_strlit("clear-cache");
    reveal_strlit("cvarlist");
    reveal_strlit("help");
    reveal_strlit("-h");
    reveal_strlit("--help");
    assert(a != "--"@ && b != "--"@ && c != "--"@ && d != "--"@);
    let e = Seq::<Seq<char>>::empty();
    // set NAME VALUE
    let w = seq!["set"@, a, b];
    assert(spec_scan_args(w, 2, 3, false, e.push(a).push(b)) == Ok::<Seq<Seq<char>>, CommandError>(e.push(a).push(b)));
    assert(spec_scan_args(w, 2, 2, false, e.push(a)) == spec_scan_args(w, 2, 3, false, e.push(a).push(b)));
    assert(spec_scan_args(w, 2, 1, false, e) == spec_scan_args(w, 2, 2, false, e.push(a)));
    // set NAME -- X
    let w = seq!["set"@, a, "--"@, x];
    assert(spec_scan_args(w, 2, 4, true, e.push(a).push(x)) == Ok::<Seq<Seq<char>>, CommandError>(e.push(a).push(x)));
    assert(spec_scan_args(w, 2, 3, true, e.push(a)) == spec_scan_args(w, 2, 4, true, e.push(a).push(x)));
    assert(spec_scan_args(w, 2, 2, false, e.push(a)) == spec_scan_args(w, 2, 3, true, e.push(a)));
    assert(spec_scan_args(w, 2, 1, false, e) == spec_scan_args(w, 2, 2, false, e.push(a)));
    // set NAME
    let w = seq!["set"@, a];
    assert(spec_scan_args(w, 2, 1, false, e) == spec_scan_args(w, 2, 2, false, e.push(a)));
    // set NAME VALUE EXTRA
    let w = seq!["set"@, a, b, c];
    assert(spec_scan_args(w, 2, 3, false, e.push(a).push(b)) == Err::<Seq<Seq<char>>, CommandError>(CommandError::WrongArgumentCount));
    assert(spec_scan_args(w, 2, 2, false, e.push(a)) == spec_scan_args(w, 2, 3, false, e.push(a).push(b)));
    assert(spec_scan_args(w, 2, 1, false, e) == spec_scan_args(w, 2, 2, false, e.push(a)));
    // test-vfx
    let w = seq!["test-vfx"@, a, b, c, d];
    let v4 = e.push(a).push(b).push(c).push(d);
    assert(spec_scan_args(w, 4, 5, false, v4) == Ok::<Seq<Seq<char>>, CommandError>(v4));
    assert(spec_scan_args(w, 4, 4, false, e.push(a).push(b).push(c)) == spec_scan_args(w, 4, 5, false, v4));
    assert(spec_scan_args(w, 4, 3, false, e.push(a).push(b)) == spec_scan_args(w, 4, 4, false, e.push(a).push(b).push(c)));
    assert(spec_scan_args(w, 4, 2, false, e.push(a)) == spec_scan_args(w, 4, 3, false, e.push(a).push(b)));
    assert(spec_scan_args(w, 4, 1, false, e) == spec_scan_args(w, 4, 2, false, e.push(a)));
    // delete-entity ID
    let t = spec_decimal(id as nat);
    lemma_decimal_reads_back(id as nat);
    assert(spec_is_digit(t[0]));
    assert(!spec_is_flag(t));
    assert(t != "--"@);
    let w = seq!["delete-entity"@, t];
    assert(spec_scan_args(w, 1, 1, false, e) == spec_scan_args(w, 1, 2, false, e.push(t)));
    assert(t[0] != '+');
    assert(spec_unsigned_digits(t) == t);
    assert(spec_parse_unsigned(t, 0xffff_ffff) == Some(id as int));
    // clear-cache, cvarlist
    let w = seq!["cvarlist"@, a];
    assert(spec_scan_args(w, 0, 1, false, e) == Err::<Seq<Seq<char>>, CommandError>(CommandError::WrongArgumentCount));
    assert(spec_scan_args(seq!["cvarlist"@], 0, 1, false, e) == Ok::<Seq<Seq<char>>, CommandError>(e));
    assert(spec_scan_args(seq!["clear-cache"@], 0, 1, false, e) == Ok::<Seq<Seq<char>>, CommandError>(e));
}

/// An option word in place of a command's first argument is refused: `-h`
/// or `--help` asks for help, any other option is unexpected, whichever
/// command is named; so is an option in place of the command.
pub proof fn law_options_are_refused(name: Seq<char>, f: Seq<char>)
    requires
        name == "test-vfx"@ || name == "delete-entity"@ || name == "clear-cache"@ || name == "set"@ || name == "cvarlist"@,
        spec_is_flag(f),
        f != "--"@,
    ensures
        spec_parse_command(seq![name, f]) == Err::<ConsoleCommandView, CommandError>(
            if f == "-h"@ || f == "--help"@ { CommandError::HelpRequested } else { CommandError::UnexpectedArgument }),
        spec_parse_command(seq![f]) == Err::<ConsoleCommandView, CommandError>(
            if f == "-h"@ || f == "--help"@ { CommandError::HelpRequested } else { CommandError::UnexpectedArgument }),
{
    reveal_strlit("set");
    reveal_strlit("--");
    reveal_strlit("test-vfx");
    reveal_strlit("delete-entity");
    reveal_strlit("clear-cache");
    reveal_strlit("cvarlist");
    reveal_strlit("help");
    reveal_strlit("-h");
    reveal_strlit("--help");
    let w = seq![name, f];
    assert(w[1] == f);
    assert(!spec_is_flag(name));
}

} // verus!
