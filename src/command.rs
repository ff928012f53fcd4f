use vstd::prelude::*;
use crate::builtin::{builtin_named, BuiltIn};
use crate::cursor::{after_token, first_token, str_chunk, unread, until_space, Cursor};
use crate::search::opt_view;
use crate::split::{split_whitespace, views, words};
use crate::text::{chars_of, string_of, trim, trimmed};

verus! {

/// Why a line could not be read as a command.
#[derive(Clone, Copy, Debug, PartialEq, Eq, Structural)]
pub enum ParseError {
    /// The argument of `exit` is missing, is not a decimal number, or is
    /// over 255.
    BadExitCode,
}

/// One input line, read as a command.
#[derive(Debug)]
pub enum Command {
    /// `exit` with its status.
    Exit(u8),
    /// `echo` with the text to print.
    Echo(String),
    /// `type` with the name to describe.
    Type(String),
    /// `pwd`.
    Pwd,
    /// `cd` with its argument as written, empty where there is none.
    Cd(String),
    /// Any other name, with the words that follow it.
    Run { name: String, args: Vec<String> },
}

/// What a command holds, as sequences of characters.
pub enum CommandView {
    Exit(u8),
    Echo(Seq<char>),
    Type(Seq<char>),
    Pwd,
    Cd(Seq<char>),
    Run(Seq<char>, Seq<Seq<char>>),
}

impl View for Command {
    type V = CommandView;

    open spec fn view(&self) -> CommandView {
        match self {
            Command::Exit(n) => CommandView::Exit(*n),
            Command::Echo(t) => CommandView::Echo(t@),
            Command::Type(t) => CommandView::Type(t@),
            Command::Pwd => CommandView::Pwd,
            Command::Cd(t) => CommandView::Cd(t@),
            Command::Run { name, args } => CommandView::Run(name@, views(args@)),
        }
    }
}

pub open spec fn is_digit(c: char) -> bool {
    0x30 <= (c as u32) && (c as u32) <= 0x39
}

/// The number that the decimal digits `s` write.
pub open spec fn decimal(s: Seq<char>) -> nat
    decreases s.len(),
{
    if s.len() == 0 {
        0
    } else {
        decimal(s.drop_last()) * 10 + ((s.last() as u32) - 0x30) as nat
    }
}

/// The exit status that `s` writes: one or more decimal digits and nothing
/// else, of a value that fits in a byte.
pub open spec fn exit_code_of(s: Seq<char>) -> Option<u8> {
    if s.len() > 0 && (forall|i: int| 0 <= i < s.len() ==> is_digit(#[trigger] s[i])) && decimal(s)
        <= 255 {
        Some(decimal(s) as u8)
    } else {
        None
    }
}

proof fn lemma_decimal_prefix(s: Seq<char>, j: int)
    requires
        0 <= j <= s.len(),
        forall|i: int| 0 <= i < s.len() ==> is_digit(#[trigger] s[i]),
    ensures
        decimal(s.subrange(0, j)) <= decimal(s),
    decreases s.len(),
{
    if j < s.len() {
        let t = s.drop_last();
        assert(t.subrange(0, j) =~= s.subrange(0, j));
        assert forall|i: int| 0 <= i < t.len() implies is_digit(#[trigger] t[i]) by {
            assert(t[i] == s[i]);
        }
        lemma_decimal_prefix(t, j);
    } else {
        assert(s.subrange(0, j) =~= s);
    }
}

/// Reads an exit status: decimal digits only, at most 255.
pub fn parse_exit_code(s: &str) -> (r: Option<u8>)
    ensures
        r == exit_code_of(s@),
{
    let v = chars_of(s);
    if v.len() == 0 {
        return None;
    }
    let mut acc: u32 = 0;
    let mut i: usize = 0;
    while i < v.len()
        invariant
            i <= v.len(),
            v@ == s@,
            acc == decimal(v@.subrange(0, i as int)),
            acc <= 255,
            forall|k: int| 0 <= k < i ==> is_digit(#[trigger] v@[k]),
        decreases v.len() - i,
    {
        let c = v[i];
        let u = c as u32;
        assert(v@.subrange(0, i + 1).drop_last() =~= v@.subrange(0, i as int));
        if !(0x30 <= u && u <= 0x39) {
            assert(!is_digit(v@[i as int]));
            assert(!(forall|k: int| 0 <= k < v.len() ==> is_digit(#[trigger] v@[k])));
            assert(exit_code_of(v@) is None);
            return None;
        }
        let next = acc * 10 + (u - 0x30);
        assert(v@.subrange(0, i + 1).last() == c);
        assert(next == decimal(v@.subrange(0, i + 1)));
        if next > 255 {
            proof {
                if forall|k: int| 0 <= k < v.len() ==> is_digit(#[trigger] v@[k]) {
                    lemma_decimal_prefix(v@, i + 1);
                    assert(decimal(v@) > 255);
                }
                assert(exit_code_of(v@) is None);
            }
            return None;
        }
        acc = next;
        i += 1;
    }
    assert(v@.subrange(0, v.len() as int) =~= v@);
    Some(acc as u8)
}

/// What one input line asks for: the line without its surrounding whitespace
/// is split into a first token, the command name, and the text after it. A
/// built-in name, in any case of its letters, gives the built-in; `echo`
/// keeps all of that text, `type`, `cd` and `exit` take its first token, and
/// any other name runs with the words of that text.
pub open spec fn command_of(line: Seq<char>) -> Result<CommandView, ParseError> {
    let s = trimmed(line);
    let name = first_token(s);
    let rest = after_token(s);
    match builtin_named(name) {
        Some(BuiltIn::Exit) => match exit_code_of(first_token(rest)) {
            Some(n) => Ok(CommandView::Exit(n)),
            None => Err(ParseError::BadExitCode),
        },
        Some(BuiltIn::Echo) => Ok(CommandView::Echo(rest)),
        Some(BuiltIn::Type) => Ok(CommandView::Type(first_token(rest))),
        Some(BuiltIn::Pwd) => Ok(CommandView::Pwd),
        Some(BuiltIn::Cd) => Ok(CommandView::Cd(first_token(rest))),
        None => Ok(CommandView::Run(name, words(rest))),
    }
}

pub open spec fn result_view(r: Result<Command, ParseError>) -> Result<CommandView, ParseError> {
    match r {
        Ok(c) => Ok(c@),
        Err(e) => Err(e),
    }
}

/// Reads one input line as a command.
pub fn parse_line(line: &str) -> (r: Result<Command, ParseError>)
    ensures
        result_view(r) == command_of(line@),
{
    let t = trim(line);
    let mut cur = Cursor::new(t.as_str());
    let name = until_space(&mut cur);
    let ghost s = t@;
    assert(unread((s, 0nat)) =~= s);
    assert(unread(cur@) =~= after_token(s));
    match BuiltIn::from_name(name.as_str()) {
        Some(BuiltIn::Exit) => {
            let arg = until_space(&mut cur);
            match parse_exit_code(arg.as_str()) {
                Some(n) => Ok(Command::Exit(n)),
                None => Err(ParseError::BadExitCode),
            }
        },
        Some(BuiltIn::Echo) => Ok(Command::Echo(str_chunk(&cur))),
        Some(BuiltIn::Type) => Ok(Command::Type(until_space(&mut cur))),
        Some(BuiltIn::Pwd) => Ok(Command::Pwd),
        Some(BuiltIn::Cd) => Ok(Command::Cd(until_space(&mut cur))),
        None => {
            let rest = str_chunk(&cur);
            let args = split_whitespace(rest.as_str());
            Ok(Command::Run { name, args })
        },
    }
}

/// `cd` with this argument goes to the home directory: the argument is `~`
/// or empty.
pub fn goes_home(arg: &str) -> (r: bool)
    ensures
        r == (arg@ == seq!['~'] || arg@.len() == 0),
{
    let v = chars_of(arg);
    let r = v.len() == 0 || (v.len() == 1 && v[0] == '~');
    assert(v.len() == 1 && v[0] == '~' ==> v@ =~= seq!['~']);
    r
}

fn push_str(out: &mut Vec<char>, s: &str)
    ensures
        final(out)@ == old(out)@ + s@,
{
    let v = chars_of(s);
    let mut i: usize = 0;
    let ghost base = out@;
    while i < v.len()
        invariant
            i <= v.len(),
            out@ == base + v@.subrange(0, i as int),
        decreases v.len() - i,
    {
        out.push(v[i]);
        assert(out@ =~= base + v@.subrange(0, i + 1));
        i += 1;
    }
    assert(v@.subrange(0, v.len() as int) =~= v@);
}

/// What `type` prints for `name`: a built-in says so; else the path where
/// the search found it, if it did.
pub open spec fn type_line(name: Seq<char>, found: Option<Seq<char>>) -> Seq<char> {
    if builtin_named(name) is Some {
        name + " is a shell builtin"@
    } else {
        match found {
            Some(p) => name + " is "@ + p,
            None => name + " not found"@,
        }
    }
}

/// The line that `type` prints for `name`, where `found` is what the search
/// of the command directories gave.
pub fn type_report(name: &str, found: &Option<String>) -> (r: String)
    ensures
        r@ == type_line(name@, opt_view(*found)),
{
    let mut out = chars_of(name);
    if BuiltIn::is_builtin(name) {
        push_str(&mut out, " is a shell builtin");
    } else {
        match found {
            Some(p) => {
                push_str(&mut out, " is ");
                push_str(&mut out, p.as_str());
            },
            None => push_str(&mut out, " not found"),
        }
    }
    string_of(&out)
}

/// The line printed for a name that is neither a built-in nor found.
pub fn not_found_line(name: &str) -> (r: String)
    ensures
        r@ == name@ + ": command not found"@,
{
    let mut out = chars_of(name);
    push_str(&mut out, ": command not found");
    string_of(&out)
}

/// The line printed when the directory that `cd` was given does not exist.
pub fn cd_missing_line(arg: &str) -> (r: String)
    ensures
        r@ == "cd: "@ + arg@ + ": No such file or directory"@,
{
    let mut out = chars_of("cd: ");
    push_str(&mut out, arg);
    push_str(&mut out, ": No such file or directory");
    string_of(&out)
}

} // verus!
