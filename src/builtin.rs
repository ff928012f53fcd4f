use vstd::prelude::*;
use crate::text::chars_of;

verus! {

/// The code of `c` with the ASCII capitals mapped to small letters.
pub open spec fn lower_code(c: char) -> u32 {
    let u = c as u32;
    if 0x41 <= u && u <= 0x5A {
        (u + 0x20) as u32
    } else {
        u
    }
}

/// `a` and `b` are equal but for the case of ASCII letters.
pub open spec fn same_ignoring_case(a: Seq<char>, b: Seq<char>) -> bool {
    a.len() == b.len() && forall|i: int| 0 <= i < a.len() ==> lower_code(a[i]) == lower_code(b[i])
}

fn lower(c: char) -> (r: u32)
    ensures
        r == lower_code(c),
{
    let u = c as u32;
    if 0x41 <= u && u <= 0x5A {
        u + 0x20
    } else {
        u
    }
}

fn eq_ignore_case(a: &Vec<char>, b: &Vec<char>) -> (r: bool)
    ensures
        r == same_ignoring_case(a@, b@),
{
    if a.len() != b.len() {
        return false;
    }
    let mut i: usize = 0;
    while i < a.len()
        invariant
            a.len() == b.len(),
            i <= a.len(),
            forall|j: int| 0 <= j < i ==> lower_code(a@[j]) == lower_code(b@[j]),
        decreases a.len() - i,
    {
        if lower(a[i]) != lower(b[i]) {
            return false;
        }
        i += 1;
    }
    true
}

/// The commands that the shell carries out itself.
#[derive(Clone, Copy, Debug, PartialEq, Eq, Structural)]
pub enum BuiltIn {
    Exit,
    Echo,
    Type,
    Pwd,
    Cd,
}

/// The name under which each built-in is called.
pub open spec fn builtin_name(b: BuiltIn) -> Seq<char> {
    match b {
        BuiltIn::Exit => seq!['e', 'x', 'i', 't'],
        BuiltIn::Echo => seq!['e', 'c', 'h', 'o'],
        BuiltIn::Type => seq!['t', 'y', 'p', 'e'],
        BuiltIn::Pwd => seq!['p', 'w', 'd'],
        BuiltIn::Cd => seq!['c', 'd'],
    }
}

/// The built-in whose name is `s`, the case of ASCII letters aside.
pub open spec fn builtin_named(s: Seq<char>) -> Option<BuiltIn> {
    if same_ignoring_case(s, builtin_name(BuiltIn::Exit)) {
        Some(BuiltIn::Exit)
    } else if same_ignoring_case(s, builtin_name(BuiltIn::Echo)) {
        Some(BuiltIn::Echo)
    } else if same_ignoring_case(s, builtin_name(BuiltIn::Type)) {
        Some(BuiltIn::Type)
    } else if same_ignoring_case(s, builtin_name(BuiltIn::Pwd)) {
        Some(BuiltIn::Pwd)
    } else if same_ignoring_case(s, builtin_name(BuiltIn::Cd)) {
        Some(BuiltIn::Cd)
    } else {
        None
    }
}

impl BuiltIn {
    fn name_chars(self) -> (r: Vec<char>)
        ensures
            r@ == builtin_name(self),
    {
        let v = match self {
            BuiltIn::Exit => vec!['e', 'x', 'i', 't'],
            BuiltIn::Echo => vec!['e', 'c', 'h', 'o'],
            BuiltIn::Type => vec!['t', 'y', 'p', 'e'],
            BuiltIn::Pwd => vec!['p', 'w', 'd'],
            BuiltIn::Cd => vec!['c', 'd'],
        };
        assert(v@ =~= builtin_name(self));
        v
    }

    /// The built-in called `cmd`, in any case of its letters.
    pub fn from_name(cmd: &str) -> (r: Option<BuiltIn>)
        ensures
            r == builtin_named(cmd@),
    {
        let c = chars_of(cmd);
        if eq_ignore_case(&c, &BuiltIn::Exit.name_chars()) {
            Some(BuiltIn::Exit)
        } else if eq_ignore_case(&c, &BuiltIn::Echo.name_chars()) {
            Some(BuiltIn::Echo)
        } else if eq_ignore_case(&c, &BuiltIn::Type.name_chars()) {
            Some(BuiltIn::Type)
        } else if eq_ignore_case(&c, &BuiltIn::Pwd.name_chars()) {
            Some(BuiltIn::Pwd)
        } else if eq_ignore_case(&c, &BuiltIn::Cd.name_chars()) {
            Some(BuiltIn::Cd)
        } else {
            None
        }
    }

    /// Whether `cmd` names a built-in, in any case of its letters.
    pub fn is_builtin(cmd: &str) -> (r: bool)
        ensures
            r == builtin_named(cmd@) is Some,
    {
        BuiltIn::from_name(cmd).is_some()
    }
}

} // verus!
