use vstd::prelude::*;
use crate::text::{ascii_space, chars_of, is_ascii_space, slice_chars, string_of};

verus! {

/// The number of characters before the first ASCII whitespace of `s`, or the
/// length of `s` where it has none.
pub open spec fn token_len(s: Seq<char>) -> nat
    decreases s.len(),
{
    if s.len() > 0 && !is_ascii_space(s[0]) {
        1 + token_len(s.drop_first())
    } else {
        0
    }
}

/// The first token of `s`: what stands before its first ASCII whitespace.
pub open spec fn first_token(s: Seq<char>) -> Seq<char> {
    s.subrange(0, token_len(s) as int)
}

/// How far the cursor moves over `s` to take its first token: past the token
/// and the one whitespace character that ends it, if there is one.
pub open spec fn token_step(s: Seq<char>) -> nat {
    if token_len(s) < s.len() {
        token_len(s) + 1
    } else {
        s.len()
    }
}

/// What is left of `s` once its first token is taken.
pub open spec fn after_token(s: Seq<char>) -> Seq<char> {
    s.subrange(token_step(s) as int, s.len() as int)
}

/// A read position over one input line. The position never passes the end of
/// the line, and only moves forward.
pub struct Cursor {
    text: Vec<char>,
    pos: usize,
}

impl View for Cursor {
    type V = (Seq<char>, nat);

    closed spec fn view(&self) -> (Seq<char>, nat) {
        (self.text@, self.pos as nat)
    }
}

/// The part of the line that the cursor has not read yet.
pub open spec fn unread(c: (Seq<char>, nat)) -> Seq<char> {
    c.0.subrange(c.1 as int, c.0.len() as int)
}

impl Cursor {
    #[verifier::type_invariant]
    spec fn inv(self) -> bool {
        self.pos <= self.text.len()
    }

    /// A cursor at the start of `line`.
    pub fn new(line: &str) -> (r: Cursor)
        ensures
            r@ == (line@, 0nat),
    {
        Cursor { text: chars_of(line), pos: 0 }
    }

    /// The read position.
    pub fn position(&self) -> (r: usize)
        ensures
            r == self@.1,
            r <= self@.0.len(),
    {
        proof {
            use_type_invariant(self);
        }
        self.pos
    }
}

/// Takes the next token: the unread text up to its first ASCII whitespace, or
/// all of it where there is none. The cursor moves past the token and the one
/// whitespace character that ends it.
pub fn until_space(cur: &mut Cursor) -> (r: String)
    ensures
        final(cur)@.0 == old(cur)@.0,
        r@ == first_token(unread(old(cur)@)),
        final(cur)@.1 == old(cur)@.1 + token_step(unread(old(cur)@)),
{
    proof {
        use_type_invariant(&*cur);
    }
    let n = cur.text.len();
    let start = cur.pos;
    let mut i: usize = start;
    let ghost rest = unread(cur@);
    assert(cur.text@.subrange(start as int, n as int) =~= rest);
    while i < n && !ascii_space(cur.text[i])
        invariant
            start <= i <= n == cur.text.len(),
            rest == cur.text@.subrange(start as int, n as int),
            token_len(rest) == (i - start) + token_len(cur.text@.subrange(i as int, n as int)),
        decreases n - i,
    {
        assert(cur.text@.subrange(i as int, n as int).drop_first() =~= cur.text@.subrange(
            i + 1,
            n as int,
        ));
        i += 1;
    }
    let token = slice_chars(&cur.text, start, i);
    assert(token@ =~= first_token(rest));
    if i < n {
        cur.pos = i + 1;
    } else {
        cur.pos = n;
    }
    string_of(&token)
}

/// The unread text, all of it.
pub fn str_chunk(cur: &Cursor) -> (r: String)
    ensures
        r@ == unread(cur@),
{
    proof {
        use_type_invariant(cur);
    }
    let rest = slice_chars(&cur.text, cur.pos, cur.text.len());
    string_of(&rest)
}

} // verus!
