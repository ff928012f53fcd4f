use vstd::prelude::*;
use crate::text::{chars_of, is_white_space, string_of, white_space};

verus! {

/// What separates the pieces of a text.
pub enum SepKind {
    /// A colon, as between the directories of a search list.
    Colon,
    /// Any whitespace character.
    Space,
}

pub open spec fn is_sep(k: SepKind, c: char) -> bool {
    match k {
        SepKind::Colon => c == ':',
        SepKind::Space => is_white_space(c),
    }
}

/// The pieces of `s` between the characters that `sep` names, in order,
/// empty pieces included: one more piece than there are separators.
pub open spec fn pieces(s: Seq<char>, sep: SepKind) -> Seq<Seq<char>>
    decreases s.len(),
{
    if s.len() == 0 {
        seq![Seq::empty()]
    } else {
        let p = pieces(s.drop_last(), sep);
        if is_sep(sep, s.last()) {
            p.push(Seq::empty())
        } else {
            p.update(p.len() - 1, p.last().push(s.last()))
        }
    }
}

pub proof fn lemma_pieces_len(s: Seq<char>, sep: SepKind)
    ensures
        pieces(s, sep).len() >= 1,
    decreases s.len(),
{
    if s.len() > 0 {
        lemma_pieces_len(s.drop_last(), sep);
    }
}

proof fn lemma_pieces_step(s: Seq<char>, i: int, sep: SepKind)
    requires
        0 <= i < s.len(),
    ensures
        ({
            let p = pieces(s.subrange(0, i), sep);
            pieces(s.subrange(0, i + 1), sep) == if is_sep(sep, s[i]) {
                p.push(Seq::empty())
            } else {
                p.update(p.len() - 1, p.last().push(s[i]))
            }
        }),
{
    lemma_pieces_len(s.subrange(0, i), sep);
    assert(s.subrange(0, i + 1).drop_last() =~= s.subrange(0, i));
    assert(s.subrange(0, i + 1).last() == s[i]);
}


pub open spec fn non_empty() -> spec_fn(Seq<char>) -> bool {
    |w: Seq<char>| w.len() > 0
}

/// The directories of a command search list: the pieces between its colons.
pub open spec fn path_dirs(s: Seq<char>) -> Seq<Seq<char>> {
    pieces(s, SepKind::Colon)
}

/// The words of `s`: its runs of characters other than whitespace.
pub open spec fn words(s: Seq<char>) -> Seq<Seq<char>> {
    pieces(s, SepKind::Space).filter(non_empty())
}

/// The views of a vector of strings.
pub open spec fn views(v: Seq<String>) -> Seq<Seq<char>> {
    v.map_values(|x: String| x@)
}

/// Splits a command search list at each colon, as `std::env::split_paths`
/// does on Unix.
pub fn split_paths(list: &str) -> (r: Vec<String>)
    ensures
        views(r@) == path_dirs(list@),
{
    let v = chars_of(list);
    let mut done: Vec<String> = Vec::new();
    let mut cur: Vec<char> = Vec::new();
    let mut i: usize = 0;
    assert(views(done@) + seq![cur@] =~= pieces(v@.subrange(0, 0), SepKind::Colon));
    while i < v.len()
        invariant
            i <= v.len(),
            views(done@) + seq![cur@] == pieces(v@.subrange(0, i as int), SepKind::Colon),
        decreases v.len() - i,
    {
        let ghost s1 = v@.subrange(0, i + 1);
        assert(s1.drop_last() =~= v@.subrange(0, i as int));
        let c = v[i];
        assert(s1.last() == c);
        let ghost p = pieces(v@.subrange(0, i as int), SepKind::Colon);
        assert(pieces(s1, SepKind::Colon) == if is_sep(SepKind::Colon, c) {
            p.push(Seq::empty())
        } else {
            p.update(p.len() - 1, p.last().push(c))
        });
        let ghost d0 = views(done@);
        let ghost c0 = cur@;
        assert(p =~= d0.push(c0));
        if c == ':' {
            let piece = string_of(&cur);
            done.push(piece);
            cur = Vec::new();
            assert(views(done@) =~= d0.push(c0));
            assert(views(done@) + seq![cur@] =~= p.push(Seq::empty()));
            assert(is_sep(SepKind::Colon, c));
        } else {
            cur.push(c);
            assert(views(done@) + seq![cur@] =~= p.update(p.len() - 1, p.last().push(c)));
            assert(!is_sep(SepKind::Colon, c));
        }
        i += 1;
    }
    assert(v@.subrange(0, v.len() as int) =~= v@);
    let last = string_of(&cur);
    done.push(last);
    assert(views(done@) =~= views(done@).drop_last() + seq![cur@]);
    done
}

/// Splits `s` into its words, as `str::split_whitespace` does: any run of
/// whitespace separates two words, and no word is empty.
pub fn split_whitespace(s: &str) -> (r: Vec<String>)
    ensures
        views(r@) == words(s@),
{
    reveal(Seq::filter);
    let v = chars_of(s);
    let mut done: Vec<String> = Vec::new();
    let mut cur: Vec<char> = Vec::new();
    let mut i: usize = 0;
    assert(views(done@) =~= pieces(v@.subrange(0, 0), SepKind::Space).drop_last().filter(non_empty()));
    while i < v.len()
        invariant
            i <= v.len(),
            pieces(v@.subrange(0, i as int), SepKind::Space).len() >= 1,
            views(done@) == pieces(v@.subrange(0, i as int), SepKind::Space).drop_last().filter(non_empty()),
            cur@ == pieces(v@.subrange(0, i as int), SepKind::Space).last(),
        decreases v.len() - i,
    {
        let ghost s0 = v@.subrange(0, i as int);
        let ghost p = pieces(s0, SepKind::Space);
        let ghost s1 = v@.subrange(0, i + 1);
        let c = v[i];
        proof {
            lemma_pieces_step(v@, i as int, SepKind::Space);
        }
        assert(p =~= p.drop_last().push(p.last()));
        let ghost d0 = views(done@);
        let ghost c0 = cur@;
        if white_space(c) {
            if cur.len() > 0 {
                let w = string_of(&cur);
                done.push(w);
                assert(views(done@) =~= d0.push(c0));
            }
            cur = Vec::new();
            assert(p.push(Seq::empty()).drop_last() =~= p);
            assert(is_sep(SepKind::Space, c));
            assert(pieces(s1, SepKind::Space) == p.push(Seq::empty()));
            reveal(Seq::filter);
            assert(p.filter(non_empty()) == if non_empty()(p.last()) {
                p.drop_last().filter(non_empty()).push(p.last())
            } else {
                p.drop_last().filter(non_empty())
            });
            assert(views(done@) =~= pieces(s1, SepKind::Space).drop_last().filter(non_empty()));
        } else {
            cur.push(c);
            assert(p.update(p.len() - 1, p.last().push(c)).drop_last() =~= p.drop_last());
            assert(!is_sep(SepKind::Space, c));
            assert(pieces(s1, SepKind::Space) == p.update(p.len() - 1, p.last().push(c)));
        }
        i += 1;
    }
    let ghost p = pieces(v@, SepKind::Space);
    assert(v@.subrange(0, v.len() as int) =~= v@);
    assert(p =~= p.drop_last().push(p.last()));
    let ghost d0 = views(done@);
    let ghost c0 = cur@;
    if cur.len() > 0 {
        let w = string_of(&cur);
        done.push(w);
        assert(views(done@) =~= d0.push(c0));
    }
    assert(views(done@) =~= p.filter(non_empty()));
    done
}

} // verus!
