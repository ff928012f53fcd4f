//! Properties of the shell that span several of its functions.
use vstd::prelude::*;
use crate::builtin::{builtin_named, same_ignoring_case, BuiltIn};
use crate::command::{command_of, type_line, CommandView};
use crate::cursor::{after_token, first_token, token_len, token_step};
use crate::search::{joined, search_result};
use crate::text::{is_ascii_space, is_white_space, lead_len, trail_len, trimmed};

verus! {

/// The first token of `s` ends at `k` where no ASCII whitespace comes before
/// `k` and `k` is the end of `s` or a whitespace character.
pub proof fn lemma_token_ends_at(s: Seq<char>, k: int)
    requires
        0 <= k <= s.len(),
        forall|i: int| 0 <= i < k ==> !is_ascii_space(#[trigger] s[i]),
        k == s.len() || is_ascii_space(s[k]),
    ensures
        token_len(s) == k,
    decreases k,
{
    if k > 0 {
        let t = s.drop_first();
        assert forall|i: int| 0 <= i < k - 1 implies !is_ascii_space(#[trigger] t[i]) by {
            assert(t[i] == s[i + 1]);
        }
        if k < s.len() {
            assert(t[k - 1] == s[k]);
        }
        lemma_token_ends_at(t, k - 1);
    }
}

proof fn lemma_ascii_space_is_white_space(c: char)
    ensures
        is_ascii_space(c) ==> is_white_space(c),
{
}

/// A text that neither starts nor ends with whitespace is its own trimmed
/// form.
pub proof fn lemma_trim_keeps(s: Seq<char>)
    requires
        s.len() == 0 || (!is_white_space(s[0]) && !is_white_space(s.last())),
    ensures
        trimmed(s) == s,
{
    assert(lead_len(s) == 0);
    let t = s.subrange(0, s.len() as int);
    assert(t =~= s);
    assert(trail_len(t) == 0);
    assert(t.subrange(0, t.len() as int) =~= s);
}

/// A line that is one word alone, with no whitespace in it, tokenizes to
/// that word as its command name, with nothing left after it.
pub proof fn lemma_lone_word(name: Seq<char>)
    requires
        name.len() > 0,
        forall|i: int| 0 <= i < name.len() ==> !is_white_space(#[trigger] name[i]),
    ensures
        trimmed(name) == name,
        first_token(trimmed(name)) == name,
        after_token(trimmed(name)).len() == 0,
{
    assert(!is_white_space(name[0]));
    assert(!is_white_space(name[name.len() - 1]));
    lemma_trim_keeps(name);
    assert forall|i: int| 0 <= i < name.len() implies !is_ascii_space(#[trigger] name[i]) by {
        lemma_ascii_space_is_white_space(name[i]);
    }
    lemma_token_ends_at(name, name.len() as int);
    assert(name.subrange(0, name.len() as int) =~= name);
}

proof fn lemma_keyword_line(word: Seq<char>, arg: Seq<char>)
    requires
        word.len() > 0,
        forall|i: int| 0 <= i < word.len() ==> !is_white_space(#[trigger] word[i]),
        arg.len() == 0 || (!is_white_space(arg[0]) && !is_white_space(arg.last())),
    ensures
        first_token(trimmed(word + seq![' '] + arg)) == word,
        after_token(trimmed(word + seq![' '] + arg)) == arg,
{
    let line = word + seq![' '] + arg;
    assert forall|i: int| 0 <= i < word.len() implies !is_ascii_space(#[trigger] word[i]) by {
        lemma_ascii_space_is_white_space(word[i]);
    }
    if arg.len() == 0 {
        assert(!is_white_space(word[0]));
        assert(line[0] == word[0]);
        assert(lead_len(line) == 0);
        let t = line.subrange(0, line.len() as int);
        assert(t =~= line);
        assert(t.drop_last() =~= word);
        assert(!is_white_space(word.last()));
        assert(trail_len(word) == 0);
        assert(trail_len(t) == 1);
        assert(trimmed(line) =~= word);
        lemma_token_ends_at(word, word.len() as int);
        assert(word.subrange(0, word.len() as int) =~= word);
        assert(word.subrange(word.len() as int, word.len() as int) =~= arg);
    } else {
        assert(line[0] == word[0]);
        assert(line.last() == arg.last());
        assert(!is_white_space(word[0]));
        lemma_trim_keeps(line);
        assert forall|i: int| 0 <= i < word.len() implies !is_ascii_space(#[trigger] line[i]) by {
            assert(line[i] == word[i]);
        }
        assert(line[word.len() as int] == ' ');
        lemma_token_ends_at(line, word.len() as int);
        assert(line.subrange(0, word.len() as int) =~= word);
        assert(token_step(line) == word.len() + 1);
        assert(line.subrange(word.len() as int + 1, line.len() as int) =~= arg);
    }
}

/// `echo` followed by a text that neither starts nor ends with whitespace
/// prints that text as it stands, runs of inner spaces included.
pub proof fn lemma_echo_verbatim(text: Seq<char>)
    requires
        text.len() == 0 || (!is_white_space(text[0]) && !is_white_space(text.last())),
    ensures
        command_of(seq!['e', 'c', 'h', 'o'] + seq![' '] + text) == Ok::<CommandView, crate::command::ParseError>(CommandView::Echo(text)),
{
    let word = seq!['e', 'c', 'h', 'o'];
    lemma_keyword_line(word, text);
    assert(same_ignoring_case(word, seq!['e', 'c', 'h', 'o']));
    assert(!same_ignoring_case(word, seq!['e', 'x', 'i', 't']));
    assert(builtin_named(word) == Some(BuiltIn::Echo));
}

/// `type` of a built-in's name, in any case of its letters, reads as `type`
/// of that name and prints that the name is a shell built-in.
pub proof fn lemma_type_of_builtin(name: Seq<char>, found: Option<Seq<char>>)
    requires
        builtin_named(name) is Some,
        forall|i: int| 0 <= i < name.len() ==> !is_white_space(#[trigger] name[i]),
    ensures
        command_of(seq!['t', 'y', 'p', 'e'] + seq![' '] + name) == Ok::<CommandView, crate::command::ParseError>(CommandView::Type(name)),
        type_line(name, found) == name + " is a shell builtin"@,
{
    let word = seq!['t', 'y', 'p', 'e'];
    assert(name.len() > 0);
    assert(!is_white_space(name[0]));
    assert(!is_white_space(name[name.len() - 1]));
    lemma_keyword_line(word, name);
    assert(same_ignoring_case(word, seq!['t', 'y', 'p', 'e']));
    assert(!same_ignoring_case(word, seq!['e', 'x', 'i', 't']));
    assert(!same_ignoring_case(word, seq!['e', 'c', 'h', 'o']));
    assert(builtin_named(word) == Some(BuiltIn::Type));
    lemma_lone_word(name);
}

/// The search takes the first directory, in list order, that holds the name
/// as a regular file; `type` then prints that path, and a later directory
/// that holds it too does not count.
pub proof fn lemma_first_directory_wins(
    dirs: Seq<Seq<char>>,
    exe: Seq<char>,
    is_file: Seq<bool>,
    i: int,
)
    requires
        is_file.len() == dirs.len(),
        0 <= i < dirs.len(),
        is_file[i],
        forall|j: int| 0 <= j < i ==> !is_file[j],
        builtin_named(exe) is None,
    ensures
        search_result(dirs, exe, is_file) == Some(joined(dirs[i], exe)),
        type_line(exe, search_result(dirs, exe, is_file)) == exe + " is "@ + joined(dirs[i], exe),
    decreases i,
{
    if i > 0 {
        assert(!is_file[0]);
        let d = dirs.drop_first();
        let f = is_file.drop_first();
        assert forall|j: int| 0 <= j < i - 1 implies !f[j] by {
            assert(f[j] == is_file[j + 1]);
        }
        lemma_first_directory_wins(d, exe, f, i - 1);
        assert(d[i - 1] == dirs[i]);
    }
}

} // verus!
