//! Token substitution: a text is read once from the left, and each token
//! found in it gives way to its value. A value is put in as it is and never
//! searched for tokens.

use vstd::prelude::*;
use crate::text::chars_of;

verus! {

/// A token and the value that takes its place.
#[derive(Clone, Copy, Debug)]
pub struct Substitution<'a> {
    pub token: &'a str,
    pub value: &'a str,
}

/// The tokens and values of a list of substitutions, as pairs.
pub open spec fn pairs_of(substitutions: Seq<Substitution>) -> Seq<(Seq<char>, Seq<char>)> {
    Seq::new(substitutions.len(), |k: int| (substitutions[k].token@, substitutions[k].value@))
}

/// The tokens of a list of pairs.
pub open spec fn tokens_of(pairs: Seq<(Seq<char>, Seq<char>)>) -> Seq<Seq<char>> {
    Seq::new(pairs.len(), |k: int| pairs[k].0)
}

/// The contents of a list of character vectors.
pub open spec fn char_views(patterns: Seq<Vec<char>>) -> Seq<Seq<char>> {
    Seq::new(patterns.len(), |k: int| patterns[k]@)
}

/// Whether `token` stands in `text` at position `at`. It does not where the
/// text ends before the token would.
pub open spec fn occurs(text: Seq<char>, at: int, token: Seq<char>) -> bool {
    0 <= at && at + token.len() <= text.len() && text.subrange(at, at + token.len()) == token
}

/// The index of the first token, from index `from` on, that is not empty and
/// stands in `text` at position `at`; the number of tokens if there is none.
pub open spec fn first_match(text: Seq<char>, at: int, tokens: Seq<Seq<char>>, from: int) -> int
    decreases tokens.len() - from,
{
    if from < 0 || from >= tokens.len() {
        tokens.len() as int
    } else if tokens[from].len() > 0 && occurs(text, at, tokens[from]) {
        from
    } else {
        first_match(text, at, tokens, from + 1)
    }
}

/// What becomes of `text` from position `at` on: where a token stands, its
/// value is put and reading goes on behind the token; any other character is
/// kept. Of several tokens that stand at one position the first in the list
/// counts. An empty token stands nowhere.
pub open spec fn substituted_from(
    text: Seq<char>,
    at: int,
    pairs: Seq<(Seq<char>, Seq<char>)>,
) -> Seq<char>
    decreases text.len() - at,
{
    if at < 0 || at >= text.len() {
        Seq::<char>::empty()
    } else {
        let k = first_match(text, at, tokens_of(pairs), 0);
        if 0 <= k < pairs.len() && 0 < pairs[k].0.len() <= text.len() - at {
            pairs[k].1 + substituted_from(text, at + pairs[k].0.len(), pairs)
        } else {
            seq![text[at]] + substituted_from(text, at + 1, pairs)
        }
    }
}

/// `text` with each token replaced by its value, read once from the left.
pub open spec fn substituted(text: Seq<char>, pairs: Seq<(Seq<char>, Seq<char>)>) -> Seq<char> {
    substituted_from(text, 0, pairs)
}

/// Whether `token` stands in `text` at position `at`.
pub fn occurs_at(text: &Vec<char>, at: usize, token: &Vec<char>) -> (found: bool)
    ensures
        found == occurs(text@, at as int, token@),
{
    if at > text.len() || token.len() > text.len() - at {
        return false;
    }
    let mut j: usize = 0;
    while j < token.len()
        invariant
            j <= token.len(),
            at + token.len() <= text.len(),
            text@.subrange(at as int, at + j) == token@.subrange(0, j as int),
        decreases token.len() - j,
    {
        if text[at + j] != token[j] {
            assert(text@.subrange(at as int, at + token.len())[j as int] != token@[j as int]);
            return false;
        }
        j += 1;
        assert(text@.subrange(at as int, at + j) =~= token@.subrange(0, j as int)) by {
            assert(text@.subrange(at as int, at + j).drop_last() =~= text@.subrange(
                at as int,
                at + j - 1,
            ));
            assert(token@.subrange(0, j as int).drop_last() =~= token@.subrange(0, j - 1));
        }
    }
    assert(token@.subrange(0, j as int) =~= token@);
    true
}

/// Finds the first token that is not empty and stands in `text` at `at`.
pub fn find_match(text: &Vec<char>, at: usize, tokens: &Vec<Vec<char>>) -> (k: usize)
    ensures
        k == first_match(text@, at as int, char_views(tokens@), 0),
        k <= tokens.len(),
        k < tokens.len() ==> tokens[k as int]@.len() > 0 && occurs(
            text@,
            at as int,
            tokens[k as int]@,
        ),
{
    let mut k: usize = 0;
    while k < tokens.len()
        invariant
            k <= tokens.len(),
            first_match(text@, at as int, char_views(tokens@), k as int) == first_match(
                text@,
                at as int,
                char_views(tokens@),
                0,
            ),
        decreases tokens.len() - k,
    {
        if tokens[k].len() > 0 && occurs_at(text, at, &tokens[k]) {
            return k;
        }
        k += 1;
    }
    k
}

/// Replaces each token in `text` by its value, reading `text` once from the
/// left. Values are put in as they are.
pub fn substitute(text: &str, substitutions: &Vec<Substitution>) -> (out: String)
    ensures
        out@ == substituted(text@, pairs_of(substitutions@)),
{
    let source = chars_of(text);
    let mut patterns: Vec<Vec<char>> = Vec::new();
    let mut n: usize = 0;
    while n < substitutions.len()
        invariant
            n <= substitutions.len(),
            patterns@.len() == n,
            forall|k: int| 0 <= k < n ==> (#[trigger] patterns@[k])@ == substitutions@[k].token@,
        decreases substitutions.len() - n,
    {
        patterns.push(chars_of(substitutions[n].token));
        n += 1;
    }
    let ghost pairs = pairs_of(substitutions@);
    assert(char_views(patterns@) =~= tokens_of(pairs));
    let mut out = String::new();
    let mut i: usize = 0;
    assert(out@ + substituted_from(text@, 0, pairs) =~= substituted(text@, pairs));
    while i < source.len()
        invariant
            i <= source.len(),
            source@ == text@,
            pairs == pairs_of(substitutions@),
            patterns@.len() == substitutions@.len(),
            char_views(patterns@) == tokens_of(pairs),
            out@ + substituted_from(text@, i as int, pairs) == substituted(text@, pairs),
        decreases source.len() - i,
    {
        let ghost done = out@;
        let ghost rest = substituted_from(text@, i as int, pairs);
        let k = find_match(&source, i, &patterns);
        if k < patterns.len() {
            assert(char_views(patterns@)[k as int] == pairs[k as int].0);
            out.append(substitutions[k].value);
            i += patterns[k].len();
            assert(out@ + substituted_from(text@, i as int, pairs) =~= done + rest);
        } else {
            out.push(source[i]);
            i += 1;
            assert(out@ + substituted_from(text@, i as int, pairs) =~= done + rest);
        }
    }
    assert(out@ =~= substituted(text@, pairs));
    out
}

/// Where a token stands in a text behind some other text, it stands in the
/// text alone, and the other way round.
pub proof fn lemma_occurs_behind(head: Seq<char>, tail: Seq<char>, at: int, token: Seq<char>)
    requires
        0 <= at,
    ensures
        occurs(head + tail, head.len() + at, token) == occurs(tail, at, token),
{
    if at + token.len() <= tail.len() {
        assert((head + tail).subrange(head.len() + at, head.len() + at + token.len())
            =~= tail.subrange(at, at + token.len()));
    }
}

/// Which token is found at a position does not depend on what stands before
/// that position.
pub proof fn lemma_first_match_behind(
    head: Seq<char>,
    tail: Seq<char>,
    at: int,
    tokens: Seq<Seq<char>>,
    from: int,
)
    requires
        0 <= at,
    ensures
        first_match(head + tail, head.len() + at, tokens, from) == first_match(
            tail,
            at,
            tokens,
            from,
        ),
    decreases tokens.len() - from,
{
    if 0 <= from < tokens.len() {
        lemma_occurs_behind(head, tail, at, tokens[from]);
        lemma_first_match_behind(head, tail, at, tokens, from + 1);
    }
}

/// What becomes of a text from a position on does not depend on what stands
/// before that position.
pub proof fn lemma_substituted_behind(
    head: Seq<char>,
    tail: Seq<char>,
    at: int,
    pairs: Seq<(Seq<char>, Seq<char>)>,
)
    requires
        0 <= at,
    ensures
        substituted_from(head + tail, head.len() + at, pairs) == substituted_from(tail, at, pairs),
    decreases tail.len() - at,
{
    if at < tail.len() {
        lemma_first_match_behind(head, tail, at, tokens_of(pairs), 0);
        let k = first_match(tail, at, tokens_of(pairs), 0);
        if 0 <= k < pairs.len() && 0 < pairs[k].0.len() <= tail.len() - at {
            lemma_substituted_behind(head, tail, at + pairs[k].0.len(), pairs);
        } else {
            lemma_substituted_behind(head, tail, at + 1, pairs);
        }
    }
}

/// The search stops at the first token that is not empty and stands at the
/// position.
pub proof fn lemma_first_match_found(
    text: Seq<char>,
    at: int,
    tokens: Seq<Seq<char>>,
    from: int,
    k: int,
)
    requires
        0 <= from <= k < tokens.len(),
        tokens[k].len() > 0,
        occurs(text, at, tokens[k]),
        forall|j: int| from <= j < k ==> !(tokens[j].len() > 0 && occurs(text, at, tokens[j])),
    ensures
        first_match(text, at, tokens, from) == k,
    decreases k - from,
{
    if from < k {
        lemma_first_match_found(text, at, tokens, from + 1, k);
    }
}

/// Where no token that is not empty stands at the position, the search finds
/// none.
pub proof fn lemma_first_match_none(text: Seq<char>, at: int, tokens: Seq<Seq<char>>, from: int)
    requires
        0 <= from,
        forall|j: int|
            from <= j < tokens.len() ==> !(tokens[j].len() > 0 && occurs(text, at, tokens[j])),
    ensures
        first_match(text, at, tokens, from) == tokens.len(),
    decreases tokens.len() - from,
{
    if from < tokens.len() {
        lemma_first_match_none(text, at, tokens, from + 1);
    }
}

/// A token at the start of a text gives way to its value, which is kept as
/// it is: substitution goes on with what follows the token, not with the
/// value. Of the tokens before it in the list none may stand there too.
pub proof fn lemma_token_gives_its_value(
    rest: Seq<char>,
    pairs: Seq<(Seq<char>, Seq<char>)>,
    k: int,
)
    requires
        0 <= k < pairs.len(),
        pairs[k].0.len() > 0,
        forall|j: int|
            0 <= j < k ==> !(pairs[j].0.len() > 0 && occurs(pairs[k].0 + rest, 0, pairs[j].0)),
    ensures
        substituted(pairs[k].0 + rest, pairs) == pairs[k].1 + substituted(rest, pairs),
{
    let token = pairs[k].0;
    let text = token + rest;
    assert(text.subrange(0, token.len() as int) =~= token);
    lemma_first_match_found(text, 0, tokens_of(pairs), 0, k);
    lemma_substituted_behind(token, rest, 0, pairs);
}

/// A character at the start of a text at which no token stands is kept, and
/// substitution goes on behind it.
pub proof fn lemma_plain_character_is_kept(
    c: char,
    rest: Seq<char>,
    pairs: Seq<(Seq<char>, Seq<char>)>,
)
    requires
        forall|j: int|
            0 <= j < pairs.len() ==> !(pairs[j].0.len() > 0 && occurs(
                seq![c] + rest,
                0,
                pairs[j].0,
            )),
    ensures
        substituted(seq![c] + rest, pairs) == seq![c] + substituted(rest, pairs),
{
    lemma_first_match_none(seq![c] + rest, 0, tokens_of(pairs), 0);
    lemma_substituted_behind(seq![c], rest, 0, pairs);
}

/// A text in which no token stands anywhere is left as it is.
pub proof fn lemma_text_without_tokens_is_kept(
    text: Seq<char>,
    at: int,
    pairs: Seq<(Seq<char>, Seq<char>)>,
)
    requires
        0 <= at <= text.len(),
        forall|i: int, j: int|
            0 <= i < text.len() && 0 <= j < pairs.len() ==> !(pairs[j].0.len() > 0 && occurs(
                text,
                i,
                pairs[j].0,
            )),
    ensures
        substituted_from(text, at, pairs) == text.subrange(at, text.len() as int),
    decreases text.len() - at,
{
    if at < text.len() {
        lemma_first_match_none(text, at, tokens_of(pairs), 0);
        lemma_text_without_tokens_is_kept(text, at + 1, pairs);
        assert(seq![text[at]] + text.subrange(at + 1, text.len() as int) =~= text.subrange(
            at,
            text.len() as int,
        ));
    } else {
        assert(text.subrange(at, text.len() as int) =~= Seq::<char>::empty());
    }
}

} // verus!
