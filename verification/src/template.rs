//! Bootstrap templates: the placeholder that stands for an instance's identity,
//! and its replacement.

use crate::identity::{is_identity, is_symbol};
use crate::text::chars_of;
use vstd::prelude::*;
use vstd::string::*;

verus! {

/// The token that a template holds where the identity belongs.
pub const PLACEHOLDER: &'static str = "%HHM_ID%";

/// The placeholder as a sequence of characters.
pub open spec fn placeholder() -> Seq<char> {
    PLACEHOLDER@
}

/// Whether `word` stands in `text` at the position `at`.
pub open spec fn occurs_at(text: Seq<char>, word: Seq<char>, at: int) -> bool {
    0 <= at && at + word.len() <= text.len() && text.subrange(at, at + word.len()) == word
}

/// `text` with every occurrence of `word` replaced by `by`. The text is read
/// from left to right; an occurrence that has been replaced is passed over, so
/// that occurrences which overlap are replaced once, at the leftmost.
pub open spec fn substitute(text: Seq<char>, word: Seq<char>, by: Seq<char>) -> Seq<char>
    recommends
        word.len() > 0,
    decreases text.len(),
{
    if word.len() == 0 || text.len() == 0 {
        text
    } else if occurs_at(text, word, 0) {
        by + substitute(text.skip(word.len() as int), word, by)
    } else {
        seq![text[0]] + substitute(text.skip(1), word, by)
    }
}

/// The bootstrap data that a template gives for an identity.
pub open spec fn rendered(template: Seq<char>, identity: Seq<char>) -> Seq<char> {
    substitute(template, placeholder(), identity)
}

/// A stretch of text in which no occurrence of `word` begins is kept as it is.
pub proof fn lemma_substitute_skips_plain_text(
    text: Seq<char>,
    word: Seq<char>,
    by: Seq<char>,
    from: int,
    to: int,
)
    requires
        word.len() > 0,
        0 <= from <= to <= text.len(),
        forall|at: int| from <= at < to ==> !occurs_at(text, word, at),
    ensures
        substitute(text.skip(from), word, by) == text.subrange(from, to) + substitute(
            text.skip(to),
            word,
            by,
        ),
    decreases to - from,
{
    if from < to {
        let rest = text.skip(from);
        assert(!occurs_at(text, word, from));
        assert(!occurs_at(rest, word, 0)) by {
            if occurs_at(rest, word, 0) {
                assert(rest.subrange(0, word.len() as int) =~= text.subrange(
                    from,
                    from + word.len(),
                ));
            }
        }
        assert(rest.skip(1) =~= text.skip(from + 1));
        lemma_substitute_skips_plain_text(text, word, by, from + 1, to);
    }
}

/// The placeholder has eight characters, and none of them is a symbol of the
/// identity alphabet.
pub proof fn lemma_placeholder()
    ensures
        placeholder().len() == 8,
        forall|i: int| 0 <= i < 8 ==> !is_symbol(#[trigger] placeholder()[i]),
{
    reveal_strlit("%HHM_ID%");
}

/// A template that does not hold the placeholder is rendered as it is.
pub proof fn lemma_template_without_placeholder(template: Seq<char>, identity: Seq<char>)
    requires
        forall|at: int| !occurs_at(template, placeholder(), at),
    ensures
        rendered(template, identity) == template,
{
    lemma_placeholder();
    let end = template.len() as int;
    lemma_substitute_skips_plain_text(template, placeholder(), identity, 0, end);
    assert(template.subrange(0, end) + Seq::<char>::empty() =~= template);
}

/// A template that holds the placeholder exactly once, at `at`, is rendered
/// by putting the identity in the placeholder's place. The result holds the
/// identity there, and holds the placeholder nowhere.
pub proof fn lemma_template_with_one_placeholder(
    template: Seq<char>,
    identity: Seq<char>,
    at: int,
)
    requires
        is_identity(identity),
        occurs_at(template, placeholder(), at),
        forall|other: int| occurs_at(template, placeholder(), other) ==> other == at,
    ensures
        rendered(template, identity) == template.take(at) + identity + template.skip(at + 8),
        occurs_at(rendered(template, identity), identity, at),
        forall|other: int| !occurs_at(rendered(template, identity), placeholder(), other),
{
    lemma_placeholder();
    let word = placeholder();
    let tail = template.skip(at + 8);
    let spliced = template.take(at) + identity + tail;
    assert forall|k: int| !occurs_at(tail, word, k) by {
        if occurs_at(tail, word, k) {
            assert(tail.subrange(k, k + 8) =~= template.subrange(at + 8 + k, at + 8 + k + 8));
            assert(occurs_at(template, word, at + 8 + k));
        }
    }
    lemma_template_without_placeholder(tail, identity);
    lemma_substitute_skips_plain_text(template, word, identity, 0, at);
    let rest = template.skip(at);
    assert(rest.subrange(0, 8) =~= template.subrange(at, at + 8));
    assert(rest.skip(8) =~= tail);
    assert(template.skip(0) =~= template);
    assert(rendered(template, identity) == spliced);
    assert(spliced.subrange(at, at + 8) =~= identity);
    assert forall|other: int| !occurs_at(spliced, word, other) by {
        if occurs_at(spliced, word, other) {
            let window = spliced.subrange(other, other + 8);
            if other + 8 <= at {
                assert(window =~= template.subrange(other, other + 8));
                assert(occurs_at(template, word, other));
            } else if other >= at + 8 {
                assert(window =~= template.subrange(other, other + 8));
                assert(occurs_at(template, word, other));
            } else {
                let shared = if other < at {
                    at
                } else {
                    other
                };
                assert(!is_symbol(word[shared - other]));
            }
        }
    }
}

/// Where, besides, the text around the placeholder does not complete a
/// second copy of the identity, the rendered template holds the identity
/// exactly once.
pub proof fn lemma_identity_occurs_once(template: Seq<char>, identity: Seq<char>, at: int)
    requires
        is_identity(identity),
        occurs_at(template, placeholder(), at),
        forall|other: int| occurs_at(template, placeholder(), other) ==> other == at,
        ({
            let spliced = template.take(at) + identity + template.skip(at + 8);
            forall|other: int| other != at ==> !#[trigger] occurs_at(spliced, identity, other)
        }),
    ensures
        forall|other: int| occurs_at(rendered(template, identity), identity, other) <==> other == at,
{
    lemma_template_with_one_placeholder(template, identity, at);
}

/// Tests whether `word` stands in `text` at the position `at`.
fn stands_at(text: &Vec<char>, word: &Vec<char>, at: usize) -> (found: bool)
    requires
        at <= text.len(),
    ensures
        found == occurs_at(text@, word@, at as int),
{
    if word.len() > text.len() - at {
        return false;
    }
    let mut i: usize = 0;
    while i < word.len()
        invariant
            i <= word.len(),
            at + word.len() <= text.len(),
            forall|j: int| 0 <= j < i ==> text@[at + j] == word@[j],
        decreases word.len() - i,
    {
        if text[at + i] != word[i] {
            return false;
        }
        i += 1;
    }
    assert(text@.subrange(at as int, at + word.len()) =~= word@);
    true
}

/// Renders a bootstrap template: every occurrence of the placeholder becomes
/// the identity. A template without the placeholder is returned as it is.
pub fn render(template: &str, identity: &str) -> (out: String)
    ensures
        out@ == rendered(template@, identity@),
{
    let text = chars_of(template);
    let word = chars_of(PLACEHOLDER);
    proof {
        reveal_strlit("%HHM_ID%");
    }
    let mut out = String::new();
    let mut copied: usize = 0;
    let mut at: usize = 0;
    assert(text@.skip(0) =~= text@);
    while at < text.len()
        invariant
            copied <= at <= text.len(),
            text@ == template@,
            word@ == placeholder(),
            word@.len() == 8,
            forall|k: int| copied <= k < at ==> !occurs_at(text@, word@, k),
            out@ + substitute(text@.skip(copied as int), word@, identity@) == rendered(
                template@,
                identity@,
            ),
        decreases text.len() - at,
    {
        if stands_at(&text, &word, at) {
            proof {
                lemma_substitute_skips_plain_text(
                    text@,
                    word@,
                    identity@,
                    copied as int,
                    at as int,
                );
                let rest = text@.skip(at as int);
                assert(rest.subrange(0, 8) =~= text@.subrange(at as int, at + 8));
                assert(rest.skip(8) =~= text@.skip(at + 8));
            }
            out.append(template.substring_char(copied, at));
            out.append(identity);
            at += word.len();
            copied = at;
        } else {
            at += 1;
        }
    }
    proof {
        lemma_substitute_skips_plain_text(text@, word@, identity@, copied as int, at as int);
    }
    out.append(template.substring_char(copied, at));
    out
}

} // verus!
