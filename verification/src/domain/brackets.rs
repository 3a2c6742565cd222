//! Counting brackets before and after a token is given its value.

use vstd::prelude::*;

use crate::domain::template::{
    cut_len, form_len, is_bracket, occurs_at, plain, remove_from, replace_from, substituted,
    token, wrapped,
};
use crate::utils::string::{is_whitespace, present, trim, trim_end, trim_start};

verus! {

/// How often `c` stands in `text`.
pub open spec fn count(text: Seq<char>, c: char) -> nat
    decreases text.len(),
{
    if text.len() == 0 {
        0
    } else {
        count(text.skip(1), c) + if text[0] == c {
            1nat
        } else {
            0nat
        }
    }
}

/// At how many places from `at` on `text` reads the token of `name` in
/// square brackets.
pub open spec fn squares_from(text: Seq<char>, at: int, name: Seq<char>) -> nat
    decreases text.len() - at,
{
    if at < 0 || at >= text.len() {
        0
    } else {
        squares_from(text, at + 1, name) + if occurs_at(text, at, wrapped('[', name, ']')) {
            1nat
        } else {
            0nat
        }
    }
}

/// At how many places `text` reads the token of `name` in square
/// brackets.
pub open spec fn squares(text: Seq<char>, name: Seq<char>) -> nat {
    squares_from(text, 0, name)
}

/// A square bracket, opening or closing.
pub open spec fn square_bracket(c: char) -> bool {
    c == '[' || c == ']'
}

/// Counting goes part by part.
pub proof fn lemma_count_add(front: Seq<char>, back: Seq<char>, c: char)
    ensures
        count(front + back, c) == count(front, c) + count(back, c),
    decreases front.len(),
{
    if front.len() == 0 {
        assert(front + back =~= back);
    } else {
        assert((front + back).skip(1) =~= front.skip(1) + back);
        assert((front + back)[0] == front[0]);
        lemma_count_add(front.skip(1), back, c);
    }
}

/// A character that stands nowhere is counted no times.
pub proof fn lemma_count_none(text: Seq<char>, c: char)
    requires
        forall|i: int| 0 <= i < text.len() ==> text[i] != c,
    ensures
        count(text, c) == 0,
    decreases text.len(),
{
    if text.len() > 0 {
        let rest = text.skip(1);
        assert forall|i: int| 0 <= i < rest.len() implies rest[i] != c by {
            assert(rest[i] == text[i + 1]);
        }
        lemma_count_none(rest, c);
    }
}

/// One character is counted once if it is the one, else no times.
proof fn lemma_count_one(x: char, c: char)
    ensures
        count(seq![x], c) == if x == c { 1nat } else { 0nat },
{
    assert(seq![x].skip(1) =~= Seq::<char>::empty());
    assert(count(seq![x].skip(1), c) == 0);
}

/// The token of a plain name holds no square bracket, and in a wrapper it
/// holds as many as the wrapper gives it.
proof fn lemma_count_form(open: char, name: Seq<char>, close: char, c: char)
    requires
        plain(name),
        square_bracket(c),
    ensures
        count(token(name), c) == 0,
        count(wrapped(open, name, close), c) == (if open == c { 1nat } else { 0nat }) + (if close
            == c { 1nat } else { 0nat }),
{
    assert forall|i: int| 0 <= i < name.len() implies name[i] != c by {
        assert(!is_bracket(name[i]));
    }
    lemma_count_none(name, c);
    lemma_count_one('{', c);
    lemma_count_one('}', c);
    lemma_count_one(open, c);
    lemma_count_one(close, c);
    lemma_count_add(seq!['{'], name, c);
    lemma_count_add(seq!['{'] + name, seq!['}'], c);
    lemma_count_add(seq![open], token(name), c);
    lemma_count_add(seq![open] + token(name), seq![close], c);
}

/// Where no opening square bracket stands, no token in square brackets
/// starts.
proof fn lemma_squares_skip(text: Seq<char>, from: int, to: int, name: Seq<char>)
    requires
        0 <= from <= to <= text.len(),
        forall|p: int| from <= p < to ==> text[p] != '[',
    ensures
        squares_from(text, from, name) == squares_from(text, to, name),
    decreases to - from,
{
    if from < to {
        let square = wrapped('[', name, ']');
        if occurs_at(text, from, square) {
            assert(text.subrange(from, from + square.len())[0] == square[0]);
        }
        lemma_squares_skip(text, from + 1, to, name);
    }
}

/// What is taken out for one token holds one square bracket of each kind
/// if the token stood in square brackets, and none if not; and no other
/// token in square brackets starts in it.
proof fn lemma_cut_counts(text: Seq<char>, at: int, name: Seq<char>, c: char)
    requires
        0 <= at < text.len(),
        plain(name),
        square_bracket(c),
        cut_len(text, at, name) > 0,
    ensures
        at + cut_len(text, at, name) <= text.len(),
        count(text.skip(at), c) == count(text.skip(at + cut_len(text, at, name)), c)
            + squares_from(text, at, name) - squares_from(
            text,
            at + cut_len(text, at, name),
            name,
        ),
{
    let square = wrapped('[', name, ']');
    let round = wrapped('(', name, ')');
    let curly = wrapped('{', name, '}');
    let bare = token(name);
    let form_length = form_len(text, at, name);
    let cut = cut_len(text, at, name);
    let form = if occurs_at(text, at, square) {
        square
    } else if occurs_at(text, at, round) {
        round
    } else if occurs_at(text, at, curly) {
        curly
    } else {
        bare
    };
    assert(occurs_at(text, at, form));
    assert(form.len() == form_length);
    lemma_count_form('[', name, ']', c);
    lemma_count_form('(', name, ')', c);
    lemma_count_form('{', name, '}', c);
    let here: nat = if occurs_at(text, at, square) { 1 } else { 0 };
    assert(count(form, c) == here);
    // the square form is read here only where it is the form that was found
    if occurs_at(text, at, square) && form != square {
        assert(false);
    }
    if !occurs_at(text, at, square) && form == square {
        assert(false);
    }
    // what is taken out, counted
    let taken = text.subrange(at, at + cut);
    assert(text.skip(at) =~= taken + text.skip(at + cut));
    lemma_count_add(taken, text.skip(at + cut), c);
    if cut == form_length {
        assert(taken =~= form);
    } else {
        let space = text[at + form_length];
        assert(is_whitespace(space));
        assert(taken =~= form + seq![space]);
        lemma_count_add(form, seq![space], c);
        lemma_count_one(space, c);
    }
    assert(count(taken, c) == here);
    // no token in square brackets starts behind the first place
    assert forall|p: int| at + 1 <= p < at + cut implies text[p] != '[' by {
        if p < at + form_length {
            let j = p - at;
            assert(text.subrange(at, at + form_length)[j] == form[j]);
            assert(text[p] == form[j]);
            if form == bare {
                if 1 <= j < name.len() + 1 {
                    assert(bare[j] == name[j - 1]);
                    assert(!is_bracket(name[j - 1]));
                }
            } else {
                if 2 <= j < name.len() + 2 {
                    assert(form[j] == name[j - 2]);
                    assert(!is_bracket(name[j - 2]));
                }
            }
        } else {
            assert(is_whitespace(text[p]));
        }
    }
    lemma_squares_skip(text, at + 1, at + cut, name);
}

/// After the tokens of a plain name were taken out, the text holds one
/// square bracket of each kind less for every token that stood in square
/// brackets, and all the others.
pub proof fn lemma_remove_counts(text: Seq<char>, at: int, name: Seq<char>, c: char)
    requires
        0 <= at <= text.len(),
        plain(name),
        square_bracket(c),
    ensures
        count(remove_from(text, at, name), c) + squares_from(text, at, name) == count(
            text.skip(at),
            c,
        ),
    decreases text.len() - at,
{
    if at >= text.len() {
        assert(text.skip(at) =~= Seq::<char>::empty());
    } else {
        let cut = cut_len(text, at, name);
        if cut > 0 {
            lemma_cut_counts(text, at, name, c);
            lemma_remove_counts(text, at + cut, name, c);
        } else {
            assert(!occurs_at(text, at, wrapped('[', name, ']')));
            lemma_remove_counts(text, at + 1, name, c);
            let rest = remove_from(text, at + 1, name);
            lemma_count_add(seq![text[at]], rest, c);
            lemma_count_one(text[at], c);
            assert(text.skip(at) =~= seq![text[at]] + text.skip(at + 1));
            lemma_count_add(seq![text[at]], text.skip(at + 1), c);
        }
    }
}

/// After a token of a plain name was replaced by a value without square
/// brackets, the text holds the square brackets that it held.
pub proof fn lemma_replace_counts(
    text: Seq<char>,
    at: int,
    name: Seq<char>,
    value: Seq<char>,
    c: char,
)
    requires
        0 <= at <= text.len(),
        plain(name),
        square_bracket(c),
        count(value, c) == 0,
    ensures
        count(replace_from(text, at, token(name), value), c) == count(text.skip(at), c),
    decreases text.len() - at,
{
    let bare = token(name);
    if at >= text.len() {
        assert(text.skip(at) =~= Seq::<char>::empty());
    } else if occurs_at(text, at, bare) {
        lemma_count_form('[', name, ']', c);
        lemma_replace_counts(text, at + bare.len(), name, value, c);
        lemma_count_add(value, replace_from(text, at + bare.len(), bare, value), c);
        assert(text.skip(at) =~= bare + text.skip(at + bare.len()));
        lemma_count_add(bare, text.skip(at + bare.len()), c);
    } else {
        lemma_replace_counts(text, at + 1, name, value, c);
        lemma_count_add(seq![text[at]], replace_from(text, at + 1, bare, value), c);
        lemma_count_one(text[at], c);
        assert(text.skip(at) =~= seq![text[at]] + text.skip(at + 1));
        lemma_count_add(seq![text[at]], text.skip(at + 1), c);
    }
}

/// A value that leaves the square brackets of `text` alone when it is
/// given to the token of `name`: one that holds none itself; or none at
/// all, where no token of `name` stands in square brackets.
pub open spec fn keeps_square_brackets(
    text: Seq<char>,
    name: Seq<char>,
    value: Option<Seq<char>>,
) -> bool {
    match present(value) {
        Some(given) => count(given, '[') == 0 && count(given, ']') == 0,
        None => squares(text, name) == 0,
    }
}

/// Where a token has no value, each token in square brackets takes its
/// two brackets with it, and every other square bracket stays.
pub proof fn law_brackets_go_with_their_token(
    text: Seq<char>,
    name: Seq<char>,
    value: Option<Seq<char>>,
    c: char,
)
    requires
        plain(name),
        square_bracket(c),
        present(value) is None,
    ensures
        count(substituted(text, name, value), c) + squares(text, name) == count(text, c),
{
    lemma_remove_counts(text, 0, name, c);
    assert(text.skip(0) =~= text);
}

/// A value that leaves the square brackets alone leaves as many of each
/// kind as there were.
pub proof fn law_other_values_keep_square_brackets(
    text: Seq<char>,
    name: Seq<char>,
    value: Option<Seq<char>>,
    c: char,
)
    requires
        plain(name),
        square_bracket(c),
        keeps_square_brackets(text, name, value),
    ensures
        count(substituted(text, name, value), c) == count(text, c),
{
    assert(text.skip(0) =~= text);
    match present(value) {
        Some(given) => lemma_replace_counts(text, 0, name, given, c),
        None => lemma_remove_counts(text, 0, name, c),
    }
}

/// Trimming takes no square bracket away.
pub proof fn lemma_trim_counts(text: Seq<char>, c: char)
    requires
        square_bracket(c),
    ensures
        count(trim_start(text), c) == count(text, c),
        count(trim_end(text), c) == count(text, c),
        count(trim(text), c) == count(text, c),
{
    lemma_trim_start_counts(text, c);
    lemma_trim_end_counts(text, c);
    lemma_trim_end_counts(trim_start(text), c);
}

proof fn lemma_trim_start_counts(text: Seq<char>, c: char)
    requires
        square_bracket(c),
    ensures
        count(trim_start(text), c) == count(text, c),
    decreases text.len(),
{
    if text.len() > 0 && is_whitespace(text[0]) {
        lemma_trim_start_counts(text.skip(1), c);
    }
}

proof fn lemma_trim_end_counts(text: Seq<char>, c: char)
    requires
        square_bracket(c),
    ensures
        count(trim_end(text), c) == count(text, c),
    decreases text.len(),
{
    if text.len() > 0 && is_whitespace(text.last()) {
        let rest = text.drop_last();
        lemma_trim_end_counts(rest, c);
        assert(text =~= rest + seq![text.last()]);
        lemma_count_add(rest, seq![text.last()], c);
        lemma_count_one(text.last(), c);
    }
}

} // verus!
