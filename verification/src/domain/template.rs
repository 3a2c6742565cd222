//! Commit templates: a named token is replaced by its value, or taken out
//! together with the brackets around it.
//!
//! A token is a name between braces, `{scope}`. It may stand alone or in a
//! wrapper of one pair of brackets: `[{scope}]`, `({scope})`, `{{scope}}`.

use vstd::prelude::*;

use crate::utils::string::{
    from_chars, is_blank, is_whitespace, present, text_of, to_chars, whitespace,
};

verus! {

/// The token of `name`: the name between braces.
pub open spec fn token(name: Seq<char>) -> Seq<char> {
    seq!['{'] + name + seq!['}']
}

/// The token of `name` in a wrapper of the brackets `open` and `close`.
pub open spec fn wrapped(open: char, name: Seq<char>, close: char) -> Seq<char> {
    seq![open] + token(name) + seq![close]
}

/// `text` reads `pattern` from the place `at` on.
pub open spec fn occurs_at(text: Seq<char>, at: int, pattern: Seq<char>) -> bool {
    &&& 0 <= at
    &&& at + pattern.len() <= text.len()
    &&& text.subrange(at, at + pattern.len()) == pattern
}

/// What is left of `text` from the place `at` on after every occurrence of
/// `pattern` was replaced by `value`. Occurrences are found from left to
/// right, and the search goes on behind each one that was found.
pub open spec fn replace_from(
    text: Seq<char>,
    at: int,
    pattern: Seq<char>,
    value: Seq<char>,
) -> Seq<char>
    decreases text.len() - at,
{
    if at < 0 || at >= text.len() {
        Seq::empty()
    } else if pattern.len() > 0 && occurs_at(text, at, pattern) {
        value + replace_from(text, at + pattern.len(), pattern, value)
    } else {
        seq![text[at]] + replace_from(text, at + 1, pattern, value)
    }
}

/// `text` with every occurrence of `pattern` replaced by `value`.
pub open spec fn replace(text: Seq<char>, pattern: Seq<char>, value: Seq<char>) -> Seq<char> {
    replace_from(text, 0, pattern, value)
}

/// The length of the token of `name` that `text` reads from the place `at`
/// on, with its wrapper if it has one; 0 if it reads none there.
pub open spec fn form_len(text: Seq<char>, at: int, name: Seq<char>) -> int {
    if occurs_at(text, at, wrapped('[', name, ']')) || occurs_at(text, at, wrapped('(', name, ')'))
        || occurs_at(text, at, wrapped('{', name, '}')) {
        name.len() as int + 4
    } else if occurs_at(text, at, token(name)) {
        name.len() as int + 2
    } else {
        0
    }
}

/// The length of what is taken out of `text` at the place `at`: the token
/// of `name` with its wrapper, and one character of white space if one
/// follows it; 0 if no token stands there.
pub open spec fn cut_len(text: Seq<char>, at: int, name: Seq<char>) -> int {
    let form = form_len(text, at, name);
    if form > 0 && at + form < text.len() && is_whitespace(text[at + form]) {
        form + 1
    } else {
        form
    }
}

/// What is left of `text` from the place `at` on after the tokens of
/// `name` were taken out.
pub open spec fn remove_from(text: Seq<char>, at: int, name: Seq<char>) -> Seq<char>
    decreases text.len() - at,
{
    if at < 0 || at >= text.len() {
        Seq::empty()
    } else if cut_len(text, at, name) > 0 {
        remove_from(text, at + cut_len(text, at, name), name)
    } else {
        seq![text[at]] + remove_from(text, at + 1, name)
    }
}

/// `text` without the tokens of `name`.
pub open spec fn remove(text: Seq<char>, name: Seq<char>) -> Seq<char> {
    remove_from(text, 0, name)
}

/// The template after the token of `name` was given its value: replaced
/// by the value where there is one that is not blank, else taken out.
pub open spec fn substituted(template: Seq<char>, name: Seq<char>, value: Option<Seq<char>>) -> Seq<
    char,
> {
    match present(value) {
        Some(text) => replace(template, token(name), text),
        None => remove(template, name),
    }
}

/// One of the six brackets.
pub open spec fn is_bracket(c: char) -> bool {
    c == '{' || c == '}' || c == '[' || c == ']' || c == '(' || c == ')'
}

/// A name without brackets, as the names of the known tokens are.
pub open spec fn plain(name: Seq<char>) -> bool {
    forall|i: int| 0 <= i < name.len() ==> !is_bracket(#[trigger] name[i])
}

/// A character that no token of `name` holds behind its first character,
/// and that is no white space: where it stands, nothing that is taken out
/// for a token before it reaches it.
pub open spec fn apart(c: char, name: Seq<char>) -> bool {
    &&& !is_whitespace(c)
    &&& c != '{' && c != '}' && c != ']' && c != ')'
    &&& !name.contains(c)
}

/// `text` reads the token of `name` nowhere.
pub open spec fn free_of(text: Seq<char>, name: Seq<char>) -> bool {
    forall|at: int| !occurs_at(text, at, token(name))
}

/// A pair of brackets, square or round, around text that holds no token
/// of `name`: a check box `[ ]`, an aside `(sic)`, the token of another
/// name in its wrapper.
pub open spec fn bracket_group(group: Seq<char>, name: Seq<char>) -> bool {
    &&& group.len() >= 2
    &&& group[0] == '[' || group[0] == '('
    &&& group.last() == ']' || group.last() == ')'
    &&& free_of(group, name)
}

/// `text` without the character of white space that it starts with, if it
/// starts with one.
pub open spec fn after_space(text: Seq<char>) -> Seq<char> {
    if text.len() > 0 && is_whitespace(text[0]) {
        text.skip(1)
    } else {
        text
    }
}

/// What a text reads behind a prefix is what it reads without it.
proof fn lemma_occurs_shift(front: Seq<char>, back: Seq<char>, at: int, pattern: Seq<char>)
    requires
        0 <= at,
    ensures
        occurs_at(front + back, front.len() + at, pattern) == occurs_at(back, at, pattern),
{
    let text = front + back;
    if at + pattern.len() <= back.len() {
        assert(text.subrange(front.len() + at, front.len() + at + pattern.len()) =~= back.subrange(
            at,
            at + pattern.len(),
        ));
    }
}

/// Up to the end of a prefix a text reads what the prefix reads, unless
/// the pattern holds, behind its first character, the character that
/// follows the prefix.
proof fn lemma_occurs_front(front: Seq<char>, back: Seq<char>, at: int, pattern: Seq<char>)
    requires
        0 <= at < front.len(),
        back.len() > 0,
        forall|j: int| 1 <= j < pattern.len() ==> pattern[j] != back[0],
    ensures
        occurs_at(front + back, at, pattern) == occurs_at(front, at, pattern),
{
    let text = front + back;
    if at + pattern.len() <= front.len() {
        assert(text.subrange(at, at + pattern.len()) =~= front.subrange(at, at + pattern.len()));
    } else if occurs_at(text, at, pattern) {
        let j = front.len() - at;
        assert(text.subrange(at, at + pattern.len())[j] == text[front.len() as int]);
        assert(pattern[j] == back[0]);
    }
}

/// Behind a prefix, replacing goes on as if the prefix were not there.
proof fn lemma_replace_shift(
    front: Seq<char>,
    back: Seq<char>,
    at: int,
    pattern: Seq<char>,
    value: Seq<char>,
)
    requires
        0 <= at,
    ensures
        replace_from(front + back, front.len() + at, pattern, value) == replace_from(
            back,
            at,
            pattern,
            value,
        ),
    decreases back.len() - at,
{
    if at < back.len() {
        lemma_occurs_shift(front, back, at, pattern);
        if pattern.len() > 0 && occurs_at(back, at, pattern) {
            lemma_replace_shift(front, back, at + pattern.len(), pattern, value);
        } else {
            lemma_replace_shift(front, back, at + 1, pattern, value);
        }
    }
}

/// Before a character that the pattern does not hold, replacing comes to
/// an end as if the text ended there.
proof fn lemma_replace_split(
    front: Seq<char>,
    back: Seq<char>,
    at: int,
    pattern: Seq<char>,
    value: Seq<char>,
)
    requires
        0 <= at <= front.len(),
        back.len() > 0,
        !pattern.contains(back[0]),
    ensures
        replace_from(front + back, at, pattern, value) == replace_from(front, at, pattern, value)
            + replace(back, pattern, value),
    decreases front.len() - at,
{
    let text = front + back;
    if at == front.len() {
        lemma_replace_shift(front, back, 0, pattern, value);
        assert(replace_from(front, at, pattern, value) + replace(back, pattern, value) =~= replace(
            back,
            pattern,
            value,
        ));
    } else {
        assert forall|j: int| 1 <= j < pattern.len() implies pattern[j] != back[0] by {
            if pattern[j] == back[0] {
                assert(pattern.contains(back[0]));
            }
        }
        lemma_occurs_front(front, back, at, pattern);
        if pattern.len() > 0 && occurs_at(front, at, pattern) {
            lemma_replace_split(front, back, at + pattern.len(), pattern, value);
            assert(replace_from(text, at, pattern, value) =~= replace_from(
                front,
                at,
                pattern,
                value,
            ) + replace(back, pattern, value));
        } else {
            lemma_replace_split(front, back, at + 1, pattern, value);
            assert(text[at] == front[at]);
            assert(replace_from(text, at, pattern, value) =~= replace_from(
                front,
                at,
                pattern,
                value,
            ) + replace(back, pattern, value));
        }
    }
}

/// Behind a prefix a text reads the tokens that it reads without it.
proof fn lemma_cut_shift(front: Seq<char>, back: Seq<char>, at: int, name: Seq<char>)
    requires
        0 <= at < back.len(),
    ensures
        cut_len(front + back, front.len() + at, name) == cut_len(back, at, name),
        form_len(back, at, name) > 0 ==> at + form_len(back, at, name) <= back.len(),
{
    lemma_occurs_shift(front, back, at, wrapped('[', name, ']'));
    lemma_occurs_shift(front, back, at, wrapped('(', name, ')'));
    lemma_occurs_shift(front, back, at, wrapped('{', name, '}'));
    lemma_occurs_shift(front, back, at, token(name));
    let form = form_len(back, at, name);
    if form > 0 && at + form < back.len() {
        assert((front + back)[front.len() + at + form] == back[at + form]);
    }
}

/// Behind a prefix, taking tokens out goes on as if the prefix were not
/// there.
proof fn lemma_remove_shift(front: Seq<char>, back: Seq<char>, at: int, name: Seq<char>)
    requires
        0 <= at,
    ensures
        remove_from(front + back, front.len() + at, name) == remove_from(back, at, name),
    decreases back.len() - at,
{
    if at < back.len() {
        lemma_cut_shift(front, back, at, name);
        let cut = cut_len(back, at, name);
        if cut > 0 {
            lemma_remove_shift(front, back, at + cut, name);
        } else {
            lemma_remove_shift(front, back, at + 1, name);
        }
    }
}

/// Up to a character that stands apart, a text reads the tokens that the
/// part before that character reads.
proof fn lemma_cut_front(front: Seq<char>, back: Seq<char>, at: int, name: Seq<char>)
    requires
        0 <= at < front.len(),
        back.len() > 0,
        apart(back[0], name),
    ensures
        cut_len(front + back, at, name) == cut_len(front, at, name),
        at + cut_len(front, at, name) <= front.len(),
{
    let square = wrapped('[', name, ']');
    let round = wrapped('(', name, ')');
    let curly = wrapped('{', name, '}');
    let bare = token(name);
    assert forall|j: int| 1 <= j < square.len() implies square[j] != back[0] by {
        if 2 <= j < name.len() + 2 {
            assert(square[j] == name[j - 2]);
            assert(name.contains(square[j]));
        }
    }
    assert forall|j: int| 1 <= j < round.len() implies round[j] != back[0] by {
        if 2 <= j < name.len() + 2 {
            assert(round[j] == name[j - 2]);
            assert(name.contains(round[j]));
        }
    }
    assert forall|j: int| 1 <= j < curly.len() implies curly[j] != back[0] by {
        if 2 <= j < name.len() + 2 {
            assert(curly[j] == name[j - 2]);
            assert(name.contains(curly[j]));
        }
    }
    assert forall|j: int| 1 <= j < bare.len() implies bare[j] != back[0] by {
        if 1 <= j < name.len() + 1 {
            assert(bare[j] == name[j - 1]);
            assert(name.contains(bare[j]));
        }
    }
    lemma_occurs_front(front, back, at, square);
    lemma_occurs_front(front, back, at, round);
    lemma_occurs_front(front, back, at, curly);
    lemma_occurs_front(front, back, at, bare);
    let form = form_len(front, at, name);
    if form > 0 {
        if at + form < front.len() {
            assert((front + back)[at + form] == front[at + form]);
        } else {
            assert((front + back)[at + form] == back[0]);
        }
    }
}

/// Before a character that stands apart, taking tokens out comes to an
/// end as if the text ended there.
proof fn lemma_remove_split(front: Seq<char>, back: Seq<char>, at: int, name: Seq<char>)
    requires
        0 <= at <= front.len(),
        back.len() > 0,
        apart(back[0], name),
    ensures
        remove_from(front + back, at, name) == remove_from(front, at, name) + remove(back, name),
    decreases front.len() - at,
{
    let text = front + back;
    if at == front.len() {
        lemma_remove_shift(front, back, 0, name);
        assert(remove_from(front, at, name) + remove(back, name) =~= remove(back, name));
    } else {
        lemma_cut_front(front, back, at, name);
        let cut = cut_len(front, at, name);
        if cut > 0 {
            lemma_remove_split(front, back, at + cut, name);
        } else {
            lemma_remove_split(front, back, at + 1, name);
            assert(text[at] == front[at]);
            assert(remove_from(text, at, name) =~= remove_from(front, at, name) + remove(
                back,
                name,
            ));
        }
    }
}

/// A token, alone or in its wrapper, that starts inside a bracket group
/// would either lie inside the group or reach over the bracket that
/// closes the group. `form` is the token or one of its wrappers, and
/// `depth` is 0 or 1 accordingly.
proof fn lemma_group_reads_no_form(
    group: Seq<char>,
    back: Seq<char>,
    at: int,
    name: Seq<char>,
    form: Seq<char>,
    depth: int,
)
    requires
        0 <= at < group.len(),
        plain(name),
        bracket_group(group, name),
        0 <= depth <= 1,
        form.len() == token(name).len() + 2 * depth,
        form.subrange(depth, depth + token(name).len()) == token(name),
        depth == 1 ==> form[0] != ']' && form[0] != ')',
    ensures
        !occurs_at(group + back, at, form),
{
    let text = group + back;
    let bare = token(name);
    if occurs_at(text, at, form) {
        let read = text.subrange(at, at + form.len());
        if at + form.len() <= group.len() {
            assert(group.subrange(at + depth, at + depth + bare.len()) =~= read.subrange(
                depth,
                depth + bare.len(),
            ));
            assert(occurs_at(group, at + depth, bare));
        } else {
            let j = group.len() - 1 - at;
            assert(read[j] == text[group.len() - 1]);
            assert(form[j] == group.last());
            if j >= depth {
                assert(form.subrange(depth, depth + bare.len())[j - depth] == form[j]);
                let k = j - depth;
                if 1 <= k < name.len() + 1 {
                    assert(bare[k] == name[k - 1]);
                    assert(is_bracket(name[k - 1]));
                }
            }
        }
    }
}

/// A bracket group holds no token and is kept as it is.
proof fn lemma_remove_keeps(group: Seq<char>, back: Seq<char>, at: int, name: Seq<char>)
    requires
        0 <= at <= group.len(),
        plain(name),
        bracket_group(group, name),
    ensures
        remove_from(group + back, at, name) == group.skip(at) + remove(back, name),
    decreases group.len() - at,
{
    let text = group + back;
    if at == group.len() {
        lemma_remove_shift(group, back, 0, name);
        assert(group.skip(at) + remove(back, name) =~= remove(back, name));
    } else {
        let bare = token(name);
        let square = wrapped('[', name, ']');
        let round = wrapped('(', name, ')');
        let curly = wrapped('{', name, '}');
        assert(square.subrange(1, bare.len() as int + 1) =~= bare);
        assert(round.subrange(1, bare.len() as int + 1) =~= bare);
        assert(curly.subrange(1, bare.len() as int + 1) =~= bare);
        assert(bare.subrange(0, bare.len() as int) =~= bare);
        lemma_group_reads_no_form(group, back, at, name, square, 1);
        lemma_group_reads_no_form(group, back, at, name, round, 1);
        lemma_group_reads_no_form(group, back, at, name, curly, 1);
        lemma_group_reads_no_form(group, back, at, name, bare, 0);
        assert(cut_len(text, at, name) == 0);
        assert(text[at] == group[at]);
        lemma_remove_keeps(group, back, at + 1, name);
        assert(remove_from(text, at, name) =~= group.skip(at) + remove(back, name));
    }
}

/// A bracket group holds no token and is kept as it is.
proof fn lemma_replace_keeps(
    group: Seq<char>,
    back: Seq<char>,
    at: int,
    name: Seq<char>,
    value: Seq<char>,
)
    requires
        0 <= at <= group.len(),
        plain(name),
        bracket_group(group, name),
    ensures
        replace_from(group + back, at, token(name), value) == group.skip(at) + replace(
            back,
            token(name),
            value,
        ),
    decreases group.len() - at,
{
    let text = group + back;
    let bare = token(name);
    if at == group.len() {
        lemma_replace_shift(group, back, 0, bare, value);
        assert(group.skip(at) + replace(back, bare, value) =~= replace(back, bare, value));
    } else {
        assert(bare.subrange(0, bare.len() as int) =~= bare);
        lemma_group_reads_no_form(group, back, at, name, bare, 0);
        assert(text[at] == group[at]);
        lemma_replace_keeps(group, back, at + 1, name, value);
        assert(replace_from(text, at, bare, value) =~= group.skip(at) + replace(
            back,
            bare,
            value,
        ));
    }
}

/// Where a text reads no token, it reads no token in a wrapper either, and
/// nothing is taken out of it.
proof fn lemma_remove_nothing(text: Seq<char>, at: int, name: Seq<char>)
    requires
        0 <= at <= text.len(),
        free_of(text, name),
    ensures
        remove_from(text, at, name) == text.skip(at),
    decreases text.len() - at,
{
    if at < text.len() {
        let bare = token(name);
        assert(!occurs_at(text, at, bare));
        assert(!occurs_at(text, at + 1, bare));
        assert forall|first: char, last: char| !occurs_at(
            text,
            at,
            #[trigger] wrapped(first, name, last),
        ) by {
            let form = wrapped(first, name, last);
            if occurs_at(text, at, form) {
                assert(text.subrange(at + 1, at + 1 + bare.len()) =~= text.subrange(
                    at,
                    at + form.len(),
                ).subrange(1, bare.len() as int + 1));
                assert(form.subrange(1, bare.len() as int + 1) =~= bare);
            }
        }
        assert(!occurs_at(text, at, wrapped('[', name, ']')));
        assert(!occurs_at(text, at, wrapped('(', name, ')')));
        assert(!occurs_at(text, at, wrapped('{', name, '}')));
        lemma_remove_nothing(text, at + 1, name);
        assert(remove_from(text, at, name) =~= text.skip(at));
    } else {
        assert(text.skip(at) =~= Seq::<char>::empty());
    }
}

/// Where a text reads no token, nothing in it is replaced.
proof fn lemma_replace_nothing(text: Seq<char>, at: int, name: Seq<char>, value: Seq<char>)
    requires
        0 <= at <= text.len(),
        free_of(text, name),
    ensures
        replace_from(text, at, token(name), value) == text.skip(at),
    decreases text.len() - at,
{
    if at < text.len() {
        assert(!occurs_at(text, at, token(name)));
        lemma_replace_nothing(text, at + 1, name, value);
        assert(replace_from(text, at, token(name), value) =~= text.skip(at));
    } else {
        assert(text.skip(at) =~= Seq::<char>::empty());
    }
}

/// A template that holds no token of a name stays as it is, whatever the
/// value: only the exact name between braces counts as a token.
pub proof fn law_template_without_token_is_kept(
    template: Seq<char>,
    name: Seq<char>,
    value: Option<Seq<char>>,
)
    requires
        free_of(template, name),
    ensures
        substituted(template, name, value) == template,
{
    assert(template.skip(0) =~= template);
    match present(value) {
        Some(text) => lemma_replace_nothing(template, 0, name, text),
        None => lemma_remove_nothing(template, 0, name),
    }
}

/// Where the value is missing or blank, a token in square brackets leaves
/// nothing behind: neither the brackets nor one character of white space
/// that follows them. What stands before and behind is treated as if it
/// stood alone.
pub proof fn law_empty_value_takes_brackets_out(
    before: Seq<char>,
    behind: Seq<char>,
    name: Seq<char>,
    value: Option<Seq<char>>,
)
    requires
        plain(name),
        present(value) is None,
    ensures
        substituted(before + wrapped('[', name, ']') + behind, name, value) == substituted(
            before,
            name,
            value,
        ) + substituted(after_space(behind), name, value),
{
    let square = wrapped('[', name, ']');
    let back = square + behind;
    assert(before + square + behind =~= before + back);
    assert(back[0] == '[');
    assert(!name.contains('[')) by {
        if name.contains('[') {
            let i = choose|i: int| 0 <= i < name.len() && name[i] == '[';
            assert(is_bracket(name[i]));
        }
    }
    lemma_remove_split(before, back, 0, name);
    assert(back.subrange(0, square.len() as int) =~= square);
    assert(occurs_at(back, 0, square));
    let cut = cut_len(back, 0, name);
    if behind.len() > 0 {
        assert(back[square.len() as int] == behind[0]);
    }
    let rest = cut - square.len();
    lemma_remove_shift(square, behind, rest, name);
    if rest == 1 {
        let space = behind.take(1);
        assert(space + behind.skip(1) =~= behind);
        lemma_remove_shift(space, behind.skip(1), 0, name);
    }
}

/// Where the value is there and not blank, a token in square brackets
/// becomes the value in square brackets. What stands before and behind is
/// treated as if it stood alone.
pub proof fn law_value_stands_in_brackets(
    before: Seq<char>,
    behind: Seq<char>,
    name: Seq<char>,
    value: Option<Seq<char>>,
)
    requires
        plain(name),
        present(value) is Some,
    ensures
        substituted(before + wrapped('[', name, ']') + behind, name, value) == substituted(
            before,
            name,
            value,
        ) + seq!['['] + value->0 + seq![']'] + substituted(behind, name, value),
{
    let text = value->0;
    let bare = token(name);
    let tail = seq![']'] + behind;
    let inner = bare + tail;
    let back = seq!['['] + inner;
    assert(before + wrapped('[', name, ']') + behind =~= before + back);
    assert forall|c: char| is_bracket(c) && c != '{' && c != '}' implies !bare.contains(c) by {
        if bare.contains(c) {
            let i = choose|i: int| 0 <= i < bare.len() && bare[i] == c;
            if 1 <= i < name.len() + 1 {
                assert(bare[i] == name[i - 1]);
                assert(is_bracket(name[i - 1]));
            }
        }
    }
    assert(is_bracket('[') && is_bracket(']'));
    assert(back[0] == '[');
    lemma_replace_split(before, back, 0, bare, text);
    // the opening bracket is kept
    if occurs_at(back, 0, bare) {
        assert(back.subrange(0, bare.len() as int)[0] == bare[0]);
    }
    lemma_replace_shift(seq!['['], inner, 0, bare, text);
    // the token is replaced
    assert(inner.subrange(0, bare.len() as int) =~= bare);
    assert(occurs_at(inner, 0, bare));
    lemma_replace_shift(bare, tail, 0, bare, text);
    // the closing bracket is kept
    if occurs_at(tail, 0, bare) {
        assert(tail.subrange(0, bare.len() as int)[0] == bare[0]);
    }
    lemma_replace_shift(seq![']'], behind, 0, bare, text);
    assert(replace(back, bare, text) =~= seq!['['] + text + seq![']'] + replace(
        behind,
        bare,
        text,
    ));
    assert(replace(before, bare, text) + replace(back, bare, text) =~= replace(before, bare, text)
        + seq!['['] + text + seq![']'] + replace(behind, bare, text));
}

/// A pair of brackets around text that holds no token of the name is
/// kept as it is, whatever the value: a check box `[ ]` stays a check box.
/// What stands before and behind is treated as if it stood alone.
pub proof fn law_other_brackets_are_kept(
    before: Seq<char>,
    group: Seq<char>,
    behind: Seq<char>,
    name: Seq<char>,
    value: Option<Seq<char>>,
)
    requires
        plain(name),
        bracket_group(group, name),
    ensures
        substituted(before + group + behind, name, value) == substituted(before, name, value)
            + group + substituted(behind, name, value),
{
    let back = group + behind;
    let bare = token(name);
    assert(before + group + behind =~= before + back);
    assert(back[0] == group[0]);
    assert(is_bracket('[') && is_bracket('('));
    assert(!name.contains(group[0])) by {
        if name.contains(group[0]) {
            let i = choose|i: int| 0 <= i < name.len() && name[i] == group[0];
            assert(is_bracket(name[i]));
        }
    }
    assert(group.skip(0) =~= group);
    match present(value) {
        Some(text) => {
            assert(!bare.contains(group[0])) by {
                if bare.contains(group[0]) {
                    let i = choose|i: int| 0 <= i < bare.len() && bare[i] == group[0];
                    if 1 <= i < name.len() + 1 {
                        assert(bare[i] == name[i - 1]);
                        assert(name.contains(group[0]));
                    }
                }
            }
            lemma_replace_split(before, back, 0, bare, text);
            lemma_replace_keeps(group, behind, 0, name, text);
            assert(replace(before, bare, text) + (group + replace(behind, bare, text)) =~= replace(
                before,
                bare,
                text,
            ) + group + replace(behind, bare, text));
        },
        None => {
            lemma_remove_split(before, back, 0, name);
            lemma_remove_keeps(group, behind, 0, name);
            assert(remove(before, name) + (group + remove(behind, name)) =~= remove(before, name)
                + group + remove(behind, name));
        },
    }
}

/// Whether `text` reads `pattern` from the place `at` on.
fn reads(text: &Vec<char>, at: usize, pattern: &Vec<char>) -> (yes: bool)
    ensures
        yes == occurs_at(text@, at as int, pattern@),
{
    if at > text.len() || pattern.len() > text.len() - at {
        return false;
    }
    let mut i: usize = 0;
    while i < pattern.len()
        invariant
            i <= pattern.len(),
            at + pattern.len() <= text.len(),
            text@.subrange(at as int, at + i) == pattern@.take(i as int),
        decreases pattern.len() - i,
    {
        if text[at + i] != pattern[i] {
            assert(text@.subrange(at as int, at + pattern.len())[i as int] != pattern@[i as int]);
            return false;
        }
        assert(text@.subrange(at as int, at + i + 1) == text@.subrange(at as int, at + i).push(
            text[at + i],
        ));
        assert(pattern@.take(i + 1) == pattern@.take(i as int).push(pattern[i as int]));
        i += 1;
    }
    assert(pattern@.take(pattern.len() as int) == pattern@);
    true
}

/// The token of `name`, between `open` and `close` where they are given.
fn form(open: Option<char>, name: &Vec<char>, close: Option<char>) -> (out: Vec<char>)
    requires
        open is Some <==> close is Some,
    ensures
        out@ == match (open, close) {
            (Some(first), Some(last)) => wrapped(first, name@, last),
            _ => token(name@),
        },
{
    let mut out: Vec<char> = Vec::new();
    if let Some(first) = open {
        out.push(first);
    }
    out.push('{');
    let mut i: usize = 0;
    let ghost head = out@;
    while i < name.len()
        invariant
            i <= name.len(),
            out@ == head + name@.take(i as int),
        decreases name.len() - i,
    {
        out.push(name[i]);
        assert(name@.take(i + 1) == name@.take(i as int).push(name[i as int]));
        i += 1;
    }
    assert(name@.take(name.len() as int) == name@);
    out.push('}');
    if let Some(last) = close {
        out.push(last);
    }
    proof {
        match (open, close) {
            (Some(first), Some(last)) => {
                assert(out@ =~= wrapped(first, name@, last));
            },
            _ => {
                assert(out@ =~= token(name@));
            },
        }
    }
    out
}

/// `text` with every occurrence of `pattern` replaced by `value`.
pub fn replace_all(text: &Vec<char>, pattern: &Vec<char>, value: &Vec<char>) -> (out: Vec<char>)
    ensures
        out@ == replace(text@, pattern@, value@),
{
    let mut out: Vec<char> = Vec::new();
    let mut at: usize = 0;
    while at < text.len()
        invariant
            at <= text.len(),
            out@ + replace_from(text@, at as int, pattern@, value@) == replace(
                text@,
                pattern@,
                value@,
            ),
        decreases text.len() - at,
    {
        let ghost rest = replace_from(text@, at as int, pattern@, value@);
        if pattern.len() > 0 && reads(text, at, pattern) {
            let ghost before = out@;
            let mut i: usize = 0;
            while i < value.len()
                invariant
                    i <= value.len(),
                    out@ == before + value@.take(i as int),
                decreases value.len() - i,
            {
                out.push(value[i]);
                assert(value@.take(i + 1) == value@.take(i as int).push(value[i as int]));
                i += 1;
            }
            assert(value@.take(value.len() as int) == value@);
            at += pattern.len();
            assert(out@ + replace_from(text@, at as int, pattern@, value@) =~= before + rest);
        } else {
            let ghost before = out@;
            out.push(text[at]);
            at += 1;
            assert(out@ + replace_from(text@, at as int, pattern@, value@) =~= before + rest);
        }
    }
    assert(out@ + Seq::<char>::empty() =~= out@);
    out
}

/// The length of what is taken out of `text` at the place `at`.
fn cut_at(
    text: &Vec<char>,
    at: usize,
    name: &Vec<char>,
    square: &Vec<char>,
    round: &Vec<char>,
    curly: &Vec<char>,
    bare: &Vec<char>,
) -> (len: usize)
    requires
        at < text.len(),
        square@ == wrapped('[', name@, ']'),
        round@ == wrapped('(', name@, ')'),
        curly@ == wrapped('{', name@, '}'),
        bare@ == token(name@),
    ensures
        len == cut_len(text@, at as int, name@),
        at + len <= text.len(),
{
    let form: usize = if reads(text, at, square) || reads(text, at, round) || reads(
        text,
        at,
        curly,
    ) {
        square.len()
    } else if reads(text, at, bare) {
        bare.len()
    } else {
        0
    };
    if form > 0 && form < text.len() - at && whitespace(text[at + form]) {
        form + 1
    } else {
        form
    }
}

/// `text` without the tokens of `name`.
pub fn remove_tokens(text: &Vec<char>, name: &Vec<char>) -> (out: Vec<char>)
    ensures
        out@ == remove(text@, name@),
{
    let square = form(Some('['), name, Some(']'));
    let round = form(Some('('), name, Some(')'));
    let curly = form(Some('{'), name, Some('}'));
    let bare = form(None, name, None);
    let mut out: Vec<char> = Vec::new();
    let mut at: usize = 0;
    while at < text.len()
        invariant
            at <= text.len(),
            square@ == wrapped('[', name@, ']'),
            round@ == wrapped('(', name@, ')'),
            curly@ == wrapped('{', name@, '}'),
            bare@ == token(name@),
            out@ + remove_from(text@, at as int, name@) == remove(text@, name@),
        decreases text.len() - at,
    {
        let ghost rest = remove_from(text@, at as int, name@);
        let ghost before = out@;
        let cut = cut_at(text, at, name, &square, &round, &curly, &bare);
        if cut > 0 {
            at += cut;
        } else {
            out.push(text[at]);
            at += 1;
        }
        assert(out@ + remove_from(text@, at as int, name@) =~= before + rest);
    }
    assert(out@ + Seq::<char>::empty() =~= out@);
    out
}

/// The template after the token of `target` was given its value: replaced
/// by `value` where that is there and not blank, else taken out with its
/// wrapper and one character of white space behind it.
pub fn replace_or_remove(template: &str, target: &str, value: Option<String>) -> (out: String)
    ensures
        out@ == substituted(template@, target@, text_of(value)),
{
    let text = to_chars(template);
    let name = to_chars(target);
    let out = match value {
        Some(given) => {
            if is_blank(given.as_str()) {
                remove_tokens(&text, &name)
            } else {
                let pattern = form(None, &name, None);
                replace_all(&text, &pattern, &to_chars(given.as_str()))
            }
        },
        None => remove_tokens(&text, &name),
    };
    from_chars(&out)
}

} // verus!
