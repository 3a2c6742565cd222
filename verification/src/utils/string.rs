//! Strings as sequences of characters: white space, trimming, blank values.

use vstd::prelude::*;

verus! {

/// The characters that count as white space: those of Unicode's property
/// `White_Space`, which are also the ones that `char::is_whitespace` accepts.
pub open spec fn is_whitespace(c: char) -> bool {
    let code = c as u32;
    ||| 0x09 <= code <= 0x0D
    ||| code == 0x20
    ||| code == 0x85
    ||| code == 0xA0
    ||| code == 0x1680
    ||| 0x2000 <= code <= 0x200A
    ||| code == 0x2028
    ||| code == 0x2029
    ||| code == 0x202F
    ||| code == 0x205F
    ||| code == 0x3000
}

/// `text` without the white space it starts with.
pub open spec fn trim_start(text: Seq<char>) -> Seq<char>
    decreases text.len(),
{
    if text.len() > 0 && is_whitespace(text[0]) {
        trim_start(text.skip(1))
    } else {
        text
    }
}

/// `text` without the white space it ends with.
pub open spec fn trim_end(text: Seq<char>) -> Seq<char>
    decreases text.len(),
{
    if text.len() > 0 && is_whitespace(text.last()) {
        trim_end(text.drop_last())
    } else {
        text
    }
}

/// `text` without the white space at either end.
pub open spec fn trim(text: Seq<char>) -> Seq<char> {
    trim_end(trim_start(text))
}

/// `text` holds nothing but white space.
pub open spec fn blank(text: Seq<char>) -> bool {
    forall|i: int| 0 <= i < text.len() ==> is_whitespace(#[trigger] text[i])
}

/// A value that is missing or blank counts as missing; any other value
/// stands as it was given.
pub open spec fn present(value: Option<Seq<char>>) -> Option<Seq<char>> {
    match value {
        Some(text) if !blank(text) => Some(text),
        _ => None,
    }
}

/// The first value if there is one, else the second.
pub open spec fn first_of(first: Option<Seq<char>>, second: Option<Seq<char>>) -> Option<
    Seq<char>,
> {
    if first is Some {
        first
    } else {
        second
    }
}

/// What an optional string stands for.
pub open spec fn text_of(value: Option<String>) -> Option<Seq<char>> {
    match value {
        Some(text) => Some(text@),
        None => None,
    }
}

/// The specification of `String::push`: it adds the given character at the
/// end of the string and changes nothing else.
#[verifier::external_body]
fn push_char(text: &mut String, c: char)
    ensures
        final(text)@ == old(text)@.push(c),
{
    text.push(c)
}

/// The characters of `text`, in order.
pub fn to_chars(text: &str) -> (chars: Vec<char>)
    ensures
        chars@ == text@,
{
    broadcast use vstd::string::axiom_spec_iter;

    let mut chars: Vec<char> = Vec::new();
    for c in it: text.chars()
        invariant
            it.seq() == text@,
            chars@ == it.seq().take(it.index()),
    {
        chars.push(c);
    }
    assert(chars@ == text@.take(text@.len() as int));
    chars
}

/// The string made of `chars`, in order.
pub fn from_chars(chars: &Vec<char>) -> (text: String)
    ensures
        text@ == chars@,
{
    let mut text = String::new();
    let mut i: usize = 0;
    while i < chars.len()
        invariant
            i <= chars.len(),
            text@ == chars@.take(i as int),
        decreases chars.len() - i,
    {
        push_char(&mut text, chars[i]);
        i += 1;
    }
    text
}

/// Whether two strings hold the same characters.
pub fn same_text(a: &str, b: &str) -> (same: bool)
    ensures
        same == (a@ == b@),
{
    let left = to_chars(a);
    let right = to_chars(b);
    same_chars(&left, &right)
}

/// Whether two vectors hold the same characters.
pub fn same_chars(a: &Vec<char>, b: &Vec<char>) -> (same: bool)
    ensures
        same == (a@ == b@),
{
    if a.len() != b.len() {
        return false;
    }
    let mut i: usize = 0;
    while i < a.len()
        invariant
            i <= a.len(),
            a.len() == b.len(),
            a@.take(i as int) == b@.take(i as int),
        decreases a.len() - i,
    {
        if a[i] != b[i] {
            return false;
        }
        assert(a@.take(i + 1) == a@.take(i as int).push(a[i as int]));
        assert(b@.take(i + 1) == b@.take(i as int).push(b[i as int]));
        i += 1;
    }
    assert(a@ == a@.take(a.len() as int));
    assert(b@ == b@.take(b.len() as int));
    true
}

/// Whether `c` is white space.
pub fn whitespace(c: char) -> (yes: bool)
    ensures
        yes == is_whitespace(c),
{
    let code: u32 = c as u32;
    (0x09 <= code && code <= 0x0D) || code == 0x20 || code == 0x85 || code == 0xA0 || code
        == 0x1680 || (0x2000 <= code && code <= 0x200A) || code == 0x2028 || code == 0x2029
        || code == 0x202F || code == 0x205F || code == 0x3000
}

/// Skipping white space from the front gives what `trim_start` gives.
proof fn lemma_trim_start(text: Seq<char>, from: int)
    requires
        0 <= from <= text.len(),
        forall|i: int| 0 <= i < from ==> is_whitespace(#[trigger] text[i]),
        from < text.len() ==> !is_whitespace(text[from]),
    ensures
        trim_start(text) == text.skip(from),
    decreases from,
{
    if from > 0 {
        let rest = text.skip(1);
        assert forall|i: int| 0 <= i < from - 1 implies is_whitespace(#[trigger] rest[i]) by {
            assert(rest[i] == text[i + 1]);
        }
        lemma_trim_start(rest, from - 1);
        assert(rest.skip(from - 1) == text.skip(from));
    } else {
        assert(text.skip(0) == text);
    }
}

/// Dropping white space from the back gives what `trim_end` gives.
proof fn lemma_trim_end(text: Seq<char>, to: int)
    requires
        0 <= to <= text.len(),
        forall|i: int| to <= i < text.len() ==> is_whitespace(#[trigger] text[i]),
        to > 0 ==> !is_whitespace(text[to - 1]),
    ensures
        trim_end(text) == text.take(to),
    decreases text.len() - to,
{
    if to < text.len() {
        let rest = text.drop_last();
        assert forall|i: int| to <= i < rest.len() implies is_whitespace(#[trigger] rest[i]) by {
            assert(rest[i] == text[i]);
        }
        lemma_trim_end(rest, to);
        assert(rest.take(to) == text.take(to));
    } else {
        assert(text.take(to) == text);
    }
}

/// A text is blank exactly if trimming leaves nothing of it.
pub proof fn lemma_blank_trims_to_nothing(text: Seq<char>)
    ensures
        blank(text) <==> trim(text).len() == 0,
    decreases text.len(),
{
    if text.len() > 0 && is_whitespace(text[0]) {
        let rest = text.skip(1);
        lemma_blank_trims_to_nothing(rest);
        if blank(text) {
            assert forall|i: int| 0 <= i < rest.len() implies is_whitespace(
                #[trigger] rest[i],
            ) by {
                assert(rest[i] == text[i + 1]);
            }
        }
        if blank(rest) {
            assert forall|i: int| 0 <= i < text.len() implies is_whitespace(
                #[trigger] text[i],
            ) by {
                if i > 0 {
                    assert(text[i] == rest[i - 1]);
                }
            }
        }
    } else if text.len() > 0 {
        lemma_trim_end_keeps_front(text);
    }
}

/// Trimming the end of a text that starts with something else than white
/// space leaves that start.
proof fn lemma_trim_end_keeps_front(text: Seq<char>)
    requires
        text.len() > 0,
        !is_whitespace(text[0]),
    ensures
        trim_end(text).len() > 0,
        trim_end(text)[0] == text[0],
    decreases text.len(),
{
    if is_whitespace(text.last()) {
        assert(text.len() > 1);
        lemma_trim_end_keeps_front(text.drop_last());
    }
}

/// White space before a text does not change what is left of it when its
/// start is trimmed.
proof fn lemma_trim_start_padded(lead: Seq<char>, text: Seq<char>)
    requires
        blank(lead),
    ensures
        trim_start(lead + text) == trim_start(text),
    decreases lead.len(),
{
    if lead.len() > 0 {
        let rest = lead.skip(1);
        assert(is_whitespace(lead[0]));
        assert((lead + text)[0] == lead[0]);
        assert((lead + text).skip(1) =~= rest + text);
        assert forall|i: int| 0 <= i < rest.len() implies is_whitespace(#[trigger] rest[i]) by {
            assert(rest[i] == lead[i + 1]);
        }
        lemma_trim_start_padded(rest, text);
    } else {
        assert(lead + text =~= text);
    }
}

/// White space behind a text does not change what is left of it when its
/// end is trimmed.
proof fn lemma_trim_end_padded(text: Seq<char>, trail: Seq<char>)
    requires
        blank(trail),
    ensures
        trim_end(text + trail) == trim_end(text),
    decreases trail.len(),
{
    if trail.len() > 0 {
        let rest = trail.drop_last();
        assert(is_whitespace(trail[trail.len() - 1]));
        assert((text + trail).last() == trail.last());
        assert((text + trail).drop_last() =~= text + rest);
        assert forall|i: int| 0 <= i < rest.len() implies is_whitespace(#[trigger] rest[i]) by {
            assert(rest[i] == trail[i]);
        }
        lemma_trim_end_padded(text, rest);
    } else {
        assert(text + trail =~= text);
    }
}

/// Trimming the start of a text that is followed by more text leaves that
/// other text in place, unless the first text is blank.
proof fn lemma_trim_start_followed(text: Seq<char>, trail: Seq<char>)
    ensures
        trim_start(text + trail) == if blank(text) {
            trim_start(trail)
        } else {
            trim_start(text) + trail
        },
    decreases text.len(),
{
    if text.len() == 0 {
        assert(text + trail =~= trail);
    } else if is_whitespace(text[0]) {
        let rest = text.skip(1);
        assert((text + trail)[0] == text[0]);
        assert((text + trail).skip(1) =~= rest + trail);
        lemma_trim_start_followed(rest, trail);
        if blank(text) {
            assert forall|i: int| 0 <= i < rest.len() implies is_whitespace(
                #[trigger] rest[i],
            ) by {
                assert(rest[i] == text[i + 1]);
            }
        }
        if blank(rest) {
            assert forall|i: int| 0 <= i < text.len() implies is_whitespace(
                #[trigger] text[i],
            ) by {
                if i > 0 {
                    assert(text[i] == rest[i - 1]);
                }
            }
        }
    } else {
        assert((text + trail)[0] == text[0]);
    }
}

/// Trimming the end of a text that follows other text leaves that other
/// text in place, unless the text itself is blank.
proof fn lemma_trim_end_preceded(lead: Seq<char>, text: Seq<char>)
    ensures
        trim_end(lead + text) == if blank(text) {
            trim_end(lead)
        } else {
            lead + trim_end(text)
        },
    decreases text.len(),
{
    if text.len() == 0 {
        assert(lead + text =~= lead);
    } else if is_whitespace(text.last()) {
        let rest = text.drop_last();
        assert((lead + text).last() == text.last());
        assert((lead + text).drop_last() =~= lead + rest);
        lemma_trim_end_preceded(lead, rest);
        if blank(text) {
            assert forall|i: int| 0 <= i < rest.len() implies is_whitespace(
                #[trigger] rest[i],
            ) by {
                assert(rest[i] == text[i]);
            }
        }
        if blank(rest) {
            assert forall|i: int| 0 <= i < text.len() implies is_whitespace(
                #[trigger] text[i],
            ) by {
                if i < rest.len() {
                    assert(text[i] == rest[i]);
                }
            }
        }
    } else {
        assert((lead + text).last() == text.last());
        assert(!blank(text)) by {
            if blank(text) {
                assert(is_whitespace(text[text.len() - 1]));
            }
        }
    }
}

/// Text that neither starts nor ends with white space stays where it is
/// when what stands around it is trimmed.
pub proof fn law_trim_keeps_core(lead: Seq<char>, core: Seq<char>, trail: Seq<char>)
    requires
        core.len() > 0,
        !is_whitespace(core[0]),
        !is_whitespace(core.last()),
    ensures
        trim(lead + core + trail) == trim_start(lead) + core + trim_end(trail),
{
    assert(!blank(core)) by {
        if blank(core) {
            assert(is_whitespace(core[0]));
        }
    }
    let rest = core + trail;
    assert(lead + core + trail =~= lead + rest);
    assert(!blank(rest)) by {
        if blank(rest) {
            assert(rest[0] == core[0]);
            assert(is_whitespace(rest[0]));
        }
    }
    lemma_trim_start_followed(lead, rest);
    assert(rest[0] == core[0]);
    assert(trim_start(rest) == rest);
    if blank(lead) {
        lemma_trim_start_followed(lead, Seq::<char>::empty());
        assert(lead + Seq::<char>::empty() =~= lead);
        assert(trim_start(lead) =~= Seq::<char>::empty());
    }
    let front = trim_start(lead) + core;
    assert(trim_start(lead + rest) =~= front + trail);
    lemma_trim_end_preceded(front, trail);
    assert(front.last() == core.last());
    assert(trim_end(front) == front);
    if blank(trail) {
        lemma_trim_end_preceded(Seq::<char>::empty(), trail);
        assert(Seq::<char>::empty() + trail =~= trail);
        assert(trim_end(trail) =~= Seq::<char>::empty());
        assert(front + trim_end(trail) =~= front);
    }
}

/// Trimming takes no notice of white space around a text.
pub proof fn law_trim_ignores_padding(lead: Seq<char>, text: Seq<char>, trail: Seq<char>)
    requires
        blank(lead),
        blank(trail),
    ensures
        trim(lead + text + trail) == trim(text),
{
    assert(lead + text + trail =~= lead + (text + trail));
    lemma_trim_start_padded(lead, text + trail);
    lemma_trim_start_followed(text, trail);
    if blank(text) {
        lemma_blank_trims_to_nothing(text);
        lemma_blank_trims_to_nothing(trail);
        assert(trim(text) =~= Seq::<char>::empty());
        assert(trim(trail) =~= Seq::<char>::empty());
    } else {
        lemma_trim_end_padded(trim_start(text), trail);
    }
}

/// `text` without the white space at either end.
pub fn trimmed(text: &Vec<char>) -> (out: Vec<char>)
    ensures
        out@ == trim(text@),
{
    let mut from: usize = 0;
    while from < text.len() && whitespace(text[from])
        invariant
            from <= text.len(),
            forall|i: int| 0 <= i < from ==> is_whitespace(#[trigger] text[i]),
        decreases text.len() - from,
    {
        from += 1;
    }
    let mut to: usize = text.len();
    while to > from && whitespace(text[to - 1])
        invariant
            from <= to <= text.len(),
            forall|i: int| to <= i < text.len() ==> is_whitespace(#[trigger] text[i]),
        decreases to,
    {
        to -= 1;
    }
    let mut out: Vec<char> = Vec::new();
    let mut i: usize = from;
    while i < to
        invariant
            from <= i <= to <= text.len(),
            out@ == text@.subrange(from as int, i as int),
        decreases to - i,
    {
        out.push(text[i]);
        i += 1;
    }
    proof {
        lemma_trim_start(text@, from as int);
        let rest = text@.skip(from as int);
        let end = to - from;
        assert forall|i: int| end <= i < rest.len() implies is_whitespace(#[trigger] rest[i]) by {
            assert(rest[i] == text[i + from]);
        }
        if end > 0 {
            assert(rest[end - 1] == text[to - 1]);
        }
        lemma_trim_end(rest, end);
        assert(rest.take(end) == text@.subrange(from as int, to as int));
    }
    out
}

/// `text` without the white space at either end.
pub fn trim_text(text: &str) -> (out: String)
    ensures
        out@ == trim(text@),
{
    let chars = to_chars(text);
    let kept = trimmed(&chars);
    from_chars(&kept)
}

/// Whether `text` holds nothing but white space.
pub fn is_blank(text: &str) -> (yes: bool)
    ensures
        yes == blank(text@),
{
    let chars = to_chars(text);
    let mut i: usize = 0;
    while i < chars.len()
        invariant
            i <= chars.len(),
            chars@ == text@,
            forall|j: int| 0 <= j < i ==> is_whitespace(#[trigger] chars[j]),
        decreases chars.len() - i,
    {
        if !whitespace(chars[i]) {
            return false;
        }
        i += 1;
    }
    true
}

/// An optional value, where a blank one counts as missing.
pub fn none_if_empty(value: Option<String>) -> (kept: Option<String>)
    ensures
        text_of(kept) == present(text_of(value)),
{
    match value {
        Some(text) => {
            if is_blank(text.as_str()) {
                None
            } else {
                Some(text)
            }
        },
        None => None,
    }
}

/// The first value if there is one, else the second.
pub fn merge(first: Option<String>, second: Option<String>) -> (chosen: Option<String>)
    ensures
        chosen == if first is Some { first } else { second },
        text_of(chosen) == first_of(text_of(first), text_of(second)),
{
    match first {
        Some(text) => Some(text),
        None => second,
    }
}

} // verus!
