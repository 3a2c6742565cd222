//! The values a commit is made with, and the message they yield.

use vstd::prelude::*;

use crate::domain::brackets::{
    count, keeps_square_brackets, law_brackets_go_with_their_token,
    law_other_values_keep_square_brackets, lemma_trim_counts, square_bracket, squares,
};
use crate::domain::models::{copy_text, Branch, BranchView};
use crate::domain::template::{
    bracket_group, law_other_brackets_are_kept, law_value_stands_in_brackets, occurs_at, plain,
    replace_or_remove, substituted, token, wrapped,
};
use crate::utils::string::{
    blank, first_of, law_trim_keeps_core, merge, none_if_empty, present, text_of, trim, trim_end,
    trim_start, trim_text,
};

verus! {

/// What the user gave for a commit.
#[derive(Debug, Clone, PartialEq, Eq)]
pub struct CommitArgs {
    /// The name of the template.
    pub template: String,
    pub ticket: Option<String>,
    pub message: Option<String>,
    pub scope: Option<String>,
}

/// The value that is used for a field: the one given on the command line
/// if it is not blank, else the one stored with the branch if that is not
/// blank, else none.
pub open spec fn resolved(given: Option<Seq<char>>, stored: Option<Seq<char>>) -> Option<Seq<char>> {
    first_of(present(given), present(stored))
}

/// The message that `template` yields: its tokens `ticket_num`, `scope`,
/// `link` and `message` are given their values in this order, and the
/// result is trimmed.
pub open spec fn commit_text(
    template: Seq<char>,
    ticket: Option<Seq<char>>,
    scope: Option<Seq<char>>,
    link: Option<Seq<char>>,
    message: Option<Seq<char>>,
) -> Seq<char> {
    let with_ticket = substituted(template, "ticket_num"@, ticket);
    let with_scope = substituted(with_ticket, "scope"@, scope);
    let with_link = substituted(with_scope, "link"@, link);
    trim(substituted(with_link, "message"@, message))
}

/// The names of the four tokens hold no brackets, so that what is said of
/// plain names holds of each of them.
pub proof fn law_token_names_are_plain()
    ensures
        plain("ticket_num"@),
        plain("scope"@),
        plain("link"@),
        plain("message"@),
{
    reveal_strlit("ticket_num");
    reveal_strlit("scope");
    reveal_strlit("link");
    reveal_strlit("message");
}

/// The text after its tokens `ticket_num`, `scope`, `link` and `message`
/// were given their values in this order: the message before it is
/// trimmed.
pub open spec fn filled_in(
    template: Seq<char>,
    ticket: Option<Seq<char>>,
    scope: Option<Seq<char>>,
    link: Option<Seq<char>>,
    message: Option<Seq<char>>,
) -> Seq<char> {
    let with_ticket = substituted(template, "ticket_num"@, ticket);
    let with_scope = substituted(with_ticket, "scope"@, scope);
    let with_link = substituted(with_scope, "link"@, link);
    substituted(with_link, "message"@, message)
}

/// `value` between square brackets.
pub open spec fn in_square_brackets(value: Seq<char>) -> Seq<char> {
    seq!['['] + value + seq![']']
}

/// A value without an opening brace, between square brackets, is a
/// bracket group for every name.
proof fn lemma_value_in_brackets_is_a_group(value: Seq<char>, name: Seq<char>)
    requires
        !value.contains('{'),
    ensures
        bracket_group(in_square_brackets(value), name),
{
    let group = in_square_brackets(value);
    assert(group[0] == '[');
    assert(group.last() == ']');
    assert forall|at: int| !occurs_at(group, at, token(name)) by {
        if occurs_at(group, at, token(name)) {
            assert(group.subrange(at, at + token(name).len())[0] == token(name)[0]);
            assert(group[at] == '{');
            assert(1 <= at < group.len() - 1);
            assert(group[at] == value[at - 1]);
            assert(value.contains('{'));
        }
    }
}

/// Where the template holds the ticket's token in square brackets and
/// the ticket has a value, the message holds the value in square brackets
/// at that place, whatever the other values are: what stands before and
/// behind is filled in as if it stood alone, and trimmed at the outer ends.
pub proof fn law_ticket_stands_in_the_message(
    before: Seq<char>,
    behind: Seq<char>,
    ticket: Seq<char>,
    scope: Option<Seq<char>>,
    link: Option<Seq<char>>,
    message: Option<Seq<char>>,
)
    requires
        !blank(ticket),
        !ticket.contains('{'),
    ensures
        commit_text(
            before + wrapped('[', "ticket_num"@, ']') + behind,
            Some(ticket),
            scope,
            link,
            message,
        ) == trim_start(filled_in(before, Some(ticket), scope, link, message))
            + in_square_brackets(ticket) + trim_end(
            filled_in(behind, Some(ticket), scope, link, message),
        ),
{
    law_token_names_are_plain();
    let group = in_square_brackets(ticket);
    let value = Some(ticket);
    assert(present(value) == value);
    law_value_stands_in_brackets(before, behind, "ticket_num"@, value);
    let before1 = substituted(before, "ticket_num"@, value);
    let behind1 = substituted(behind, "ticket_num"@, value);
    let text1 = substituted(before + wrapped('[', "ticket_num"@, ']') + behind, "ticket_num"@, value);
    assert(text1 =~= before1 + group + behind1);
    lemma_value_in_brackets_is_a_group(ticket, "scope"@);
    law_other_brackets_are_kept(before1, group, behind1, "scope"@, scope);
    let before2 = substituted(before1, "scope"@, scope);
    let behind2 = substituted(behind1, "scope"@, scope);
    lemma_value_in_brackets_is_a_group(ticket, "link"@);
    law_other_brackets_are_kept(before2, group, behind2, "link"@, link);
    let before3 = substituted(before2, "link"@, link);
    let behind3 = substituted(behind2, "link"@, link);
    lemma_value_in_brackets_is_a_group(ticket, "message"@);
    law_other_brackets_are_kept(before3, group, behind3, "message"@, message);
    let before4 = substituted(before3, "message"@, message);
    let behind4 = substituted(behind3, "message"@, message);
    assert(group[0] == '[');
    assert(group.last() == ']');
    law_trim_keeps_core(before4, group, behind4);
}

/// A pair of brackets around text that holds none of the four tokens
/// stands in the message as it stands in the template, whatever the
/// values are: what stands before and behind is filled in as if it stood
/// alone, and trimmed at the outer ends.
pub proof fn law_other_brackets_stand_in_the_message(
    before: Seq<char>,
    group: Seq<char>,
    behind: Seq<char>,
    ticket: Option<Seq<char>>,
    scope: Option<Seq<char>>,
    link: Option<Seq<char>>,
    message: Option<Seq<char>>,
)
    requires
        bracket_group(group, "ticket_num"@),
        bracket_group(group, "scope"@),
        bracket_group(group, "link"@),
        bracket_group(group, "message"@),
    ensures
        commit_text(before + group + behind, ticket, scope, link, message) == trim_start(
            filled_in(before, ticket, scope, link, message),
        ) + group + trim_end(filled_in(behind, ticket, scope, link, message)),
{
    law_token_names_are_plain();
    law_other_brackets_are_kept(before, group, behind, "ticket_num"@, ticket);
    let before1 = substituted(before, "ticket_num"@, ticket);
    let behind1 = substituted(behind, "ticket_num"@, ticket);
    law_other_brackets_are_kept(before1, group, behind1, "scope"@, scope);
    let before2 = substituted(before1, "scope"@, scope);
    let behind2 = substituted(behind1, "scope"@, scope);
    law_other_brackets_are_kept(before2, group, behind2, "link"@, link);
    let before3 = substituted(before2, "link"@, link);
    let behind3 = substituted(behind2, "link"@, link);
    law_other_brackets_are_kept(before3, group, behind3, "message"@, message);
    let before4 = substituted(before3, "message"@, message);
    let behind4 = substituted(behind3, "message"@, message);
    law_trim_keeps_core(before4, group, behind4);
}

/// Where the ticket has no value, the message holds one square bracket
/// of each kind less than the template for every place where the
/// template holds the ticket's token in square brackets: each wrapper
/// went with its token. This holds where the other values leave the
/// square brackets alone, each in the text as it is when its turn comes.
pub proof fn law_square_brackets_go_with_the_ticket(
    template: Seq<char>,
    ticket: Option<Seq<char>>,
    scope: Option<Seq<char>>,
    link: Option<Seq<char>>,
    message: Option<Seq<char>>,
    c: char,
)
    requires
        square_bracket(c),
        present(ticket) is None,
        keeps_square_brackets(substituted(template, "ticket_num"@, ticket), "scope"@, scope),
        keeps_square_brackets(
            substituted(substituted(template, "ticket_num"@, ticket), "scope"@, scope),
            "link"@,
            link,
        ),
        keeps_square_brackets(
            substituted(
                substituted(substituted(template, "ticket_num"@, ticket), "scope"@, scope),
                "link"@,
                link,
            ),
            "message"@,
            message,
        ),
    ensures
        count(commit_text(template, ticket, scope, link, message), c) + squares(
            template,
            "ticket_num"@,
        ) == count(template, c),
{
    law_token_names_are_plain();
    let with_ticket = substituted(template, "ticket_num"@, ticket);
    let with_scope = substituted(with_ticket, "scope"@, scope);
    let with_link = substituted(with_scope, "link"@, link);
    let with_message = substituted(with_link, "message"@, message);
    law_brackets_go_with_their_token(template, "ticket_num"@, ticket, c);
    law_other_values_keep_square_brackets(with_ticket, "scope"@, scope, c);
    law_other_values_keep_square_brackets(with_scope, "link"@, link, c);
    law_other_values_keep_square_brackets(with_link, "message"@, message, c);
    lemma_trim_counts(with_message, c);
}

/// Where every value leaves the square brackets alone, each in the text
/// as it is when its turn comes, the message holds as many square
/// brackets of each kind as the template: a ticket that has a value keeps
/// the brackets around it.
pub proof fn law_square_brackets_stay_with_values(
    template: Seq<char>,
    ticket: Option<Seq<char>>,
    scope: Option<Seq<char>>,
    link: Option<Seq<char>>,
    message: Option<Seq<char>>,
    c: char,
)
    requires
        square_bracket(c),
        keeps_square_brackets(template, "ticket_num"@, ticket),
        keeps_square_brackets(substituted(template, "ticket_num"@, ticket), "scope"@, scope),
        keeps_square_brackets(
            substituted(substituted(template, "ticket_num"@, ticket), "scope"@, scope),
            "link"@,
            link,
        ),
        keeps_square_brackets(
            substituted(
                substituted(substituted(template, "ticket_num"@, ticket), "scope"@, scope),
                "link"@,
                link,
            ),
            "message"@,
            message,
        ),
    ensures
        count(commit_text(template, ticket, scope, link, message), c) == count(template, c),
{
    law_token_names_are_plain();
    let with_ticket = substituted(template, "ticket_num"@, ticket);
    let with_scope = substituted(with_ticket, "scope"@, scope);
    let with_link = substituted(with_scope, "link"@, link);
    let with_message = substituted(with_link, "message"@, message);
    law_other_values_keep_square_brackets(template, "ticket_num"@, ticket, c);
    law_other_values_keep_square_brackets(with_ticket, "scope"@, scope, c);
    law_other_values_keep_square_brackets(with_scope, "link"@, link, c);
    law_other_values_keep_square_brackets(with_link, "message"@, message, c);
    lemma_trim_counts(with_message, c);
}

/// The ticket that is stored with `branch`./// The ticket that is stored with `branch`./// The ticket that is stored with `branch`./// The ticket that is stored with `branch`./// The ticket that is stored with `branch`.
pub open spec fn stored_ticket(branch: Option<BranchView>) -> Option<Seq<char>> {
    match branch {
        Some(record) => record.ticket,
        None => None,
    }
}

/// The scope that is stored with `branch`.
pub open spec fn stored_scope(branch: Option<BranchView>) -> Option<Seq<char>> {
    match branch {
        Some(record) => record.scope,
        None => None,
    }
}

/// The link that is stored with `branch`.
pub open spec fn stored_link(branch: Option<BranchView>) -> Option<Seq<char>> {
    match branch {
        Some(record) => record.link,
        None => None,
    }
}

/// What an optional record stands for.
pub open spec fn record_of(branch: Option<Branch>) -> Option<BranchView> {
    match branch {
        Some(record) => Some(record@),
        None => None,
    }
}

impl CommitArgs {
    /// The message that `template` yields for these values and the record
    /// of the current branch. Ticket and scope fall back to the record,
    /// each on its own; the link comes from the record alone; the message
    /// never falls back.
    pub open spec fn message_for(&self, template: Seq<char>, branch: Option<BranchView>) -> Seq<
        char,
    > {
        commit_text(
            template,
            resolved(text_of(self.ticket), stored_ticket(branch)),
            resolved(text_of(self.scope), stored_scope(branch)),
            stored_link(branch),
            text_of(self.message),
        )
    }

    /// The commit message that `template` yields for these values and the
    /// record of the current branch, if there is one.
    pub fn commit_message(&self, template: String, branch: Option<Branch>) -> (contents: String)
        ensures
            contents@ == self.message_for(template@, record_of(branch)),
    {
        let (ticket, scope, link) = match branch {
            Some(record) => (record.ticket, record.scope, record.link),
            None => (None, None, None),
        };
        let ticket = merge(none_if_empty(copy_text(&self.ticket)), none_if_empty(ticket));
        let scope = merge(none_if_empty(copy_text(&self.scope)), none_if_empty(scope));
        let contents = replace_or_remove(template.as_str(), "ticket_num", ticket);
        let contents = replace_or_remove(contents.as_str(), "scope", scope);
        let contents = replace_or_remove(contents.as_str(), "link", link);
        let contents = replace_or_remove(contents.as_str(), "message", copy_text(&self.message));
        trim_text(contents.as_str())
    }
}

} // verus!
