use git_kit::domain::commands::CommitArgs;
use git_kit::domain::models::{Branch, Timestamp};
use git_kit::domain::template::{remove_tokens, replace_all, replace_or_remove};

fn args(ticket: Option<&str>, message: Option<&str>, scope: Option<&str>) -> CommitArgs {
    CommitArgs {
        template: "bug".to_string(),
        ticket: ticket.map(|value| value.to_string()),
        message: message.map(|value| value.to_string()),
        scope: scope.map(|value| value.to_string()),
    }
}

fn branch(name: &str, repo: &str, ticket: Option<&str>) -> Branch {
    Branch::at(
        Timestamp { secs: 1_700_000_000, nanos: 0 },
        name,
        repo,
        ticket.map(|value| value.to_string()),
        None,
        None,
    )
}

fn chars(text: &str) -> Vec<char> {
    text.chars().collect()
}

#[test]
fn empty_ticket_num_removes_square_brackets() {
    let args = args(Some(""), Some("add the parser"), None);

    let actual = args.commit_message("{ticket_num} {message}".into(), None);

    assert_eq!(actual, "add the parser");
}

#[test]
fn empty_scope_removes_parentheses() {
    let args = args(Some("JIRA-12"), Some("add the parser"), Some(""));

    let actual = args.commit_message("({scope}) [{ticket_num}] {message}".into(), None);
    let expected = format!("[{}] {}", "JIRA-12", "add the parser");

    assert_eq!(actual, expected);
}

#[test]
fn when_ticket_num_is_empty_square_brackets_are_removed() {
    for ticket in [Some(""), Some("   "), None] {
        let args = args(ticket, Some("add the parser"), None);

        let actual = args.commit_message("[{ticket_num}] {message}".into(), None);

        assert_eq!(actual, "add the parser");
    }
}

#[test]
fn commit_message_with_both_args_are_populated() {
    let args = args(Some("JIRA-12"), Some("add the parser"), None);

    let actual = args.commit_message("[{ticket_num}] {message}".into(), None);
    let expected = format!("[{}] {}", "JIRA-12", "add the parser");

    assert_eq!(actual, expected);
}

#[test]
fn commit_template_message_is_replaced_with_empty_str() {
    let args = args(Some("JIRA-12"), None, None);

    let actual = args.commit_message("{ticket_num} {message}".into(), None);
    let expected = format!("{}", "JIRA-12");

    assert_eq!(expected.trim(), actual);
}

#[test]
fn commit_template_with_empty_brackets_such_as_markdown_checklist_are_not_removed() {
    let args = args(None, Some("add the parser"), None);

    let actual = args.commit_message(
        "fix({scope}): [{ticket_num}] {message}\n- done? [ ]".into(),
        None,
    );
    let expected = format!("fix: {}\n- done? [ ]", "add the parser");

    assert_eq!(expected.trim(), actual);
}

#[test]
fn commit_template_ticket_num_is_replaced_with_branch_name() {
    let stored = branch("feature-parser", "git-kit", None);
    let args = args(None, Some("add the parser"), None);

    let actual = args.commit_message("[{ticket_num}] {message}".into(), Some(stored));
    let expected = format!("[{}] {}", "feature-parser", "add the parser");

    assert_eq!(expected.trim(), actual);
}

#[test]
fn example_template_without_scope_and_ticket() {
    let args = args(None, Some("add x"), None);

    let actual = args.commit_message(
        "fix({scope}): [{ticket_num}] {message}\n- done? [ ]".into(),
        None,
    );

    assert_eq!(actual, "fix: add x\n- done? [ ]");
}

#[test]
fn explicit_ticket_overrides_stored_ticket() {
    let stored = branch("feature-parser", "git-kit", Some("JIRA-2"));
    let args = args(Some("JIRA-1"), Some("add x"), None);

    let actual = args.commit_message("[{ticket_num}] {message}".into(), Some(stored));

    assert_eq!(actual, "[JIRA-1] add x");
}

#[test]
fn blank_explicit_ticket_falls_back_to_stored_ticket() {
    let stored = branch("feature-parser", "git-kit", Some("JIRA-2"));
    let args = args(Some(" \t"), Some("add x"), None);

    let actual = args.commit_message("[{ticket_num}] {message}".into(), Some(stored));

    assert_eq!(actual, "[JIRA-2] add x");
}

#[test]
fn scope_and_link_fall_back_each_on_its_own() {
    let mut stored = branch("feature-parser", "git-kit", Some("JIRA-2"));
    stored.scope = Some("parser".to_string());
    stored.link = Some("https://tickets/JIRA-2".to_string());
    let args = args(None, Some("add x"), Some("lexer"));

    let actual = args.commit_message(
        "[{ticket_num}] ({scope}) {message} {link}".into(),
        Some(stored),
    );

    assert_eq!(actual, "[JIRA-2] (lexer) add x https://tickets/JIRA-2");
}

#[test]
fn message_never_falls_back() {
    let stored = branch("feature-parser", "git-kit", Some("JIRA-2"));
    let args = args(None, None, None);

    let actual = args.commit_message("[{ticket_num}] {message}".into(), Some(stored));

    assert_eq!(actual, "[JIRA-2]");
}

#[test]
fn value_keeps_its_own_white_space() {
    let args = args(Some(" JIRA-1 "), Some("add x"), None);

    let actual = args.commit_message("[{ticket_num}] {message}".into(), None);

    assert_eq!(actual, "[ JIRA-1 ] add x");
}

#[test]
fn result_is_trimmed_at_both_ends() {
    let args = args(None, Some("add x"), None);

    let actual = args.commit_message("\n  {message} \t\n".into(), None);

    assert_eq!(actual, "add x");
}

#[test]
fn square_brackets_hold_the_ticket_that_is_given() {
    for template in ["[{ticket_num}]", "see [{ticket_num}] now", "a[{ticket_num}]b [{ticket_num}]"] {
        let actual = replace_or_remove(template, "ticket_num", Some("T-1".to_string()));

        assert_eq!(actual, template.replace("{ticket_num}", "T-1"));
        assert!(actual.contains("[T-1]"));
    }
}

#[test]
fn square_brackets_go_with_a_ticket_that_is_missing() {
    for ticket in [None, Some(String::new()), Some(" \n".to_string())] {
        assert_eq!(replace_or_remove("[{ticket_num}]", "ticket_num", ticket.clone()), "");
        assert_eq!(
            replace_or_remove("see [{ticket_num}] now", "ticket_num", ticket.clone()),
            "see now"
        );
        assert_eq!(
            replace_or_remove("a[{ticket_num}]b [{ticket_num}]", "ticket_num", ticket),
            "ab "
        );
    }
}

#[test]
fn every_wrapper_goes_with_its_token() {
    assert_eq!(replace_or_remove("a ({scope}) b", "scope", None), "a b");
    assert_eq!(replace_or_remove("a [{scope}] b", "scope", None), "a b");
    assert_eq!(replace_or_remove("a {{scope}} b", "scope", None), "a b");
    assert_eq!(replace_or_remove("a {scope} b", "scope", None), "a b");
    assert_eq!(replace_or_remove("a '{scope}' b", "scope", None), "a '' b");
}

#[test]
fn every_wrapper_stays_around_a_value() {
    let value = Some("core".to_string());

    assert_eq!(replace_or_remove("a ({scope}) b", "scope", value.clone()), "a (core) b");
    assert_eq!(replace_or_remove("a [{scope}] b", "scope", value.clone()), "a [core] b");
    assert_eq!(replace_or_remove("a {{scope}} b", "scope", value.clone()), "a {core} b");
    assert_eq!(replace_or_remove("a {scope} b", "scope", value), "a core b");
}

#[test]
fn only_one_character_of_white_space_goes_with_a_token() {
    assert_eq!(replace_or_remove("[{scope}]  b", "scope", None), " b");
    assert_eq!(replace_or_remove("[{scope}]\n\nb", "scope", None), "\nb");
    assert_eq!(replace_or_remove("a [{scope}]", "scope", None), "a ");
}

#[test]
fn mismatched_brackets_are_no_wrapper() {
    assert_eq!(replace_or_remove("[{scope})", "scope", None), "[)");
    assert_eq!(replace_or_remove("({scope}]", "scope", None), "(]");
    assert_eq!(replace_or_remove("[{scope}", "scope", None), "[");
}

#[test]
fn other_tokens_and_brackets_are_left_alone() {
    let template = "- [ ] {message} (sic) [x] {} [{link}] {scopes} { scope}";

    assert_eq!(replace_or_remove(template, "scope", None), template);
    assert_eq!(replace_or_remove(template, "scope", Some("core".to_string())), template);
}

#[test]
fn check_box_survives_beside_tokens() {
    let template = "[{ticket_num}] [ ] {message} [ ]";

    assert_eq!(replace_or_remove(template, "ticket_num", None), "[ ] {message} [ ]");
    assert_eq!(
        replace_or_remove(template, "ticket_num", Some("T".to_string())),
        "[T] [ ] {message} [ ]"
    );
}

#[test]
fn replace_all_agrees_with_str_replace() {
    let cases = [
        ("", "{a}", "x"),
        ("{a}", "{a}", ""),
        ("{a}{a}", "{a}", "xy"),
        ("aaa", "aa", "b"),
        ("abab", "ab", "ab"),
        ("{{a}}", "{a}", "{a}"),
        ("no token here", "{a}", "x"),
    ];

    for (text, pattern, value) in cases {
        let actual: String = replace_all(&chars(text), &chars(pattern), &chars(value))
            .into_iter()
            .collect();

        assert_eq!(actual, text.replace(pattern, value));
    }
}

#[test]
fn replace_all_with_an_empty_pattern_changes_nothing() {
    let actual: String = replace_all(&chars("abc"), &chars(""), &chars("x")).into_iter().collect();

    assert_eq!(actual, "abc");
}

#[test]
fn remove_tokens_does_not_search_what_it_has_joined() {
    let actual: String = remove_tokens(&chars("{sc{scope}ope}"), &chars("scope"))
        .into_iter()
        .collect();

    assert_eq!(actual, "{scope}");
}

#[test]
fn commit_message_with_all_tokens_absent_leaves_the_rest() {
    let args = args(None, None, None);

    let actual = args.commit_message(
        "[{ticket_num}] message: '{message}', scope: '{scope}', link: '{link}'".into(),
        None,
    );

    assert_eq!("message: '', scope: '', link: ''", actual);
}

fn texts_up_to(alphabet: &[char], length: usize) -> Vec<String> {
    let mut all = vec![String::new()];
    let mut last = vec![String::new()];
    for _ in 0..length {
        let mut next = Vec::new();
        for text in &last {
            for c in alphabet {
                let mut longer = text.clone();
                longer.push(*c);
                next.push(longer);
            }
        }
        all.extend(next.iter().cloned());
        last = next;
    }
    all
}

fn remove_by_prefixes(text: &str, name: &str) -> String {
    let forms = [
        format!("[{{{name}}}]"),
        format!("({{{name}}})"),
        format!("{{{{{name}}}}}"),
        format!("{{{name}}}"),
    ];
    let mut out = String::new();
    let mut rest = text;
    'scan: while let Some(first) = rest.chars().next() {
        for form in &forms {
            if let Some(behind) = rest.strip_prefix(form.as_str()) {
                rest = match behind.chars().next() {
                    Some(c) if c.is_whitespace() => &behind[c.len_utf8()..],
                    _ => behind,
                };
                continue 'scan;
            }
        }
        out.push(first);
        rest = &rest[first.len_utf8()..];
    }
    out
}

#[test]
fn tokens_are_taken_out_as_a_scan_by_prefixes_takes_them_out() {
    for text in texts_up_to(&['[', ']', '{', '}', '(', 'a', ' '], 6) {
        assert_eq!(replace_or_remove(&text, "a", None), remove_by_prefixes(&text, "a"), "{text:?}");
    }
}

#[test]
fn tokens_are_replaced_as_std_replaces_them() {
    for text in texts_up_to(&['[', ']', '{', '}', 'a', ' '], 6) {
        assert_eq!(
            replace_or_remove(&text, "a", Some("{a}x".to_string())),
            text.replace("{a}", "{a}x"),
            "{text:?}"
        );
    }
}

#[test]
fn token_in_square_brackets_leaves_nothing_when_the_value_is_missing() {
    let parts = texts_up_to(&['[', ']', '{', '}', 'a', ' '], 3);
    for before in &parts {
        for behind in &parts {
            let template = format!("{before}[{{a}}]{behind}");
            let after_space = match behind.chars().next() {
                Some(c) if c.is_whitespace() => &behind[c.len_utf8()..],
                _ => behind.as_str(),
            };

            assert_eq!(
                replace_or_remove(&template, "a", None),
                format!(
                    "{}{}",
                    replace_or_remove(before, "a", None),
                    replace_or_remove(after_space, "a", None)
                ),
                "{template:?}"
            );
        }
    }
}

#[test]
fn token_in_square_brackets_becomes_the_value_in_square_brackets() {
    let parts = texts_up_to(&['[', ']', '{', '}', 'a', ' '], 3);
    for before in &parts {
        for behind in &parts {
            let template = format!("{before}[{{a}}]{behind}");
            let value = Some("v".to_string());

            assert_eq!(
                replace_or_remove(&template, "a", value.clone()),
                format!(
                    "{}[v]{}",
                    replace_or_remove(before, "a", value.clone()),
                    replace_or_remove(behind, "a", value)
                ),
                "{template:?}"
            );
        }
    }
}

#[test]
fn check_box_is_kept_wherever_it_stands() {
    let parts = texts_up_to(&['[', ']', '{', '}', 'a', ' '], 3);
    for group in ["[ ]", "[]", "(sic)", "[{b}]", "({ a})", "[a}]"] {
        for before in &parts {
            for behind in &parts {
                for value in [None, Some("v".to_string())] {
                    let template = format!("{before}{group}{behind}");

                    assert_eq!(
                        replace_or_remove(&template, "a", value.clone()),
                        format!(
                            "{}{group}{}",
                            replace_or_remove(before, "a", value.clone()),
                            replace_or_remove(behind, "a", value)
                        ),
                        "{template:?}"
                    );
                }
            }
        }
    }
}

#[test]
fn template_without_the_token_is_kept() {
    for text in texts_up_to(&['[', ']', '{', '}', 'a', 'b', ' '], 5) {
        if !text.contains("{a}") {
            assert_eq!(replace_or_remove(&text, "a", None), text);
            assert_eq!(replace_or_remove(&text, "a", Some("v".to_string())), text);
        }
    }
}

fn templates_of(pieces: &[&str], length: usize) -> Vec<String> {
    let mut all = vec![String::new()];
    let mut last = vec![String::new()];
    for _ in 0..length {
        let mut next = Vec::new();
        for text in &last {
            for piece in pieces {
                next.push(format!("{text}{piece}"));
            }
        }
        all.extend(next.iter().cloned());
        last = next;
    }
    all
}

#[test]
fn square_brackets_go_with_the_ticket_and_no_others() {
    let pieces = ["[{ticket_num}]", "{ticket_num}", "[", "]", "{", "}", " ", "x", "({scope})"];
    for template in templates_of(&pieces, 4) {
        for ticket in [None, Some("  ")] {
            let wrappers = template.matches("[{ticket_num}]").count();
            let args = args(ticket, Some("m"), None);

            let message = args.commit_message(template.clone(), None);

            for bracket in ['[', ']'] {
                assert_eq!(
                    message.matches(bracket).count() + wrappers,
                    template.matches(bracket).count(),
                    "{template:?}"
                );
            }
        }
    }
}

#[test]
fn ticket_stands_in_square_brackets_in_the_message() {
    let pieces = ["[{ticket_num}]", "{ticket_num}", "[", "]", "{", "}", " ", "x", "({scope})"];
    for template in templates_of(&pieces, 4) {
        if !template.contains("[{ticket_num}]") {
            continue;
        }
        for scope in [None, Some("core")] {
            let args = args(Some("T-1"), Some("m"), scope);

            let message = args.commit_message(template.clone(), None);

            assert!(message.contains("[T-1]"), "{template:?}");
            for bracket in ['[', ']'] {
                assert_eq!(
                    message.matches(bracket).count(),
                    template.matches(bracket).count(),
                    "{template:?}"
                );
            }
        }
    }
}

#[test]
fn check_box_stands_in_the_message_whatever_the_values() {
    let pieces = ["[{ticket_num}]", "{message}", "({scope})", "{link}", " ", "x", "{"];
    for before in templates_of(&pieces, 2) {
        for behind in templates_of(&pieces, 2) {
            for ticket in [None, Some("T-1")] {
                let args = args(ticket, Some("m"), None);

                let message = args.commit_message(format!("{before}[ ]{behind}"), None);

                assert!(message.contains("[ ]"), "{before:?} {behind:?}");
            }
        }
    }
}

#[test]
fn joined_tokens_may_take_more_brackets() {
    let args = args(None, Some("m"), None);

    let message = args.commit_message("[{sc[{ticket_num}]ope}] {message}".to_string(), None);

    assert_eq!(message, "m");
}
