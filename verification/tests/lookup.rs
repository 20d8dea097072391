use std::cell::{Cell, RefCell};

use file_handlers::model::{
    Capabilities, Declaration, Entry, Handler, Inhibition, Operation, Pattern, Registry,
};
use file_handlers::resolver::{find_file_name_handler, Abandoned};

const READ: Operation = Operation(1);
const WRITE: Operation = Operation(2);
const LIST: Operation = Operation(3);

fn pair(pattern: &str, handler: Handler) -> Entry {
    Entry::Pair { pattern: Pattern::Text(pattern.to_string()), handler }
}

fn registry(table: Vec<Entry>) -> Registry {
    Registry {
        table,
        capabilities: Capabilities { declarations: Vec::new() },
        inhibition: Inhibition { operation: None, handlers: Vec::new() },
    }
}

fn declare(registry: &mut Registry, handler: u64, operations: &[Operation]) {
    let operations = operations.to_vec();
    registry.capabilities.declarations.push(Declaration { handler, operations });
}

/// The place of the first occurrence of `pattern` in `name`, or -1. A pattern
/// that starts with `(` is taken for malformed.
fn substring(pattern: &str, name: &str) -> Result<i64, String> {
    if pattern.starts_with('(') {
        return Err(format!("invalid pattern: {}", pattern));
    }
    match name.find(pattern) {
        Some(at) => Ok(at as i64),
        None => Ok(-1),
    }
}

fn lookup(name: &str, operation: Operation, registry: &Registry) -> Handler {
    find_file_name_handler(name, operation, registry, substring, || false).unwrap()
}

#[test]
fn empty_table_gives_nil() {
    let r = registry(Vec::new());
    assert_eq!(lookup("/tmp/file", READ, &r), Handler::Nil);
    assert_eq!(lookup("", WRITE, &r), Handler::Nil);
    assert_eq!(lookup("/ssh:host:/etc/passwd", Operation(77), &r), Handler::Nil);
}

#[test]
fn empty_table_never_calls_the_checkpoint() {
    let r = registry(Vec::new());
    let calls = Cell::new(0);
    let result = find_file_name_handler("/tmp/file", READ, &r, substring, || {
        calls.set(calls.get() + 1);
        true
    });
    assert_eq!(result, Ok(Handler::Nil));
    assert_eq!(calls.get(), 0);
}

#[test]
fn single_match_at_zero_is_returned_for_any_operation() {
    let r = registry(vec![pair("/ssh:", Handler::Named(7))]);
    assert_eq!(lookup("/ssh:host:/etc", READ, &r), Handler::Named(7));
    assert_eq!(lookup("/ssh:host:/etc", WRITE, &r), Handler::Named(7));
    assert_eq!(lookup("/ssh:host:/etc", Operation(u64::MAX), &r), Handler::Named(7));
}

#[test]
fn single_pattern_that_does_not_match_gives_nil() {
    let r = registry(vec![pair("/ssh:", Handler::Named(7))]);
    assert_eq!(lookup("/tmp/file", READ, &r), Handler::Nil);
}

#[test]
fn empty_name_is_accepted() {
    let r = registry(vec![pair("", Handler::Named(1)), pair("x", Handler::Named(2))]);
    assert_eq!(lookup("", READ, &r), Handler::Named(1));
}

#[test]
fn higher_position_wins_when_listed_second() {
    // "cd" is found at 2 and "fg" at 5 in "abcdefgh".
    let r = registry(vec![pair("cd", Handler::Named(1)), pair("fg", Handler::Named(2))]);
    assert_eq!(lookup("abcdefgh", READ, &r), Handler::Named(2));
}

#[test]
fn higher_position_wins_when_listed_first() {
    let r = registry(vec![pair("fg", Handler::Named(2)), pair("cd", Handler::Named(1))]);
    assert_eq!(lookup("abcdefgh", READ, &r), Handler::Named(2));
}

#[test]
fn later_entry_with_higher_position_overrides_after_a_match() {
    let r = registry(vec![
        pair("a", Handler::Named(1)),
        pair("zz", Handler::Named(2)),
        pair("c", Handler::Named(3)),
        pair("b", Handler::Named(4)),
    ]);
    assert_eq!(lookup("abc", READ, &r), Handler::Named(3));
}

#[test]
fn equal_positions_keep_the_first() {
    let r = registry(vec![pair("ab", Handler::Named(1)), pair("abc", Handler::Named(2))]);
    assert_eq!(lookup("abcdef", READ, &r), Handler::Named(1));
    let r = registry(vec![pair("abc", Handler::Named(2)), pair("ab", Handler::Named(1))]);
    assert_eq!(lookup("abcdef", READ, &r), Handler::Named(2));
}

#[test]
fn handler_that_declares_other_operations_is_never_returned() {
    let mut r = registry(vec![pair("/ssh:", Handler::Named(7))]);
    declare(&mut r, 7, &[READ]);
    assert_eq!(lookup("/ssh:host:/etc", WRITE, &r), Handler::Nil);
    assert_eq!(lookup("/ssh:host:/etc", READ, &r), Handler::Named(7));
}

#[test]
fn unsupported_handler_gives_way_to_a_lower_match() {
    let mut r = registry(vec![pair("cd", Handler::Named(1)), pair("fg", Handler::Named(2))]);
    declare(&mut r, 2, &[READ, LIST]);
    assert_eq!(lookup("abcdefgh", WRITE, &r), Handler::Named(1));
    assert_eq!(lookup("abcdefgh", LIST, &r), Handler::Named(2));
}

#[test]
fn empty_declaration_supports_every_operation() {
    let mut r = registry(vec![pair("/ssh:", Handler::Named(7))]);
    declare(&mut r, 7, &[]);
    assert_eq!(lookup("/ssh:host:/etc", WRITE, &r), Handler::Named(7));
}

#[test]
fn first_declaration_for_a_name_counts() {
    let mut r = registry(vec![pair("/ssh:", Handler::Named(7))]);
    declare(&mut r, 7, &[READ]);
    declare(&mut r, 7, &[WRITE]);
    assert_eq!(lookup("/ssh:host:/etc", WRITE, &r), Handler::Nil);
    assert_eq!(lookup("/ssh:host:/etc", READ, &r), Handler::Named(7));
}

#[test]
fn anonymous_handler_is_not_filtered_by_operation() {
    let mut r = registry(vec![pair("/ssh:", Handler::Anonymous(7))]);
    declare(&mut r, 7, &[READ]);
    assert_eq!(lookup("/ssh:host:/etc", WRITE, &r), Handler::Anonymous(7));
}

#[test]
fn inhibited_handler_falls_through_to_a_lower_match() {
    let mut r = registry(vec![pair("cd", Handler::Named(1)), pair("fg", Handler::Named(2))]);
    r.inhibition = Inhibition { operation: Some(WRITE), handlers: vec![Handler::Named(2)] };
    assert_eq!(lookup("abcdefgh", WRITE, &r), Handler::Named(1));
}

#[test]
fn inhibited_handler_falls_through_to_nil() {
    let mut r = registry(vec![pair("fg", Handler::Named(2))]);
    r.inhibition = Inhibition { operation: Some(WRITE), handlers: vec![Handler::Named(2)] };
    assert_eq!(lookup("abcdefgh", WRITE, &r), Handler::Nil);
}

#[test]
fn inhibited_entry_does_not_raise_the_bar() {
    // The inhibited entry matches at 5; the one after it matches at 2 and
    // still wins, since the rejected match was not recorded.
    let mut r = registry(vec![pair("fg", Handler::Named(2)), pair("cd", Handler::Named(1))]);
    r.inhibition = Inhibition { operation: Some(WRITE), handlers: vec![Handler::Named(2)] };
    assert_eq!(lookup("abcdefgh", WRITE, &r), Handler::Named(1));
}

#[test]
fn inhibition_applies_to_anonymous_handlers_too() {
    let mut r = registry(vec![pair("cd", Handler::Named(1)), pair("fg", Handler::Anonymous(2))]);
    r.inhibition = Inhibition { operation: Some(WRITE), handlers: vec![Handler::Anonymous(2)] };
    assert_eq!(lookup("abcdefgh", WRITE, &r), Handler::Named(1));
}

#[test]
fn inhibition_for_another_operation_has_no_effect() {
    let mut r = registry(vec![pair("cd", Handler::Named(1)), pair("fg", Handler::Named(2))]);
    r.inhibition = Inhibition { operation: Some(WRITE), handlers: vec![Handler::Named(2)] };
    assert_eq!(lookup("abcdefgh", READ, &r), Handler::Named(2));
    r.inhibition = Inhibition { operation: None, handlers: vec![Handler::Named(2)] };
    assert_eq!(lookup("abcdefgh", WRITE, &r), Handler::Named(2));
}

#[test]
fn pattern_that_is_not_a_string_never_wins() {
    let r = registry(vec![
        Entry::Pair { pattern: Pattern::Other, handler: Handler::Named(9) },
        pair("cd", Handler::Named(1)),
        Entry::Pair { pattern: Pattern::Other, handler: Handler::Named(8) },
    ]);
    assert_eq!(lookup("abcdefgh", READ, &r), Handler::Named(1));
    let r = registry(vec![Entry::Pair { pattern: Pattern::Other, handler: Handler::Named(9) }]);
    assert_eq!(lookup("abcdefgh", READ, &r), Handler::Nil);
}

#[test]
fn element_that_is_not_a_pair_is_passed_over() {
    let r = registry(vec![Entry::Malformed, pair("cd", Handler::Named(1)), Entry::Malformed]);
    assert_eq!(lookup("abcdefgh", READ, &r), Handler::Named(1));
}

#[test]
fn nil_handler_of_the_best_match_is_returned() {
    let r = registry(vec![pair("cd", Handler::Named(1)), pair("fg", Handler::Nil)]);
    assert_eq!(lookup("abcdefgh", READ, &r), Handler::Nil);
}

#[test]
fn positions_below_minus_one_count_as_no_match() {
    let r = registry(vec![pair("a", Handler::Named(1))]);
    let at = |position: i64| move |_: &str, _: &str| Ok::<i64, String>(position);
    assert_eq!(find_file_name_handler("abc", READ, &r, at(-2), || false), Ok(Handler::Nil));
    assert_eq!(find_file_name_handler("abc", READ, &r, at(i64::MIN), || false), Ok(Handler::Nil));
    assert_eq!(find_file_name_handler("abc", READ, &r, at(-1), || false), Ok(Handler::Nil));
    assert_eq!(find_file_name_handler("abc", READ, &r, at(0), || false), Ok(Handler::Named(1)));
    assert_eq!(
        find_file_name_handler("abc", READ, &r, at(i64::MAX), || false),
        Ok(Handler::Named(1))
    );
}

#[test]
fn matcher_is_asked_only_about_eligible_string_patterns() {
    let mut r = registry(vec![
        pair("one", Handler::Named(1)),
        Entry::Pair { pattern: Pattern::Other, handler: Handler::Named(2) },
        Entry::Malformed,
        pair("three", Handler::Named(3)),
        pair("four", Handler::Anonymous(3)),
        pair("five", Handler::Named(5)),
    ]);
    declare(&mut r, 3, &[READ]);
    r.inhibition = Inhibition { operation: Some(WRITE), handlers: vec![Handler::Named(5)] };
    let asked = RefCell::new(Vec::new());
    let result = find_file_name_handler(
        "name",
        WRITE,
        &r,
        |pattern: &str, name: &str| {
            asked.borrow_mut().push((pattern.to_string(), name.to_string()));
            Ok::<i64, String>(-1)
        },
        || false,
    );
    assert_eq!(result, Ok(Handler::Nil));
    let expected: Vec<(String, String)> = ["one", "four", "five"]
        .iter()
        .map(|p| (p.to_string(), "name".to_string()))
        .collect();
    assert_eq!(*asked.borrow(), expected);
}

#[test]
fn checkpoint_is_called_once_for_each_element() {
    let r = registry(vec![
        pair("a", Handler::Named(1)),
        Entry::Malformed,
        Entry::Pair { pattern: Pattern::Other, handler: Handler::Named(2) },
        pair("b", Handler::Named(3)),
    ]);
    let calls = Cell::new(0);
    let result = find_file_name_handler("ab", READ, &r, substring, || {
        calls.set(calls.get() + 1);
        false
    });
    assert_eq!(result, Ok(Handler::Named(3)));
    assert_eq!(calls.get(), 4);
}

#[test]
fn checkpoint_interrupts_the_scan() {
    let r = registry(vec![
        pair("a", Handler::Named(1)),
        pair("b", Handler::Named(2)),
        pair("c", Handler::Named(3)),
    ]);
    let calls = Cell::new(0);
    let matches = Cell::new(0);
    let result = find_file_name_handler(
        "abc",
        READ,
        &r,
        |pattern: &str, name: &str| {
            matches.set(matches.get() + 1);
            substring(pattern, name)
        },
        || {
            calls.set(calls.get() + 1);
            calls.get() == 2
        },
    );
    assert_eq!(result, Err(Abandoned::Interrupted));
    assert_eq!(calls.get(), 2);
    assert_eq!(matches.get(), 2);
}

#[test]
fn checkpoint_after_the_last_element_still_interrupts() {
    let r = registry(vec![pair("a", Handler::Named(1))]);
    let result = find_file_name_handler("abc", READ, &r, substring, || true);
    assert_eq!(result, Err(Abandoned::Interrupted));
}

#[test]
fn lookup_leaves_the_registry_as_it_was() {
    let mut r = registry(vec![pair("cd", Handler::Named(1)), pair("fg", Handler::Named(2))]);
    declare(&mut r, 2, &[READ]);
    r.inhibition = Inhibition { operation: Some(WRITE), handlers: vec![Handler::Named(1)] };
    let before = format!("{:?}", r);
    assert_eq!(lookup("abcdefgh", WRITE, &r), Handler::Nil);
    assert_eq!(lookup("abcdefgh", READ, &r), Handler::Named(2));
    assert_eq!(format!("{:?}", r), before);
}

#[test]
fn matcher_failure_is_handed_on_as_it_came() {
    let r = registry(vec![
        pair("a", Handler::Named(1)),
        pair("(b", Handler::Named(2)),
        pair("c", Handler::Named(3)),
    ]);
    let asked = Cell::new(0);
    let calls = Cell::new(0);
    let result = find_file_name_handler(
        "abc",
        READ,
        &r,
        |pattern: &str, name: &str| {
            asked.set(asked.get() + 1);
            substring(pattern, name)
        },
        || {
            calls.set(calls.get() + 1);
            false
        },
    );
    assert_eq!(result, Err(Abandoned::MatcherFailed("invalid pattern: (b".to_string())));
    assert_eq!(asked.get(), 2);
    assert_eq!(calls.get(), 1);
}

#[test]
fn pattern_of_an_unsupported_handler_is_never_tried() {
    // The malformed pattern belongs to a handler that does not serve WRITE,
    // so the matcher does not see it and cannot fail on it.
    let mut r = registry(vec![pair("(b", Handler::Named(2)), pair("c", Handler::Named(3))]);
    declare(&mut r, 2, &[READ]);
    assert_eq!(lookup("abc", WRITE, &r), Handler::Named(3));
    let failed = find_file_name_handler("abc", READ, &r, substring, || false);
    assert_eq!(failed, Err(Abandoned::MatcherFailed("invalid pattern: (b".to_string())));
}

#[test]
fn matcher_failure_comes_before_the_checkpoint_of_its_element() {
    let r = registry(vec![pair("(b", Handler::Named(2))]);
    let result = find_file_name_handler("abc", READ, &r, substring, || true);
    assert_eq!(result, Err(Abandoned::MatcherFailed("invalid pattern: (b".to_string())));
}
