use regex_fsm::pattern::is_well_formed;
use regex_fsm::regex::REGEX;
use regex_fsm::table::{FSMColumn, FsmAction, FSM_COLUMN_SIZE, FSM_ENDLINE};

fn entry(regex: &REGEX, state: usize, symbol: usize) -> (usize, i32) {
    let action = regex.column(state).action(symbol);
    (action.next, action.offset)
}

fn code(c: char) -> usize {
    c as usize
}

#[test]
fn alphabet_has_an_end_marker_behind_the_ascii_codes() {
    assert_eq!(FSM_COLUMN_SIZE, 129);
    assert_eq!(FSM_ENDLINE, 128);
}

#[test]
fn default_action_rejects() {
    let action = FsmAction::default();
    assert_eq!(action.next, 0);
    assert_eq!(action.offset, 0);
}

#[test]
fn new_column_rejects_every_symbol() {
    let column = FSMColumn::new();
    for symbol in 0..FSM_COLUMN_SIZE {
        let action = column.action(symbol);
        assert_eq!((action.next, action.offset), (0, 0));
    }
}

#[test]
fn empty_pattern_has_only_the_placeholder() {
    let regex = REGEX::compile("");
    assert_eq!(regex.column_count(), 1);
    for symbol in 0..FSM_COLUMN_SIZE {
        assert_eq!(entry(&regex, 0, symbol), (0, 0));
    }
}

#[test]
fn literal_adds_one_column_with_one_transition() {
    let regex = REGEX::compile("a");
    assert_eq!(regex.column_count(), 2);
    for symbol in 0..FSM_COLUMN_SIZE {
        assert_eq!(entry(&regex, 0, symbol), (0, 0));
        let expected = if symbol == code('a') { (2, 1) } else { (0, 0) };
        assert_eq!(entry(&regex, 1, symbol), expected);
    }
}

#[test]
fn literals_chain_to_the_next_column() {
    let regex = REGEX::compile("xyz");
    assert_eq!(regex.column_count(), 4);
    assert_eq!(entry(&regex, 1, code('x')), (2, 1));
    assert_eq!(entry(&regex, 2, code('y')), (3, 1));
    assert_eq!(entry(&regex, 3, code('z')), (4, 1));
    assert_eq!(entry(&regex, 1, code('y')), (0, 0));
    assert_eq!(entry(&regex, 2, code('x')), (0, 0));
    assert_eq!(entry(&regex, 3, FSM_ENDLINE), (0, 0));
}

#[test]
fn wildcard_takes_the_printable_codes_only() {
    let regex = REGEX::compile(".");
    assert_eq!(regex.column_count(), 2);
    for symbol in 0..FSM_COLUMN_SIZE {
        let expected = if 32 <= symbol && symbol < 127 { (2, 1) } else { (0, 0) };
        assert_eq!(entry(&regex, 1, symbol), expected);
    }
    assert_eq!(entry(&regex, 1, 31), (0, 0));
    assert_eq!(entry(&regex, 1, 32), (2, 1));
    assert_eq!(entry(&regex, 1, 126), (2, 1));
    assert_eq!(entry(&regex, 1, 127), (0, 0));
    assert_eq!(entry(&regex, 1, FSM_ENDLINE), (0, 0));
}

#[test]
fn anchor_sets_the_end_marker_only() {
    let regex = REGEX::compile("$");
    assert_eq!(regex.column_count(), 2);
    for symbol in 0..FSM_COLUMN_SIZE {
        let expected = if symbol == FSM_ENDLINE { (2, 1) } else { (0, 0) };
        assert_eq!(entry(&regex, 1, symbol), expected);
    }
}

#[test]
fn star_rewrites_the_last_column_in_place() {
    let regex = REGEX::compile("a*");
    assert_eq!(regex.column_count(), 2);
    for symbol in 0..FSM_COLUMN_SIZE {
        let expected = if symbol == code('a') { (1, 1) } else { (2, 0) };
        assert_eq!(entry(&regex, 1, symbol), expected);
    }
}

#[test]
fn star_on_wildcard_loops_on_printable_codes() {
    let regex = REGEX::compile(".*");
    assert_eq!(regex.column_count(), 2);
    for symbol in 0..FSM_COLUMN_SIZE {
        let expected = if 32 <= symbol && symbol < 127 { (1, 1) } else { (2, 0) };
        assert_eq!(entry(&regex, 1, symbol), expected);
    }
}

#[test]
fn plus_appends_a_duplicate_with_a_bypass() {
    let regex = REGEX::compile("a+");
    assert_eq!(regex.column_count(), 3);
    for symbol in 0..FSM_COLUMN_SIZE {
        let first = if symbol == code('a') { (2, 1) } else { (0, 0) };
        let second = if symbol == code('a') { (2, 1) } else { (3, 0) };
        assert_eq!(entry(&regex, 1, symbol), first);
        assert_eq!(entry(&regex, 2, symbol), second);
    }
}

#[test]
fn quantifier_leaves_earlier_columns_alone() {
    let regex = REGEX::compile("ab*c+d");
    assert_eq!(regex.column_count(), 6);
    assert_eq!(entry(&regex, 1, code('a')), (2, 1));
    assert_eq!(entry(&regex, 1, code('b')), (0, 0));
    assert_eq!(entry(&regex, 2, code('b')), (2, 1));
    assert_eq!(entry(&regex, 2, code('c')), (3, 0));
    assert_eq!(entry(&regex, 2, FSM_ENDLINE), (3, 0));
    assert_eq!(entry(&regex, 3, code('c')), (4, 1));
    assert_eq!(entry(&regex, 3, code('d')), (0, 0));
    assert_eq!(entry(&regex, 4, code('c')), (4, 1));
    assert_eq!(entry(&regex, 4, code('d')), (5, 0));
    assert_eq!(entry(&regex, 5, code('d')), (6, 1));
    assert_eq!(entry(&regex, 5, code('c')), (0, 0));
}

#[test]
fn table_of_one_or_more_a_then_b_then_c() {
    let regex = REGEX::compile("a+bc");
    assert_eq!(regex.column_count(), 5);
    for symbol in 0..FSM_COLUMN_SIZE {
        let a = symbol == code('a');
        let b = symbol == code('b');
        let c = symbol == code('c');
        assert_eq!(entry(&regex, 0, symbol), (0, 0));
        assert_eq!(entry(&regex, 1, symbol), if a { (2, 1) } else { (0, 0) });
        assert_eq!(entry(&regex, 2, symbol), if a { (2, 1) } else { (3, 0) });
        assert_eq!(entry(&regex, 3, symbol), if b { (4, 1) } else { (0, 0) });
        assert_eq!(entry(&regex, 4, symbol), if c { (5, 1) } else { (0, 0) });
    }
}

#[test]
fn compiling_twice_gives_the_same_table() {
    let first = REGEX::compile("a+b.*c$");
    let second = REGEX::compile("a+b.*c$");
    assert_eq!(first.column_count(), second.column_count());
    for state in 0..first.column_count() {
        for symbol in 0..FSM_COLUMN_SIZE {
            assert_eq!(entry(&first, state, symbol), entry(&second, state, symbol));
        }
    }
}

#[test]
fn well_formed_patterns_are_recognised() {
    for pattern in ["", "a", "a+bc", "a*", ".*", ".+x", "a$", "a$b", "$", "ab*c+d", "a.c"] {
        assert!(is_well_formed(pattern), "{:?}", pattern);
    }
}

#[test]
fn dangling_quantifier_is_not_well_formed() {
    for pattern in ["*", "+", "*a", "+a", "$*", "$+", "a$*"] {
        assert!(!is_well_formed(pattern), "{:?}", pattern);
    }
}

#[test]
fn repeated_quantifier_is_not_well_formed() {
    for pattern in ["a**", "a++", "a*+", "a+*", "ab+*c"] {
        assert!(!is_well_formed(pattern), "{:?}", pattern);
    }
}

#[test]
fn pattern_outside_the_alphabet_is_not_well_formed() {
    for pattern in ["\u{80}", "caf\u{e9}", "a\u{4e2d}+", "\u{1f600}"] {
        assert!(!is_well_formed(pattern), "{:?}", pattern);
    }
    assert!(is_well_formed("\u{7f}"));
    assert!(is_well_formed("\u{0}"));
}
