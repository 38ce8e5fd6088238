use fa::DisplayEngine;
use fa::Options;
use fa::SpaceState;
use fa::TermAction;
use fa::Trigger;

fn trigger(pattern: &str) -> Trigger {
    Trigger::new(pattern).expect("pattern must compile")
}

fn engine_one(
    pattern: &str,
    usable_rows: usize,
    cols: usize,
    restart_on_find: bool,
    clear_on_restart: bool,
    history_lines: usize,
) -> (DisplayEngine, Vec<TermAction>) {
    let opts = Options {
        triggers: vec![trigger(pattern)],
        restart_on_find,
        clear_on_restart,
        history_lines,
    };
    DisplayEngine::new(opts, usable_rows, cols)
}

fn header_of(startup: &[TermAction]) -> String {
    match &startup[2] {
        TermAction::Write(s) => s.clone(),
        other => panic!("expected a header write, got {:?}", other),
    }
}

#[test]
fn startup_clears_screen_and_draws_headers() {
    let (_engine, startup) = engine_one("A", 3, 12, false, false, 0);
    assert_eq!(
        startup,
        vec![
            TermAction::ClearScreen,
            TermAction::MoveTo(0),
            TermAction::Write(String::from("---[ A ]---\n")),
        ]
    );
}

#[test]
fn single_pattern_no_history() {
    // One space of two rows: the header occupies the first, so the
    // matching line fills the region and the space falls back to Finding.
    let (mut engine, startup) = engine_one("MATCH", 2, 80, false, false, 0);
    let header = header_of(&startup);

    assert_eq!(engine.process_line("a\n"), vec![]);
    assert_eq!(engine.space_state(0), SpaceState::Finding);

    let acts = engine.process_line("MATCH\n");
    assert_eq!(
        acts,
        vec![
            TermAction::MoveTo(0),
            TermAction::Write(header),
            TermAction::MoveTo(1),
            TermAction::ClearLine,
            TermAction::Write(String::from("MATCH\n")),
        ]
    );
    assert_eq!(engine.space_state(0), SpaceState::Finding);
    assert_eq!(engine.space_cursor(0), 2);

    assert_eq!(engine.process_line("b\n"), vec![]);
    assert_eq!(engine.process_line("c\n"), vec![]);
}

#[test]
fn single_pattern_region_fills_then_goes_quiet() {
    // With three rows there is room for one line after the match before
    // the region fills and the space returns to Finding.
    let (mut engine, startup) = engine_one("MATCH", 3, 80, false, false, 0);
    let header = header_of(&startup);

    assert_eq!(engine.process_line("a\n"), vec![]);

    let acts = engine.process_line("MATCH\n");
    assert_eq!(
        acts,
        vec![
            TermAction::MoveTo(0),
            TermAction::Write(header),
            TermAction::MoveTo(1),
            TermAction::ClearLine,
            TermAction::Write(String::from("MATCH\n")),
        ]
    );
    assert_eq!(engine.space_state(0), SpaceState::Printing);
    assert_eq!(engine.space_cursor(0), 2);

    let acts = engine.process_line("b\n");
    assert_eq!(
        acts,
        vec![
            TermAction::MoveTo(2),
            TermAction::ClearLine,
            TermAction::Write(String::from("b\n")),
        ]
    );
    assert_eq!(engine.space_state(0), SpaceState::Finding);
    assert_eq!(engine.space_cursor(0), 3);

    assert_eq!(engine.process_line("c\n"), vec![]);
}

#[test]
fn restart_on_find_reactivates_printing_space() {
    let (mut engine, startup) = engine_one("MATCH", 4, 80, true, false, 0);
    let header = header_of(&startup);

    engine.process_line("MATCH\n");
    assert_eq!(engine.space_state(0), SpaceState::Printing);
    assert_eq!(engine.space_cursor(0), 2);

    engine.process_line("x\n");
    assert_eq!(engine.space_state(0), SpaceState::Printing);
    assert_eq!(engine.space_cursor(0), 3);

    // The second MATCH re-activates the space even though it is still
    // printing: the header is reprinted and the partial progress (the
    // prior "x" row) is discarded.
    let acts = engine.process_line("MATCH\n");
    assert_eq!(
        acts,
        vec![
            TermAction::MoveTo(0),
            TermAction::Write(header),
            TermAction::MoveTo(1),
            TermAction::ClearLine,
            TermAction::Write(String::from("MATCH\n")),
        ]
    );
    assert_eq!(engine.space_state(0), SpaceState::Printing);
    assert_eq!(engine.space_cursor(0), 2);
}

#[test]
fn without_restart_a_printing_space_ignores_new_matches() {
    let (mut engine, _startup) = engine_one("MATCH", 4, 80, false, false, 0);

    engine.process_line("MATCH\n");
    let acts = engine.process_line("MATCH\n");
    // No re-activation: the line is printed as an ordinary row.
    assert_eq!(
        acts,
        vec![
            TermAction::MoveTo(2),
            TermAction::ClearLine,
            TermAction::Write(String::from("MATCH\n")),
        ]
    );
}

#[test]
fn history_replay_on_activation() {
    let (mut engine, startup) = engine_one("MATCH", 4, 80, false, false, 2);
    let header = header_of(&startup);

    assert_eq!(engine.process_line("p\n"), vec![]);
    assert_eq!(engine.process_line("q\n"), vec![]);
    assert_eq!(engine.history_len(), 2);

    let acts = engine.process_line("MATCH\n");
    assert_eq!(
        acts,
        vec![
            TermAction::MoveTo(0),
            TermAction::Write(header),
            TermAction::MoveTo(1),
            TermAction::ClearLine,
            TermAction::Write(String::from("p\n")),
            TermAction::MoveTo(2),
            TermAction::ClearLine,
            TermAction::Write(String::from("q\n")),
            TermAction::MoveTo(3),
            TermAction::ClearLine,
            TermAction::Write(String::from("MATCH\n")),
        ]
    );
    assert_eq!(engine.space_state(0), SpaceState::Finding);
    assert_eq!(engine.space_cursor(0), 4);
}

#[test]
fn history_evicts_oldest_before_replay() {
    let (mut engine, startup) = engine_one("MATCH", 5, 80, false, false, 2);
    let header = header_of(&startup);

    engine.process_line("p\n");
    engine.process_line("q\n");
    engine.process_line("r\n");
    assert_eq!(engine.history_len(), 2);

    let acts = engine.process_line("MATCH\n");
    assert_eq!(
        acts,
        vec![
            TermAction::MoveTo(0),
            TermAction::Write(header),
            TermAction::MoveTo(1),
            TermAction::ClearLine,
            TermAction::Write(String::from("q\n")),
            TermAction::MoveTo(2),
            TermAction::ClearLine,
            TermAction::Write(String::from("r\n")),
            TermAction::MoveTo(3),
            TermAction::ClearLine,
            TermAction::Write(String::from("MATCH\n")),
        ]
    );
}

#[test]
fn history_replay_is_capped_by_the_region() {
    // Two rows: the header leaves room for one replayed line only; the
    // region fills during the replay and the matching line is dropped.
    let (mut engine, startup) = engine_one("MATCH", 2, 80, false, false, 3);
    let header = header_of(&startup);

    engine.process_line("p\n");
    engine.process_line("q\n");
    engine.process_line("r\n");

    let acts = engine.process_line("MATCH\n");
    assert_eq!(
        acts,
        vec![
            TermAction::MoveTo(0),
            TermAction::Write(header),
            TermAction::MoveTo(1),
            TermAction::ClearLine,
            TermAction::Write(String::from("p\n")),
        ]
    );
    assert_eq!(engine.space_state(0), SpaceState::Finding);
    assert_eq!(engine.space_cursor(0), 2);
}

#[test]
fn clear_on_restart_blanks_the_region_first() {
    let (mut engine, startup) = engine_one("MATCH", 2, 80, false, true, 0);
    let header = header_of(&startup);

    let acts = engine.process_line("MATCH\n");
    assert_eq!(
        acts,
        vec![
            TermAction::MoveTo(0),
            TermAction::ClearLine,
            TermAction::MoveTo(1),
            TermAction::ClearLine,
            TermAction::MoveTo(0),
            TermAction::Write(header),
            TermAction::MoveTo(1),
            TermAction::ClearLine,
            TermAction::Write(String::from("MATCH\n")),
        ]
    );
}

#[test]
fn long_lines_are_truncated_when_printed() {
    let (mut engine, _startup) = engine_one("MATCH", 3, 6, false, false, 0);

    engine.process_line("MATCH\n");
    let acts = engine.process_line("abcdefghij\n");
    assert_eq!(
        acts,
        vec![
            TermAction::MoveTo(2),
            TermAction::ClearLine,
            TermAction::Write(String::from("abcde\n")),
        ]
    );
}

#[test]
fn at_most_one_space_prints_after_a_line() {
    let opts = Options {
        triggers: vec![trigger("AAA"), trigger("BBB")],
        restart_on_find: false,
        clear_on_restart: false,
        history_lines: 0,
    };
    let (mut engine, startup) = DisplayEngine::new(opts, 8, 80);
    assert_eq!(engine.space_count(), 2);
    let header0 = header_of(&startup);

    engine.process_line("BBB\n");
    assert_eq!(engine.space_state(0), SpaceState::Finding);
    assert_eq!(engine.space_state(1), SpaceState::Printing);

    // The first space activates; the second, visited after the fresh
    // activation, is forced back to Finding in the same pass.
    let acts = engine.process_line("AAA\n");
    assert_eq!(
        acts,
        vec![
            TermAction::MoveTo(0),
            TermAction::Write(header0),
            TermAction::MoveTo(1),
            TermAction::ClearLine,
            TermAction::Write(String::from("AAA\n")),
        ]
    );
    assert_eq!(engine.space_state(0), SpaceState::Printing);
    assert_eq!(engine.space_state(1), SpaceState::Finding);

    engine.process_line("x\n");
    let printing = (engine.space_state(0) == SpaceState::Printing) as u32
        + (engine.space_state(1) == SpaceState::Printing) as u32;
    assert_eq!(printing, 1);
}

#[test]
fn a_line_matching_two_triggers_activates_both() {
    // The documented order caveat: one line matched by several triggers
    // leaves several spaces printing after the pass.
    let opts = Options {
        triggers: vec![trigger("X"), trigger("X")],
        restart_on_find: false,
        clear_on_restart: false,
        history_lines: 0,
    };
    let (mut engine, _startup) = DisplayEngine::new(opts, 6, 80);
    engine.process_line("X\n");
    assert_eq!(engine.space_state(0), SpaceState::Printing);
    assert_eq!(engine.space_state(1), SpaceState::Printing);
}

#[test]
fn a_single_row_space_holds_only_its_header() {
    // The header fills the one-row region on activation, so the space
    // falls straight back to Finding and the matching line is dropped.
    let (mut engine, startup) = engine_one("MATCH", 1, 80, false, false, 0);
    let header = header_of(&startup);

    let acts = engine.process_line("MATCH\n");
    assert_eq!(acts, vec![TermAction::MoveTo(0), TermAction::Write(header)]);
    assert_eq!(engine.space_state(0), SpaceState::Finding);
    assert_eq!(engine.space_cursor(0), 1);
}

#[test]
fn an_empty_pattern_matches_every_line() {
    let (mut engine, _startup) = engine_one("", 3, 80, false, false, 0);
    let acts = engine.process_line("anything\n");
    assert!(!acts.is_empty());
    assert_eq!(engine.space_state(0), SpaceState::Printing);
}

#[test]
fn partition_splits_rows_with_remainder_to_last() {
    let opts = Options {
        triggers: vec![trigger("a"), trigger("b"), trigger("c")],
        restart_on_find: false,
        clear_on_restart: false,
        history_lines: 0,
    };
    let (engine, _startup) = DisplayEngine::new(opts, 10, 80);
    assert_eq!(engine.space_count(), 3);
    assert_eq!(engine.space_start(0), 0);
    assert_eq!(engine.space_rows(0), 3);
    assert_eq!(engine.space_start(1), 3);
    assert_eq!(engine.space_rows(1), 3);
    assert_eq!(engine.space_start(2), 6);
    assert_eq!(engine.space_rows(2), 4);
}

#[test]
fn partition_one_row_each() {
    let opts = Options {
        triggers: vec![trigger("a"), trigger("b"), trigger("c")],
        restart_on_find: false,
        clear_on_restart: false,
        history_lines: 0,
    };
    let (engine, _startup) = DisplayEngine::new(opts, 3, 80);
    assert_eq!(engine.space_start(0), 0);
    assert_eq!(engine.space_rows(0), 1);
    assert_eq!(engine.space_start(1), 1);
    assert_eq!(engine.space_rows(1), 1);
    assert_eq!(engine.space_start(2), 2);
    assert_eq!(engine.space_rows(2), 1);
}
