use fa::HistoryBuffer;
use fa::render_line;
use fa::render::make_header;

#[test]
fn short_lines_pass_through_unchanged() {
    assert_eq!(render_line("ab\n", 4), "ab\n");
    assert_eq!(render_line("\n", 4), "\n");
    assert_eq!(render_line("", 4), "");
    assert_eq!(render_line("ab", 4), "ab");
}

#[test]
fn long_lines_are_cut_to_width_minus_one() {
    assert_eq!(render_line("abcdef\n", 4), "abc\n");
    assert_eq!(render_line("abcd\n", 4), "abc\n");
    // A line exactly at the width is cut too: the terminator needs room.
    assert_eq!(render_line("abcd", 4), "abc\n");
    assert_eq!(render_line("ab\n", 1), "\n");
}

#[test]
fn rendering_counts_characters_not_bytes() {
    assert_eq!(render_line("ééé\n", 3), "éé\n");
}

#[test]
fn rendering_is_idempotent() {
    for line in ["abcdef\n", "ab\n", "abcd", "", "\n"] {
        let once = render_line(line, 4);
        assert_eq!(render_line(&once, 4), once);
    }
}

#[test]
fn headers_are_padded_or_cut_to_the_width() {
    assert_eq!(make_header("A", 12), "---[ A ]---\n");
    assert_eq!(make_header("MATCH", 10), "---[ MATC\n");
    assert_eq!(make_header("A", 1), "\n");
}

#[test]
fn history_keeps_the_most_recent_lines_in_order() {
    let mut h = HistoryBuffer::new(2);
    assert_eq!(h.len(), 0);
    h.push(String::from("p\n"));
    h.push(String::from("q\n"));
    assert_eq!(h.snapshot(), &vec![String::from("p\n"), String::from("q\n")]);
    h.push(String::from("r\n"));
    assert_eq!(h.len(), 2);
    assert_eq!(h.snapshot(), &vec![String::from("q\n"), String::from("r\n")]);
}

#[test]
fn history_with_capacity_zero_stores_nothing() {
    let mut h = HistoryBuffer::new(0);
    h.push(String::from("p\n"));
    h.push(String::from("q\n"));
    assert_eq!(h.len(), 0);
    assert_eq!(h.snapshot(), &Vec::<String>::new());
}

#[test]
fn history_never_exceeds_its_capacity() {
    let mut h = HistoryBuffer::new(3);
    for i in 0..10 {
        h.push(format!("line {}\n", i));
        assert!(h.len() <= 3);
    }
    assert_eq!(
        h.snapshot(),
        &vec![
            String::from("line 7\n"),
            String::from("line 8\n"),
            String::from("line 9\n"),
        ]
    );
}
