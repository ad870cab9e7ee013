use codex_threads::output::excerpt;

#[test]
fn excerpt_cuts_a_window_at_the_first_term() {
    let text = "  alpha beta gamma delta  ";
    assert_eq!(excerpt(text, "GAMMA", 5), "...gamma...");
    assert_eq!(excerpt(text, "zzz", 5), "...alpha...");
    assert_eq!(excerpt(text, "zzz", 100), "alpha beta gamma delta");
    assert_eq!(excerpt(text, "delta", 100), "...delta...");
}

#[test]
fn excerpt_of_blank_text_is_empty() {
    assert_eq!(excerpt("   ", "x", 10), "");
}

#[test]
fn excerpt_takes_the_terms_in_query_order() {
    assert_eq!(excerpt("one two three", "three one", 3), "...thr...");
}

#[test]
fn excerpt_keeps_whole_text_when_window_splits_a_character() {
    // "é" takes two bytes: a window of one byte does not end on a boundary.
    assert_eq!(excerpt("é tail", "zzz", 1), "...é tail...");
}
