use opencowork::text::{chunk_text, format_input_summary, truncate_text, DEFAULT_CHUNK_SIZE};

#[test]
fn test_chunk_text_no_split_needed() {
    let chunks = chunk_text("hello world", 100);
    assert_eq!(chunks, vec!["hello world"]);
}

#[test]
fn test_chunk_text_respects_word_boundaries() {
    let text = "one two three four five";
    let chunks = chunk_text(text, 10);
    assert_eq!(chunks.len(), 3);
    assert_eq!(chunks[0], "one two");
    assert_eq!(chunks[1], "three four");
    assert_eq!(chunks[2], "five");
}

#[test]
fn test_chunk_text_long_word() {
    let text = "short superlongwordthatwontfit another";
    let chunks = chunk_text(text, 10);
    // "superlongwordthatwontfit" should be its own chunk
    assert!(chunks.len() >= 2);
    assert!(chunks.iter().any(|c| c.contains("superlongwordthatwontfit")));
}

#[test]
fn test_truncate_text() {
    assert_eq!(truncate_text("hello", 10), "hello");
    let truncated = truncate_text("hello world this is long", 10);
    assert!(truncated.ends_with('…'));
    assert!(truncated.len() <= 10);
}

#[test]
fn test_format_input_summary() {
    let summary = format_input_summary("hello", 20);
    assert_eq!(summary, "(5 chars) hello");

    let long = "a".repeat(100);
    let summary = format_input_summary(&long, 10);
    assert!(summary.starts_with("(100 chars)"));
}

#[test]
fn chunk_text_empty_gives_one_empty_chunk() {
    assert_eq!(chunk_text("", 10), vec![String::new()]);
}

#[test]
fn chunk_text_long_word_alone_exact() {
    let chunks = chunk_text("short superlongwordthatwontfit another", 10);
    assert_eq!(chunks, vec!["short", "superlongwordthatwontfit", "another"]);
}

#[test]
fn chunk_text_counts_bytes_not_chars() {
    // "é" takes two bytes: "éé éé" is 9 bytes.
    let chunks = chunk_text("éé éé", 8);
    assert_eq!(chunks, vec!["éé", "éé"]);
    assert_eq!(chunk_text("éé éé", 9), vec!["éé éé"]);
}

#[test]
fn chunk_text_drops_leading_empty_words() {
    assert_eq!(chunk_text("  ab cd", 5), vec!["ab cd"]);
    assert_eq!(chunk_text("ab  cd", 3), vec!["ab ", "cd"]);
}

#[test]
fn chunk_text_default_size_keeps_short_text() {
    assert_eq!(chunk_text("x y", DEFAULT_CHUNK_SIZE), vec!["x y"]);
}

#[test]
fn truncate_text_exact_prefix() {
    assert_eq!(truncate_text("hello world this is long", 10), "hello w…");
}

#[test]
fn truncate_text_respects_char_boundaries() {
    // limit is 4 bytes: "é" (2) + "é" (2) fit, a third would not.
    assert_eq!(truncate_text("éééé", 7), "éé…");
    // limit is 3 bytes: only one "é" fits.
    assert_eq!(truncate_text("éééé", 6), "é…");
}

#[test]
fn truncate_text_tiny_limit_gives_bare_ellipsis() {
    assert_eq!(truncate_text("abc", 2), "…");
}

#[test]
fn format_input_summary_exact() {
    let long = "a".repeat(100);
    assert_eq!(format_input_summary(&long, 10), format!("(100 chars) {}…", "a".repeat(10)));
    assert_eq!(format_input_summary("", 3), "(0 chars) ");
    assert_eq!(format_input_summary("héllo", 2), "(5 chars) hé…");
}

#[test]
fn chunks_keep_every_word_in_order() {
    let text = "the  quick brown fox   jumps over the lazy dog";
    for max in [1usize, 3, 5, 8, 12, 100] {
        let chunks = chunk_text(text, max);
        let from_chunks: Vec<&str> = chunks
            .iter()
            .flat_map(|c| c.split(' '))
            .filter(|w| !w.is_empty())
            .collect();
        let from_text: Vec<&str> = text.split(' ').filter(|w| !w.is_empty()).collect();
        assert_eq!(from_chunks, from_text, "max = {}", max);
    }
}

#[test]
fn chunks_fit_or_hold_one_word() {
    let text = "a bb ccc dddddddddd ee f";
    for max in [1usize, 2, 4, 6, 9] {
        for c in chunk_text(text, max) {
            assert!(c.len() <= max || !c.contains(' '), "chunk {:?} at max {}", c, max);
        }
    }
}

#[test]
fn truncation_fits_when_room_for_ellipsis() {
    for max in 3usize..20 {
        let t = truncate_text("héllo wörld, this is long enough", max);
        assert!(t.len() <= max, "max {} gave {:?}", max, t);
    }
}
