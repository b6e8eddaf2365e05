use kenjutu::services::word_diff::{
    compute_inline_diff, compute_word_diff, inline_ranges_from_changes, Block, SideLine, WordChangeTag,
};

#[test]
fn inline_ranges_from_change_list() {
    let changes = vec![
        (WordChangeTag::Equal, 6),
        (WordChangeTag::Delete, 5),
        (WordChangeTag::Insert, 5),
        (WordChangeTag::Equal, 1),
        (WordChangeTag::Insert, 3),
    ];
    let r = inline_ranges_from_changes(&changes);
    assert_eq!(r.old_ranges, vec![(6, 11)]);
    assert_eq!(r.new_ranges, vec![(6, 11), (12, 15)]);
}

#[test]
fn inline_diff_of_changed_word() {
    let r = compute_inline_diff("hello world", "hello there");
    assert_eq!(r.old_ranges, vec![(6, 11)]);
    assert_eq!(r.new_ranges, vec![(6, 11)]);
    let same = compute_inline_diff("same text", "same text");
    assert!(same.old_ranges.is_empty() && same.new_ranges.is_empty());
}

#[test]
fn word_diff_pairs_lines_of_blocks() {
    let side = |lineno: u32, content: &str| SideLine { lineno, content: content.to_string() };
    let blocks = vec![Block {
        old_lines: vec![side(3, "let x = 1;"), side(4, "unpaired")],
        new_lines: vec![side(5, "let x = 2;")],
    }];
    let r = compute_word_diff(&blocks);
    let (paired, ranges) = &r.deletions[&3];
    assert_eq!(*paired, 5);
    assert_eq!(ranges, &vec![(8, 10)]);
    let (paired, ranges) = &r.insertions[&5];
    assert_eq!(*paired, 3);
    assert_eq!(ranges, &vec![(8, 10)]);
    assert!(!r.deletions.contains_key(&4));
}
