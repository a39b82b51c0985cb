use unibo::text::{contains_bytes, find_occurrences, matches_at};

#[test]
fn part_is_found_at_its_offset() {
    assert!(matches_at(b"laboratorio", b"bor", 2));
    assert!(!matches_at(b"laboratorio", b"bor", 3));
    assert!(matches_at(b"laboratorio", b"rio", 8));
}

#[test]
fn part_does_not_reach_past_the_end() {
    assert!(!matches_at(b"lab", b"ab1", 1));
    assert!(!matches_at(b"lab", b"b", 3));
    assert!(!matches_at(b"lab", b"b", usize::MAX));
}

#[test]
fn empty_part_stands_everywhere_inside() {
    assert!(matches_at(b"lab", b"", 0));
    assert!(matches_at(b"lab", b"", 3));
    assert!(!matches_at(b"lab", b"", 4));
}

#[test]
fn contains_finds_a_run_anywhere() {
    assert!(contains_bytes(b"aula magna", b"aula"));
    assert!(contains_bytes(b"aula magna", b"la ma"));
    assert!(contains_bytes(b"aula magna", b"gna"));
    assert!(contains_bytes(b"aula magna", b"aula magna"));
}

#[test]
fn contains_rejects_what_is_not_there() {
    assert!(!contains_bytes(b"aula magna", b"aula  magna"));
    assert!(!contains_bytes(b"aula magna", b"magnb"));
    assert!(!contains_bytes(b"aula", b"aula magna"));
    assert!(!contains_bytes(b"", b"a"));
}

#[test]
fn contains_the_empty_run_always() {
    assert!(contains_bytes(b"aula", b""));
    assert!(contains_bytes(b"", b""));
}

#[test]
fn occurrences_are_listed_from_left_to_right() {
    assert_eq!(find_occurrences(b"lab 1, lab 2, lab", b"lab"), vec![0, 7, 14]);
}

#[test]
fn occurrences_do_not_overlap() {
    assert_eq!(find_occurrences(b"aaaaa", b"aa"), vec![0, 2]);
    assert_eq!(find_occurrences(b"abababa", b"aba"), vec![0, 4]);
}

#[test]
fn occurrences_of_an_absent_or_empty_part_are_none() {
    assert_eq!(find_occurrences(b"aula", b"lab"), Vec::<usize>::new());
    assert_eq!(find_occurrences(b"aula", b""), Vec::<usize>::new());
    assert_eq!(find_occurrences(b"", b"a"), Vec::<usize>::new());
    assert_eq!(find_occurrences(b"au", b"aula"), Vec::<usize>::new());
}

#[test]
fn whole_text_is_one_occurrence() {
    assert_eq!(find_occurrences(b"aula", b"aula"), vec![0]);
}
