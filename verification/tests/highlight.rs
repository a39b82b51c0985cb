use unibo::highlight::{highlight, highlight_like, highlight_spans, spans_aligned};

const ON: &str = "\x1b[32m";
const OFF: &str = "\x1b[39m";

#[test]
fn prefix_is_marked_with_the_names_own_letters() {
    assert_eq!(highlight("Laboratorio 1", "lab"), format!("{ON}Lab{OFF}oratorio 1"));
    assert_eq!(highlight("laboratorio 2", "LAB"), format!("{ON}lab{OFF}oratorio 2"));
}

#[test]
fn every_occurrence_is_marked() {
    assert_eq!(
        highlight("Lab lab LAB", "lab"),
        format!("{ON}Lab{OFF} {ON}lab{OFF} {ON}LAB{OFF}")
    );
}

#[test]
fn occurrence_in_the_middle_and_at_the_end() {
    assert_eq!(highlight("Aula Magna", "magna"), format!("Aula {ON}Magna{OFF}"));
    assert_eq!(highlight("Aula Magna 2", "a m"), format!("Aul{ON}a M{OFF}agna 2"));
}

#[test]
fn marked_spans_do_not_overlap() {
    assert_eq!(highlight("AAAAA", "aa"), format!("{ON}AA{OFF}{ON}AA{OFF}A"));
}

#[test]
fn name_without_the_query_is_left_alone() {
    assert_eq!(highlight("Aula Magna", "lab"), "Aula Magna");
}

#[test]
fn empty_query_marks_nothing() {
    assert_eq!(highlight("Aula Magna", ""), "Aula Magna");
}

#[test]
fn whole_name_is_marked() {
    assert_eq!(highlight("AULA", "aula"), format!("{ON}AULA{OFF}"));
}

#[test]
fn accented_letters_keep_their_case() {
    assert_eq!(highlight("CAFFÈ Lab", "caffè"), format!("{ON}CAFFÈ{OFF} Lab"));
    assert_eq!(highlight("Città Studi", "studi"), format!("Città {ON}Studi{OFF}"));
}

#[test]
fn name_is_left_alone_where_the_span_does_not_fit() {
    // the lower-case form of the first letter is one byte longer
    assert_eq!(highlight("\u{130}lab", "lab"), "\u{130}lab");
    assert_eq!(highlight("\u{130}l\u{e8}", "\u{e8}"), "\u{130}l\u{e8}");
}

#[test]
fn spans_are_cut_at_the_offsets_found_in_the_lower_case_copy() {
    // the Kelvin sign takes three bytes, its lower-case form one
    assert_eq!(highlight("\u{212a}1 lab", "lab"), format!("\u{212a}{ON}1 l{OFF}ab"));
}

#[test]
fn aligned_spans_lie_between_characters() {
    assert!(spans_aligned("Città", &vec![0, 3], 1));
    assert!(spans_aligned("Città", &vec![4], 2));
    assert!(!spans_aligned("Città", &vec![5], 1));
    assert!(!spans_aligned("Città", &vec![4], 1));
    assert!(!spans_aligned("Città", &vec![5], 2));
    assert!(!spans_aligned("Città", &vec![0, 7], 1));
    assert!(spans_aligned("Città", &vec![], 9));
    assert!(spans_aligned("Città", &vec![6], 0));
    assert!(!spans_aligned("Città", &vec![usize::MAX], 2));
}

#[test]
fn given_spans_are_marked() {
    assert_eq!(highlight_spans("Aula Magna", &vec![0, 5], 4), format!("{ON}Aula{OFF} {ON}Magn{OFF}a"));
    assert_eq!(highlight_spans("Aula", &vec![], 2), "Aula");
    assert_eq!(highlight_spans("Città", &vec![4], 2), format!("Citt{ON}à{OFF}"));
}

#[test]
fn text_found_in_a_copy_is_marked_in_the_name() {
    assert_eq!(highlight_like("Aula Magna", "aula magna", "magna"), format!("Aula {ON}Magna{OFF}"));
    assert_eq!(highlight_like("ABCDEF", "xxabxx", "ab"), format!("AB{ON}CD{OFF}EF"));
    assert_eq!(highlight_like("Aula", "aula", "lab"), "Aula");
    assert_eq!(highlight_like("Aula", "aula", ""), "Aula");
}

#[test]
fn name_is_left_alone_where_the_copy_is_longer_or_cut_otherwise() {
    assert_eq!(highlight_like("Lab", "   lab", "lab"), "Lab");
    assert_eq!(highlight_like("Citt\u{e0} 1", "citt1", "1"), "Citt\u{e0} 1");
    assert_eq!(highlight_like("\u{e0}b", "ab", "b"), "\u{e0}b");
}
