use screenshot_sorter::text::{chars_of, join, prefix_before, split};

fn chars(s: &str) -> Vec<char> {
    s.chars().collect()
}

fn strings(parts: &[Vec<char>]) -> Vec<String> {
    parts.iter().map(|p| p.iter().collect()).collect()
}

#[test]
fn chars_of_reads_every_character() {
    assert_eq!(chars_of("a_b"), vec!['a', '_', 'b']);
    assert_eq!(chars_of(""), Vec::<char>::new());
    assert_eq!(chars_of("\u{e4}x"), vec!['\u{e4}', 'x']);
}

#[test]
fn split_gives_one_segment_more_than_delimiters() {
    assert_eq!(strings(&split(&chars("a_b_c"), '_')), vec!["a", "b", "c"]);
    assert_eq!(strings(&split(&chars("abc"), '_')), vec!["abc"]);
}

#[test]
fn split_keeps_empty_segments() {
    assert_eq!(strings(&split(&chars(""), '_')), vec![""]);
    assert_eq!(strings(&split(&chars("_"), '_')), vec!["", ""]);
    assert_eq!(strings(&split(&chars("_a__b_"), '_')), vec!["", "a", "", "b", ""]);
}

#[test]
fn split_agrees_with_std() {
    for text in ["", "_", "a_b", "__a", "a__", "Sat-Jan-18-2025", "x_y_z_"] {
        let expected: Vec<String> = text.split('_').map(String::from).collect();
        assert_eq!(strings(&split(&chars(text), '_')), expected);
    }
}

#[test]
fn join_puts_delimiters_between_segments() {
    let parts = vec![chars("1"), chars("06"), chars("05-PM")];
    assert_eq!(join(&parts, '_'), chars("1_06_05-PM"));
}

#[test]
fn join_of_nothing_and_of_one() {
    assert_eq!(join(&[], '_'), Vec::<char>::new());
    assert_eq!(join(&[chars("abc")], '_'), chars("abc"));
    assert_eq!(join(&[chars(""), chars("")], '_'), chars("_"));
}

#[test]
fn join_undoes_split() {
    for text in ["", "_", "a_b", "__a", "a__", "my_channel_name_Sat-Jan-18-2025_1_06_05-PM"] {
        assert_eq!(join(&split(&chars(text), '_'), '_'), chars(text));
    }
}

#[test]
fn prefix_before_stops_at_the_first_delimiter() {
    assert_eq!(prefix_before(&chars("1_06_05-PM(1)"), '(').to_vec(), chars("1_06_05-PM"));
    assert_eq!(prefix_before(&chars("a(b(c"), '(').to_vec(), chars("a"));
    assert_eq!(prefix_before(&chars("(1)"), '(').to_vec(), chars(""));
}

#[test]
fn prefix_before_without_delimiter_is_everything() {
    assert_eq!(prefix_before(&chars("1_06_05-PM"), '(').to_vec(), chars("1_06_05-PM"));
    assert_eq!(prefix_before(&chars(""), '(').to_vec(), chars(""));
}
