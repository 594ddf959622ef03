use izole::envmeta::{format_table_row, record_packages, repeat_text, sort_names, summarize_list, text_before};

fn s(v: &[&str]) -> Vec<String> {
    v.iter().map(|x| x.to_string()).collect()
}

#[test]
fn recording_packages() {
    let mut rec = s(&["btop", "htop"]);
    record_packages(&mut rec, &s(&["htop", "vim", "vim", "git"]));
    assert_eq!(rec, s(&["btop", "htop", "vim", "git"]));
    let before = rec.clone();
    record_packages(&mut rec, &s(&["htop", "vim", "vim", "git"]));
    assert_eq!(rec, before);
}

#[test]
fn summaries() {
    assert_eq!(summarize_list(&Vec::new()), "yok");
    assert_eq!(summarize_list(&s(&["a", "b"])), "a, b");
}

#[test]
fn table_rows_match_format() {
    for (n, p) in [("btop", "btop, htop"), ("Ortam Adı", "Kurulu Paketler"), ("a-very-long-environment-name", "yok")] {
        assert_eq!(format_table_row(n, p), format!("{:<20} | {:<40}", n, p));
    }
    assert_eq!(repeat_text("-", 65), "-".repeat(65));
    assert_eq!(repeat_text("=", 0), "");
}

#[test]
fn names_sorted_like_std() {
    let input = s(&["zeta", "Alpha", "ümit", "alpha", "al", "", "beta", "alpha"]);
    let mut expected = input.clone();
    expected.sort();
    assert_eq!(sort_names(input), expected);
    assert!(text_before("a", "ab"));
    assert!(!text_before("b", "ab"));
}
