use minigrep::search::keep_if_held;
use minigrep::{search, search_case_insensitive};

/// The lines that the standard library finds in `contents`, kept where `keep`
/// says so.
fn reference(contents: &str, keep: impl Fn(&str) -> bool) -> Vec<&str> {
    contents.lines().filter(|line| keep(line)).collect()
}

#[test]
fn case_sensitive() {
    let query = "duct"; // in 'productive'
    let contents = "\
Rust:
safe, fast, productive.
Pick three.
Duct tape.";

    assert_eq!(vec!["safe, fast, productive."], search(query, contents));
}

#[test]
fn case_insensitive() {
    let query = "rUsT";
    let contents = "\
Rust:
safe, fast, productive.
Pick three.
Trust me.";

    assert_eq!(
        vec!["Rust:", "Trust me."],
        search_case_insensitive(query, contents)
    );
}

#[test]
fn empty_contents_have_no_lines() {
    let nothing: Vec<&str> = Vec::new();
    assert_eq!(search("duct", ""), nothing);
    assert_eq!(search("", ""), nothing);
    assert_eq!(search_case_insensitive("duct", ""), nothing);
    assert_eq!(search_case_insensitive("", ""), nothing);
}

#[test]
fn empty_query_is_held_by_every_line() {
    let contents = "one\n\nthree\n";
    assert_eq!(search("", contents), vec!["one", "", "three"]);
    assert_eq!(search_case_insensitive("", contents), vec!["one", "", "three"]);
}

#[test]
fn query_longer_than_every_line_finds_nothing() {
    let contents = "ab\nabc\na";
    let nothing: Vec<&str> = Vec::new();
    assert_eq!(search("abcd", contents), nothing);
    assert_eq!(search_case_insensitive("ABCD", contents), nothing);
}

#[test]
fn match_is_by_position_not_by_word() {
    let contents = "concatenate\ncat\ndog\nthe cat sat";
    assert_eq!(search("cat", contents), vec!["concatenate", "cat", "the cat sat"]);
    assert_eq!(search("t s", contents), vec!["the cat sat"]);
}

#[test]
fn query_at_either_end_of_a_line() {
    let contents = "abc\nxabc\nabcx\nab\nbc";
    assert_eq!(search("abc", contents), vec!["abc", "xabc", "abcx"]);
    assert_eq!(search("ab", contents), vec!["abc", "xabc", "abcx", "ab"]);
    assert_eq!(search("bc", contents), vec!["abc", "xabc", "abcx", "bc"]);
}

#[test]
fn lines_keep_their_order_and_their_repeats() {
    let contents = "b1\na\nb2\nb1\na\nb1";
    assert_eq!(search("b", contents), vec!["b1", "b2", "b1", "b1"]);
    assert_eq!(search("a", contents), vec!["a", "a"]);
}

#[test]
fn last_line_needs_no_newline() {
    assert_eq!(search("b", "a\nb"), vec!["b"]);
    assert_eq!(search("b", "a\nb\n"), vec!["b"]);
    assert_eq!(search("", "a\nb"), vec!["a", "b"]);
    assert_eq!(search("", "a\nb\n"), vec!["a", "b"]);
}

#[test]
fn newlines_alone_make_empty_lines() {
    assert_eq!(search("", "\n"), vec![""]);
    assert_eq!(search("", "\n\n"), vec!["", ""]);
    assert_eq!(search("", "\na"), vec!["", "a"]);
    let nothing: Vec<&str> = Vec::new();
    assert_eq!(search("a", "\n\n"), nothing);
}

#[test]
fn line_ending_is_not_part_of_a_line() {
    let nothing: Vec<&str> = Vec::new();
    assert_eq!(search("\n", "a\nb\n"), nothing);
    assert_eq!(search("a\nb", "a\nb\n"), nothing);
    assert_eq!(search("\r", "a\r\nb\r\n"), nothing);
}

#[test]
fn carriage_return_before_newline_is_dropped() {
    assert_eq!(search("", "a\r\nb\r\n"), vec!["a", "b"]);
    assert_eq!(search("", "a\r\r\nb"), vec!["a\r", "b"]);
    assert_eq!(search("", "\r\n"), vec![""]);
}

#[test]
fn carriage_return_elsewhere_is_kept() {
    assert_eq!(search("", "a\rb\nc"), vec!["a\rb", "c"]);
    assert_eq!(search("", "a\nb\r"), vec!["a", "b\r"]);
    assert_eq!(search("\r", "a\nb\r"), vec!["b\r"]);
    assert_eq!(search("", "\r"), vec!["\r"]);
}

#[test]
fn lines_are_those_of_the_standard_library() {
    let texts = [
        "",
        "\n",
        "\r",
        "\r\n",
        "\n\r",
        "a",
        "a\n",
        "a\r\n",
        "a\r",
        "a\n\nb",
        "a\r\n\r\nb\r\n",
        "a\r\r\n\rb\n\r",
        "one\ntwo\r\nthree\rfour\n\n",
        "né\nñandú\r\n日本語\n",
    ];
    for contents in texts {
        assert_eq!(search("", contents), reference(contents, |_| true));
        assert_eq!(search("a", contents), reference(contents, |line| line.contains("a")));
        assert_eq!(
            search_case_insensitive("A", contents),
            reference(contents, |line| line.to_lowercase().contains("a"))
        );
    }
}

#[test]
fn found_lines_are_slices_of_the_contents() {
    let contents = String::from("first\nsecond\r\nthird");
    let begin = contents.as_ptr() as usize;
    let found = search("", &contents);
    assert_eq!(found, vec!["first", "second", "third"]);
    assert_eq!(found[0].as_ptr() as usize - begin, 0);
    assert_eq!(found[1].as_ptr() as usize - begin, 6);
    assert_eq!(found[2].as_ptr() as usize - begin, 14);
}

#[test]
fn exact_search_tells_upper_from_lower_case() {
    let contents = "Rust:\nsafe, fast, productive.\nPick three.\nTrust me.";
    assert_eq!(search("rust", contents), vec!["Trust me."]);
    assert_eq!(search("Rust", contents), vec!["Rust:"]);
    let nothing: Vec<&str> = Vec::new();
    assert_eq!(search("rUsT", contents), nothing);
}

#[test]
fn folded_search_puts_both_sides_in_lowercase() {
    let contents = "RUST\nrust\nRuSt\nrest";
    assert_eq!(search_case_insensitive("rust", contents), vec!["RUST", "rust", "RuSt"]);
    assert_eq!(search_case_insensitive("RUST", contents), vec!["RUST", "rust", "RuSt"]);
    assert_eq!(search_case_insensitive("ÉCOLE", "école\nEcole\nÉCOLE"), vec!["école", "ÉCOLE"]);
}

#[test]
fn folded_search_gives_lines_as_they_stand() {
    assert_eq!(search_case_insensitive("b", "aBc\r\nABC"), vec!["aBc", "ABC"]);
}

#[test]
fn exact_matches_are_among_folded_matches() {
    let contents = "Rust:\nsafe, fast, productive.\nPick three.\nTrust me.\nrust";
    for query in ["rust", "Rust", "t", "", "Pick", "PICK", "e."] {
        let exact = search(query, contents);
        let folded = search_case_insensitive(query, contents);
        let mut rest = folded.iter();
        for line in &exact {
            assert!(rest.any(|other| other == line));
        }
    }
}

#[test]
fn final_sigma_can_hide_an_exact_match_from_the_folded_search() {
    // A capital sigma at the end of a word has another lowercase form than
    // one inside a word, so the query and the line fold to different letters.
    let query = "\u{391}\u{3a3}";
    let contents = "\u{391}\u{3a3}\u{391}";
    assert_eq!(query.to_lowercase(), "\u{3b1}\u{3c2}");
    assert_eq!(contents.to_lowercase(), "\u{3b1}\u{3c3}\u{3b1}");
    assert_eq!(search(query, contents), vec![contents]);
    let nothing: Vec<&str> = Vec::new();
    assert_eq!(search_case_insensitive(query, contents), nothing);
}

#[test]
fn searching_twice_gives_the_same_lines() {
    let contents = "Rust:\nsafe, fast, productive.\nPick three.\nTrust me.";
    assert_eq!(search("us", contents), search("us", contents));
    assert_eq!(
        search_case_insensitive("US", contents),
        search_case_insensitive("US", contents)
    );
    assert_eq!(search("us", contents), vec!["Rust:", "Trust me."]);
}

#[test]
fn line_is_kept_where_its_shown_form_holds_the_query() {
    let mut kept: Vec<&str> = vec!["before"];
    keep_if_held(&mut kept, "Rust:", "rust:", "rust");
    assert_eq!(kept, vec!["before", "Rust:"]);
    keep_if_held(&mut kept, "Rust:", "Rust:", "rust");
    assert_eq!(kept, vec!["before", "Rust:"]);
    keep_if_held(&mut kept, "Trust me.", "trust me.", "rust");
    assert_eq!(kept, vec!["before", "Rust:", "Trust me."]);
    keep_if_held(&mut kept, "", "", "");
    assert_eq!(kept, vec!["before", "Rust:", "Trust me.", ""]);
    keep_if_held(&mut kept, "long line", "", "x");
    assert_eq!(kept, vec!["before", "Rust:", "Trust me.", ""]);
}
