use recipe_scraper::text::{
    char_ascii_lower, char_is_ascii, char_is_layout, char_is_whitespace, chars_contain_ignore_case,
    chars_eq_ignore_case, chars_equal, chars_of, dedup_join, drop_layout_chars, join_fragments,
    join_parts_with_space, keep_ascii_chars, normalize, normalize_chars, normalize_ingredient,
    strip_tags_chars, text_contains_ignore_case, text_equals, trim_chars,
};

fn strings(items: &[&str]) -> Vec<String> {
    items.iter().map(|s| s.to_string()).collect()
}

fn chars(s: &str) -> Vec<char> {
    s.chars().collect()
}

fn text(v: Vec<char>) -> String {
    v.into_iter().collect()
}

#[test]
fn normalize_strips_embedded_markup() {
    assert_eq!(normalize(&strings(&["<b>Salt</b> to taste"])), "Salt to taste");
}

#[test]
fn normalize_joins_fragments_without_separator() {
    assert_eq!(normalize(&strings(&["Stir ", "well", "."])), "Stir well.");
}

#[test]
fn normalize_of_nothing_is_empty() {
    assert_eq!(normalize(&strings(&[])), "");
    assert_eq!(normalize_ingredient(&strings(&[])), "");
    assert_eq!(normalize(&strings(&["", ""])), "");
}

#[test]
fn normalize_drops_line_breaks_and_tabs_but_keeps_spaces() {
    assert_eq!(
        normalize(&strings(&["\n\tMix the  flour\n", "\tand water "])),
        "Mix the  flourand water "
    );
}

#[test]
fn normalize_strips_a_tag_that_spans_fragments_and_lines() {
    assert_eq!(normalize(&strings(&["a<b\n cl", "ass='x'>c"])), "ac");
}

#[test]
fn normalize_chars_agrees_with_normalize() {
    let fragments = strings(&["<i>Fold</i>\tin\n", " the eggs"]);
    assert_eq!(text(normalize_chars(&fragments)), normalize(&fragments));
    assert_eq!(normalize(&fragments), "Foldin the eggs");
}

#[test]
fn normalize_ingredient_keeps_ascii_and_trims() {
    assert_eq!(
        normalize_ingredient(&strings(&["  \u{00bd} cup\u{200b} sugar \n"])),
        "cup sugar"
    );
}

#[test]
fn normalize_ingredient_strips_tags_before_trimming() {
    assert_eq!(normalize_ingredient(&strings(&[" <span> 2 eggs </span> "])), "2 eggs");
}

#[test]
fn strip_tags_removes_every_tag() {
    assert_eq!(text(strip_tags_chars(&chars("<p>one</p><p>two</p>"))), "onetwo");
}

#[test]
fn strip_tags_keeps_an_opening_bracket_that_is_never_closed() {
    assert_eq!(text(strip_tags_chars(&chars("1 < 2"))), "1 < 2");
    assert_eq!(text(strip_tags_chars(&chars("<"))), "<");
    assert_eq!(text(strip_tags_chars(&chars("<a>b<c"))), "b<c");
}

#[test]
fn strip_tags_keeps_a_closing_bracket_without_an_opening_one() {
    assert_eq!(text(strip_tags_chars(&chars("2 > 1"))), "2 > 1");
    assert_eq!(text(strip_tags_chars(&chars("<<b>>"))), ">");
}

#[test]
fn strip_tags_ends_a_tag_at_the_first_closing_bracket() {
    assert_eq!(text(strip_tags_chars(&chars("a<b>c>d"))), "ac>d");
    assert_eq!(text(strip_tags_chars(&chars("<>"))), "");
    assert_eq!(text(strip_tags_chars(&chars(""))), "");
}

#[test]
fn stripped_text_holds_no_tag() {
    let out = strip_tags_chars(&chars("x<<a>y<b<c>>z<"));
    for i in 0..out.len() {
        for j in i + 1..out.len() {
            assert!(!(out[i] == '<' && out[j] == '>'));
        }
    }
}

#[test]
fn drop_layout_removes_only_line_breaks_and_tabs() {
    assert_eq!(text(drop_layout_chars(&chars("a\nb\tc d\re"))), "abc d\re");
}

#[test]
fn keep_ascii_drops_everything_else() {
    assert_eq!(text(keep_ascii_chars(&chars("cr\u{e8}me br\u{fb}l\u{e9}e \u{1f36e}!"))), "crme brle !");
    assert_eq!(text(keep_ascii_chars(&chars("\u{7f}\u{80}"))), "\u{7f}");
}

#[test]
fn trim_removes_whitespace_at_both_ends_only() {
    assert_eq!(text(trim_chars(&chars("  a  b \n"))), "a  b");
    assert_eq!(text(trim_chars(&chars("\u{a0}\u{3000}x\u{2003}\u{85}"))), "x");
    assert_eq!(text(trim_chars(&chars(" \t\r\n"))), "");
    assert_eq!(text(trim_chars(&chars(""))), "");
    assert_eq!(text(trim_chars(&chars("\u{200b}x"))), "\u{200b}x");
}

#[test]
fn trim_agrees_with_the_standard_library() {
    for s in ["", " ", "a", " a", "a ", "\u{1680}a b\u{2028}", "\u{feff}a", "\u{180e}a\u{202f}"] {
        assert_eq!(text(trim_chars(&chars(s))), s.trim());
    }
}

#[test]
fn whitespace_class_agrees_with_the_standard_library() {
    for n in 0u32..0x3100 {
        if let Some(c) = char::from_u32(n) {
            assert_eq!(char_is_whitespace(c), c.is_whitespace(), "code point {:x}", n);
        }
    }
}

#[test]
fn character_classes() {
    assert!(char_is_layout('\n') && char_is_layout('\t'));
    assert!(!char_is_layout(' ') && !char_is_layout('\r'));
    assert!(char_is_ascii('~') && char_is_ascii('\0') && !char_is_ascii('\u{80}'));
    assert_eq!(char_ascii_lower('A'), 'a');
    assert_eq!(char_ascii_lower('Z'), 'z');
    assert_eq!(char_ascii_lower('m'), 'm');
    assert_eq!(char_ascii_lower('['), '[');
    assert_eq!(char_ascii_lower('@'), '@');
    assert_eq!(char_ascii_lower('\u{c9}'), '\u{c9}');
}

#[test]
fn chars_of_lists_the_characters() {
    assert_eq!(chars_of("a\u{e9}\u{1f36e}"), vec!['a', '\u{e9}', '\u{1f36e}']);
    assert_eq!(chars_of(""), Vec::<char>::new());
}

#[test]
fn join_fragments_concatenates() {
    assert_eq!(text(join_fragments(&strings(&["ab", "", "c"]))), "abc");
}

#[test]
fn comparing_characters() {
    assert!(chars_equal(&chars("abc"), &chars("abc")));
    assert!(!chars_equal(&chars("abc"), &chars("abd")));
    assert!(!chars_equal(&chars("abc"), &chars("ab")));
    assert!(chars_eq_ignore_case(&chars("Prep Time"), &chars("prep time")));
    assert!(!chars_eq_ignore_case(&chars("Prep Time"), &chars("prep time:")));
    assert!(!chars_eq_ignore_case(&chars("pr\u{c9}p"), &chars("pr\u{e9}p")));
    assert!(text_equals("div", "div"));
    assert!(!text_equals("div", "DIV"));
    assert!(!text_equals("div", "divs"));
}

#[test]
fn containment_ignores_ascii_case() {
    assert!(chars_contain_ignore_case(&chars("Recipe-INGREDIENTS"), &chars("ingredient")));
    assert!(chars_contain_ignore_case(&chars("x"), &chars("")));
    assert!(chars_contain_ignore_case(&chars(""), &chars("")));
    assert!(!chars_contain_ignore_case(&chars("ste"), &chars("step")));
    assert!(!chars_contain_ignore_case(&chars("s-t-e-p"), &chars("step")));
    assert!(text_contains_ignore_case("wprm-Instructions", "instruction"));
    assert!(text_contains_ignore_case("abstep", "step"));
    assert!(!text_contains_ignore_case("header", "prep"));
}

#[test]
fn dedup_join_collapses_repeated_fragments() {
    assert_eq!(dedup_join(&strings(&["2 hours", "2 hours", "2 hours"])), "2 hours");
}

#[test]
fn dedup_join_trims_before_comparing() {
    assert_eq!(dedup_join(&strings(&[" 2 hours", "2 hours\n", "\t2 hours "])), "2 hours");
}

#[test]
fn dedup_join_keeps_first_occurrences_in_order() {
    assert_eq!(dedup_join(&strings(&["30", "mins", "30", "total", "mins"])), "30 mins total");
    assert_eq!(dedup_join(&strings(&["b", "a", "b"])), "b a");
}

#[test]
fn dedup_join_keeps_one_empty_piece() {
    assert_eq!(dedup_join(&strings(&["\n ", "2 hours", " "])), " 2 hours");
    assert_eq!(dedup_join(&strings(&[" ", "\n"])), "");
    assert_eq!(dedup_join(&strings(&[])), "");
}

#[test]
fn join_parts_puts_one_space_between_neighbours() {
    assert_eq!(text(join_parts_with_space(&vec![chars("a"), chars("b c"), chars("d")])), "a b c d");
    assert_eq!(text(join_parts_with_space(&vec![chars("a")])), "a");
    assert_eq!(text(join_parts_with_space(&vec![])), "");
    assert_eq!(text(join_parts_with_space(&vec![chars(""), chars("")])), " ");
}

fn words_over(alphabet: &[char], max_len: usize) -> Vec<String> {
    let mut all = vec![String::new()];
    let mut last = vec![String::new()];
    for _ in 0..max_len {
        let mut next = Vec::new();
        for w in &last {
            for c in alphabet {
                let mut longer = w.clone();
                longer.push(*c);
                next.push(longer);
            }
        }
        all.extend(next.iter().cloned());
        last = next;
    }
    all
}

#[test]
fn strip_tags_agrees_with_the_tag_pattern() {
    let pattern = regex::Regex::new(r"<[^>]*>").unwrap();
    for w in words_over(&['<', '>', 'a', '\n'], 7) {
        assert_eq!(text(strip_tags_chars(&chars(&w))), pattern.replace_all(&w, ""), "input {:?}", w);
    }
}

#[test]
fn case_rules_agree_with_the_standard_library() {
    let words = words_over(&['a', 'A', 'b', ':'], 4);
    for a in &words {
        assert_eq!(text(chars(a).into_iter().map(char_ascii_lower).collect()), a.to_ascii_lowercase());
        for b in words.iter().step_by(7) {
            assert_eq!(chars_eq_ignore_case(&chars(a), &chars(b)), a.eq_ignore_ascii_case(b));
            assert_eq!(
                chars_contain_ignore_case(&chars(a), &chars(b)),
                a.to_lowercase().contains(&b.to_lowercase())
            );
        }
    }
}
