//! The scorer against exact expected values, in units of `1/10000`.

use harpoon::score::hygiene_score;
use harpoon::token_count;

#[test]
fn score_of_the_reference_python_snippet() {
    assert_eq!(hygiene_score("def f():\n    return 1\n", "python"), 5333);
}

#[test]
fn empty_body_scores_without_dividing_by_zero() {
    // Counts floor at one and the indent stability defaults to one half.
    assert_eq!(hygiene_score("", "text"), 3083);
    // A whitespace-only body counts like an empty one: blank lines carry
    // neither lines nor characters nor tokens.
    assert_eq!(hygiene_score("   \n\t\n", "text"), 3083);
}

#[test]
fn structure_bonus_follows_the_language() {
    let body = "hello world";
    assert_eq!(hygiene_score(body, "text"), 4854);
    assert_eq!(hygiene_score(body, "rust"), 4854 + 1000);
    assert_eq!(hygiene_score(body, "typescript"), 4854 + 1000);
    assert_eq!(hygiene_score(body, "config"), 4854 + 500);
}

#[test]
fn comment_heavy_bodies_are_penalized() {
    // One line, all of it a comment: the penalty term drops to zero.
    assert_eq!(hygiene_score("# only a comment\n", "python"), 5083);
    // The hash marker is a comment for config too, under the smaller bonus.
    assert_eq!(hygiene_score("# only a comment\n", "config"), 4583);
    // It is not one for rust, so the penalty term returns in full.
    assert_eq!(hygiene_score("# only a comment\n", "rust"), 6583);
}

#[test]
fn language_specific_comment_markers() {
    assert_eq!(hygiene_score("// top\n/* block */\ncode here\n", "rust"), 4660);
    assert_eq!(hygiene_score("let x = 1;\nlet y = 2;\n", "typescript"), 6458);
    // A slash marker is no comment for config: only the hash is.
    assert_eq!(hygiene_score("{\n  \"a\": 1\n}\n", "config"), 4855);
    assert_eq!(hygiene_score("// note\n", "config"), 5271);
}

#[test]
fn carriage_returns_split_lines_like_newlines() {
    assert_eq!(hygiene_score("one\r\ntwo\r\n", "text"), 4375);
}

#[test]
fn scores_stay_within_range() {
    for body in ["", "x", "def f():\n    return 1\n", "   ", "a\nb\nc\n"] {
        for lang in ["python", "rust", "typescript", "config", "text"] {
            assert!(hygiene_score(body, lang) <= 10000);
        }
    }
}

#[test]
fn token_counting_splits_on_whitespace() {
    assert_eq!(token_count(""), 0);
    assert_eq!(token_count("one"), 1);
    assert_eq!(token_count("  one  two\tthree\n"), 3);
    assert_eq!(token_count("a b"), 2);
}
