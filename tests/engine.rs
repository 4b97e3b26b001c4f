use gematria::cipher::{compute, CipherResult};

fn check(r: &CipherResult, name: &str, score: u64, breakdown: &str) {
    assert_eq!(r.name, name);
    assert_eq!(r.score, score);
    assert_eq!(r.breakdown, breakdown);
}

fn values(breakdown: &str) -> Vec<u64> {
    if breakdown.is_empty() {
        return Vec::new();
    }
    breakdown.split('+').map(|p| p.parse::<u64>().unwrap()).collect()
}

#[test]
fn empty_text_gives_no_results() {
    assert!(compute("").is_empty());
}

#[test]
fn text_without_letters_gives_zero_scores() {
    let r = compute("123!!");
    assert_eq!(r.len(), 3);
    check(&r[0], "Standard", 0, "");
    check(&r[1], "Reverse", 0, "");
    check(&r[2], "Reduction", 0, "Reduced");
}

#[test]
fn whitespace_only_gives_zero_scores() {
    let r = compute("   ");
    assert_eq!(r.len(), 3);
    check(&r[0], "Standard", 0, "");
    check(&r[1], "Reverse", 0, "");
    check(&r[2], "Reduction", 0, "Reduced");
}

#[test]
fn single_capital_a() {
    let r = compute("A");
    assert_eq!(r.len(), 3);
    check(&r[0], "Standard", 1, "1");
    check(&r[1], "Reverse", 26, "26");
    check(&r[2], "Reduction", 1, "Reduced");
}

#[test]
fn lowercase_abc() {
    let r = compute("abc");
    assert_eq!(r.len(), 3);
    check(&r[0], "Standard", 6, "1+2+3");
    check(&r[1], "Reverse", 75, "26+25+24");
    check(&r[2], "Reduction", 6, "Reduced");
}

#[test]
fn upper_and_lower_z() {
    let r = compute("Zz");
    assert_eq!(r.len(), 3);
    check(&r[0], "Standard", 52, "26+26");
    check(&r[1], "Reverse", 2, "1+1");
    check(&r[2], "Reduction", 16, "Reduced");
}

#[test]
fn non_letters_are_skipped() {
    let r = compute("a b-c!9\u{e9}\u{3b1}");
    check(&r[0], "Standard", 6, "1+2+3");
    check(&r[1], "Reverse", 75, "26+25+24");
    check(&r[2], "Reduction", 6, "Reduced");
}

#[test]
fn reduction_folds_into_one_to_nine() {
    assert_eq!(compute("I")[2].score, 9);
    assert_eq!(compute("J")[2].score, 1);
    assert_eq!(compute("R")[2].score, 9);
    assert_eq!(compute("S")[2].score, 1);
    assert_eq!(compute("Z")[2].score, 8);
    assert_eq!(compute("abcdefghijklmnopqrstuvwxyz")[2].score, 126);
}

#[test]
fn whole_alphabet_breakdowns() {
    let r = compute("ABCDEFGHIJKLMNOPQRSTUVWXYZ");
    check(
        &r[0],
        "Standard",
        351,
        "1+2+3+4+5+6+7+8+9+10+11+12+13+14+15+16+17+18+19+20+21+22+23+24+25+26",
    );
    check(
        &r[1],
        "Reverse",
        351,
        "26+25+24+23+22+21+20+19+18+17+16+15+14+13+12+11+10+9+8+7+6+5+4+3+2+1",
    );
}

#[test]
fn repeated_calls_agree() {
    let text = "The Quick Brown Fox, 1999!";
    assert_eq!(compute(text), compute(text));
}

#[test]
fn letter_case_does_not_matter() {
    assert_eq!(compute("Hello World"), compute("hELLO wORLD"));
    assert_eq!(compute("MiXeD 42"), compute("mixed 42"));
}

#[test]
fn standard_and_reverse_sum_to_27_per_letter() {
    let r = compute("Gematria, decoded!");
    let s = values(&r[0].breakdown);
    let v = values(&r[1].breakdown);
    assert_eq!(s.len(), 15);
    assert_eq!(s.len(), v.len());
    for i in 0..s.len() {
        assert_eq!(s[i] + v[i], 27);
    }
    assert_eq!(r[0].score + r[1].score, 27 * 15);
}

#[test]
fn reduction_score_between_one_and_nine_per_letter() {
    for text in ["", "q", "Hello World", "zzzz", "iiii", "abc xyz 123"] {
        let r = compute(text);
        let k = text.chars().filter(|c| c.is_ascii_alphabetic()).count() as u64;
        if text.is_empty() {
            assert!(r.is_empty());
            continue;
        }
        assert!(k <= r[2].score && r[2].score <= 9 * k);
    }
    assert_eq!(compute("iiii")[2].score, 36);
    assert_eq!(compute("aaaa")[2].score, 4);
}
