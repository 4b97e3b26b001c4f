//! The cipher engine and its mathematical model.
use vstd::prelude::*;

verus! {

/// A Latin letter of either case; every other character is skipped.
pub open spec fn is_letter(c: char) -> bool {
    ('A' <= c && c <= 'Z') || ('a' <= c && c <= 'z')
}

/// Position of a letter in the alphabet, ignoring case: A = 1, ..., Z = 26.
pub open spec fn alphabet_position(c: char) -> int {
    if 'A' <= c && c <= 'Z' {
        c as int - 64
    } else {
        c as int - 96
    }
}

/// The alphabet positions of the letters of `s`, in order.
pub open spec fn letter_positions(s: Seq<char>) -> Seq<int>
    decreases s.len(),
{
    if s.len() == 0 {
        Seq::empty()
    } else if is_letter(s.last()) {
        letter_positions(s.drop_last()).push(alphabet_position(s.last()))
    } else {
        letter_positions(s.drop_last())
    }
}

/// Exec form of `alphabet_position`, defined on letters only.
fn position_of(c: char) -> (r: Option<u64>)
    ensures
        r is Some <==> is_letter(c),
        r is Some ==> r->0 == alphabet_position(c) && 1 <= r->0 <= 26,
{
    if 'A' <= c && c <= 'Z' {
        Some(c as u64 - 64)
    } else if 'a' <= c && c <= 'z' {
        Some(c as u64 - 96)
    } else {
        None
    }
}

/// Standard scheme: the alphabet position itself.
pub open spec fn standard_value(p: int) -> int {
    p
}

/// Reverse scheme: the position counted from the end, A = 26, ..., Z = 1.
pub open spec fn reverse_value(p: int) -> int {
    27 - p
}

/// Reduction scheme: the position folded cyclically into 1..=9.
pub open spec fn reduction_value(p: int) -> int {
    (p - 1) % 9 + 1
}

/// Per-letter values of `s` under the standard scheme.
pub open spec fn standard_values(s: Seq<char>) -> Seq<int> {
    letter_positions(s).map_values(|p: int| standard_value(p))
}

/// Per-letter values of `s` under the reverse scheme.
pub open spec fn reverse_values(s: Seq<char>) -> Seq<int> {
    letter_positions(s).map_values(|p: int| reverse_value(p))
}

/// Per-letter values of `s` under the reduction scheme.
pub open spec fn reduction_values(s: Seq<char>) -> Seq<int> {
    letter_positions(s).map_values(|p: int| reduction_value(p))
}

/// Sum of a sequence of values.
pub open spec fn total(v: Seq<int>) -> int
    decreases v.len(),
{
    if v.len() == 0 {
        0
    } else {
        total(v.drop_last()) + v.last()
    }
}

/// The ASCII digit for `d` in 0..=9.
pub open spec fn digit_char(d: nat) -> char {
    ((d + 48) as u8) as char
}

/// Decimal notation of `n`, without leading zeros.
pub open spec fn decimal(n: nat) -> Seq<char>
    decreases n,
{
    if n < 10 {
        seq![digit_char(n)]
    } else {
        decimal(n / 10).push(digit_char(n % 10))
    }
}

/// The values of `v` in decimal, in order, separated by `+`.
pub open spec fn joined(v: Seq<int>) -> Seq<char>
    decreases v.len(),
{
    if v.len() == 0 {
        Seq::empty()
    } else if v.len() == 1 {
        decimal(v[0] as nat)
    } else {
        joined(v.drop_last()) + seq!['+'] + decimal(v.last() as nat)
    }
}

/// The single-digit string for `d`.
fn digit_text(d: u64) -> (r: &'static str)
    requires
        d < 10,
    ensures
        r@ == seq![digit_char(d as nat)],
{
    proof {
        reveal_strlit("0");
        reveal_strlit("1");
        reveal_strlit("2");
        reveal_strlit("3");
        reveal_strlit("4");
        reveal_strlit("5");
        reveal_strlit("6");
        reveal_strlit("7");
        reveal_strlit("8");
        reveal_strlit("9");
    }
    match d {
        0 => "0",
        1 => "1",
        2 => "2",
        3 => "3",
        4 => "4",
        5 => "5",
        6 => "6",
        7 => "7",
        8 => "8",
        _ => "9",
    }
}

/// Appends the decimal notation of a number below 100 to `out`.
fn append_decimal(out: &mut String, n: u64)
    requires
        n < 100,
    ensures
        final(out)@ == old(out)@ + decimal(n as nat),
{
    if n >= 10 {
        out.append(digit_text(n / 10));
        assert(decimal((n / 10) as nat) == seq![digit_char((n / 10) as nat)]);
    }
    out.append(digit_text(n % 10));
    assert(final(out)@ =~= old(out)@ + decimal(n as nat));
}

/// The most characters whose scores are sure to fit in a `u64`.
pub const MAX_TEXT_CHARS: u64 = 709_490_156_681_136_600;

/// One scheme's outcome: its name, its score, and a display breakdown.
#[derive(Clone, Debug, PartialEq, Eq)]
pub struct CipherResult {
    pub name: String,
    pub score: u64,
    pub breakdown: String,
}

impl View for CipherResult {
    type V = (Seq<char>, int, Seq<char>);

    open spec fn view(&self) -> (Seq<char>, int, Seq<char>) {
        (self.name@, self.score as int, self.breakdown@)
    }
}

/// Name of the standard scheme.
pub open spec fn standard_name() -> Seq<char> {
    "Standard"@
}

/// Name of the reverse scheme.
pub open spec fn reverse_name() -> Seq<char> {
    "Reverse"@
}

/// Name of the reduction scheme.
pub open spec fn reduction_name() -> Seq<char> {
    "Reduction"@
}

/// Breakdown shown for the reduction scheme, which exposes no per-letter detail.
pub open spec fn reduction_placeholder() -> Seq<char> {
    "Reduced"@
}

/// What `compute` returns for `s`: nothing for empty text, otherwise the
/// standard, reverse and reduction results, in that order.
pub open spec fn results_of(s: Seq<char>) -> Seq<(Seq<char>, int, Seq<char>)> {
    if s.len() == 0 {
        Seq::empty()
    } else {
        seq![
            (standard_name(), total(standard_values(s)), joined(standard_values(s))),
            (reverse_name(), total(reverse_values(s)), joined(reverse_values(s))),
            (reduction_name(), total(reduction_values(s)), reduction_placeholder()),
        ]
    }
}

/// Scores `text` under the three schemes. Letters count regardless of case;
/// every other character is skipped.
pub fn compute(text: &str) -> (r: Vec<CipherResult>)
    requires
        text@.len() <= MAX_TEXT_CHARS,
    ensures
        r@.map_values(|x: CipherResult| x@) == results_of(text@),
{
    if text.unicode_len() == 0 {
        return Vec::new();
    }
    let mut std_sum: u64 = 0;
    let mut rev_sum: u64 = 0;
    let mut red_sum: u64 = 0;
    let mut std_parts = String::new();
    let mut rev_parts = String::new();
    let mut count: u64 = 0;
    for c in it: text.chars()
        invariant
            it.seq() == text@,
            text@.len() <= MAX_TEXT_CHARS,
            count <= it.index(),
            count == letter_positions(text@.take(it.index() as int)).len(),
            std_sum <= 26 * count,
            rev_sum <= 26 * count,
            red_sum <= 9 * count,
            std_sum == total(standard_values(text@.take(it.index() as int))),
            rev_sum == total(reverse_values(text@.take(it.index() as int))),
            red_sum == total(reduction_values(text@.take(it.index() as int))),
            std_parts@ == joined(standard_values(text@.take(it.index() as int))),
            rev_parts@ == joined(reverse_values(text@.take(it.index() as int))),
    {
        let ghost before = text@.take(it.index() as int);
        let ghost after = text@.take(it.index() + 1);
        assert(after.drop_last() =~= before);
        assert(after.last() == c);
        if let Some(p) = position_of(c) {
            if count > 0 {
                std_parts.append("+");
                rev_parts.append("+");
            }
            append_decimal(&mut std_parts, p);
            append_decimal(&mut rev_parts, 27 - p);
            std_sum = std_sum + p;
            rev_sum = rev_sum + (27 - p);
            red_sum = red_sum + ((p - 1) % 9 + 1);
            count = count + 1;
            proof {
                reveal_strlit("+");
                let lp = letter_positions(after);
                assert(lp == letter_positions(before).push(p as int));
                assert(standard_values(after) =~= standard_values(before).push(p as int));
                assert(reverse_values(after) =~= reverse_values(before).push(27 - p));
                assert(reduction_values(after) =~= reduction_values(before).push((p - 1) % 9 + 1));
                assert(standard_values(after).drop_last() =~= standard_values(before));
                assert(reverse_values(after).drop_last() =~= reverse_values(before));
                assert(reduction_values(after).drop_last() =~= reduction_values(before));
            }
        } else {
            proof {
                assert(letter_positions(after) == letter_positions(before));
            }
        }
    }
    assert(text@.take(text@.len() as int) =~= text@);
    let results = vec![
        CipherResult { name: String::from_str("Standard"), score: std_sum, breakdown: std_parts },
        CipherResult { name: String::from_str("Reverse"), score: rev_sum, breakdown: rev_parts },
        CipherResult {
            name: String::from_str("Reduction"),
            score: red_sum,
            breakdown: String::from_str("Reduced"),
        },
    ];
    assert(results@.map_values(|x: CipherResult| x@) =~= results_of(text@));
    results
}

} // verus!
