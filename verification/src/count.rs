use vstd::prelude::*;
use vstd::string::*;

verus! {

pub open spec fn spec_is_space(c: char) -> bool {
    c == ' ' || c == '\t' || c == '\n' || c == '\r'
}

pub open spec fn spec_is_digit(c: char) -> bool {
    '0' <= c && c <= '9'
}

pub open spec fn spec_digit_val(c: char) -> int {
    c as int - '0' as int
}

/// Index of the first non-whitespace character at or after `from`, or
/// `s.len()` when there is none.
pub open spec fn spec_first_non_space(s: Seq<char>, from: int) -> int
    decreases s.len() - from,
{
    if from < 0 || from >= s.len() {
        s.len() as int
    } else if !spec_is_space(s[from]) {
        from
    } else {
        spec_first_non_space(s, from + 1)
    }
}

/// Index of the last non-whitespace character strictly before `upto`, or `-1`.
pub open spec fn spec_last_non_space(s: Seq<char>, upto: int) -> int
    decreases upto,
{
    if upto <= 0 {
        -1
    } else if !spec_is_space(s[upto - 1]) {
        upto - 1
    } else {
        spec_last_non_space(s, upto - 1)
    }
}

/// `s` without leading and trailing whitespace.
pub open spec fn spec_trim(s: Seq<char>) -> Seq<char> {
    let lo = spec_first_non_space(s, 0);
    let hi = spec_last_non_space(s, s.len() as int);
    if lo > hi {
        Seq::empty()
    } else {
        s.subrange(lo, hi + 1)
    }
}

/// `s` without its `','` thousands separators.
pub open spec fn spec_strip_commas(s: Seq<char>) -> Seq<char>
    decreases s.len(),
{
    if s.len() == 0 {
        Seq::empty()
    } else {
        let rest = spec_strip_commas(s.drop_last());
        if s.last() == ',' {
            rest
        } else {
            rest.push(s.last())
        }
    }
}

pub open spec fn spec_all_digits(s: Seq<char>) -> bool {
    forall|i: int| 0 <= i < s.len() ==> spec_is_digit(#[trigger] s[i])
}

/// The number a string of decimal digits denotes.
pub open spec fn spec_digits_val(s: Seq<char>) -> int
    decreases s.len(),
{
    if s.len() == 0 {
        0
    } else {
        spec_digits_val(s.drop_last()) * 10 + spec_digit_val(s.last())
    }
}

/// The repository count a human-formatted count text denotes: the text,
/// trimmed and with thousands separators stripped, read as a decimal number.
/// `None` when nothing is left, a character is no digit, or the number does
/// not fit.
pub open spec fn spec_parse_count(s: Seq<char>) -> Option<u32> {
    let t = spec_strip_commas(spec_trim(s));
    if t.len() == 0 || !spec_all_digits(t) {
        None
    } else if spec_digits_val(t) > u32::MAX {
        None
    } else {
        Some(spec_digits_val(t) as u32)
    }
}

/// The digit character for the value `d`.
pub open spec fn spec_digit_char(d: int) -> char {
    if d == 0 {
        '0'
    } else if d == 1 {
        '1'
    } else if d == 2 {
        '2'
    } else if d == 3 {
        '3'
    } else if d == 4 {
        '4'
    } else if d == 5 {
        '5'
    } else if d == 6 {
        '6'
    } else if d == 7 {
        '7'
    } else if d == 8 {
        '8'
    } else {
        '9'
    }
}

/// The decimal text of the non-negative number `n`, most significant digit
/// first, without leading zeros (a single `'0'` for zero).
pub open spec fn spec_dec_digits(n: int) -> Seq<char>
    decreases n,
{
    if n < 10 {
        seq![spec_digit_char(n)]
    } else {
        spec_dec_digits(n / 10).push(spec_digit_char(n % 10))
    }
}

fn digit_str(d: u32) -> (r: &'static str)
    requires
        d < 10,
    ensures
        r@ == seq![spec_digit_char(d as int)],
{
    proof {
        reveal_strlit("0");
        reveal_strlit("1");
        reveal_strlit("2");
        reveal_strlit("3");
        reveal_strlit("4");
        reveal_strlit("5");
        reveal_strlit("6");
        reveal_strlit("7");
        reveal_strlit("8");
        reveal_strlit("9");
    }
    let r: &'static str = match d {
        0 => "0",
        1 => "1",
        2 => "2",
        3 => "3",
        4 => "4",
        5 => "5",
        6 => "6",
        7 => "7",
        8 => "8",
        _ => "9",
    };
    proof {
        assert(r@ =~= seq![spec_digit_char(d as int)]);
    }
    r
}

/// Writes `n` in decimal.
pub fn u32_to_dec(n: u32) -> (r: String)
    ensures
        r@ == spec_dec_digits(n as int),
    decreases n,
{
    if n < 10 {
        digit_str(n).to_owned()
    } else {
        let prefix = u32_to_dec(n / 10);
        let r = prefix.concat(digit_str(n % 10));
        proof {
            assert(r@ =~= spec_dec_digits(n as int));
        }
        r
    }
}

proof fn lemma_digits_val_nonneg(s: Seq<char>)
    requires
        spec_all_digits(s),
    ensures
        spec_digits_val(s) >= 0,
    decreases s.len(),
{
    if s.len() > 0 {
        assert(spec_all_digits(s.drop_last()));
        lemma_digits_val_nonneg(s.drop_last());
        assert(spec_digit_val(s.last()) >= 0);
    }
}

/// A digit string denotes at least what any of its prefixes denotes.
proof fn lemma_digits_val_take_le(s: Seq<char>, k: int)
    requires
        0 <= k <= s.len(),
        spec_all_digits(s),
    ensures
        spec_digits_val(s.take(k)) <= spec_digits_val(s),
    decreases s.len() - k,
{
    if k == s.len() {
        assert(s.take(k) =~= s);
    } else {
        assert(s.take(k + 1).drop_last() =~= s.take(k));
        assert(s.take(k + 1).last() == s[k]);
        assert(spec_all_digits(s.take(k)));
        lemma_digits_val_nonneg(s.take(k));
        assert(spec_digits_val(s.take(k + 1)) == spec_digits_val(s.take(k)) * 10 + spec_digit_val(
            s[k],
        ));
        lemma_digits_val_take_le(s, k + 1);
    }
}

fn first_non_space(s: &str) -> (r: usize)
    ensures
        r == spec_first_non_space(s@, 0),
        r <= s@.len(),
{
    let n = s.unicode_len();
    let mut i: usize = 0;
    while i < n
        invariant
            0 <= i <= n,
            n == s@.len(),
            spec_first_non_space(s@, 0) == spec_first_non_space(s@, i as int),
        decreases n - i,
    {
        let c = s.get_char(i);
        if !(c == ' ' || c == '\t' || c == '\n' || c == '\r') {
            return i;
        }
        i = i + 1;
    }
    i
}

/// One past the index of the last non-whitespace character; `0` when there
/// is none.
fn last_non_space_end(s: &str) -> (r: usize)
    ensures
        r == spec_last_non_space(s@, s@.len() as int) + 1,
        r <= s@.len(),
{
    let n = s.unicode_len();
    let mut i: usize = n;
    while i > 0
        invariant
            0 <= i <= n,
            n == s@.len(),
            spec_last_non_space(s@, n as int) == spec_last_non_space(s@, i as int),
        decreases i,
    {
        let c = s.get_char(i - 1);
        if !(c == ' ' || c == '\t' || c == '\n' || c == '\r') {
            return i;
        }
        i = i - 1;
    }
    0
}

/// Reads a human-formatted repository count: whitespace around it ignored,
/// `','` thousands separators stripped, the rest a decimal number that fits
/// a `u32`.
pub fn parse_count_text(text: &str) -> (r: Option<u32>)
    ensures
        r == spec_parse_count(text@),
{
    let lo = first_non_space(text);
    let hi1 = last_non_space_end(text);
    let trimmed: &str = if lo < hi1 {
        text.substring_char(lo, hi1)
    } else {
        proof {
            reveal_strlit("");
        }
        ""
    };
    proof {
        assert(trimmed@ =~= spec_trim(text@));
    }
    let n = trimmed.unicode_len();
    let mut cleaned: Vec<char> = Vec::new();
    let mut i: usize = 0;
    while i < n
        invariant
            0 <= i <= n,
            n == trimmed@.len(),
            cleaned@ == spec_strip_commas(trimmed@.take(i as int)),
        decreases n - i,
    {
        let c = trimmed.get_char(i);
        proof {
            assert(trimmed@.take(i + 1).drop_last() =~= trimmed@.take(i as int));
            assert(trimmed@.take(i + 1).last() == c);
        }
        if c != ',' {
            cleaned.push(c);
        }
        i = i + 1;
    }
    proof {
        assert(trimmed@.take(n as int) =~= trimmed@);
    }
    let ghost t = spec_strip_commas(spec_trim(text@));
    if cleaned.len() == 0 {
        return None;
    }
    let mut j: usize = 0;
    while j < cleaned.len()
        invariant
            0 <= j <= cleaned@.len(),
            t == spec_strip_commas(spec_trim(text@)),
            cleaned@ == t,
            forall|k: int| 0 <= k < j ==> spec_is_digit(#[trigger] cleaned@[k]),
        decreases cleaned@.len() - j,
    {
        let c = cleaned[j];
        if !('0' <= c && c <= '9') {
            proof {
                assert(t[j as int] == c);
                assert(!spec_is_digit(t[j as int]));
                assert(!spec_all_digits(t));
            }
            return None;
        }
        j = j + 1;
    }
    assert(spec_all_digits(t));
    let mut val: u32 = 0;
    let mut k: usize = 0;
    while k < cleaned.len()
        invariant
            0 <= k <= cleaned@.len(),
            t == spec_strip_commas(spec_trim(text@)),
            cleaned@ == t,
            spec_all_digits(t),
            val == spec_digits_val(t.take(k as int)),
        decreases cleaned@.len() - k,
    {
        let c = cleaned[k];
        assert(spec_is_digit(c));
        let d = (c as u32) - 48;
        proof {
            assert(d == spec_digit_val(c));
            assert(t.take(k + 1).drop_last() =~= t.take(k as int));
            assert(t.take(k + 1).last() == c);
            lemma_digits_val_nonneg(t.take(k as int));
            vstd::arithmetic::div_mod::lemma_fundamental_div_mod((u32::MAX - d) as int, 10);
            vstd::arithmetic::div_mod::lemma_mod_bound((u32::MAX - d) as int, 10);
        }
        if val > (u32::MAX - d) / 10 {
            proof {
                assert(spec_digits_val(t.take(k + 1)) == val * 10 + d);
                assert(spec_digits_val(t.take(k + 1)) > u32::MAX);
                lemma_digits_val_take_le(t, k + 1);
                assert(spec_digits_val(t) > u32::MAX);
            }
            return None;
        }
        val = val * 10 + d;
        k = k + 1;
    }
    proof {
        assert(t.take(cleaned@.len() as int) =~= t);
    }
    Some(val)
}

} // verus!
