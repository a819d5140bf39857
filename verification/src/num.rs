//! Decimal text: parsing unsigned integers the way the standard library's
//! `from_str` does (an optional leading `+`, then decimal digits, overflow
//! rejected), parsing bare digit runs, and formatting a number back into its
//! canonical decimal text.

use vstd::prelude::*;

verus! {

/// Is `c` an ASCII decimal digit?
pub open spec fn is_dec_digit(c: char) -> bool {
    48 <= c as u32 <= 57
}

/// The numeric value of a decimal digit.
pub open spec fn dec_digit_val(c: char) -> nat {
    (c as u32 - 48) as nat
}

/// Every character of `s` is a decimal digit.
pub open spec fn all_dec_digits(s: Seq<char>) -> bool {
    forall|i: int| 0 <= i < s.len() ==> is_dec_digit(#[trigger] s[i])
}

/// The value of a digit sequence read left to right.
pub open spec fn dec_val(s: Seq<char>) -> nat
    decreases s.len(),
{
    if s.len() == 0 {
        0
    } else {
        dec_val(s.drop_last()) * 10 + dec_digit_val(s.last())
    }
}

/// A digit run with no sign: nonempty and all digits.
pub open spec fn is_digit_run(s: Seq<char>) -> bool {
    s.len() > 0 && all_dec_digits(s)
}

/// The digit part of an integer literal as std's unsigned `from_str` reads it:
/// one optional leading `+`, then the digits.
pub open spec fn spec_strip_plus(s: Seq<char>) -> Seq<char> {
    if s.len() > 0 && s[0] == '+' {
        s.subrange(1, s.len() as int)
    } else {
        s
    }
}

/// What `str::parse::<u16>` returns on `s`.
pub open spec fn spec_parse_u16(s: Seq<char>) -> Option<u16> {
    let body = spec_strip_plus(s);
    if is_digit_run(body) && dec_val(body) <= 65535 {
        Some(dec_val(body) as u16)
    } else {
        None
    }
}

/// What `str::parse::<u32>` returns on `s`.
pub open spec fn spec_parse_u32(s: Seq<char>) -> Option<u32> {
    let body = spec_strip_plus(s);
    if is_digit_run(body) && dec_val(body) <= 0xffff_ffff {
        Some(dec_val(body) as u32)
    } else {
        None
    }
}

/// The digit character for a value below ten.
pub open spec fn dec_char(d: nat) -> char {
    if d == 0 { '0' }
    else if d == 1 { '1' }
    else if d == 2 { '2' }
    else if d == 3 { '3' }
    else if d == 4 { '4' }
    else if d == 5 { '5' }
    else if d == 6 { '6' }
    else if d == 7 { '7' }
    else if d == 8 { '8' }
    else { '9' }
}

/// The canonical decimal text of `n`: no sign, no leading zero (except for
/// zero itself).
pub open spec fn dec_str(n: nat) -> Seq<char>
    decreases n,
{
    if n < 10 {
        seq![dec_char(n)]
    } else {
        dec_str(n / 10) + seq![dec_char(n % 10)]
    }
}

/// `dec_char` always yields a digit, and one that reads back as its argument.
pub proof fn lemma_dec_char_val(d: nat)
    requires
        d < 10,
    ensures
        is_dec_digit(dec_char(d)),
        dec_digit_val(dec_char(d)) == d,
{
}

/// The canonical decimal text is a digit run without a leading zero, and its
/// value is the number it was built from.
pub proof fn lemma_dec_str_canon(n: nat)
    ensures
        is_digit_run(dec_str(n)),
        dec_val(dec_str(n)) == n,
        n > 0 ==> dec_str(n)[0] != '0',
        n == 0 ==> dec_str(n) == seq!['0'],
    decreases n,
{
    if n < 10 {
        lemma_dec_char_val(n);
        assert(dec_str(n) =~= seq![dec_char(n)]);
        assert(dec_str(n).drop_last() =~= Seq::<char>::empty());
        assert(dec_val(Seq::<char>::empty()) == 0);
        assert(dec_str(n).last() == dec_char(n));
    } else {
        lemma_dec_str_canon(n / 10);
        lemma_dec_char_val(n % 10);
        let w = dec_str(n);
        assert(w =~= dec_str(n / 10) + seq![dec_char(n % 10)]);
        assert(w.drop_last() =~= dec_str(n / 10));
        assert(w.last() == dec_char(n % 10));
        assert(dec_val(w) == dec_val(dec_str(n / 10)) * 10 + dec_digit_val(dec_char(n % 10)));
        assert(dec_val(w) == (n / 10) * 10 + n % 10);
        assert((n / 10) * 10 + n % 10 == n) by (nonlinear_arith);
        assert forall|i: int| 0 <= i < w.len() implies is_dec_digit(#[trigger] w[i]) by {
            if i < w.len() - 1 {
                assert(w[i] == dec_str(n / 10)[i]);
            }
        }
        assert(w[0] == dec_str(n / 10)[0]);
    }
}

/// The number of digits in the canonical text grows with the number: below
/// ten, one digit; below a hundred, at most two; and so on.
pub proof fn lemma_dec_str_len(n: nat)
    ensures
        dec_str(n).len() >= 1,
        n < 10 ==> dec_str(n).len() == 1,
        n < 100 ==> dec_str(n).len() <= 2,
        n < 1000 ==> dec_str(n).len() <= 3,
    decreases n,
{
    if n >= 10 {
        lemma_dec_str_len(n / 10);
    }
}

/// Appending one digit multiplies the value by ten and adds the digit.
pub proof fn lemma_dec_val_push(s: Seq<char>, c: char)
    ensures
        dec_val(s.push(c)) == dec_val(s) * 10 + dec_digit_val(c),
{
    assert(s.push(c).drop_last() =~= s);
    assert(s.push(c).last() == c);
}

/// Parses `s` as `str::parse::<u16>` does.
pub fn parse_u16_str(s: &str) -> (r: Option<u16>)
    ensures
        r == spec_parse_u16(s@),
{
    let n = s.unicode_len();
    let start: usize = if n > 0 && s.get_char(0) == '+' { 1 } else { 0 };
    proof {
        assert(spec_strip_plus(s@) =~= s@.subrange(start as int, n as int));
    }
    match parse_digit_run_capped(s, start, n, 65535) {
        Some(v) => Some(v as u16),
        None => None,
    }
}

/// Parses `s` as `str::parse::<u32>` does.
pub fn parse_u32_str(s: &str) -> (r: Option<u32>)
    ensures
        r == spec_parse_u32(s@),
{
    let n = s.unicode_len();
    let start: usize = if n > 0 && s.get_char(0) == '+' { 1 } else { 0 };
    proof {
        assert(spec_strip_plus(s@) =~= s@.subrange(start as int, n as int));
    }
    match parse_digit_run_capped(s, start, n, 0xffff_ffff) {
        Some(v) => Some(v as u32),
        None => None,
    }
}

/// Reads `s[from..to]` as a digit run and returns its value when that run is
/// nonempty, all digits, and no larger than `cap`.
pub fn parse_digit_run_capped(s: &str, from: usize, to: usize, cap: u64) -> (r: Option<u64>)
    requires
        from <= to <= s@.len(),
        cap <= 0x0fff_ffff_ffff_ffffu64,
    ensures
        ({
            let body = s@.subrange(from as int, to as int);
            if is_digit_run(body) && dec_val(body) <= cap {
                r == Some(dec_val(body) as u64)
            } else {
                r is None
            }
        }),
{
    let ghost body = s@.subrange(from as int, to as int);
    if from == to {
        return None;
    }
    let mut acc: u64 = 0;
    let mut i: usize = from;
    while i < to
        invariant
            from <= i <= to <= s@.len(),
            body == s@.subrange(from as int, to as int),
            cap <= 0x0fff_ffff_ffff_ffffu64,
            all_dec_digits(s@.subrange(from as int, i as int)),
            dec_val(s@.subrange(from as int, i as int)) <= cap
                ==> acc == dec_val(s@.subrange(from as int, i as int)),
            dec_val(s@.subrange(from as int, i as int)) > cap ==> acc > cap,
            acc <= 10 * cap + 19,
        decreases to - i,
    {
        let c = s.get_char(i);
        let cv = c as u32;
        if !(48 <= cv && cv <= 57) {
            proof {
                assert(body[i - from] == c);
                assert(!is_dec_digit(c));
            }
            return None;
        }
        let ghost pre = s@.subrange(from as int, i as int);
        let ghost post = s@.subrange(from as int, i + 1 as int);
        proof {
            assert(post =~= pre.push(c));
            lemma_dec_val_push(pre, c);
        }
        let d: u64 = (cv - 48) as u64;
        if acc > cap {
            acc = cap + 1;
        }
        acc = acc * 10 + d;
        i = i + 1;
    }
    proof {
        assert(s@.subrange(from as int, i as int) =~= body);
    }
    if acc <= cap {
        Some(acc)
    } else {
        None
    }
}

/// The canonical decimal text of `n`, as a freshly built string.
pub fn to_dec_string(n: u64) -> (r: String)
    ensures
        r@ == dec_str(n as nat),
    decreases n,
{
    if n < 10 {
        digit_string(n)
    } else {
        let mut r = to_dec_string(n / 10);
        let d = digit_string(n % 10);
        r.append(d.as_str());
        r
    }
}

/// The one-character string for a value below ten.
fn digit_string(d: u64) -> (r: String)
    requires
        d < 10,
    ensures
        r@ == seq![dec_char(d as nat)],
{
    let r = if d == 0 {
        proof { reveal_strlit("0"); }
        String::from_str("0")
    } else if d == 1 {
        proof { reveal_strlit("1"); }
        String::from_str("1")
    } else if d == 2 {
        proof { reveal_strlit("2"); }
        String::from_str("2")
    } else if d == 3 {
        proof { reveal_strlit("3"); }
        String::from_str("3")
    } else if d == 4 {
        proof { reveal_strlit("4"); }
        String::from_str("4")
    } else if d == 5 {
        proof { reveal_strlit("5"); }
        String::from_str("5")
    } else if d == 6 {
        proof { reveal_strlit("6"); }
        String::from_str("6")
    } else if d == 7 {
        proof { reveal_strlit("7"); }
        String::from_str("7")
    } else if d == 8 {
        proof { reveal_strlit("8"); }
        String::from_str("8")
    } else {
        proof { reveal_strlit("9"); }
        String::from_str("9")
    };
    proof {
        assert(r@ =~= seq![dec_char(d as nat)]);
    }
    r
}

} // verus!
