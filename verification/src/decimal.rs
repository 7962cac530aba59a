//! Decimal text of integers: printing (as `Display` does) and parsing (as
//! `str::parse` does for `i32` and `usize`), with the law that parsing gives
//! back what printing wrote.
use vstd::prelude::*;

verus! {

/// The ASCII digit for `d` (0..=9).
pub open spec fn digit_char(d: int) -> char {
    if d <= 0 {
        '0'
    } else if d == 1 {
        '1'
    } else if d == 2 {
        '2'
    } else if d == 3 {
        '3'
    } else if d == 4 {
        '4'
    } else if d == 5 {
        '5'
    } else if d == 6 {
        '6'
    } else if d == 7 {
        '7'
    } else if d == 8 {
        '8'
    } else {
        '9'
    }
}

/// `c` is an ASCII digit.
pub open spec fn is_digit(c: char) -> bool {
    '0' <= c && c <= '9'
}

/// The value of the ASCII digit `c`.
pub open spec fn digit_value(c: char) -> int {
    c as int - '0' as int
}

/// Decimal text of a natural number, without leading zeros.
pub open spec fn dec_nat(n: nat) -> Seq<char>
    decreases n,
{
    if n < 10 {
        seq![digit_char(n as int)]
    } else {
        dec_nat(n / 10).push(digit_char((n % 10) as int))
    }
}

/// Decimal text of an integer, with a leading `-` when negative.
pub open spec fn dec_int(i: int) -> Seq<char> {
    if i < 0 {
        seq!['-'] + dec_nat((-i) as nat)
    } else {
        dec_nat(i as nat)
    }
}

/// Every character of `s` is an ASCII digit.
pub open spec fn all_digits(s: Seq<char>) -> bool {
    forall|k: int| 0 <= k < s.len() ==> is_digit(#[trigger] s[k])
}

/// The number that the digits of `s` spell, most significant first.
pub open spec fn digits_value(s: Seq<char>) -> int
    decreases s.len(),
{
    if s.len() == 0 {
        0
    } else {
        digits_value(s.drop_last()) * 10 + digit_value(s.last())
    }
}

/// What `str::parse` gives for an integer type whose values are `lo..=hi`:
/// an optional sign (`-` only where `signed`), then one or more ASCII digits,
/// whose value must lie in range.
pub open spec fn parse_int(s: Seq<char>, signed: bool, lo: int, hi: int) -> Option<int> {
    let neg = s.len() > 0 && s[0] == '-' && signed;
    let body = if s.len() > 0 && (s[0] == '+' || (s[0] == '-' && signed)) {
        s.drop_first()
    } else {
        s
    };
    if body.len() == 0 || !all_digits(body) {
        None
    } else {
        let v = if neg {
            -digits_value(body)
        } else {
            digits_value(body)
        };
        if lo <= v <= hi {
            Some(v)
        } else {
            None
        }
    }
}

/// What `str::parse::<i32>` gives.
pub open spec fn parse_i32_spec(s: Seq<char>) -> Option<int> {
    parse_int(s, true, i32::MIN as int, i32::MAX as int)
}

/// What `str::parse::<usize>` gives.
pub open spec fn parse_usize_spec(s: Seq<char>) -> Option<int> {
    parse_int(s, false, 0, usize::MAX as int)
}

fn digit_of(d: u64) -> (c: char)
    requires
        d < 10,
    ensures
        c == digit_char(d as int),
{
    if d == 0 {
        '0'
    } else if d == 1 {
        '1'
    } else if d == 2 {
        '2'
    } else if d == 3 {
        '3'
    } else if d == 4 {
        '4'
    } else if d == 5 {
        '5'
    } else if d == 6 {
        '6'
    } else if d == 7 {
        '7'
    } else if d == 8 {
        '8'
    } else {
        '9'
    }
}

/// Decimal digits of `n`.
pub fn nat_digits(n: u64) -> (res: Vec<char>)
    ensures
        res@ == dec_nat(n as nat),
    decreases n,
{
    if n < 10 {
        let mut v: Vec<char> = Vec::new();
        v.push(digit_of(n));
        v
    } else {
        let mut v = nat_digits(n / 10);
        v.push(digit_of(n % 10));
        v
    }
}

/// Decimal text of an `i32`, as its `Display` writes it.
pub fn i32_digits(i: i32) -> (res: Vec<char>)
    ensures
        res@ == dec_int(i as int),
{
    if i < 0 {
        let m: i64 = -(i as i64);
        let d = nat_digits(m as u64);
        let mut v: Vec<char> = Vec::new();
        v.push('-');
        let mut k: usize = 0;
        while k < d.len()
            invariant
                k <= d@.len(),
                v@ == seq!['-'] + d@.take(k as int),
            decreases d@.len() - k,
        {
            v.push(d[k]);
            assert(seq!['-'] + d@.take(k + 1) =~= (seq!['-'] + d@.take(k as int)).push(d@[k as int]));
            k = k + 1;
        }
        assert(d@.take(d@.len() as int) =~= d@);
        v
    } else {
        nat_digits(i as u64)
    }
}

/// Decimal text of a `u16`, as its `Display` writes it.
pub fn u16_digits(n: u16) -> (res: Vec<char>)
    ensures
        res@ == dec_nat(n as nat),
{
    nat_digits(n as u64)
}

proof fn lemma_digits_value_nonneg(s: Seq<char>)
    requires
        all_digits(s),
    ensures
        digits_value(s) >= 0,
    decreases s.len(),
{
    if s.len() > 0 {
        assert(all_digits(s.drop_last())) by {
            assert forall|k: int| 0 <= k < s.drop_last().len() implies is_digit(
                #[trigger] s.drop_last()[k],
            ) by {
                assert(s.drop_last()[k] == s[k]);
            }
        }
        lemma_digits_value_nonneg(s.drop_last());
        assert(is_digit(s[s.len() - 1]));
    }
}

proof fn lemma_digits_value_prefix(s: Seq<char>, k: int)
    requires
        all_digits(s),
        0 <= k <= s.len(),
    ensures
        digits_value(s.take(k)) <= digits_value(s),
    decreases s.len() - k,
{
    if k < s.len() {
        lemma_digits_value_prefix(s, k + 1);
        let t = s.take(k + 1);
        assert(t.drop_last() =~= s.take(k));
        assert(is_digit(s[k]));
        assert(t.last() == s[k]);
        assert(all_digits(s.take(k))) by {
            assert forall|j: int| 0 <= j < s.take(k).len() implies is_digit(
                #[trigger] s.take(k)[j],
            ) by {
                assert(s.take(k)[j] == s[j]);
            }
        }
        lemma_digits_value_nonneg(s.take(k));
    } else {
        assert(s.take(k) =~= s);
    }
}

/// Parses `body` as one or more ASCII digits whose value is at most `limit`.
fn parse_digits(body: &[char], limit: u64) -> (r: Option<u64>)
    ensures
        r == (if body@.len() == 0 || !all_digits(body@) || digits_value(body@) > limit {
            None::<u64>
        } else {
            Some(digits_value(body@) as u64)
        }),
{
    if body.len() == 0 {
        return None;
    }
    let mut acc: u128 = 0;
    let mut i: usize = 0;
    let mut too_big = false;
    while i < body.len()
        invariant
            i <= body@.len(),
            all_digits(body@.take(i as int)),
            !too_big ==> acc == digits_value(body@.take(i as int)),
            !too_big ==> acc <= limit,
            too_big ==> digits_value(body@.take(i as int)) > limit,
        decreases body@.len() - i,
    {
        let c = body[i];
        if !('0' <= c && c <= '9') {
            assert(!all_digits(body@)) by {
                assert(!is_digit(body@[i as int]));
            }
            return None;
        }
        let d = (c as u32 - '0' as u32) as u128;
        let ghost t = body@.take(i + 1);
        assert(t.drop_last() =~= body@.take(i as int));
        assert(t.last() == c);
        assert(all_digits(t)) by {
            assert forall|j: int| 0 <= j < t.len() implies is_digit(#[trigger] t[j]) by {
                if j < i {
                    assert(t[j] == body@.take(i as int)[j]);
                }
            }
        }
        proof {
            lemma_digits_value_nonneg(body@.take(i as int));
        }
        if !too_big {
            acc = acc * 10 + d;
            if acc > limit as u128 {
                too_big = true;
            }
        } else {
            assert(digits_value(t) >= digits_value(body@.take(i as int)) * 10);
        }
        i = i + 1;
    }
    assert(body@.take(body@.len() as int) =~= body@);
    if too_big {
        None
    } else {
        Some(acc as u64)
    }
}

/// Parses a decimal `i32` exactly as `str::parse::<i32>` does.
pub fn parse_i32_chars(s: &[char]) -> (r: Option<i32>)
    ensures
        r == (match parse_i32_spec(s@) {
            Some(v) => Some(v as i32),
            None => None,
        }),
{
    let neg = s.len() > 0 && s[0] == '-';
    let signed_start = s.len() > 0 && (s[0] == '+' || s[0] == '-');
    let mut body: Vec<char> = Vec::new();
    let mut i: usize = if signed_start {
        1
    } else {
        0
    };
    let start = i;
    while i < s.len()
        invariant
            start <= i <= s@.len(),
            start <= 1,
            signed_start ==> start == 1,
            !signed_start ==> start == 0,
            body@ == s@.subrange(start as int, i as int),
        decreases s@.len() - i,
    {
        body.push(s[i]);
        assert(s@.subrange(start as int, i + 1) =~= s@.subrange(start as int, i as int).push(
            s@[i as int],
        ));
        i = i + 1;
    }
    let ghost b = if signed_start {
        s@.drop_first()
    } else {
        s@
    };
    assert(body@ =~= b);
    let limit: u64 = if neg {
        2147483648
    } else {
        2147483647
    };
    match parse_digits(body.as_slice(), limit) {
        None => None,
        Some(v) => {
            proof {
                lemma_digits_value_nonneg(b);
            }
            assert(v <= limit);
            if neg {
                let w: i64 = -(v as i64);
                Some(w as i32)
            } else {
                Some(v as i32)
            }
        },
    }
}

/// Parses a decimal `i32` exactly as `str::parse::<i32>` does.
pub fn parse_i32(s: &str) -> (r: Option<i32>)
    ensures
        r == (match parse_i32_spec(s@) {
            Some(v) => Some(v as i32),
            None => None,
        }),
{
    let cs = crate::text::chars_of(s);
    parse_i32_chars(cs.as_slice())
}

/// Parses a decimal `usize` exactly as `str::parse::<usize>` does.
pub fn parse_usize(s: &str) -> (r: Option<usize>)
    ensures
        r == (match parse_usize_spec(s@) {
            Some(v) => Some(v as usize),
            None => None,
        }),
{
    let cs = crate::text::chars_of(s);
    let plus = cs.len() > 0 && cs[0] == '+';
    let mut body: Vec<char> = Vec::new();
    let mut i: usize = if plus {
        1
    } else {
        0
    };
    let start = i;
    while i < cs.len()
        invariant
            start <= i <= cs@.len(),
            plus ==> start == 1,
            !plus ==> start == 0,
            body@ == cs@.subrange(start as int, i as int),
        decreases cs@.len() - i,
    {
        body.push(cs[i]);
        assert(cs@.subrange(start as int, i + 1) =~= cs@.subrange(start as int, i as int).push(
            cs@[i as int],
        ));
        i = i + 1;
    }
    let ghost b = if plus {
        cs@.drop_first()
    } else {
        cs@
    };
    assert(body@ =~= b);
    match parse_digits(body.as_slice(), usize::MAX as u64) {
        None => None,
        Some(v) => {
            proof {
                lemma_digits_value_nonneg(b);
            }
            Some(v as usize)
        },
    }
}

proof fn lemma_dec_nat_digits(n: nat)
    ensures
        dec_nat(n).len() > 0,
        all_digits(dec_nat(n)),
        digits_value(dec_nat(n)) == n,
    decreases n,
{
    if n < 10 {
        let s = dec_nat(n);
        assert(s.drop_last() =~= Seq::<char>::empty());
        assert(digits_value(Seq::<char>::empty()) == 0);
        assert(digit_value(digit_char(n as int)) == n);
        assert(s.last() == digit_char(n as int));
    } else {
        lemma_dec_nat_digits(n / 10);
        let s = dec_nat(n);
        assert(s.drop_last() =~= dec_nat(n / 10));
        let d = (n % 10) as int;
        assert(digit_value(digit_char(d)) == d);
        assert(s.last() == digit_char(d));
        assert(n == (n / 10) * 10 + d);
        assert forall|k: int| 0 <= k < s.len() implies is_digit(#[trigger] s[k]) by {
            if k < s.len() - 1 {
                assert(s[k] == dec_nat(n / 10)[k]);
            }
        }
    }
}

/// The decimal text of an integer is not empty, starts with a digit or `-`,
/// and holds only digits after its first character.
pub proof fn lemma_dec_int_shape(i: int)
    ensures
        dec_int(i).len() > 0,
        is_digit(dec_int(i)[0]) || dec_int(i)[0] == '-',
        forall|k: int| 1 <= k < dec_int(i).len() ==> is_digit(#[trigger] dec_int(i)[k]),
{
    if i < 0 {
        let m = (-i) as nat;
        lemma_dec_nat_digits(m);
        assert forall|k: int| 1 <= k < dec_int(i).len() implies is_digit(#[trigger] dec_int(i)[k]) by {
            assert(dec_int(i)[k] == dec_nat(m)[k - 1]);
        }
    } else {
        lemma_dec_nat_digits(i as nat);
    }
}

/// Different integers have different decimal texts.
pub proof fn lemma_dec_int_injective(i: i32, j: i32)
    requires
        dec_int(i as int) == dec_int(j as int),
    ensures
        i == j,
{
    lemma_parse_dec_i32(i);
    lemma_parse_dec_i32(j);
}

/// Parsing the decimal text of an `i32` gives the number back.
pub proof fn lemma_parse_dec_i32(i: i32)
    ensures
        parse_i32_spec(dec_int(i as int)) == Some(i as int),
{
    let s = dec_int(i as int);
    if i < 0 {
        let m = (-(i as int)) as nat;
        lemma_dec_nat_digits(m);
        assert(s.drop_first() =~= dec_nat(m));
        assert(s[0] == '-');
    } else {
        lemma_dec_nat_digits(i as nat);
        assert(is_digit(s[0]));
    }
}

/// Parsing the decimal text of a `usize` gives the number back.
pub proof fn lemma_parse_dec_usize(n: usize)
    ensures
        parse_usize_spec(dec_nat(n as nat)) == Some(n as int),
{
    lemma_dec_nat_digits(n as nat);
    assert(is_digit(dec_nat(n as nat)[0]));
}

} // verus!
