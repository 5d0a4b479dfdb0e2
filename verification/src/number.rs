use vstd::prelude::*;
use crate::text::push_char;

verus! {

/// `c` is an ASCII digit.
pub open spec fn is_digit(c: char) -> bool {
    '0' <= c && c <= '9'
}

/// The number that the ASCII digit `c` stands for.
pub open spec fn digit_value(c: char) -> int {
    c as int - '0' as int
}

/// `s` is a non-empty run of ASCII digits.
pub open spec fn all_digits(s: Seq<char>) -> bool {
    s.len() > 0 && forall|i: int| 0 <= i < s.len() ==> is_digit(#[trigger] s[i])
}

/// The number that the ASCII digits `s` write in base ten.
pub open spec fn digits_value(s: Seq<char>) -> int
    decreases s.len(),
{
    if s.len() == 0 {
        0
    } else {
        digits_value(s.drop_last()) * 10 + digit_value(s.last())
    }
}

/// The integer that `s` writes: an optional `+` or `-`, then one or more
/// ASCII digits, and nothing else (the grammar of `FromStr` for integers).
pub open spec fn decimal_value(s: Seq<char>) -> Option<int> {
    if s.len() > 0 && (s[0] == '-' || s[0] == '+') {
        if all_digits(s.drop_first()) {
            if s[0] == '-' {
                Some(-digits_value(s.drop_first()))
            } else {
                Some(digits_value(s.drop_first()))
            }
        } else {
            None
        }
    } else if all_digits(s) {
        Some(digits_value(s))
    } else {
        None
    }
}

/// What `s.parse::<i64>()` gives, as an `Option`.
pub open spec fn parse_i64_spec(s: Seq<char>) -> Option<i64> {
    match decimal_value(s) {
        Some(v) => if i64::MIN <= v <= i64::MAX {
            Some(v as i64)
        } else {
            None
        },
        None => None,
    }
}

/// What `s.parse::<i32>()` gives, as an `Option`.
pub open spec fn parse_i32_spec(s: Seq<char>) -> Option<i32> {
    match decimal_value(s) {
        Some(v) => if i32::MIN <= v <= i32::MAX {
            Some(v as i32)
        } else {
            None
        },
        None => None,
    }
}

proof fn lemma_digits_value_nonneg(s: Seq<char>)
    requires
        forall|i: int| 0 <= i < s.len() ==> is_digit(#[trigger] s[i]),
    ensures
        digits_value(s) >= 0,
    decreases s.len(),
{
    if s.len() > 0 {
        lemma_digits_value_nonneg(s.drop_last());
        assert(is_digit(s[s.len() - 1]));
    }
}

/// A longer run of digits writes at least as large a number.
proof fn lemma_digits_value_prefix(s: Seq<char>, n: int)
    requires
        0 <= n <= s.len(),
        forall|i: int| 0 <= i < s.len() ==> is_digit(#[trigger] s[i]),
    ensures
        digits_value(s.take(n)) <= digits_value(s),
    decreases s.len(),
{
    if n < s.len() {
        lemma_digits_value_prefix(s.drop_last(), n);
        assert(s.drop_last().take(n) =~= s.take(n));
        lemma_digits_value_nonneg(s.drop_last());
        assert(is_digit(s[s.len() - 1]));
    } else {
        assert(s.take(n) =~= s);
    }
}

/// Parses `chars[lo..hi]` as `str::parse::<i64>` does.
pub fn parse_i64(chars: &Vec<char>, lo: usize, hi: usize) -> (r: Option<i64>)
    requires
        lo <= hi <= chars.len(),
    ensures
        r == parse_i64_spec(chars@.subrange(lo as int, hi as int)),
{
    let ghost s = chars@.subrange(lo as int, hi as int);
    if lo == hi {
        return None;
    }
    let first = chars[lo];
    let signed = first == '-' || first == '+';
    let negative = first == '-';
    let start = if signed { lo + 1 } else { lo };
    let ghost body = chars@.subrange(start as int, hi as int);
    assert(signed ==> body =~= s.drop_first());
    assert(!signed ==> body =~= s);
    if start == hi {
        return None;
    }
    let mut acc: u64 = 0;
    let mut i = start;
    while i < hi
        invariant
            lo <= start <= i <= hi <= chars.len(),
            start < hi,
            body == chars@.subrange(start as int, hi as int),
            s == chars@.subrange(lo as int, hi as int),
            s.len() > 0,
            signed == (s[0] == '-' || s[0] == '+'),
            negative == (s[0] == '-'),
            start == if signed { lo + 1 } else { lo as int },
            signed ==> body == s.drop_first(),
            !signed ==> body == s,
            forall|k: int| start <= k < i ==> is_digit(#[trigger] chars@[k]),
            acc == digits_value(chars@.subrange(start as int, i as int)),
            acc <= 9223372036854775808u64,
        decreases hi - i,
    {
        let c = chars[i];
        if !('0' <= c && c <= '9') {
            assert(!is_digit(body[i - start]));
            return None;
        }
        let d = (c as u32 - '0' as u32) as u64;
        assert(d == digit_value(c));
        assert(chars@.subrange(start as int, i + 1).last() == c);
        assert(chars@.subrange(start as int, i + 1).drop_last() =~= chars@.subrange(
            start as int,
            i as int,
        ));
        if acc > 922337203685477580 || (acc == 922337203685477580 && d > 8) {
            // The digits read so far already write a number beyond the range.
            proof {
                if all_digits(body) {
                    lemma_digits_value_prefix(body, i + 1 - start);
                    assert(body.take(i + 1 - start) =~= chars@.subrange(start as int, i + 1));
                    assert(digits_value(chars@.subrange(start as int, i + 1)) == acc * 10 + d);
                }
            }
            return None;
        }
        acc = acc * 10 + d;
        i += 1;
    }
    assert(chars@.subrange(start as int, hi as int) == body);
    assert(all_digits(body));
    if negative {
        if acc == 9223372036854775808u64 {
            Some(i64::MIN)
        } else {
            Some(-(acc as i64))
        }
    } else {
        if acc > 9223372036854775807u64 {
            None
        } else {
            Some(acc as i64)
        }
    }
}

/// Parses `chars[lo..hi]` as `str::parse::<i32>` does.
pub fn parse_i32(chars: &Vec<char>, lo: usize, hi: usize) -> (r: Option<i32>)
    requires
        lo <= hi <= chars.len(),
    ensures
        r == parse_i32_spec(chars@.subrange(lo as int, hi as int)),
{
    match parse_i64(chars, lo, hi) {
        Some(v) => if -2147483648 <= v && v <= 2147483647 {
            Some(v as i32)
        } else {
            None
        },
        None => None,
    }
}

/// The ASCII digit for `d`, which is below ten.
pub open spec fn digit_char(d: nat) -> char {
    if d == 0 {
        '0'
    } else if d == 1 {
        '1'
    } else if d == 2 {
        '2'
    } else if d == 3 {
        '3'
    } else if d == 4 {
        '4'
    } else if d == 5 {
        '5'
    } else if d == 6 {
        '6'
    } else if d == 7 {
        '7'
    } else if d == 8 {
        '8'
    } else {
        '9'
    }
}

/// `n` written in base ten, as `Display` writes it.
pub open spec fn decimal_digits(n: nat) -> Seq<char>
    decreases n,
{
    if n < 10 {
        seq![digit_char(n)]
    } else {
        decimal_digits(n / 10).push(digit_char(n % 10))
    }
}

/// `v` written in base ten, with a leading `-` when it is negative.
pub open spec fn int_decimal(v: int) -> Seq<char> {
    if v < 0 {
        seq!['-'] + decimal_digits((-v) as nat)
    } else {
        decimal_digits(v as nat)
    }
}

/// The ASCII digit for `d`, which is below ten.
pub fn digit(d: u128) -> (c: char)
    requires
        d < 10,
    ensures
        c == digit_char(d as nat),
{
    if d == 0 {
        '0'
    } else if d == 1 {
        '1'
    } else if d == 2 {
        '2'
    } else if d == 3 {
        '3'
    } else if d == 4 {
        '4'
    } else if d == 5 {
        '5'
    } else if d == 6 {
        '6'
    } else if d == 7 {
        '7'
    } else if d == 8 {
        '8'
    } else {
        '9'
    }
}

/// Appends `n` in base ten to `out`.
pub fn push_decimal(out: &mut String, n: u128)
    ensures
        final(out)@ == old(out)@ + decimal_digits(n as nat),
{
    let mut tail: Vec<char> = Vec::new();
    let mut m = n;
    while m >= 10
        invariant
            decimal_digits(n as nat) == decimal_digits(m as nat) + tail@,
        decreases m,
    {
        let d = m % 10;
        let ghost before = tail@;
        tail.insert(0, digit(d));
        proof {
            assert(decimal_digits(m as nat) == decimal_digits((m / 10) as nat).push(
                digit_char((m % 10) as nat),
            ));
            assert(decimal_digits((m / 10) as nat).push(digit_char(d as nat)) + before
                =~= decimal_digits((m / 10) as nat) + tail@);
        }
        m = m / 10;
    }
    tail.insert(0, digit(m));
    assert(decimal_digits(n as nat) =~= tail@);
    let ghost start = out@;
    let mut i: usize = 0;
    while i < tail.len()
        invariant
            i <= tail.len(),
            out@ == start + tail@.take(i as int),
            start == old(out)@,
        decreases tail.len() - i,
    {
        push_char(out, tail[i]);
        assert(tail@.take(i + 1) =~= tail@.take(i as int).push(tail@[i as int]));
        i += 1;
    }
    assert(tail@.take(tail.len() as int) =~= tail@);
}

} // verus!
