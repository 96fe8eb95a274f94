use vstd::prelude::*;

verus! {

/// An ASCII decimal digit.
pub open spec fn is_digit(c: char) -> bool {
    '0' <= c && c <= '9'
}

pub open spec fn digit_value(c: char) -> int {
    c as int - '0' as int
}

pub open spec fn all_digits(s: Seq<char>) -> bool {
    forall|i: int| 0 <= i < s.len() ==> is_digit(#[trigger] s[i])
}

/// The number that a string of decimal digits denotes, most significant digit first.
pub open spec fn digits_value(s: Seq<char>) -> int
    decreases s.len(),
{
    if s.len() == 0 {
        0
    } else {
        10 * digits_value(s.drop_last()) + digit_value(s.last())
    }
}

/// The decimal digits of `n`, without leading zeros ("0" for zero).
pub open spec fn natural_decimal(n: nat) -> Seq<char>
    decreases n,
{
    if n < 10 {
        seq![(n + '0' as int) as char]
    } else {
        natural_decimal(n / 10) + seq![((n % 10) + '0' as int) as char]
    }
}

/// The decimal text of an integer, as `Display` writes it: a '-' before the digits of a
/// negative number.
pub open spec fn decimal(n: int) -> Seq<char> {
    if n < 0 {
        seq!['-'] + natural_decimal((-n) as nat)
    } else {
        natural_decimal(n as nat)
    }
}

/// What parsing `s` as an `i64` gives: an optional '+' or '-', then one or more ASCII
/// digits, whose value must lie within the range of `i64`; `None` for any other text.
pub open spec fn spec_parse_i64(s: Seq<char>) -> Option<int> {
    let negative = s.len() > 0 && s[0] == '-';
    let signed = s.len() > 0 && (s[0] == '-' || s[0] == '+');
    let body = if signed { s.drop_first() } else { s };
    let value = if negative { -digits_value(body) } else { digits_value(body) };
    if body.len() > 0 && all_digits(body) && i64::MIN <= value <= i64::MAX {
        Some(value)
    } else {
        None
    }
}

/// The characters of `s`, one per element.
pub fn chars_of(s: &str) -> (v: Vec<char>)
    ensures
        v@ == s@,
{
    let mut v: Vec<char> = Vec::new();
    for c in it: s.chars()
        invariant
            v@ == it.seq().take(it.index() as int),
    {
        v.push(c);
    }
    v
}

/// A string of digits denotes a non-negative number.
pub proof fn lemma_digits_value_nonneg(s: Seq<char>)
    requires
        all_digits(s),
    ensures
        digits_value(s) >= 0,
    decreases s.len(),
{
    if s.len() > 0 {
        assert(all_digits(s.drop_last()));
        lemma_digits_value_nonneg(s.drop_last());
        assert(is_digit(s[s.len() - 1]));
    }
}

/// The digit values of a prefix never exceed those of a longer prefix.
pub proof fn lemma_digits_value_monotone(s: Seq<char>, i: int, j: int)
    requires
        all_digits(s),
        0 <= i <= j <= s.len(),
    ensures
        0 <= digits_value(s.take(i)) <= digits_value(s.take(j)),
    decreases j,
{
    if j > i {
        lemma_digits_value_monotone(s, i, j - 1);
        assert(s.take(j).drop_last() == s.take(j - 1));
        assert(is_digit(s[j - 1]));
    } else {
        assert(all_digits(s.take(i)));
        lemma_digits_value_nonneg(s.take(i));
    }
}

/// The value of `s[from..to]`, or `None` when it exceeds `limit`.
pub fn digits_value_upto(s: &Vec<char>, from: usize, to: usize, limit: u64) -> (r: Option<u64>)
    requires
        from <= to <= s@.len(),
        9 <= limit,
        all_digits(s@.subrange(from as int, to as int)),
    ensures
        match r {
            Some(v) => v == digits_value(s@.subrange(from as int, to as int)) && v <= limit,
            None => digits_value(s@.subrange(from as int, to as int)) > limit,
        },
{
    let ghost body = s@.subrange(from as int, to as int);
    let mut value: u64 = 0;
    let mut i: usize = from;
    while i < to
        invariant
            from <= i <= to <= s@.len(),
            body == s@.subrange(from as int, to as int),
            all_digits(body),
            value == digits_value(body.take(i - from)),
            value <= limit,
            9 <= limit,
        decreases to - i,
    {
        assert(body.take(i - from + 1).drop_last() == body.take(i - from));
        assert(is_digit(body[i - from]));
        let d = s[i] as u64 - '0' as u64;
        assert(d == digit_value(body[i - from]));
        if value > (limit - d) / 10 {
            proof {
                lemma_digits_value_monotone(body, i - from + 1, body.len() as int);
                assert(body.take(body.len() as int) == body);
                assert(10 * value + d > limit) by (nonlinear_arith)
                    requires value > (limit - d) / 10, d <= 9, d <= limit || limit < d;
            }
            return None;
        }
        assert(10 * value + d <= limit) by (nonlinear_arith)
            requires value <= (limit - d) / 10, d <= limit;
        value = value * 10 + d;
        i = i + 1;
    }
    assert(body.take(i - from) == body);
    Some(value)
}

/// Parses `s` as an `i64` the way `str::parse::<i64>` does: an optional sign, then ASCII
/// digits, with no other character; `None` when the text has another shape or the number
/// does not fit.
#[verifier::loop_isolation(false)]
pub fn parse_i64(s: &str) -> (r: Option<i64>)
    ensures
        match r {
            Some(v) => spec_parse_i64(s@) == Some(v as int),
            None => spec_parse_i64(s@) is None,
        },
{
    let cs = chars_of(s);
    let len = cs.len();
    let negative = len > 0 && cs[0] == '-';
    let signed = len > 0 && (cs[0] == '-' || cs[0] == '+');
    let start: usize = if signed { 1 } else { 0 };
    let ghost body = if signed { s@.drop_first() } else { s@ };
    assert(body == cs@.subrange(start as int, len as int));
    if start == len {
        return None;
    }
    let mut i = start;
    while i < len
        invariant
            start <= i <= len,
            forall|j: int| start <= j < i ==> is_digit(#[trigger] cs@[j]),
        decreases len - i,
    {
        if !(cs[i] >= '0' && cs[i] <= '9') {
            assert(body[i - start] == cs@[i as int]);
            assert(!all_digits(body));
            return None;
        }
        i = i + 1;
    }
    assert(all_digits(body)) by {
        assert forall|j: int| 0 <= j < body.len() implies is_digit(#[trigger] body[j]) by {
            assert(body[j] == cs@[j + start]);
        }
    }
    let limit: u64 = if negative { 0x8000_0000_0000_0000 } else { 0x7fff_ffff_ffff_ffff };
    match digits_value_upto(&cs, start, len, limit) {
        None => None,
        Some(v) => {
            if negative {
                if v == 0x8000_0000_0000_0000 {
                    Some(i64::MIN)
                } else {
                    Some(-(v as i64))
                }
            } else {
                Some(v as i64)
            }
        },
    }
}

/// The one-character text of the digit `d`.
fn digit_text(d: u64) -> (t: &'static str)
    requires
        d < 10,
    ensures
        t@ == seq![(d + '0' as int) as char],
{
    if d == 0 {
        proof { reveal_strlit("0"); }
        "0"
    } else if d == 1 {
        proof { reveal_strlit("1"); }
        "1"
    } else if d == 2 {
        proof { reveal_strlit("2"); }
        "2"
    } else if d == 3 {
        proof { reveal_strlit("3"); }
        "3"
    } else if d == 4 {
        proof { reveal_strlit("4"); }
        "4"
    } else if d == 5 {
        proof { reveal_strlit("5"); }
        "5"
    } else if d == 6 {
        proof { reveal_strlit("6"); }
        "6"
    } else if d == 7 {
        proof { reveal_strlit("7"); }
        "7"
    } else if d == 8 {
        proof { reveal_strlit("8"); }
        "8"
    } else {
        proof { reveal_strlit("9"); }
        "9"
    }
}

/// Appends the decimal digits of `m` to `out`.
fn push_natural(out: &mut String, m: u64)
    ensures
        final(out)@ == old(out)@ + natural_decimal(m as nat),
    decreases m,
{
    if m >= 10 {
        push_natural(out, m / 10);
    }
    out.append(digit_text(m % 10));
    proof {
        if m >= 10 {
            assert(old(out)@ + natural_decimal(m as nat) == old(out)@ + natural_decimal(
                (m / 10) as nat,
            ) + seq![((m % 10) + '0' as int) as char]);
        }
    }
}

/// Writes `n` in decimal, as `n.to_string()` does.
pub fn format_i64(n: i64) -> (s: String)
    ensures
        s@ == decimal(n as int),
{
    let mut s = String::new();
    if n < 0 {
        proof { reveal_strlit("-"); }
        s.append("-");
        let m: u64 = if n == i64::MIN { 0x8000_0000_0000_0000 } else { (-n) as u64 };
        push_natural(&mut s, m);
    } else {
        push_natural(&mut s, n as u64);
    }
    s
}

/// The decimal digits of `n` are a non-empty run of digits that denotes `n`.
pub proof fn lemma_natural_decimal(n: nat)
    ensures
        natural_decimal(n).len() >= 1,
        all_digits(natural_decimal(n)),
        digits_value(natural_decimal(n)) == n,
    decreases n,
{
    let s = natural_decimal(n);
    if n < 10 {
        assert(s.drop_last() =~= Seq::<char>::empty());
        assert(s.last() as int == n + '0' as int);
        assert(digits_value(s.drop_last()) == 0);
    } else {
        lemma_natural_decimal(n / 10);
        assert(s.drop_last() == natural_decimal(n / 10));
        assert(s.last() as int == (n % 10) + '0' as int);
        assert(10 * (n / 10) + n % 10 == n);
    }
}

/// Reading back the decimal text of an `i64` gives the number.
pub proof fn lemma_parse_decimal(n: int)
    requires
        i64::MIN <= n <= i64::MAX,
    ensures
        spec_parse_i64(decimal(n)) == Some(n),
{
    if n < 0 {
        let d = natural_decimal((-n) as nat);
        lemma_natural_decimal((-n) as nat);
        let s = decimal(n);
        assert(s[0] == '-');
        assert(s.drop_first() =~= d);
    } else {
        let d = natural_decimal(n as nat);
        lemma_natural_decimal(n as nat);
        assert(is_digit(d[0]));
    }
}

} // verus!
