//! Unsigned integers in decimal text.
use vstd::prelude::*;

use crate::text::chars_of;

verus! {

/// The decimal digit for `d`.
pub open spec fn digit(d: nat) -> char {
    (48 + d) as char
}

/// `n` in decimal, without leading zeros.
pub open spec fn decimal(n: nat) -> Seq<char>
    decreases n,
{
    if n < 10 {
        seq![digit(n)]
    } else {
        decimal(n / 10).push(digit(n % 10))
    }
}

/// `n` in decimal.
pub fn decimal_u64(n: u64) -> (r: String)
    ensures
        r@ == decimal(n as nat),
    decreases n,
{
    let mut out = if n < 10 {
        String::new()
    } else {
        decimal_u64(n / 10)
    };
    let d: u8 = (n % 10) as u8;
    out.push((48 + d) as char);
    assert(n < 10 ==> out@ =~= seq![digit(n as nat)]);
    out
}

/// `n` in decimal.
pub fn decimal_usize(n: usize) -> (r: String)
    ensures
        r@ == decimal(n as nat),
{
    decimal_u64(n as u64)
}

/// Whether `c` is a decimal digit.
pub open spec fn is_digit(c: char) -> bool {
    '0' <= c <= '9'
}

/// The number that a string of decimal digits writes.
pub open spec fn value(s: Seq<char>) -> nat
    decreases s.len(),
{
    if s.len() == 0 {
        0
    } else {
        value(s.drop_last()) * 10 + (s.last() as nat - 48) as nat
    }
}

/// The digits of an unsigned number's text: one leading `+` may stand before them.
pub open spec fn unsigned_digits(s: Seq<char>) -> Seq<char> {
    if s.len() > 1 && s[0] == '+' {
        s.drop_first()
    } else {
        s
    }
}

/// The number of at most `max` that `s` writes, if it writes one.
pub open spec fn unsigned(s: Seq<char>, max: nat) -> Option<nat> {
    let d = unsigned_digits(s);
    if d.len() > 0 && (forall|i: int| 0 <= i < d.len() ==> is_digit(#[trigger] d[i])) && value(d)
        <= max {
        Some(value(d))
    } else {
        None
    }
}

/// A longer string of digits writes no smaller a number.
proof fn lemma_value_prefix(d: Seq<char>, i: int)
    requires
        0 <= i <= d.len(),
        forall|j: int| 0 <= j < d.len() ==> is_digit(#[trigger] d[j]),
    ensures
        value(d.take(i)) <= value(d),
    decreases d.len() - i,
{
    if i == d.len() {
        assert(d.take(i) =~= d);
    } else {
        lemma_value_prefix(d, i + 1);
        assert(d.take(i + 1).drop_last() =~= d.take(i));
        assert(d.take(i + 1).last() == d[i]);
    }
}

/// The number of at most `max` that `s` writes, if it writes one.
pub fn parse_unsigned(s: &str, max: u64) -> (r: Option<u64>)
    ensures
        match r {
            Some(n) => unsigned(s@, max as nat) == Some(n as nat),
            None => unsigned(s@, max as nat) is None,
        },
{
    let cs = chars_of(s);
    let start: usize = if cs.len() > 1 && cs[0] == '+' {
        1
    } else {
        0
    };
    let ghost d = unsigned_digits(s@);
    if cs.len() == 0 {
        return None;
    }
    let mut n: u64 = 0;
    let mut i: usize = start;
    assert(d.take(0) =~= Seq::<char>::empty());
    while i < cs.len()
        invariant
            start <= i <= cs.len(),
            start <= 1,
            start == 1 ==> d == cs@.drop_first(),
            start == 0 ==> d == cs@,
            cs@ == s@,
            d == unsigned_digits(s@),
            d.len() > 0,
            n <= max,
            n == value(d.take(i - start)),
            forall|j: int| 0 <= j < i - start ==> is_digit(#[trigger] d[j]),
        decreases cs.len() - i,
    {
        let c = cs[i];
        assert(c == d[i - start]);
        if c < '0' || c > '9' {
            return None;
        }
        let digit: u64 = (c as u64) - 48;
        proof {
            let k = i - start;
            assert(d.take(k + 1).drop_last() =~= d.take(k));
            assert(d.take(k + 1).last() == c);
            if forall|j: int| 0 <= j < d.len() ==> is_digit(#[trigger] d[j]) {
                lemma_value_prefix(d, k + 1);
            }
        }
        match n.checked_mul(10) {
            None => {
                return None;
            },
            Some(tens) => {
                match tens.checked_add(digit) {
                    None => {
                        return None;
                    },
                    Some(m) => {
                        if m > max {
                            return None;
                        }
                        n = m;
                    },
                }
            },
        }
        i = i + 1;
    }
    assert(d.take(d.len() as int) =~= d);
    Some(n)
}

/// The digits of a number's decimal text write the number.
pub proof fn lemma_decimal(n: nat)
    ensures
        decimal(n).len() > 0,
        forall|i: int| 0 <= i < decimal(n).len() ==> is_digit(#[trigger] decimal(n)[i]),
        value(decimal(n)) == n,
    decreases n,
{
    if n < 10 {
        assert(decimal(n).drop_last() =~= Seq::<char>::empty());
        assert(value(Seq::<char>::empty()) == 0);
    } else {
        lemma_decimal(n / 10);
        assert(decimal(n).drop_last() =~= decimal(n / 10));
        let d = decimal(n);
        assert(d.last() == digit(n % 10));
        assert forall|i: int| 0 <= i < d.len() implies is_digit(#[trigger] d[i]) by {
            if i < d.len() - 1 {
                assert(d[i] == decimal(n / 10)[i]);
            }
        }
    }
}

/// A number's decimal text reads back as the number.
pub proof fn decimal_reads_back(n: nat, max: nat)
    requires
        n <= max,
    ensures
        unsigned(decimal(n), max) == Some(n),
{
    lemma_decimal(n);
    assert(is_digit(decimal(n)[0]));
    assert(decimal(n)[0] != '+');
}

/// A number is read digit by digit: one more digit makes ten times the number and
/// the digit. What holds anything but digits behind a leading `+`, or writes more
/// than the limit, is no number.
pub proof fn a_number_is_read_digit_by_digit(s: Seq<char>, c: char, max: nat, at: int)
    ensures
        unsigned(Seq::empty(), max) is None,
        unsigned(seq!['+'], max) is None,
        s.len() > 0 && is_digit(c) && unsigned(s, max) is Some ==> unsigned(s.push(c), max) == (if 10
            * unsigned(s, max)->0 + (c as nat - '0' as nat) <= max {
            Some((10 * unsigned(s, max)->0 + (c as nat - '0' as nat)) as nat)
        } else {
            None
        }),
        0 <= at < s.len() && !('0' <= s[at] <= '9') && !(at == 0 && s[at] == '+') ==> unsigned(
            s,
            max,
        ) is None,
        '0' <= c <= '9' && (c as nat - '0' as nat) <= max ==> unsigned(seq![c], max) == Some(
            (c as nat - '0' as nat) as nat,
        ),
{
    reveal_with_fuel(value, 2);
    assert(unsigned(Seq::<char>::empty(), max) is None);
    let plus = seq!['+'];
    assert(!is_digit(plus[0]));
    let one = seq![c];
    assert(one.drop_last() =~= Seq::<char>::empty());
    assert(unsigned_digits(one) == one);
    let d = unsigned_digits(s);
    if s.len() > 0 && is_digit(c) && unsigned(s, max) is Some {
        let longer = unsigned_digits(s.push(c));
        assert(d[0] != '+') by {
            assert(is_digit(d[0]));
        }
        assert(longer =~= d.push(c));
        assert(longer.drop_last() =~= d);
        assert forall|i: int| 0 <= i < longer.len() implies is_digit(#[trigger] longer[i]) by {
            if i < d.len() {
                assert(longer[i] == d[i]);
            }
        }
    }
    if 0 <= at < s.len() && !('0' <= s[at] <= '9') && !(at == 0 && s[at] == '+') {
        let k = if s.len() > 1 && s[0] == '+' {
            at - 1
        } else {
            at
        };
        assert(d[k] == s[at]);
        assert(!is_digit(d[k]));
    }
}

/// A number's text is read back by the reader, wherever it is within the limit.
pub proof fn a_printed_number_is_read(n: u64, max: u64, printed: String, s: &str, r: Option<u64>)
    requires
        call_ensures(decimal_u64, (n,), printed),
        call_ensures(parse_unsigned, (s, max), r),
        s@ == printed@,
    ensures
        n <= max ==> r == Some(n),
        n > max ==> r is None,
{
    lemma_decimal(n as nat);
    assert(is_digit(decimal(n as nat)[0]));
    if n <= max {
        decimal_reads_back(n as nat, max as nat);
    }
}

} // verus!
