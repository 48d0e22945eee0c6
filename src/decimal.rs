//! Decimal text of integers: the form in which numbers are kept in a `Value`.
use vstd::prelude::*;
use vstd::string::*;

verus! {

pub open spec fn is_digit(c: char) -> bool {
    '0' <= c && c <= '9'
}

pub open spec fn digit_value(c: char) -> nat {
    (c as u32 - '0' as u32) as nat
}

pub open spec fn digit_char(d: nat) -> char {
    if d == 0 {
        '0'
    } else if d == 1 {
        '1'
    } else if d == 2 {
        '2'
    } else if d == 3 {
        '3'
    } else if d == 4 {
        '4'
    } else if d == 5 {
        '5'
    } else if d == 6 {
        '6'
    } else if d == 7 {
        '7'
    } else if d == 8 {
        '8'
    } else {
        '9'
    }
}

/// The shortest decimal digits of `n`, most significant first.
pub open spec fn decimal(n: nat) -> Seq<char>
    decreases n,
{
    if n < 10 {
        seq![digit_char(n)]
    } else {
        decimal(n / 10).push(digit_char(n % 10))
    }
}

/// Decimal text of a signed integer: a `-` before the digits of a negative one.
pub open spec fn signed_decimal(n: int) -> Seq<char> {
    if n < 0 {
        seq!['-'] + decimal((-n) as nat)
    } else {
        decimal(n as nat)
    }
}

pub open spec fn all_digits(s: Seq<char>) -> bool {
    forall|i: int| 0 <= i < s.len() ==> is_digit(#[trigger] s[i])
}

/// The number that a string of digits denotes.
pub open spec fn digits_value(s: Seq<char>) -> nat
    decreases s.len(),
{
    if s.len() == 0 {
        0
    } else {
        digits_value(s.drop_last()) * 10 + digit_value(s.last())
    }
}

/// The integer that `s` denotes in `[lo, hi]`, read the way Rust reads integers:
/// an optional `+` (or `-` where `lo` is negative), then at least one digit.
pub open spec fn parse_integer(s: Seq<char>, lo: int, hi: int) -> Option<int> {
    let neg = s.len() > 1 && s[0] == '-' && lo < 0;
    let body = if s.len() > 1 && (s[0] == '+' || neg) {
        s.drop_first()
    } else {
        s
    };
    if body.len() == 0 || !all_digits(body) {
        None
    } else {
        let v: int = if neg {
            -digits_value(body)
        } else {
            digits_value(body) as int
        };
        if lo <= v && v <= hi {
            Some(v)
        } else {
            None
        }
    }
}

proof fn lemma_digit_round_trip(d: nat)
    requires
        d < 10,
    ensures
        is_digit(digit_char(d)),
        digit_value(digit_char(d)) == d,
{
}

/// The digits of `n` are digits, and they denote `n`.
pub proof fn lemma_decimal_digits(n: nat)
    ensures
        decimal(n).len() > 0,
        all_digits(decimal(n)),
        digits_value(decimal(n)) == n,
    decreases n,
{
    if n < 10 {
        lemma_digit_round_trip(n);
        assert(decimal(n).drop_last() =~= Seq::<char>::empty());
        assert(digits_value(Seq::<char>::empty()) == 0);
        assert(digits_value(decimal(n)) == digits_value(decimal(n).drop_last()) * 10 + digit_value(
            decimal(n).last(),
        ));
    } else {
        lemma_decimal_digits(n / 10);
        lemma_digit_round_trip(n % 10);
        let s = decimal(n);
        assert(s.drop_last() =~= decimal(n / 10));
        assert(s.last() == digit_char(n % 10));
        assert(digits_value(s) == (n / 10) * 10 + n % 10);
        assert forall|i: int| 0 <= i < s.len() implies is_digit(#[trigger] s[i]) by {
            if i < s.len() - 1 {
                assert(s[i] == decimal(n / 10)[i]);
            }
        }
    }
}

/// Reading back the text of an integer in range gives the integer.
pub proof fn lemma_parse_decimal(n: int, lo: int, hi: int)
    requires
        lo <= n <= hi,
    ensures
        parse_integer(signed_decimal(n), lo, hi) == Some(n),
{
    if n < 0 {
        let m = (-n) as nat;
        lemma_decimal_digits(m);
        let s = signed_decimal(n);
        assert(s.drop_first() =~= decimal(m));
    } else {
        lemma_decimal_digits(n as nat);
        assert(is_digit(decimal(n as nat)[0]));
    }
}

fn digit_text(d: u8) -> (r: &'static str)
    requires
        d < 10,
    ensures
        r@ == seq![digit_char(d as nat)],
{
    proof {
        reveal_strlit("0");
        reveal_strlit("1");
        reveal_strlit("2");
        reveal_strlit("3");
        reveal_strlit("4");
        reveal_strlit("5");
        reveal_strlit("6");
        reveal_strlit("7");
        reveal_strlit("8");
        reveal_strlit("9");
    }
    let r = match d {
        0 => "0",
        1 => "1",
        2 => "2",
        3 => "3",
        4 => "4",
        5 => "5",
        6 => "6",
        7 => "7",
        8 => "8",
        _ => "9",
    };
    assert(r@ =~= seq![digit_char(d as nat)]);
    r
}

fn push_decimal(out: &mut String, n: u128)
    ensures
        final(out)@ == old(out)@ + decimal(n as nat),
    decreases n,
{
    if n >= 10 {
        push_decimal(out, n / 10);
    }
    out.append(digit_text((n % 10) as u8));
    proof {
        assert(old(out)@ + decimal(n as nat) =~= final(out)@) by {
            if n >= 10 {
                assert(decimal(n as nat) == decimal((n / 10) as nat).push(digit_char((n % 10) as nat)));
            }
        };
    }
}

/// Decimal text of an unsigned integer.
pub fn unsigned_text(n: u128) -> (r: String)
    ensures
        r@ == decimal(n as nat),
{
    let mut out = String::new();
    push_decimal(&mut out, n);
    assert(out@ =~= decimal(n as nat));
    out
}

/// Decimal text of a signed integer.
pub fn signed_text(n: i128) -> (r: String)
    ensures
        r@ == signed_decimal(n as int),
{
    let mut out = String::new();
    let magnitude: u128 = if n < 0 {
        proof {
            reveal_strlit("-");
        }
        out.append("-");
        if n == i128::MIN {
            (i128::MAX as u128) + 1
        } else {
            (-n) as u128
        }
    } else {
        n as u128
    };
    push_decimal(&mut out, magnitude);
    assert(out@ =~= signed_decimal(n as int));
    out
}

/// Reads `s[from..]` as digits: `None` when there are none, when one of them is
/// not a digit, or when their number exceeds `u128::MAX`.
fn parse_digits(s: &str, from: usize) -> (r: Option<u128>)
    requires
        from <= s@.len(),
    ensures
        ({
            let body = s@.subrange(from as int, s@.len() as int);
            match r {
                Some(v) => body.len() > 0 && all_digits(body) && v == digits_value(body),
                None => body.len() == 0 || !all_digits(body) || digits_value(body) > u128::MAX,
            }
        }),
{
    let len = s.unicode_len();
    let mut i: usize = from;
    let mut acc: u128 = 0;
    let mut overflow = false;
    while i < len
        invariant
            from <= i <= len,
            len == s@.len(),
            all_digits(s@.subrange(from as int, i as int)),
            !overflow ==> acc == digits_value(s@.subrange(from as int, i as int)),
            overflow ==> digits_value(s@.subrange(from as int, i as int)) > u128::MAX,
        decreases len - i,
    {
        let c = s.get_char(i);
        if !('0' <= c && c <= '9') {
            assert(!all_digits(s@.subrange(from as int, len as int))) by {
                assert(s@.subrange(from as int, len as int)[i - from] == c);
            }
            return None;
        }
        let d: u128 = (c as u32 - '0' as u32) as u128;
        let ghost prefix = s@.subrange(from as int, i as int);
        let ghost next = s@.subrange(from as int, i + 1);
        assert(next.drop_last() =~= prefix);
        assert(next.last() == c);
        assert(digits_value(next) == digits_value(prefix) * 10 + d);
        if !overflow {
            if acc > (u128::MAX - d) / 10 {
                assert(acc * 10 + d > u128::MAX) by (nonlinear_arith)
                    requires
                        acc > (u128::MAX - d) / 10,
                        d < 10,
                ;
                overflow = true;
            } else {
                assert(acc * 10 + d <= u128::MAX) by (nonlinear_arith)
                    requires
                        acc <= (u128::MAX - d) / 10,
                        d < 10,
                ;
                acc = acc * 10 + d;
            }
        } else {
            assert(digits_value(prefix) * 10 + d > u128::MAX) by (nonlinear_arith)
                requires
                    digits_value(prefix) > u128::MAX,
            ;
        }
        assert forall|j: int| 0 <= j < next.len() implies is_digit(#[trigger] next[j]) by {
            if j < next.len() - 1 {
                assert(next[j] == prefix[j]);
            }
        }
        i = i + 1;
    }
    if i == from || overflow {
        None
    } else {
        Some(acc)
    }
}

/// Reads `s` as an unsigned integer of at most `max`.
pub fn parse_unsigned(s: &str, max: u128) -> (r: Option<u128>)
    ensures
        r == (match parse_integer(s@, 0, max as int) {
            Some(v) => Some(v as u128),
            None => None::<u128>,
        }),
{
    let len = s.unicode_len();
    let from: usize = if len > 1 && s.get_char(0) == '+' {
        1
    } else {
        0
    };
    let ghost body = s@.subrange(from as int, len as int);
    assert(from == 1 ==> body =~= s@.drop_first());
    assert(from == 0 ==> body =~= s@);
    match parse_digits(s, from) {
        Some(v) => {
            if v <= max {
                Some(v)
            } else {
                None
            }
        },
        None => None,
    }
}

/// Reads `s` as a signed integer in `[min, max]`.
pub(crate) fn parse_signed(s: &str, min: i128, max: i128) -> (r: Option<i128>)
    requires
        min < 0 <= max,
    ensures
        r == (match parse_integer(s@, min as int, max as int) {
            Some(v) => Some(v as i128),
            None => None::<i128>,
        }),
{
    let len = s.unicode_len();
    let neg = len > 1 && s.get_char(0) == '-';
    let from: usize = if len > 1 && (s.get_char(0) == '+' || neg) {
        1
    } else {
        0
    };
    let ghost body = s@.subrange(from as int, len as int);
    assert(from == 1 ==> body =~= s@.drop_first());
    assert(from == 0 ==> body =~= s@);
    match parse_digits(s, from) {
        Some(m) => {
            if neg {
                let bound: u128 = if min == i128::MIN {
                    (i128::MAX as u128) + 1
                } else {
                    (-min) as u128
                };
                if m <= bound {
                    if m == (i128::MAX as u128) + 1 {
                        Some(i128::MIN)
                    } else {
                        Some(-(m as i128))
                    }
                } else {
                    None
                }
            } else if m <= max as u128 {
                Some(m as i128)
            } else {
                None
            }
        },
        None => None,
    }
}

} // verus!
