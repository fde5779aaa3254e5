//! Numbers as text: reading literals and printing decimals.

use vstd::prelude::*;

verus! {

/// What a token is when read as a number.
#[derive(Debug, Clone, Copy, PartialEq, Eq, Structural)]
pub enum Literal {
    /// The number it spells.
    Number(i32),
    /// It spells a number that no cell can hold.
    Overflow,
    /// It starts as a hexadecimal or binary literal and does not go on as one.
    Malformed,
    /// It is no number at all.
    NotANumber,
}

/// The value of the digit `b`: `0` to `9`, and `a` to `f` in either case for
/// ten to fifteen. Any other byte counts as 255, a digit of no base.
pub open spec fn digit(b: u8) -> int {
    if 0x30 <= b <= 0x39 {
        b - 0x30
    } else if 0x61 <= b <= 0x66 {
        b - 0x61 + 10
    } else if 0x41 <= b <= 0x46 {
        b - 0x41 + 10
    } else {
        255
    }
}

/// Whether every byte of `s` is a digit of base `base`.
pub open spec fn digits_ok(s: Seq<u8>, base: int) -> bool {
    forall|i: int| 0 <= i < s.len() ==> digit(#[trigger] s[i]) < base
}

/// The number that the digits `s` spell in base `base`, most significant
/// digit first.
pub open spec fn value(s: Seq<u8>, base: int) -> int
    decreases s.len(),
{
    if s.len() == 0 {
        0
    } else {
        value(s.drop_last(), base) * base + digit(s.last())
    }
}

/// The literal for the magnitude `v` with the sign `neg`.
pub open spec fn ranged(v: int, neg: bool) -> Literal {
    let n = if neg {
        -v
    } else {
        v
    };
    if i32::MIN <= n <= i32::MAX {
        Literal::Number(n as i32)
    } else {
        Literal::Overflow
    }
}

/// What the token `s` is when read as a number: an optional `-`, then `$`
/// and hexadecimal digits, or `%` and binary digits, or decimal digits.
pub open spec fn literal_spec(s: Seq<u8>) -> Literal {
    let neg = s.len() > 0 && s[0] == 0x2d;
    let body = if neg {
        s.drop_first()
    } else {
        s
    };
    if body.len() > 0 && (body[0] == 0x24 || body[0] == 0x25) {
        let base: int = if body[0] == 0x24 {
            16
        } else {
            2
        };
        let d = body.drop_first();
        if d.len() > 0 && digits_ok(d, base) {
            ranged(value(d, base), neg)
        } else {
            Literal::Malformed
        }
    } else if body.len() > 0 && digits_ok(body, 10) {
        ranged(value(body, 10), neg)
    } else {
        Literal::NotANumber
    }
}

/// More digits spell no smaller a number.
pub proof fn lemma_value_grows(s: Seq<u8>, base: int, k: int)
    requires
        0 <= k <= s.len(),
        2 <= base <= 16,
        digits_ok(s, base),
    ensures
        0 <= value(s.take(k), base) <= value(s, base),
    decreases s.len() - k,
{
    lemma_value_nonnegative(s.take(k), base);
    if k < s.len() {
        let t = s.take(k + 1);
        assert(t.drop_last() =~= s.take(k));
        assert(t.last() == s[k]);
        assert(0 <= digit(s[k]) < base);
        assert(value(s.take(k), base) <= value(t, base)) by (nonlinear_arith)
            requires
                value(t, base) == value(s.take(k), base) * base + digit(s[k]),
                0 <= value(s.take(k), base),
                0 <= digit(s[k]),
                2 <= base,
        ;
        lemma_value_grows(s, base, k + 1);
    } else {
        assert(s.take(k) =~= s);
    }
}

/// Digits spell a number that is not negative.
pub proof fn lemma_value_nonnegative(s: Seq<u8>, base: int)
    requires
        2 <= base <= 16,
    ensures
        0 <= value(s, base),
    decreases s.len(),
{
    if s.len() > 0 {
        lemma_value_nonnegative(s.drop_last(), base);
        assert(0 <= value(s.drop_last(), base) * base) by (nonlinear_arith)
            requires
                0 <= value(s.drop_last(), base),
                2 <= base,
        ;
    }
}

/// The value of the digit `b`.
fn digit_of(b: u8) -> (d: u8)
    ensures
        d == digit(b),
{
    if 0x30 <= b && b <= 0x39 {
        b - 0x30
    } else if 0x61 <= b && b <= 0x66 {
        b - 0x61 + 10
    } else if 0x41 <= b && b <= 0x46 {
        b - 0x41 + 10
    } else {
        255
    }
}

/// Reads the digits of `s` from index `from` on. `None` where there is no
/// digit or a byte is no digit of the base; `Some(None)` where the digits
/// spell more than 2^31; the number otherwise.
fn magnitude(s: &[u8], from: usize, base: u8) -> (r: Option<Option<i64>>)
    requires
        from <= s.len(),
        2 <= base <= 16,
    ensures
        r is Some <==> s@.skip(from as int).len() > 0 && digits_ok(
            s@.skip(from as int),
            base as int,
        ),
        r matches Some(Some(v)) ==> v == value(s@.skip(from as int), base as int) && 0 <= v
            <= 0x8000_0000,
        r matches Some(None) ==> value(s@.skip(from as int), base as int) > 0x8000_0000,
{
    let ghost d = s@.skip(from as int);
    if from >= s.len() {
        return None;
    }
    let mut acc: i64 = 0;
    let mut over = false;
    let mut i: usize = from;
    while i < s.len()
        invariant
            from <= i <= s.len(),
            2 <= base <= 16,
            d == s@.skip(from as int),
            digits_ok(d.take(i - from), base as int),
            !over ==> acc == value(d.take(i - from), base as int) && 0 <= acc <= 0x8000_0000,
            over ==> value(d.take(i - from), base as int) > 0x8000_0000,
        decreases s.len() - i,
    {
        let dv = digit_of(s[i]);
        let ghost pre = d.take(i - from);
        let ghost cur = d.take(i - from + 1);
        proof {
            assert(cur.drop_last() =~= pre);
            assert(cur.last() == s@[i as int]);
        }
        if dv >= base {
            proof {
                assert(d[i - from] == s@[i as int]);
            }
            return None;
        }
        proof {
            assert forall|j: int| 0 <= j < cur.len() implies digit(#[trigger] cur[j])
                < base as int by {
                if j < pre.len() {
                    assert(cur[j] == pre[j]);
                }
            }
        }
        if !over {
            assert(acc * (base as i64) + (dv as i64) <= 0x8000_0000 * 16 + 15) by (nonlinear_arith)
                requires
                    0 <= acc <= 0x8000_0000,
                    2 <= base <= 16,
                    0 <= dv < 16,
            ;
            assert(0 <= acc * (base as i64)) by (nonlinear_arith)
                requires
                    0 <= acc,
                    2 <= base,
            ;
            let next = acc * (base as i64) + (dv as i64);
            if next > 0x8000_0000 {
                over = true;
            } else {
                acc = next;
            }
        } else {
            assert(value(cur, base as int) > 0x8000_0000) by (nonlinear_arith)
                requires
                    value(cur, base as int) == value(pre, base as int) * (base as int) + dv,
                    value(pre, base as int) > 0x8000_0000,
                    2 <= base,
                    0 <= dv,
            ;
        }
        i += 1;
    }
    proof {
        assert(d.take(i - from) =~= d);
    }
    if over {
        Some(None)
    } else {
        Some(Some(acc))
    }
}

/// Gives the magnitude read by `magnitude` its sign.
fn signed(m: Option<i64>, neg: bool) -> (r: Literal)
    requires
        m matches Some(v) ==> 0 <= v <= 0x8000_0000,
    ensures
        m matches Some(v) ==> r == ranged(v as int, neg),
        m is None ==> r == Literal::Overflow,
{
    match m {
        None => Literal::Overflow,
        Some(v) => {
            let n = if neg {
                -v
            } else {
                v
            };
            if n > 0x7fff_ffff {
                Literal::Overflow
            } else {
                Literal::Number(n as i32)
            }
        },
    }
}

/// Reads the token `s` as a number.
pub fn parse_literal(s: &[u8]) -> (r: Literal)
    ensures
        r == literal_spec(s@),
{
    let neg = s.len() > 0 && s[0] == 0x2d;
    let start: usize = if neg {
        1
    } else {
        0
    };
    let ghost body = s@.skip(start as int);
    proof {
        if neg {
            assert(body =~= s@.drop_first());
        } else {
            assert(body =~= s@);
        }
    }
    if start < s.len() && (s[start] == 0x24 || s[start] == 0x25) {
        let base: u8 = if s[start] == 0x24 {
            16
        } else {
            2
        };
        assert(body[0] == s@[start as int]);
        assert(body.drop_first() =~= s@.skip(start + 1));
        match magnitude(s, start + 1, base) {
            None => Literal::Malformed,
            Some(m) => {
                proof {
                    if m is None {
                        assert(ranged(value(body.drop_first(), base as int), neg)
                            == Literal::Overflow);
                    }
                }
                signed(m, neg)
            },
        }
    } else {
        proof {
            if start < s.len() {
                assert(body[0] == s@[start as int]);
            }
        }
        match magnitude(s, start, 10) {
            None => Literal::NotANumber,
            Some(m) => {
                proof {
                    if m is None {
                        assert(ranged(value(body, 10), neg) == Literal::Overflow);
                    }
                }
                signed(m, neg)
            },
        }
    }
}

/// The decimal digits of `n`, most significant first, without leading zeros.
pub open spec fn digits_of(n: nat) -> Seq<u8>
    decreases n,
{
    if n < 10 {
        seq![(0x30 + n) as u8]
    } else {
        digits_of(n / 10).push((0x30 + n % 10) as u8)
    }
}

/// The decimal form of `n`: a `-` for a negative number, then the digits.
pub open spec fn decimal_of(n: int) -> Seq<u8> {
    if n < 0 {
        seq![0x2du8] + digits_of((-n) as nat)
    } else {
        digits_of(n as nat)
    }
}

/// The decimal digits of a number are digits, and they spell the number.
pub proof fn lemma_digits_spell(n: nat)
    ensures
        digits_of(n).len() > 0,
        digits_ok(digits_of(n), 10),
        value(digits_of(n), 10) == n,
    decreases n,
{
    if n < 10 {
        let s = digits_of(n);
        assert(s.drop_last() =~= Seq::<u8>::empty());
        assert(value(s.drop_last(), 10) == 0);
        assert(s.last() == (0x30 + n) as u8);
    } else {
        lemma_digits_spell(n / 10);
        let s = digits_of(n);
        let t = digits_of(n / 10);
        assert(s.drop_last() =~= t);
        assert(s.last() == (0x30 + n % 10) as u8);
        assert forall|i: int| 0 <= i < s.len() implies digit(#[trigger] s[i]) < 10 by {
            if i < t.len() {
                assert(s[i] == t[i]);
            }
        }
    }
}

/// Reading the decimal form of a number gives the number back.
pub proof fn lemma_decimal_roundtrip(n: i32)
    ensures
        literal_spec(decimal_of(n as int)) == Literal::Number(n),
{
    let s = decimal_of(n as int);
    if n < 0 {
        let m = (-n) as nat;
        lemma_digits_spell(m);
        assert(s.drop_first() =~= digits_of(m));
        assert(digit(digits_of(m)[0]) < 10);
    } else {
        lemma_digits_spell(n as nat);
        assert(digit(s[0]) < 10);
    }
}

/// The decimal form of `n`.
pub fn format_decimal(n: i32) -> (v: Vec<u8>)
    ensures
        v@ == decimal_of(n as int),
{
    let neg = n < 0;
    let mag: i64 = if neg {
        -(n as i64)
    } else {
        n as i64
    };
    let mut m: i64 = mag;
    let mut rev: Vec<u8> = Vec::new();
    while m >= 10
        invariant
            0 <= m <= mag,
            digits_of(mag as nat) == digits_of(m as nat) + rev@.reverse(),
        decreases m,
    {
        let d = (0x30 + m % 10) as u8;
        let ghost before = rev@;
        rev.push(d);
        proof {
            assert(rev@.reverse() =~= seq![d] + before.reverse());
            assert(digits_of(m as nat) == digits_of((m / 10) as nat).push(d));
            assert(digits_of((m / 10) as nat).push(d) + before.reverse() =~= digits_of(
                (m / 10) as nat,
            ) + rev@.reverse());
        }
        m = m / 10;
    }
    let mut v: Vec<u8> = Vec::new();
    if neg {
        v.push(0x2d);
    }
    v.push((0x30 + m) as u8);
    let ghost head = v@;
    let mut i: usize = rev.len();
    while i > 0
        invariant
            i <= rev.len(),
            v@ == head + rev@.reverse().take(rev.len() - i),
        decreases i,
    {
        i -= 1;
        v.push(rev[i]);
        assert(v@ =~= head + rev@.reverse().take(rev.len() - i));
    }
    proof {
        assert(rev@.reverse().take(rev.len() as int) =~= rev@.reverse());
        assert(digits_of(m as nat) =~= seq![(0x30 + m) as u8]);
        if neg {
            assert(v@ =~= seq![0x2du8] + digits_of(mag as nat));
        } else {
            assert(v@ =~= digits_of(mag as nat));
        }
    }
    v
}

} // verus!
