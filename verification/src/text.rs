//! Scanning of byte text: the primitives shared by the line tokenizer of the
//! virtual machine and by the reader of test scripts.

use vstd::prelude::*;
use vstd::slice::slice_subrange;
use vstd::slice::slice_to_vec;

verus! {

/// ASCII white space: space, tab, line feed, vertical tab, form feed and
/// carriage return.
pub open spec fn is_space(b: u8) -> bool {
    b == 0x20 || (0x09 <= b && b <= 0x0d)
}

/// What parts the tokens of a line: a space, a tab or a line feed.
pub open spec fn is_blank(b: u8) -> bool {
    b == 0x20 || b == 0x09 || b == 0x0a
}

/// What a scan looks for.
#[derive(Debug, Clone, Copy, PartialEq, Eq, Structural)]
pub enum Scan {
    /// The given byte.
    Byte(u8),
    /// Any white space.
    Space,
    /// Anything but white space.
    NotSpace,
    /// A space, a tab or a line feed.
    Blank,
    /// Anything but a space, a tab or a line feed.
    NotBlank,
}

impl Scan {
    /// Whether the scan stops at `b`.
    pub open spec fn hits(self, b: u8) -> bool {
        match self {
            Scan::Byte(x) => b == x,
            Scan::Space => is_space(b),
            Scan::NotSpace => !is_space(b),
            Scan::Blank => is_blank(b),
            Scan::NotBlank => !is_blank(b),
        }
    }

    pub fn test(self, b: u8) -> (r: bool)
        ensures
            r == self.hits(b),
    {
        match self {
            Scan::Byte(x) => b == x,
            Scan::Space => b == 0x20 || (0x09 <= b && b <= 0x0d),
            Scan::NotSpace => !(b == 0x20 || (0x09 <= b && b <= 0x0d)),
            Scan::Blank => b == 0x20 || b == 0x09 || b == 0x0a,
            Scan::NotBlank => !(b == 0x20 || b == 0x09 || b == 0x0a),
        }
    }
}

/// The index of the first byte of `s` at which `sc` stops, or `s.len()` when
/// there is none.
pub open spec fn find(s: Seq<u8>, sc: Scan) -> int
    decreases s.len(),
{
    if s.len() == 0 {
        0
    } else if sc.hits(s[0]) {
        0
    } else {
        1 + find(s.drop_first(), sc)
    }
}

/// `find` returns the least index at which the scan stops.
pub proof fn lemma_find(s: Seq<u8>, sc: Scan)
    ensures
        0 <= find(s, sc) <= s.len(),
        forall|i: int| 0 <= i < find(s, sc) ==> !sc.hits(#[trigger] s[i]),
        find(s, sc) < s.len() ==> sc.hits(s[find(s, sc)]),
    decreases s.len(),
{
    if s.len() != 0 && !sc.hits(s[0]) {
        let t = s.drop_first();
        lemma_find(t, sc);
        assert forall|i: int| 0 <= i < find(s, sc) implies !sc.hits(#[trigger] s[i]) by {
            if i > 0 {
                assert(s[i] == t[i - 1]);
            }
        }
        if find(s, sc) < s.len() {
            assert(s[find(s, sc)] == t[find(t, sc)]);
        }
    }
}

/// Any index that is the least at which the scan stops is what `find` returns.
pub proof fn lemma_find_is(s: Seq<u8>, sc: Scan, n: int)
    requires
        0 <= n <= s.len(),
        forall|i: int| 0 <= i < n ==> !sc.hits(#[trigger] s[i]),
        n < s.len() ==> sc.hits(s[n]),
    ensures
        find(s, sc) == n,
{
    lemma_find(s, sc);
    let m = find(s, sc);
    if m < n {
        assert(!sc.hits(s[m]));
    } else if n < m {
        assert(!sc.hits(s[n]));
    }
}

/// Scans `s` from index `from`: returns the first index at or after `from`
/// where `sc` stops, or `s.len()`.
pub fn scan(s: &[u8], from: usize, sc: Scan) -> (n: usize)
    requires
        from <= s.len(),
    ensures
        from <= n <= s.len(),
        n - from == find(s@.skip(from as int), sc),
{
    let mut n = from;
    while n < s.len() && !sc.test(s[n])
        invariant
            from <= n <= s.len(),
            forall|i: int| from <= i < n ==> !sc.hits(#[trigger] s@[i]),
        decreases s.len() - n,
    {
        n += 1;
    }
    proof {
        let t = s@.skip(from as int);
        assert forall|i: int| 0 <= i < n - from implies !sc.hits(#[trigger] t[i]) by {
            assert(t[i] == s@[from + i]);
        }
        lemma_find_is(t, sc, n - from);
    }
    n
}

/// Whether two byte strings are the same.
pub fn bytes_eq(a: &[u8], b: &[u8]) -> (r: bool)
    ensures
        r == (a@ == b@),
{
    if a.len() != b.len() {
        return false;
    }
    let mut i: usize = 0;
    while i < a.len()
        invariant
            i <= a.len(),
            a.len() == b.len(),
            forall|j: int| 0 <= j < i ==> a@[j] == b@[j],
        decreases a.len() - i,
    {
        if a[i] != b[i] {
            return false;
        }
        i += 1;
    }
    assert(a@ =~= b@);
    true
}

/// Whether `b` is an ASCII decimal digit.
pub open spec fn is_digit(b: u8) -> bool {
    0x30 <= b <= 0x39
}

/// The number that the decimal digits `s` spell, most significant first.
pub open spec fn decimal_value(s: Seq<u8>) -> nat
    decreases s.len(),
{
    if s.len() == 0 {
        0
    } else {
        decimal_value(s.drop_last()) * 10 + (s.last() - 0x30) as nat
    }
}

/// Whether every byte of `s` is a decimal digit.
pub open spec fn all_digits(s: Seq<u8>) -> bool {
    forall|i: int| 0 <= i < s.len() ==> is_digit(#[trigger] s[i])
}

/// `s` without a leading `+`.
pub open spec fn unsigned_digits(s: Seq<u8>) -> Seq<u8> {
    if s.len() > 0 && s[0] == 0x2b {
        s.drop_first()
    } else {
        s
    }
}

/// What `s` spells as an unsigned machine integer: an optional `+`, then one
/// or more decimal digits, the value within range.
pub open spec fn parse_usize_spec(s: Seq<u8>) -> Option<usize> {
    let d = unsigned_digits(s);
    if d.len() > 0 && all_digits(d) && decimal_value(d) <= usize::MAX {
        Some(decimal_value(d) as usize)
    } else {
        None
    }
}

/// A longer run of digits spells no smaller a number.
pub proof fn lemma_decimal_monotonic(s: Seq<u8>, k: int)
    requires
        0 <= k <= s.len(),
        all_digits(s),
    ensures
        decimal_value(s.take(k)) <= decimal_value(s),
    decreases s.len() - k,
{
    if k < s.len() {
        let t = s.take(k + 1);
        assert(t.drop_last() =~= s.take(k));
        assert(is_digit(s[k]));
        assert(t.last() == s[k]);
        lemma_decimal_monotonic(s, k + 1);
    } else {
        assert(s.take(k) =~= s);
    }
}

/// Reads an unsigned machine integer from all of `s`.
pub fn parse_usize(s: &[u8]) -> (r: Option<usize>)
    ensures
        r == parse_usize_spec(s@),
{
    let start: usize = if s.len() > 0 && s[0] == 0x2b {
        1
    } else {
        0
    };
    let ghost d = unsigned_digits(s@);
    proof {
        if start == 1 {
            assert(d =~= s@.skip(1));
        } else {
            assert(d =~= s@.skip(0));
        }
    }
    if start >= s.len() {
        return None;
    }
    let mut acc: usize = 0;
    let mut i: usize = start;
    while i < s.len()
        invariant
            start <= i <= s.len(),
            d == s@.skip(start as int),
            d == unsigned_digits(s@),
            all_digits(d.take(i - start)),
            acc == decimal_value(d.take(i - start)),
        decreases s.len() - i,
    {
        let b = s[i];
        let ghost pre = d.take(i - start);
        let ghost cur = d.take(i - start + 1);
        proof {
            assert(cur.drop_last() =~= pre);
            assert(cur.last() == b);
        }
        if !(0x30 <= b && b <= 0x39) {
            proof {
                assert(d[i - start] == b);
                assert(!all_digits(d));
            }
            return None;
        }
        let digit: usize = (b - 0x30) as usize;
        proof {
            assert forall|j: int| 0 <= j < cur.len() implies is_digit(#[trigger] cur[j]) by {
                if j < pre.len() {
                    assert(cur[j] == pre[j]);
                }
            }
        }
        if acc > (usize::MAX - digit) / 10 {
            proof {
                assert(decimal_value(cur) == acc * 10 + digit);
                assert(decimal_value(cur) > usize::MAX) by (nonlinear_arith)
                    requires
                        decimal_value(cur) == acc * 10 + digit,
                        acc > (usize::MAX - digit) / 10,
                        0 <= digit <= 9,
                ;
                if all_digits(d) {
                    lemma_decimal_monotonic(d, i - start + 1);
                }
            }
            return None;
        }
        assert(acc * 10 + digit <= usize::MAX) by (nonlinear_arith)
            requires
                acc <= (usize::MAX - digit) / 10,
                0 <= digit <= 9,
        ;
        acc = acc * 10 + digit;
        i += 1;
    }
    proof {
        assert(d.take(i - start) =~= d);
    }
    Some(acc)
}

/// `l` without one trailing carriage return.
pub open spec fn strip_cr(l: Seq<u8>) -> Seq<u8> {
    if l.len() > 0 && l.last() == 0x0d {
        l.drop_last()
    } else {
        l
    }
}

/// The lines of `s`. A line ends with a line feed, or with a carriage return
/// and a line feed, neither of which belongs to the line. The last line
/// needs no ending; text that ends with a line ending has no empty line
/// after it.
pub open spec fn lines(s: Seq<u8>) -> Seq<Seq<u8>>
    decreases s.len(),
{
    if s.len() == 0 {
        Seq::empty()
    } else {
        let n = find(s, Scan::Byte(0x0a));
        if 0 <= n < s.len() {
            seq![strip_cr(s.take(n))] + lines(s.skip(n + 1))
        } else {
            seq![s]
        }
    }
}

/// `s` without the white space at its end.
pub open spec fn trim_end(s: Seq<u8>) -> Seq<u8>
    decreases s.len(),
{
    if s.len() > 0 && is_space(s.last()) {
        trim_end(s.drop_last())
    } else {
        s
    }
}

/// The lines of `v`, each as a sequence of bytes.
pub open spec fn lines_of(v: Seq<Vec<u8>>) -> Seq<Seq<u8>> {
    v.map_values(|l: Vec<u8>| l@)
}

/// Splits `s` into its lines.
pub fn split_lines(s: &[u8]) -> (v: Vec<Vec<u8>>)
    ensures
        lines_of(v@) == lines(s@),
{
    let mut v: Vec<Vec<u8>> = Vec::new();
    let mut pos: usize = 0;
    assert(s@.skip(0) =~= s@);
    assert(lines_of(v@) =~= Seq::<Seq<u8>>::empty());
    while pos < s.len()
        invariant
            pos <= s.len(),
            lines(s@) == lines_of(v@) + lines(s@.skip(pos as int)),
        decreases s.len() - pos,
    {
        let ghost rest = s@.skip(pos as int);
        let ghost before = v@;
        let n = scan(s, pos, Scan::Byte(0x0a));
        let line = slice_subrange(s, pos, n);
        assert(line@ =~= rest.take(n - pos));
        if n < s.len() {
            let line = if line.len() > 0 && line[line.len() - 1] == 0x0d {
                let stripped = slice_subrange(line, 0, line.len() - 1);
                assert(stripped@ =~= line@.drop_last());
                stripped
            } else {
                line
            };
            v.push(slice_to_vec(line));
            proof {
                assert(rest.skip(n - pos + 1) =~= s@.skip(n + 1));
                assert(lines_of(v@) =~= lines_of(before).push(line@));
                assert(lines(s@) =~= lines_of(v@) + lines(s@.skip(n + 1)));
            }
            pos = n + 1;
        } else {
            v.push(slice_to_vec(line));
            proof {
                assert(line@ =~= rest);
                assert(lines_of(v@) =~= lines_of(before).push(line@));
                assert(s@.skip(n as int).len() == 0);
                assert(lines(s@.skip(n as int)) =~= Seq::<Seq<u8>>::empty());
                assert(lines(s@) =~= lines_of(v@) + lines(s@.skip(n as int)));
            }
            pos = n;
        }
    }
    proof {
        assert(s@.skip(pos as int).len() == 0);
        assert(lines(s@) =~= lines_of(v@));
    }
    v
}

/// The length of `s` without the white space at its end.
pub fn trimmed_len(s: &[u8]) -> (n: usize)
    ensures
        n <= s@.len(),
        s@.take(n as int) == trim_end(s@),
{
    let mut n = s.len();
    assert(s@.take(n as int) =~= s@);
    while n > 0 && Scan::Space.test(s[n - 1])
        invariant
            n <= s@.len(),
            trim_end(s@) == trim_end(s@.take(n as int)),
        decreases n,
    {
        proof {
            let t = s@.take(n as int);
            assert(t.last() == s@[n - 1]);
            assert(t.drop_last() =~= s@.take(n - 1));
        }
        n -= 1;
    }
    proof {
        let t = s@.take(n as int);
        if n > 0 {
            assert(t.last() == s@[n - 1]);
        }
    }
    n
}

/// Whether `a` and `b` are the same but for white space at their ends.
pub fn same_trimmed(a: &[u8], b: &[u8]) -> (r: bool)
    ensures
        r == (trim_end(a@) == trim_end(b@)),
{
    let ta = slice_subrange(a, 0, trimmed_len(a));
    let tb = slice_subrange(b, 0, trimmed_len(b));
    bytes_eq(ta, tb)
}

} // verus!
