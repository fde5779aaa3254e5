//! Short ASCII names.

use vstd::prelude::*;
use vstd::slice::slice_subrange;

verus! {

/// The most bytes a name can have.
pub const MAX_NAME_LEN: usize = 31;

/// `b` with an ASCII capital letter turned into its small letter.
pub open spec fn lower(b: u8) -> u8 {
    if 0x41 <= b <= 0x5a {
        (b + 0x20) as u8
    } else {
        b
    }
}

/// `s` with every ASCII capital letter turned into its small letter.
pub open spec fn folded(s: Seq<u8>) -> Seq<u8> {
    Seq::new(s.len(), |i: int| lower(s[i]))
}

/// Whether every byte of `s` is ASCII.
pub open spec fn all_ascii(s: Seq<u8>) -> bool {
    forall|i: int| 0 <= i < s.len() ==> #[trigger] s[i] < 0x80
}

/// Whether `s` can be a name as it stands: at most 31 bytes, all of them
/// ASCII and none a capital letter.
pub open spec fn is_name(s: Seq<u8>) -> bool {
    &&& s.len() <= MAX_NAME_LEN
    &&& forall|i: int| 0 <= i < s.len() ==> (#[trigger] s[i]) < 0x80 && !(0x41 <= s[i] <= 0x5a)
}

/// Folding ASCII text of at most 31 bytes gives a name.
pub proof fn lemma_folded_is_name(s: Seq<u8>)
    requires
        s.len() <= MAX_NAME_LEN,
        all_ascii(s),
    ensures
        is_name(folded(s)),
        folded(s).len() == s.len(),
{
    assert forall|i: int| 0 <= i < s.len() implies (#[trigger] folded(s)[i]) < 0x80 && !(0x41
        <= folded(s)[i] <= 0x5a) by {
        assert(s[i] < 0x80);
    }
}

/// Folding changes nothing in what is already a name.
pub proof fn lemma_folded_name(s: Seq<u8>)
    requires
        is_name(s),
    ensures
        folded(s) == s,
{
    assert(folded(s) =~= s);
}

/// The small letter for `b`, where `b` is an ASCII capital letter; `b`
/// otherwise.
pub fn to_lower(b: u8) -> (r: u8)
    ensures
        r == lower(b),
{
    if 0x41 <= b && b <= 0x5a {
        b + 0x20
    } else {
        b
    }
}

/// A copy of `s` with the ASCII capital letters turned into small ones.
pub fn fold_bytes(s: &[u8]) -> (v: Vec<u8>)
    ensures
        v@ == folded(s@),
{
    let mut v: Vec<u8> = Vec::new();
    let mut i: usize = 0;
    while i < s.len()
        invariant
            i <= s.len(),
            v@ == folded(s@.take(i as int)),
        decreases s.len() - i,
    {
        v.push(to_lower(s[i]));
        i += 1;
        assert(v@ =~= folded(s@.take(i as int)));
    }
    assert(s@.take(i as int) =~= s@);
    v
}

/// Whether every byte of `s` is ASCII.
pub fn is_all_ascii(s: &[u8]) -> (r: bool)
    ensures
        r == all_ascii(s@),
{
    let mut i: usize = 0;
    while i < s.len()
        invariant
            i <= s.len(),
            forall|j: int| 0 <= j < i ==> #[trigger] s@[j] < 0x80,
        decreases s.len() - i,
    {
        if s[i] >= 0x80 {
            return false;
        }
        i += 1;
    }
    true
}

/// A name: at most 31 bytes of ASCII without capital letters. Its view is
/// the bytes.
#[derive(Debug)]
pub struct FaStr {
    bytes: Vec<u8>,
}

impl View for FaStr {
    type V = Seq<u8>;

    closed spec fn view(&self) -> Seq<u8> {
        self.bytes@
    }
}

impl Clone for FaStr {
    fn clone(&self) -> (r: Self)
        ensures
            r@ == self@,
    {
        FaStr { bytes: self.bytes.clone() }
    }
}

impl FaStr {
    /// The name is one: short enough, ASCII, and folded.
    pub open spec fn wf(&self) -> bool {
        is_name(self@)
    }

    /// The name that `s` folds to. `None` where `s` has more than 31 bytes or
    /// one that is not ASCII.
    pub fn new(s: &[u8]) -> (r: Option<FaStr>)
        ensures
            s@.len() <= MAX_NAME_LEN && all_ascii(s@) ==> r is Some && r.unwrap()@ == folded(s@)
                && r.unwrap().wf(),
            !(s@.len() <= MAX_NAME_LEN && all_ascii(s@)) ==> r is None,
    {
        if s.len() > MAX_NAME_LEN || !is_all_ascii(s) {
            return None;
        }
        proof {
            lemma_folded_is_name(s@);
        }
        Some(FaStr { bytes: fold_bytes(s) })
    }

    /// The name that the first 31 bytes of `s` fold to. `None` where a byte
    /// of `s`, among the first 31 or after them, is not ASCII.
    pub fn truncated(s: &[u8]) -> (r: Option<FaStr>)
        ensures
            all_ascii(s@) ==> r is Some && r.unwrap()@ == folded(Self::head(s@))
                && r.unwrap().wf(),
            !all_ascii(s@) ==> r is None,
    {
        if !is_all_ascii(s) {
            return None;
        }
        let n = if s.len() < MAX_NAME_LEN {
            s.len()
        } else {
            MAX_NAME_LEN
        };
        let head = slice_subrange(s, 0, n);
        assert(head@ =~= Self::head(s@));
        assert(all_ascii(head@)) by {
            assert forall|i: int| 0 <= i < head@.len() implies #[trigger] head@[i] < 0x80 by {
                assert(s@[i] < 0x80);
            }
        }
        Self::new(head)
    }

    /// The first 31 bytes of `s`, or all of `s` where it has fewer.
    pub open spec fn head(s: Seq<u8>) -> Seq<u8> {
        if s.len() < MAX_NAME_LEN {
            s
        } else {
            s.take(MAX_NAME_LEN as int)
        }
    }

    pub fn len(&self) -> (n: usize)
        ensures
            n == self@.len(),
    {
        self.bytes.len()
    }

    pub fn as_bytes(&self) -> (b: &[u8])
        ensures
            b@ == self@,
    {
        self.bytes.as_slice()
    }

    /// Whether the name is exactly the bytes `s`.
    pub fn is(&self, s: &[u8]) -> (r: bool)
        ensures
            r == (self@ == s@),
    {
        crate::text::bytes_eq(self.bytes.as_slice(), s)
    }
}

} // verus!
