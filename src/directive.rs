use vstd::prelude::*;

verus! {

/// The capability tier requested by an `#[optic]` annotation.
#[derive(Clone, Copy, Debug, PartialEq, Eq, Structural)]
pub enum OpticMutability {
    /// `#[optic]`: owning, mutable and read-only access.
    Move,
    /// `#[optic(ref)]`: read-only access.
    Ref,
    /// `#[optic(mut)]`: mutable and read-only access.
    Mut,
}

pub open spec fn is_space(c: char) -> bool {
    c == ' ' || c == '\t' || c == '\n' || c == '\r'
}

/// `s` without its leading white space.
pub open spec fn trim_front(s: Seq<char>) -> Seq<char>
    decreases s.len(),
{
    if s.len() > 0 && is_space(s[0]) {
        trim_front(s.drop_first())
    } else {
        s
    }
}

/// `s` without its trailing white space.
pub open spec fn trim_back(s: Seq<char>) -> Seq<char>
    decreases s.len(),
{
    if s.len() > 0 && is_space(s.last()) {
        trim_back(s.drop_last())
    } else {
        s
    }
}

pub open spec fn trim(s: Seq<char>) -> Seq<char> {
    trim_back(trim_front(s))
}

/// The mode that an annotation payload selects: nothing at all selects `Move`,
/// a parenthesised `mut` or `ref` selects `Mut` or `Ref`; anything else is
/// malformed (`None`).
pub open spec fn directive_mode(s: Seq<char>) -> Option<OpticMutability> {
    let t = trim(s);
    if t.len() == 0 {
        Some(OpticMutability::Move)
    } else if t.len() >= 2 && t[0] == '(' && t.last() == ')' {
        let k = trim(t.subrange(1, t.len() - 1));
        if k == seq!['m', 'u', 't'] {
            Some(OpticMutability::Mut)
        } else if k == seq!['r', 'e', 'f'] {
            Some(OpticMutability::Ref)
        } else {
            None
        }
    } else {
        None
    }
}

proof fn lemma_trim_front_skip(s: Seq<char>, i: int)
    requires
        0 <= i <= s.len(),
        forall|j: int| 0 <= j < i ==> is_space(#[trigger] s[j]),
    ensures
        trim_front(s) == trim_front(s.subrange(i, s.len() as int)),
    decreases i,
{
    if i > 0 {
        let t = s.drop_first();
        assert forall|j: int| 0 <= j < i - 1 implies is_space(#[trigger] t[j]) by {
            assert(t[j] == s[j + 1]);
        }
        lemma_trim_front_skip(t, i - 1);
        assert(t.subrange(i - 1, t.len() as int) =~= s.subrange(i, s.len() as int));
    } else {
        assert(s.subrange(0, s.len() as int) =~= s);
    }
}

proof fn lemma_trim_back_skip(s: Seq<char>, i: int)
    requires
        0 <= i <= s.len(),
        forall|j: int| i <= j < s.len() ==> is_space(#[trigger] s[j]),
    ensures
        trim_back(s) == trim_back(s.subrange(0, i)),
    decreases s.len() - i,
{
    if i < s.len() {
        let t = s.drop_last();
        assert forall|j: int| i <= j < t.len() implies is_space(#[trigger] t[j]) by {
            assert(t[j] == s[j]);
        }
        lemma_trim_back_skip(t, i);
        assert(t.subrange(0, i) =~= s.subrange(0, i));
    } else {
        assert(s.subrange(0, i) =~= s);
    }
}

/// Bounds of `s[lo..hi]` with the white space at both ends left out.
fn trim_range(s: &str, lo: usize, hi: usize) -> (r: (usize, usize))
    requires
        lo <= hi <= s@.len(),
    ensures
        lo <= r.0 <= r.1 <= hi,
        s@.subrange(r.0 as int, r.1 as int) == trim(s@.subrange(lo as int, hi as int)),
{
    let ghost x = s@.subrange(lo as int, hi as int);
    let mut a: usize = lo;
    while a < hi && is_space_char(s.get_char(a))
        invariant
            lo <= a <= hi <= s@.len(),
            x == s@.subrange(lo as int, hi as int),
            forall|j: int| lo <= j < a ==> is_space(#[trigger] s@[j]),
        decreases hi - a,
    {
        a = a + 1;
    }
    proof {
        assert forall|j: int| 0 <= j < a - lo implies is_space(#[trigger] x[j]) by {
            assert(x[j] == s@[lo + j]);
        }
        lemma_trim_front_skip(x, a - lo);
        assert(x.subrange(a - lo, x.len() as int) =~= s@.subrange(a as int, hi as int));
        let y = s@.subrange(a as int, hi as int);
        if y.len() > 0 {
            assert(y[0] == s@[a as int]);
        }
        assert(trim_front(y) == y);
    }
    let mut b: usize = hi;
    while b > a && is_space_char(s.get_char(b - 1))
        invariant
            lo <= a <= b <= hi <= s@.len(),
            forall|j: int| b <= j < hi ==> is_space(#[trigger] s@[j]),
        decreases b - a,
    {
        b = b - 1;
    }
    proof {
        let y = s@.subrange(a as int, hi as int);
        assert forall|j: int| b - a <= j < y.len() implies is_space(#[trigger] y[j]) by {
            assert(y[j] == s@[a + j]);
        }
        lemma_trim_back_skip(y, b - a);
        let z = s@.subrange(a as int, b as int);
        assert(y.subrange(0, b - a) =~= z);
        if z.len() > 0 {
            assert(z.last() == s@[b - 1]);
        }
        assert(trim_back(z) == z);
    }
    (a, b)
}

fn is_space_char(c: char) -> (r: bool)
    ensures
        r == is_space(c),
{
    c == ' ' || c == '\t' || c == '\n' || c == '\r'
}

/// Whether `s[lo..hi]` spells the three characters `k0 k1 k2`.
fn spells(s: &str, lo: usize, hi: usize, k0: char, k1: char, k2: char) -> (r: bool)
    requires
        lo <= hi <= s@.len(),
    ensures
        r == (s@.subrange(lo as int, hi as int) == seq![k0, k1, k2]),
{
    if hi - lo != 3 {
        proof {
            assert(s@.subrange(lo as int, hi as int).len() != 3);
        }
        return false;
    }
    let r = s.get_char(lo) == k0 && s.get_char(lo + 1) == k1 && s.get_char(lo + 2) == k2;
    proof {
        let w = s@.subrange(lo as int, hi as int);
        if r {
            assert(w =~= seq![k0, k1, k2]);
        } else {
            if w == seq![k0, k1, k2] {
                assert(w[0] == s@[lo as int]);
                assert(w[1] == s@[lo + 1]);
                assert(w[2] == s@[lo + 2]);
            }
        }
    }
    r
}

impl OpticMutability {
    /// Reads an annotation payload: empty selects `Move`, `(mut)` and `(ref)`
    /// select `Mut` and `Ref`; white space around the tokens is ignored.
    /// Any other payload is refused.
    pub fn parse(payload: &str) -> (r: Option<OpticMutability>)
        ensures
            r == directive_mode(payload@),
    {
        let n = payload.unicode_len();
        let (lo, hi) = trim_range(payload, 0, n);
        proof {
            assert(payload@.subrange(0, n as int) =~= payload@);
        }
        let ghost t = trim(payload@);
        if lo == hi {
            return Some(OpticMutability::Move);
        }
        if hi - lo < 2 || payload.get_char(lo) != '(' || payload.get_char(hi - 1) != ')' {
            return None;
        }
        let (a, b) = trim_range(payload, lo + 1, hi - 1);
        proof {
            assert(t.subrange(1, t.len() - 1) =~= payload@.subrange(lo + 1, hi - 1));
        }
        if spells(payload, a, b, 'm', 'u', 't') {
            Some(OpticMutability::Mut)
        } else if spells(payload, a, b, 'r', 'e', 'f') {
            Some(OpticMutability::Ref)
        } else {
            None
        }
    }
}

} // verus!
