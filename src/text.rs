//! Literal, case-sensitive string comparison on character sequences.
use vstd::prelude::*;

verus! {

/// `q` occurs in `s` as a contiguous run of characters.
pub open spec fn contains(s: Seq<char>, q: Seq<char>) -> bool {
    exists|i: int| 0 <= i && i + q.len() <= s.len() && #[trigger] s.subrange(i, i + q.len()) == q
}

/// Exact equality for `exact`, substring occurrence otherwise.
pub open spec fn text_matches(s: Seq<char>, q: Seq<char>, exact: bool) -> bool {
    if exact {
        s == q
    } else {
        contains(s, q)
    }
}

/// Every sequence occurs in itself.
pub proof fn lemma_contains_self(s: Seq<char>)
    ensures
        contains(s, s),
{
    assert(s.subrange(0int, 0int + s.len()) =~= s);
}

/// The characters of `s`, in order.
pub fn chars_of(s: &str) -> (r: Vec<char>)
    ensures
        r@ == s@,
{
    let n = s.unicode_len();
    let mut r: Vec<char> = Vec::new();
    let mut i: usize = 0;
    while i < n
        invariant
            n == s@.len(),
            i <= n,
            r@ == s@.subrange(0, i as int),
        decreases n - i,
    {
        r.push(s.get_char(i));
        i += 1;
        assert(r@ =~= s@.subrange(0, i as int));
    }
    assert(r@ =~= s@);
    r
}

/// Whether `q` stands in `s` starting at position `at`.
fn occurs_at(s: &Vec<char>, q: &Vec<char>, at: usize) -> (r: bool)
    requires
        at + q@.len() <= s@.len(),
    ensures
        r == (s@.subrange(at as int, at + q@.len()) == q@),
{
    let n = s.len();
    let mut k: usize = 0;
    while k < q.len()
        invariant
            n == s@.len(),
            at + q@.len() <= s@.len(),
            k <= q@.len(),
            forall|j: int| 0 <= j < k ==> s@[at + j] == q@[j],
        decreases q@.len() - k,
    {
        if s[at + k] != q[k] {
            assert(s@.subrange(at as int, at + q@.len())[k as int] != q@[k as int]);
            return false;
        }
        k += 1;
    }
    assert(s@.subrange(at as int, at + q@.len()) =~= q@);
    true
}

/// Whether `q` occurs in `s`.
pub fn str_contains(s: &str, q: &str) -> (r: bool)
    ensures
        r == contains(s@, q@),
{
    let sc = chars_of(s);
    let qc = chars_of(q);
    if qc.len() > sc.len() {
        return false;
    }
    let last = sc.len() - qc.len();
    let mut i: usize = 0;
    loop
        invariant
            sc@ == s@,
            qc@ == q@,
            last == sc@.len() - qc@.len(),
            i <= last,
            forall|j: int| 0 <= j < i ==> #[trigger] s@.subrange(j, j + q@.len()) != q@,
        decreases last - i,
    {
        if occurs_at(&sc, &qc, i) {
            return true;
        }
        if i == last {
            return false;
        }
        i += 1;
    }
}

/// Whether `a` and `b` hold the same characters.
pub fn str_equal(a: &str, b: &str) -> (r: bool)
    ensures
        r == (a@ == b@),
{
    let ac = chars_of(a);
    let bc = chars_of(b);
    if ac.len() != bc.len() {
        return false;
    }
    let r = occurs_at(&ac, &bc, 0);
    assert(a@.subrange(0, b@.len() as int) =~= a@);
    r
}

/// Exact equality for `exact`, substring occurrence otherwise.
pub fn str_matches(s: &str, q: &str, exact: bool) -> (r: bool)
    ensures
        r == text_matches(s@, q@, exact),
{
    if exact {
        str_equal(s, q)
    } else {
        str_contains(s, q)
    }
}

} // verus!
