//! Small verified helpers on byte vectors: copying, equality, and
//! comparing a range of a vector against a pattern.

use vstd::prelude::*;

verus! {

/// The views of a sequence of byte vectors.
pub open spec fn views_of(s: Seq<Vec<u8>>) -> Seq<Seq<u8>> {
    Seq::new(s.len(), |i: int| s[i]@)
}

/// The view of an optional byte vector.
pub open spec fn view_of_opt(o: Option<Vec<u8>>) -> Option<Seq<u8>> {
    match o {
        Some(v) => Some(v@),
        None => None,
    }
}

/// Copy of a byte vector; the view is preserved exactly.
pub fn copy_bytes(v: &Vec<u8>) -> (r: Vec<u8>)
    ensures
        r@ == v@,
{
    let mut r: Vec<u8> = Vec::new();
    let mut i: usize = 0;
    while i < v.len()
        invariant
            i <= v.len(),
            r@ == v@.subrange(0, i as int),
        decreases v.len() - i,
    {
        r.push(v[i]);
        i = i + 1;
        proof {
            assert(r@ =~= v@.subrange(0, i as int));
        }
    }
    proof {
        assert(v@.subrange(0, v@.len() as int) =~= v@);
    }
    r
}

/// Copy of a vector of byte vectors; the deep view is preserved.
pub fn copy_byte_vecs(v: &Vec<Vec<u8>>) -> (r: Vec<Vec<u8>>)
    ensures
        views_of(r@) == views_of(v@),
{
    let mut r: Vec<Vec<u8>> = Vec::new();
    let mut i: usize = 0;
    proof {
        assert(views_of(r@) =~= views_of(v@).take(0));
    }
    while i < v.len()
        invariant
            i <= v@.len(),
            r@.len() == i,
            views_of(r@) == views_of(v@).take(i as int),
        decreases v@.len() - i,
    {
        let ghost r_old = r@;
        let a = copy_bytes(&v[i]);
        r.push(a);
        i = i + 1;
        proof {
            assert forall|k: int| 0 <= k < i implies views_of(r@)[k] == views_of(v@).take(
                i as int,
            )[k] by {
                if k < i - 1 {
                    assert(views_of(r_old)[k] == views_of(v@).take(i - 1)[k]);
                }
            }
            assert(views_of(r@) =~= views_of(v@).take(i as int));
        }
    }
    proof {
        assert(views_of(v@).take(views_of(v@).len() as int) =~= views_of(v@));
    }
    r
}

/// Byte-for-byte equality of two vectors.
pub fn bytes_eq(a: &Vec<u8>, b: &Vec<u8>) -> (r: bool)
    ensures
        r == (a@ == b@),
{
    if a.len() != b.len() {
        return false;
    }
    let mut i: usize = 0;
    while i < a.len()
        invariant
            a@.len() == b@.len(),
            i <= a.len(),
            forall|k: int| 0 <= k < i ==> a@[k] == b@[k],
        decreases a.len() - i,
    {
        if a[i] != b[i] {
            return false;
        }
        i = i + 1;
    }
    proof {
        assert(a@ =~= b@);
    }
    true
}

/// Append the bytes `v[lo..hi]` to `out`.
pub fn push_range(out: &mut Vec<u8>, v: &Vec<u8>, lo: usize, hi: usize)
    requires
        lo <= hi <= v@.len(),
    ensures
        final(out)@ == old(out)@ + v@.subrange(lo as int, hi as int),
{
    proof {
        assert(old(out)@ + v@.subrange(lo as int, lo as int) =~= old(out)@);
    }
    let mut i: usize = lo;
    while i < hi
        invariant
            lo <= i <= hi <= v@.len(),
            out@ == old(out)@ + v@.subrange(lo as int, i as int),
        decreases hi - i,
    {
        out.push(v[i]);
        i = i + 1;
        proof {
            assert(out@ =~= old(out)@ + v@.subrange(lo as int, i as int));
        }
    }
}

/// Whether the bytes of `v` starting at `lo` equal `pat`.
pub fn range_matches(v: &Vec<u8>, lo: usize, pat: &Vec<u8>) -> (r: bool)
    requires
        lo + pat@.len() <= v@.len(),
    ensures
        r == (v@.subrange(lo as int, lo + pat@.len()) == pat@),
{
    let n: usize = v.len();
    let mut i: usize = 0;
    while i < pat.len()
        invariant
            lo + pat@.len() <= n,
            n == v@.len(),
            i <= pat.len(),
            forall|k: int| 0 <= k < i ==> v@[lo + k] == pat@[k],
        decreases pat.len() - i,
    {
        if v[lo + i] != pat[i] {
            proof {
                assert(v@.subrange(lo as int, lo + pat@.len())[i as int] != pat@[i as int]);
            }
            return false;
        }
        i = i + 1;
    }
    proof {
        assert(v@.subrange(lo as int, lo + pat@.len()) =~= pat@);
    }
    true
}

} // verus!
