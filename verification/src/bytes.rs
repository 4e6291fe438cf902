use vstd::prelude::*;

verus! {

/// Copy a byte slice into a fresh vector.
pub fn bytes_copy(a: &[u8]) -> (r: Vec<u8>)
    ensures
        r@ == a@,
{
    let mut out: Vec<u8> = Vec::new();
    let mut i: usize = 0;
    while i < a.len()
        invariant
            i <= a.len(),
            out@ == a@.subrange(0, i as int),
        decreases a.len() - i,
    {
        out.push(a[i]);
        i = i + 1;
        proof {
            assert(out@ =~= a@.subrange(0, i as int));
        }
    }
    proof {
        assert(out@ =~= a@);
    }
    out
}

/// Append a byte slice to a vector.
pub fn bytes_extend(out: &mut Vec<u8>, a: &[u8])
    ensures
        final(out)@ == old(out)@ + a@,
{
    let mut i: usize = 0;
    while i < a.len()
        invariant
            i <= a.len(),
            out@ == old(out)@ + a@.subrange(0, i as int),
        decreases a.len() - i,
    {
        out.push(a[i]);
        i = i + 1;
        proof {
            assert(out@ =~= old(out)@ + a@.subrange(0, i as int));
        }
    }
    proof {
        assert(out@ =~= old(out)@ + a@);
    }
}

/// Concatenate two byte slices.
pub fn bytes_concat(a: &[u8], b: &[u8]) -> (r: Vec<u8>)
    ensures
        r@ == a@ + b@,
{
    let mut out = bytes_copy(a);
    bytes_extend(&mut out, b);
    out
}

/// Test two byte slices for equality.
pub fn bytes_eq(a: &[u8], b: &[u8]) -> (r: bool)
    ensures
        r == (a@ == b@),
{
    if a.len() != b.len() {
        return false;
    }
    let mut i: usize = 0;
    while i < a.len()
        invariant
            i <= a.len(),
            a@.len() == b@.len(),
            forall|j: int| 0 <= j < i ==> a@[j] == b@[j],
        decreases a.len() - i,
    {
        if a[i] != b[i] {
            return false;
        }
        i = i + 1;
    }
    proof {
        assert(a@ =~= b@);
    }
    true
}

/// Test whether the region of `a` starting at `from` equals `lit`.
pub fn region_eq(a: &[u8], from: usize, lit: &[u8]) -> (r: bool)
    requires
        from + lit@.len() <= a@.len(),
    ensures
        r == (a@.subrange(from as int, from + lit@.len()) == lit@),
{
    let alen = a.len();
    let mut i: usize = 0;
    while i < lit.len()
        invariant
            i <= lit@.len(),
            from + lit@.len() <= a@.len(),
            a@.len() == alen,
            forall|j: int| 0 <= j < i ==> a@[from + j] == lit@[j],
        decreases lit@.len() - i,
    {
        if a[from + i] != lit[i] {
            proof {
                assert(a@.subrange(from as int, from + lit@.len())[i as int] != lit@[i as int]);
            }
            return false;
        }
        i = i + 1;
    }
    proof {
        assert(a@.subrange(from as int, from + lit@.len()) =~= lit@);
    }
    true
}

/// Copy the range `[from, to)` of a byte slice into a fresh vector.
pub fn bytes_range(a: &[u8], from: usize, to: usize) -> (r: Vec<u8>)
    requires
        from <= to <= a@.len(),
    ensures
        r@ == a@.subrange(from as int, to as int),
{
    let mut out: Vec<u8> = Vec::new();
    let mut i: usize = from;
    while i < to
        invariant
            from <= i <= to <= a@.len(),
            out@ == a@.subrange(from as int, i as int),
        decreases to - i,
    {
        out.push(a[i]);
        i = i + 1;
        proof {
            assert(out@ =~= a@.subrange(from as int, i as int));
        }
    }
    out
}

} // verus!
