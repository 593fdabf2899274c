//! Byte-level path helpers: file name (the part after the last `/`) and file
//! stem (the name up to its last dot), as the item set and the client display
//! use them.
//!
//! A path is a byte vector; `/` is byte 47 and `.` is byte 46.

use vstd::prelude::*;

verus! {

/// Index where the file name of `p` begins: just after the last `/`, or 0
/// when there is none.
pub open spec fn name_start(p: Seq<u8>) -> int
    decreases p.len(),
{
    if p.len() == 0 {
        0
    } else if p[p.len() - 1] == 47u8 {
        p.len() as int
    } else {
        name_start(p.drop_last())
    }
}

pub proof fn lemma_name_start_bounds(p: Seq<u8>)
    ensures
        0 <= name_start(p) <= p.len(),
    decreases p.len(),
{
    if p.len() > 0 && p[p.len() - 1] != 47u8 {
        lemma_name_start_bounds(p.drop_last());
    }
}

/// The trailing component of `p`: everything after the last `/`.
pub open spec fn name_of(p: Seq<u8>) -> Seq<u8> {
    p.subrange(name_start_clipped(p), p.len() as int)
}

/// `name_start`, clipped into range so `name_of` is always well formed.
pub open spec fn name_start_clipped(p: Seq<u8>) -> int {
    if 0 <= name_start(p) <= p.len() {
        name_start(p)
    } else {
        0
    }
}

/// Whether `p` has a resolvable file name: a nonempty trailing component that
/// is neither `.` nor `..`.
pub open spec fn has_file_name(p: Seq<u8>) -> bool {
    let n = name_of(p);
    n.len() > 0 && n != seq![46u8] && n != seq![46u8, 46u8]
}

/// The file name of `p`, when it has one.
pub open spec fn spec_file_name(p: Seq<u8>) -> Option<Seq<u8>> {
    if has_file_name(p) {
        Some(name_of(p))
    } else {
        None
    }
}

/// Index of the last `.` in `n`, or -1 when there is none.
pub open spec fn last_dot(n: Seq<u8>) -> int
    decreases n.len(),
{
    if n.len() == 0 {
        -1
    } else if n[n.len() - 1] == 46u8 {
        n.len() - 1
    } else {
        last_dot(n.drop_last())
    }
}

pub proof fn lemma_last_dot_bounds(n: Seq<u8>)
    ensures
        -1 <= last_dot(n) < n.len(),
    decreases n.len(),
{
    if n.len() > 0 && n[n.len() - 1] != 46u8 {
        lemma_last_dot_bounds(n.drop_last());
    }
}

/// The stem of a file name: the part before the last dot, except that a dot
/// in the leading position does not count.
pub open spec fn spec_stem(n: Seq<u8>) -> Seq<u8> {
    if 0 < last_dot(n) < n.len() {
        n.subrange(0, last_dot(n))
    } else {
        n
    }
}

/// The stem of the file name of `p`, when `p` has a file name.
pub open spec fn spec_file_stem(p: Seq<u8>) -> Option<Seq<u8>> {
    match spec_file_name(p) {
        Some(n) => Some(spec_stem(n)),
        None => None,
    }
}

/// An owned copy of a byte vector.
pub fn copy_bytes(v: &Vec<u8>) -> (r: Vec<u8>)
    ensures
        r@ == v@,
{
    let mut r: Vec<u8> = Vec::new();
    let mut t: usize = 0;
    while t < v.len()
        invariant
            t <= v@.len(),
            r@ == v@.subrange(0, t as int),
        decreases v@.len() - t,
    {
        let ghost pre = r@;
        r.push(v[t]);
        proof {
            assert(pre + seq![v@[t as int]] =~= v@.subrange(0, t + 1));
        }
        t = t + 1;
    }
    proof {
        assert(v@.subrange(0, v@.len() as int) =~= v@);
    }
    r
}

/// Whether two byte vectors hold the same bytes.
pub fn bytes_eq(a: &Vec<u8>, b: &Vec<u8>) -> (r: bool)
    ensures
        r == (a@ == b@),
{
    if a.len() != b.len() {
        return false;
    }
    let mut t: usize = 0;
    while t < a.len()
        invariant
            t <= a@.len(),
            a@.len() == b@.len(),
            a@.subrange(0, t as int) == b@.subrange(0, t as int),
        decreases a@.len() - t,
    {
        if a[t] != b[t] {
            proof {
                assert(a@[t as int] != b@[t as int]);
            }
            return false;
        }
        proof {
            assert(a@.subrange(0, t + 1) =~= a@.subrange(0, t as int) + seq![a@[t as int]]);
            assert(b@.subrange(0, t + 1) =~= b@.subrange(0, t as int) + seq![b@[t as int]]);
        }
        t = t + 1;
    }
    proof {
        assert(a@.subrange(0, a@.len() as int) =~= a@);
        assert(b@.subrange(0, b@.len() as int) =~= b@);
        assert(a@ =~= b@);
    }
    true
}

/// The prefix of `p` up to index `k`, as an owned vector.
pub fn head_to(p: &Vec<u8>, k: usize) -> (r: Vec<u8>)
    requires
        k <= p@.len(),
    ensures
        r@ == p@.subrange(0, k as int),
{
    let mut r: Vec<u8> = Vec::new();
    let mut t: usize = 0;
    while t < k
        invariant
            t <= k <= p@.len(),
            r@ == p@.subrange(0, t as int),
        decreases k - t,
    {
        let ghost pre = r@;
        r.push(p[t]);
        proof {
            assert(pre + seq![p@[t as int]] =~= p@.subrange(0, t + 1));
        }
        t = t + 1;
    }
    r
}

/// The suffix of `p` from index `k` on, as an owned vector.
pub fn tail_from(p: &Vec<u8>, k: usize) -> (r: Vec<u8>)
    requires
        k <= p@.len(),
    ensures
        r@ == p@.subrange(k as int, p@.len() as int),
{
    let mut r: Vec<u8> = Vec::new();
    let mut t: usize = k;
    while t < p.len()
        invariant
            k <= t <= p@.len(),
            r@ == p@.subrange(k as int, t as int),
        decreases p@.len() - t,
    {
        let ghost pre = r@;
        r.push(p[t]);
        proof {
            assert(pre + seq![p@[t as int]] =~= p@.subrange(k as int, t + 1));
        }
        t = t + 1;
    }
    r
}

/// Index where the file name of `p` begins.
pub fn find_name_start(p: &Vec<u8>) -> (k: usize)
    ensures
        k == name_start(p@),
        0 <= k <= p@.len(),
{
    proof {
        lemma_name_start_bounds(p@);
        assert(p@.subrange(0, p@.len() as int) =~= p@);
    }
    let mut k: usize = p.len();
    while k > 0
        invariant
            k <= p@.len(),
            name_start(p@) == name_start(p@.subrange(0, k as int)),
        decreases k,
    {
        if p[k - 1] == 47u8 {
            proof {
                assert(p@.subrange(0, k as int)[k - 1] == p@[k - 1]);
            }
            return k;
        }
        proof {
            assert(p@.subrange(0, k as int).drop_last() =~= p@.subrange(0, k - 1));
            assert(p@.subrange(0, k as int)[k - 1] == p@[k - 1]);
        }
        k = k - 1;
    }
    0
}

/// The file name of `p`: `None` when the trailing component is empty, `.` or
/// `..`.
pub fn file_name(p: &Vec<u8>) -> (r: Option<Vec<u8>>)
    ensures
        match r {
            Some(n) => spec_file_name(p@) == Some(n@),
            None => spec_file_name(p@) is None,
        },
{
    let start = find_name_start(p);
    let n = tail_from(p, start);
    if n.len() == 0 {
        return None;
    }
    if n.len() == 1 && n[0] == 46u8 {
        proof {
            assert(n@ =~= seq![46u8]);
        }
        return None;
    }
    if n.len() == 2 && n[0] == 46u8 && n[1] == 46u8 {
        proof {
            assert(n@ =~= seq![46u8, 46u8]);
        }
        return None;
    }
    proof {
        if n@.len() == 1 {
            assert(n@ == seq![46u8] ==> n@[0] == 46u8);
        }
        if n@.len() == 2 {
            assert(n@ == seq![46u8, 46u8] ==> n@[0] == 46u8 && n@[1] == 46u8);
        }
    }
    Some(n)
}

/// The file stem of `p`: its file name up to the last dot.
pub fn file_stem(p: &Vec<u8>) -> (r: Option<Vec<u8>>)
    ensures
        match r {
            Some(s) => spec_file_stem(p@) == Some(s@),
            None => spec_file_stem(p@) is None,
        },
{
    let n = match file_name(p) {
        Some(n) => n,
        None => {
            return None;
        },
    };
    proof {
        lemma_last_dot_bounds(n@);
        assert(n@.subrange(0, n@.len() as int) =~= n@);
    }
    let mut k: usize = n.len();
    let mut dot: usize = 0;
    let mut found = false;
    while k > 0 && !found
        invariant
            k <= n@.len(),
            !found ==> last_dot(n@) == last_dot(n@.subrange(0, k as int)),
            found ==> last_dot(n@) == dot as int && dot < n@.len(),
        decreases k,
    {
        if n[k - 1] == 46u8 {
            proof {
                assert(n@.subrange(0, k as int)[k - 1] == n@[k - 1]);
            }
            dot = k - 1;
            found = true;
        } else {
            proof {
                assert(n@.subrange(0, k as int).drop_last() =~= n@.subrange(0, k - 1));
                assert(n@.subrange(0, k as int)[k - 1] == n@[k - 1]);
            }
        }
        k = k - 1;
    }
    if !found {
        proof {
            assert(n@.subrange(0, 0) =~= Seq::<u8>::empty());
            assert(last_dot(n@) == -1);
        }
        return Some(n);
    }
    if dot == 0 {
        return Some(n);
    }
    let stem = head_to(&n, dot);
    Some(stem)
}

} // verus!
