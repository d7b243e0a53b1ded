//! Sequence-of-character utilities: substring search, prefix/suffix tests,
//! repeated-prefix and repeated-suffix trimming, and substring replacement.
//! All executable functions here work on `Vec<char>` and are proved against
//! spec functions over `Seq<char>`.
use vstd::prelude::*;

verus! {

/// The pattern `p` occurs in `s` starting at index `i`.
pub open spec fn occurs_at(s: Seq<char>, p: Seq<char>, i: int) -> bool {
    0 <= i && i + p.len() <= s.len() && s.subrange(i, i + p.len() as int) == p
}

/// The first index `j >= i` at which `p` occurs in `s`, if any.
pub open spec fn find_at(s: Seq<char>, p: Seq<char>, i: int) -> Option<int>
    decreases s.len() - i,
{
    if i < 0 || i + p.len() > s.len() {
        None
    } else if occurs_at(s, p, i) {
        Some(i)
    } else if p.len() == 0 {
        None
    } else {
        find_at(s, p, i + 1)
    }
}

pub proof fn lemma_find_at(s: Seq<char>, p: Seq<char>, i: int)
    requires
        0 <= i,
        p.len() > 0,
    ensures
        match find_at(s, p, i) {
            Some(j) => i <= j && occurs_at(s, p, j) && forall|k: int| i <= k < j ==> !occurs_at(s, p, k),
            None => forall|k: int| i <= k ==> !occurs_at(s, p, k),
        },
    decreases s.len() - i,
{
    if i + p.len() > s.len() {
    } else if occurs_at(s, p, i) {
    } else {
        lemma_find_at(s, p, i + 1);
    }
}

pub open spec fn contains_seq(s: Seq<char>, p: Seq<char>) -> bool {
    find_at(s, p, 0) is Some
}

pub open spec fn is_prefix(p: Seq<char>, s: Seq<char>) -> bool {
    p.len() <= s.len() && s.subrange(0, p.len() as int) == p
}

pub open spec fn is_suffix(p: Seq<char>, s: Seq<char>) -> bool {
    p.len() <= s.len() && s.subrange(s.len() - p.len(), s.len() as int) == p
}

/// `s` with every leading repetition of the non-empty pattern `p` removed.
pub open spec fn trim_leading(s: Seq<char>, p: Seq<char>) -> Seq<char>
    decreases s.len(),
{
    if p.len() > 0 && is_prefix(p, s) {
        trim_leading(s.skip(p.len() as int), p)
    } else {
        s
    }
}

/// `s` with every trailing repetition of the non-empty pattern `p` removed.
pub open spec fn trim_trailing(s: Seq<char>, p: Seq<char>) -> Seq<char>
    decreases s.len(),
{
    if p.len() > 0 && is_suffix(p, s) {
        trim_trailing(s.take(s.len() - p.len()), p)
    } else {
        s
    }
}

/// `s` with each non-overlapping occurrence of the non-empty pattern `p`,
/// found left to right from index `from`, replaced by `r`; the part of `s`
/// before `from` is not part of the result.
pub open spec fn replace_from(s: Seq<char>, p: Seq<char>, r: Seq<char>, from: int) -> Seq<char>
    decreases s.len() - from,
{
    if p.len() == 0 || from < 0 {
        s.skip(from)
    } else {
        match find_at(s, p, from) {
            None => s.skip(from),
            Some(i) => if from <= i && i + p.len() <= s.len() {
                s.subrange(from, i) + r + replace_from(s, p, r, i + p.len() as int)
            } else {
                s.skip(from)
            },
        }
    }
}

/// Every occurrence of `p` in `s` replaced by `r`, as `str::replace` does.
pub open spec fn replace_all(s: Seq<char>, p: Seq<char>, r: Seq<char>) -> Seq<char> {
    replace_from(s, p, r, 0)
}

/// Whether the window of `v` at `i` equals `p`.
pub fn match_at(v: &Vec<char>, p: &Vec<char>, i: usize) -> (b: bool)
    requires
        i <= v.len(),
    ensures
        b == occurs_at(v@, p@, i as int),
{
    if p.len() > v.len() - i {
        proof {
            assert(!occurs_at(v@, p@, i as int));
        }
        return false;
    }
    let mut k: usize = 0;
    while k < p.len()
        invariant
            i + p.len() <= v.len(),
            k <= p.len(),
            forall|m: int| 0 <= m < k ==> v@[i + m] == p@[m],
        decreases p.len() - k,
    {
        if v[i + k] != p[k] {
            proof {
                assert(v@.subrange(i as int, i + p@.len()) != p@) by {
                    assert(v@.subrange(i as int, i + p@.len())[k as int] != p@[k as int]);
                }
            }
            return false;
        }
        k = k + 1;
    }
    proof {
        assert(v@.subrange(i as int, i + p@.len()) =~= p@);
    }
    true
}

/// The first index `j >= from` at which `p` occurs in `v`, if any.
pub fn find_from(v: &Vec<char>, p: &Vec<char>, from: usize) -> (r: Option<usize>)
    requires
        from <= v.len(),
        p.len() > 0,
    ensures
        match r {
            Some(j) => find_at(v@, p@, from as int) == Some(j as int),
            None => find_at(v@, p@, from as int) is None,
        },
{
    if p.len() > v.len() {
        return None;
    }
    let mut i: usize = from;
    while i <= v.len() - p.len()
        invariant
            0 < p.len() <= v.len(),
            from <= i <= v.len(),
            find_at(v@, p@, from as int) == find_at(v@, p@, i as int),
        decreases v.len() - i,
    {
        if match_at(v, p, i) {
            return Some(i);
        }
        proof {
            reveal_with_fuel(find_at, 2);
        }
        i = i + 1;
    }
    None
}

pub fn contains_sub(v: &Vec<char>, p: &Vec<char>) -> (b: bool)
    requires
        p.len() > 0,
    ensures
        b == contains_seq(v@, p@),
{
    find_from(v, p, 0).is_some()
}

pub fn starts_with(v: &Vec<char>, p: &Vec<char>) -> (b: bool)
    ensures
        b == is_prefix(p@, v@),
{
    if p.len() > v.len() {
        return false;
    }
    let b = match_at(v, p, 0);
    proof {
        assert(occurs_at(v@, p@, 0) == is_prefix(p@, v@));
    }
    b
}

pub fn ends_with(v: &Vec<char>, p: &Vec<char>) -> (b: bool)
    ensures
        b == is_suffix(p@, v@),
{
    if p.len() > v.len() {
        return false;
    }
    let b = match_at(v, p, v.len() - p.len());
    proof {
        assert(occurs_at(v@, p@, v@.len() - p@.len()) == is_suffix(p@, v@));
    }
    b
}

/// Copies `v[from..to]` into a new vector.
pub fn sub_vec(v: &Vec<char>, from: usize, to: usize) -> (r: Vec<char>)
    requires
        from <= to <= v.len(),
    ensures
        r@ == v@.subrange(from as int, to as int),
{
    let mut r: Vec<char> = Vec::new();
    let mut i: usize = from;
    while i < to
        invariant
            from <= i <= to <= v.len(),
            r@ == v@.subrange(from as int, i as int),
        decreases to - i,
    {
        r.push(v[i]);
        proof {
            assert(r@ =~= v@.subrange(from as int, i + 1));
        }
        i = i + 1;
    }
    r
}

/// Appends `v[from..to]` onto `out`.
pub fn push_range(out: &mut Vec<char>, v: &Vec<char>, from: usize, to: usize)
    requires
        from <= to <= v.len(),
    ensures
        final(out)@ == old(out)@ + v@.subrange(from as int, to as int),
{
    let mut i: usize = from;
    while i < to
        invariant
            from <= i <= to <= v.len(),
            out@ == old(out)@ + v@.subrange(from as int, i as int),
        decreases to - i,
    {
        out.push(v[i]);
        proof {
            assert(old(out)@ + v@.subrange(from as int, i + 1) =~= out@);
        }
        i = i + 1;
    }
}

/// Appends all of `v` onto `out`.
pub fn push_all(out: &mut Vec<char>, v: &Vec<char>)
    ensures
        final(out)@ == old(out)@ + v@,
{
    push_range(out, v, 0, v.len());
    proof {
        assert(v@.subrange(0, v@.len() as int) =~= v@);
    }
}

/// `v` with every leading repetition of `p` removed.
pub fn trim_leading_vec(v: &Vec<char>, p: &Vec<char>) -> (r: Vec<char>)
    requires
        p.len() > 0,
    ensures
        r@ == trim_leading(v@, p@),
{
    let mut i: usize = 0;
    proof {
        assert(v@.skip(0) =~= v@);
    }
    while p.len() <= v.len() - i && match_at(v, p, i)
        invariant
            p.len() > 0,
            i <= v.len(),
            trim_leading(v@, p@) == trim_leading(v@.skip(i as int), p@),
        decreases v.len() - i,
    {
        proof {
            assert(v@.skip(i as int).subrange(0, p@.len() as int) =~= v@.subrange(
                i as int,
                i + p@.len(),
            ));
            assert(is_prefix(p@, v@.skip(i as int)));
            assert(v@.skip(i as int).skip(p@.len() as int) =~= v@.skip(i + p@.len()));
        }
        i = i + p.len();
    }
    proof {
        if i + p.len() <= v.len() {
            assert(v@.skip(i as int).subrange(0, p@.len() as int) =~= v@.subrange(
                i as int,
                i + p@.len(),
            ));
            assert(!is_prefix(p@, v@.skip(i as int)));
        }
        assert(trim_leading(v@.skip(i as int), p@) == v@.skip(i as int));
        assert(v@.skip(i as int) =~= v@.subrange(i as int, v@.len() as int));
    }
    sub_vec(v, i, v.len())
}

/// `v` with every trailing repetition of `p` removed.
pub fn trim_trailing_vec(v: &Vec<char>, p: &Vec<char>) -> (r: Vec<char>)
    requires
        p.len() > 0,
    ensures
        r@ == trim_trailing(v@, p@),
{
    let mut e: usize = v.len();
    proof {
        assert(v@.take(v@.len() as int) =~= v@);
    }
    while e >= p.len() && match_at_end(v, p, e)
        invariant
            p.len() > 0,
            e <= v.len(),
            trim_trailing(v@, p@) == trim_trailing(v@.take(e as int), p@),
        decreases e,
    {
        proof {
            assert(v@.take(e as int).take(e - p@.len()) =~= v@.take(e - p@.len()));
        }
        e = e - p.len();
    }
    proof {
        if e >= p.len() {
            assert(!is_suffix(p@, v@.take(e as int)));
        }
        assert(trim_trailing(v@.take(e as int), p@) == v@.take(e as int));
    }
    sub_vec(v, 0, e)
}

/// Whether `p` occurs in `v` ending exactly at index `e`.
fn match_at_end(v: &Vec<char>, p: &Vec<char>, e: usize) -> (b: bool)
    requires
        p.len() <= e <= v.len(),
    ensures
        b == is_suffix(p@, v@.take(e as int)),
{
    let b = match_at(v, p, e - p.len());
    proof {
        assert(v@.take(e as int).subrange(e - p@.len(), e as int) =~= v@.subrange(
            e - p@.len(),
            e as int,
        ));
        assert(occurs_at(v@, p@, e - p@.len()) == is_suffix(p@, v@.take(e as int)));
    }
    b
}

/// Every occurrence of `p` in `v` replaced by `r`, left to right.
pub fn replace_all_vec(v: &Vec<char>, p: &Vec<char>, r: &Vec<char>) -> (out: Vec<char>)
    requires
        p.len() > 0,
    ensures
        out@ == replace_all(v@, p@, r@),
{
    let mut out: Vec<char> = Vec::new();
    let mut pos: usize = 0;
    loop
        invariant
            pos <= v.len(),
            p.len() > 0,
            replace_all(v@, p@, r@) == out@ + replace_from(v@, p@, r@, pos as int),
        decreases v.len() - pos,
    {
        proof {
            lemma_find_at(v@, p@, pos as int);
        }
        match find_from(v, p, pos) {
            None => {
                push_range(&mut out, v, pos, v.len());
                proof {
                    assert(v@.skip(pos as int) =~= v@.subrange(pos as int, v@.len() as int));
                }
                return out;
            }
            Some(i) => {
                push_range(&mut out, v, pos, i);
                push_all(&mut out, r);
                pos = i + p.len();
            }
        }
    }
}

} // verus!
