use vstd::prelude::*;
use crate::errors::RenderError;

verus! {

/// The pattern `p` occurs in `t` starting at index `i`.
pub open spec fn occurs_at(t: Seq<char>, p: Seq<char>, i: int) -> bool {
    0 <= i && i + p.len() <= t.len() && t.subrange(i, i + p.len() as int) == p
}

/// The pattern `p` occurs somewhere in `t`.
pub open spec fn occurs(t: Seq<char>, p: Seq<char>) -> bool {
    exists|i: int| occurs_at(t, p, i)
}

/// `i` is the first index at which `p` occurs in `t`.
pub open spec fn first_occurrence(t: Seq<char>, p: Seq<char>, i: int) -> bool {
    occurs_at(t, p, i) && forall|j: int| 0 <= j < i ==> !occurs_at(t, p, j)
}

pub proof fn lemma_first_occurrence_unique(t: Seq<char>, p: Seq<char>, i: int, j: int)
    requires
        first_occurrence(t, p, i),
        first_occurrence(t, p, j),
    ensures
        i == j,
{
    if i < j {
        assert(!occurs_at(t, p, i));
    }
    if j < i {
        assert(!occurs_at(t, p, j));
    }
}

/// `t` with the first occurrence of `p` replaced by `r`; `t` itself where
/// `p` does not occur.
pub open spec fn replace_first_spec(t: Seq<char>, p: Seq<char>, r: Seq<char>) -> Seq<char> {
    if occurs(t, p) {
        let i = choose|i: int| first_occurrence(t, p, i);
        t.subrange(0, i) + r + t.subrange(i + p.len() as int, t.len() as int)
    } else {
        t
    }
}

/// Law: where `p` occurs in `t` exactly once, at `i`, the replacement
/// rewrites exactly that occurrence: everything before `i` and everything
/// after the occurrence is carried over unchanged, and `r` stands in its
/// place.
pub proof fn lemma_replace_single_occurrence(t: Seq<char>, p: Seq<char>, r: Seq<char>, i: int)
    requires
        occurs_at(t, p, i),
        forall|j: int| j != i ==> !occurs_at(t, p, j),
    ensures
        replace_first_spec(t, p, r) == t.subrange(0, i) + r + t.subrange(
            i + p.len() as int,
            t.len() as int,
        ),
{
    assert(occurs(t, p));
    assert(first_occurrence(t, p, i));
    let c = choose|j: int| first_occurrence(t, p, j);
    lemma_first_occurrence_unique(t, p, c, i);
}

/// Whether `p` occurs in `t` at `i`, checked character by character.
fn match_at(t: &str, p: &str, i: usize, t_len: usize, p_len: usize) -> (r: bool)
    requires
        t_len == t@.len(),
        p_len == p@.len(),
        i + p_len <= t_len,
    ensures
        r == occurs_at(t@, p@, i as int),
{
    let mut j: usize = 0;
    while j < p_len
        invariant
            j <= p_len,
            t_len == t@.len(),
            p_len == p@.len(),
            i + p_len <= t_len,
            forall|k: int| 0 <= k < j ==> t@[i + k] == p@[k],
        decreases p_len - j,
    {
        if t.get_char(i + j) != p.get_char(j) {
            assert(!occurs_at(t@, p@, i as int)) by {
                if occurs_at(t@, p@, i as int) {
                    assert(t@.subrange(i as int, i + p@.len() as int)[j as int] == p@[j as int]);
                }
            };
            return false;
        }
        j += 1;
    }
    assert(t@.subrange(i as int, i + p@.len() as int) =~= p@);
    true
}

/// The index of the first occurrence of `p` in `t`, if `p` occurs at all.
pub fn find_sub(t: &str, p: &str) -> (r: Option<usize>)
    ensures
        r matches Some(i) ==> first_occurrence(t@, p@, i as int),
        r is Some <==> occurs(t@, p@),
{
    let t_len = t.unicode_len();
    let p_len = p.unicode_len();
    if p_len == 0 {
        assert(occurs_at(t@, p@, 0)) by {
            assert(t@.subrange(0, 0) =~= p@);
        };
        return Some(0);
    }
    if p_len > t_len {
        assert(!occurs(t@, p@)) by {
            if occurs(t@, p@) {
                let i = choose|i: int| occurs_at(t@, p@, i);
            }
        };
        return None;
    }
    let mut i: usize = 0;
    while i <= t_len - p_len
        invariant
            1 <= p_len <= t_len,
            t_len == t@.len(),
            p_len == p@.len(),
            i <= t_len - p_len + 1,
            forall|j: int| 0 <= j < i ==> !occurs_at(t@, p@, j),
        decreases t_len - p_len + 1 - i,
    {
        if match_at(t, p, i, t_len, p_len) {
            return Some(i);
        }
        i += 1;
    }
    assert(!occurs(t@, p@)) by {
        if occurs(t@, p@) {
            let j = choose|j: int| occurs_at(t@, p@, j);
            assert(!occurs_at(t@, p@, j));
        }
    };
    None
}

/// `t` with the first occurrence of `p` replaced by `r`; `t` unchanged
/// where `p` does not occur.
pub fn replace_first(t: &str, p: &str, r: &str) -> (res: String)
    ensures
        res@ == replace_first_spec(t@, p@, r@),
{
    match find_sub(t, p) {
        Some(i) => {
            let t_len = t.unicode_len();
            let p_len = p.unicode_len();
            let prefix = t.substring_char(0, i);
            let suffix = t.substring_char(i + p_len, t_len);
            let mut out = prefix.to_owned();
            out.append(r);
            out.append(suffix);
            proof {
                let c = choose|j: int| first_occurrence(t@, p@, j);
                lemma_first_occurrence_unique(t@, p@, c, i as int);
            }
            out
        },
        None => t.to_owned(),
    }
}

/// `t` with `ins` inserted immediately after the first occurrence of the
/// marker; an error where the marker does not occur.
pub fn insert_after_first(t: &str, marker: &str, ins: &str) -> (res: Result<
    String,
    RenderError,
>)
    ensures
        res is Ok <==> occurs(t@, marker@),
        res matches Ok(s) ==> s@ == replace_first_spec(t@, marker@, marker@ + ins@),
        res matches Err(e) ==> e is MarkerMissing,
{
    match find_sub(t, marker) {
        Some(_) => {
            let mut grown = marker.to_owned();
            grown.append(ins);
            Ok(replace_first(t, marker, grown.as_str()))
        },
        None => Err(RenderError::MarkerMissing),
    }
}

} // verus!
