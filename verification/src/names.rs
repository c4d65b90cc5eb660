//! Operations on lists of usernames. A room's membership and the per-round
//! answer record are both kept as duplicate-free lists of names; these
//! helpers search, extend and shrink such lists while preserving that shape.

use vstd::prelude::*;

verus! {

/// No name occurs twice in the sequence.
pub open spec fn unique_names(s: Seq<Seq<char>>) -> bool {
    forall|i: int, j: int| 0 <= i < j < s.len() ==> s[i] != s[j]
}

/// Every name of `xs` occurs in `ys`.
pub open spec fn names_subset(xs: Seq<Seq<char>>, ys: Seq<Seq<char>>) -> bool {
    forall|i: int| 0 <= i < xs.len() ==> ys.contains(xs[i])
}

/// Whether `name` occurs in `names`.
pub fn contains_name(names: &Vec<String>, name: &String) -> (r: bool)
    ensures
        r == names.deep_view().contains(name@),
{
    let mut i: usize = 0;
    while i < names.len()
        invariant
            i <= names.len(),
            forall|j: int| 0 <= j < i ==> names.deep_view()[j] != name@,
        decreases names.len() - i,
    {
        if names[i] == *name {
            assert(names.deep_view()[i as int] == name@);
            return true;
        }
        i += 1;
    }
    false
}

/// A fresh copy of a list of names, equal to the given list element for
/// element.
pub fn clone_names(names: &Vec<String>) -> (r: Vec<String>)
    ensures
        r@ == names@,
{
    let mut r: Vec<String> = Vec::new();
    let mut i: usize = 0;
    while i < names.len()
        invariant
            i <= names.len(),
            r@.len() == i,
            forall|j: int| 0 <= j < i ==> r@[j] == names@[j],
        decreases names.len() - i,
    {
        r.push(names[i].clone());
        i += 1;
    }
    proof {
        assert(r@ =~= names@);
    }
    r
}

/// Removes `name` from `names` if it is present; removing an absent name
/// changes nothing. On a duplicate-free list the name is gone afterwards.
pub fn remove_name(names: &mut Vec<String>, name: &String)
    requires
        unique_names(old(names).deep_view()),
    ensures
        unique_names(final(names).deep_view()),
        !final(names).deep_view().contains(name@),
        old(names).deep_view().contains(name@) ==> exists|i: int|
            0 <= i < old(names).deep_view().len() && old(names).deep_view()[i] == name@
                && final(names).deep_view() == old(names).deep_view().remove(i),
        !old(names).deep_view().contains(name@) ==> final(names).deep_view() == old(
            names,
        ).deep_view(),
{
    let ghost dv = names.deep_view();
    let mut i: usize = 0;
    while i < names.len()
        invariant
            i <= names.len(),
            names.deep_view() == dv,
            dv == old(names).deep_view(),
            unique_names(dv),
            forall|j: int| 0 <= j < i ==> dv[j] != name@,
        decreases names.len() - i,
    {
        if names[i] == *name {
            let ghost k = i as int;
            assert(dv[k] == name@);
            names.remove(i);
            proof {
                dv.remove_ensures(k);
                assert(names.deep_view() =~= dv.remove(k));
                let dvp = dv.remove(k);
                assert forall|j: int| 0 <= j < dvp.len() implies dvp[j] != name@ by {
                    if j < k {
                        assert(dvp[j] == dv[j]);
                    } else {
                        assert(dvp[j] == dv[j + 1]);
                        assert(dv[k] != dv[j + 1]);
                    }
                }
                assert(!dvp.contains(name@));
                assert forall|a: int, b: int| 0 <= a < b < dvp.len() implies dvp[a] != dvp[b] by {
                    let a0 = if a < k {
                        a
                    } else {
                        a + 1
                    };
                    let b0 = if b < k {
                        b
                    } else {
                        b + 1
                    };
                    assert(dvp[a] == dv[a0]);
                    assert(dvp[b] == dv[b0]);
                    assert(0 <= a0 < b0 < dv.len());
                    assert(dv[a0] != dv[b0]);
                }
            }
            return ;
        }
        i += 1;
    }
    proof {
        assert(!dv.contains(name@));
    }
}

} // verus!
