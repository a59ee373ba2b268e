//! The list of kitties that one account owns: a list of DNAs that never
//! holds more entries than the pallet's limit.
use vstd::prelude::*;

use crate::types::copy_bytes;
use crate::types::bytes_eq;

verus! {

/// A list of DNAs as byte sequences.
pub open spec fn dnas_view(v: Seq<Vec<u8>>) -> Seq<Seq<u8>> {
    v.map_values(|d: Vec<u8>| d@)
}

/// The list with every occurrence of `dna` taken out, the others kept in
/// their order.
pub open spec fn without(s: Seq<Seq<u8>>, dna: Seq<u8>) -> Seq<Seq<u8>> {
    s.filter(|x: Seq<u8>| x != dna)
}

/// What a push onto a list bounded by `limit` gives: the longer list where
/// there is room, `None` where the list is full.
pub open spec fn bounded_push(s: Seq<Seq<u8>>, limit: u32, dna: Seq<u8>) -> Option<Seq<Seq<u8>>> {
    if s.len() < limit {
        Some(s.push(dna))
    } else {
        None
    }
}

/// Taking `dna` out of a list leaves only entries of the list, none of
/// them `dna`.
pub proof fn lemma_without_subset(s: Seq<Seq<u8>>, dna: Seq<u8>, x: Seq<u8>)
    ensures
        without(s, dna).contains(x) ==> s.contains(x) && x != dna,
    decreases s.len(),
{
    reveal(Seq::filter);
    if s.len() > 0 {
        let t = s.drop_last();
        lemma_without_subset(t, dna, x);
        if without(s, dna).contains(x) {
            let i = choose|i: int| 0 <= i < without(s, dna).len() && without(s, dna)[i] == x;
            if s.last() != dna {
                assert(without(s, dna) == without(t, dna).push(s.last()));
                if i < without(t, dna).len() {
                    assert(without(t, dna)[i] == x);
                    let j = choose|j: int| 0 <= j < t.len() && t[j] == x;
                    assert(s[j] == x);
                } else {
                    assert(s[s.len() - 1] == x);
                }
            } else {
                assert(without(s, dna) == without(t, dna));
                let j = choose|j: int| 0 <= j < t.len() && t[j] == x;
                assert(s[j] == x);
            }
        }
    }
}

/// Taking `dna` out never lengthens a list, and shortens one that holds it.
pub proof fn lemma_without_len(s: Seq<Seq<u8>>, dna: Seq<u8>)
    ensures
        without(s, dna).len() <= s.len(),
        s.contains(dna) ==> without(s, dna).len() < s.len(),
    decreases s.len(),
{
    reveal(Seq::filter);
    if s.len() > 0 {
        let t = s.drop_last();
        lemma_without_len(t, dna);
        if s.contains(dna) && s.last() != dna {
            let i = choose|i: int| 0 <= i < s.len() && s[i] == dna;
            assert(t[i] == dna);
        }
    }
}

/// How many times `dna` occurs in a list.
pub open spec fn count_of(s: Seq<Seq<u8>>, dna: Seq<u8>) -> nat
    decreases s.len(),
{
    if s.len() == 0 {
        0
    } else {
        count_of(s.drop_last(), dna) + if s.last() == dna {
            1nat
        } else {
            0nat
        }
    }
}

/// Appending an entry adds one occurrence of it and none of anything else.
pub proof fn lemma_count_push(s: Seq<Seq<u8>>, x: Seq<u8>, dna: Seq<u8>)
    ensures
        count_of(s.push(x), dna) == count_of(s, dna) + if x == dna {
            1nat
        } else {
            0nat
        },
{
    assert(s.push(x).drop_last() =~= s);
}

/// A list holds `dna` exactly when `dna` occurs in it at least once.
pub proof fn lemma_count_contains(s: Seq<Seq<u8>>, dna: Seq<u8>)
    ensures
        count_of(s, dna) > 0 <==> s.contains(dna),
    decreases s.len(),
{
    if s.len() > 0 {
        let t = s.drop_last();
        lemma_count_contains(t, dna);
        if t.contains(dna) {
            let i = choose|i: int| 0 <= i < t.len() && t[i] == dna;
            assert(s[i] == dna);
        }
        if s.contains(dna) && s.last() != dna {
            let i = choose|i: int| 0 <= i < s.len() && s[i] == dna;
            assert(t[i] == dna);
        }
    }
}

/// Taking `x` out of a list leaves no occurrence of `x` and every
/// occurrence of anything else.
pub proof fn lemma_count_without(s: Seq<Seq<u8>>, x: Seq<u8>, dna: Seq<u8>)
    ensures
        count_of(without(s, x), dna) == if dna == x {
            0
        } else {
            count_of(s, dna)
        },
    decreases s.len(),
{
    reveal(Seq::filter);
    if s.len() > 0 {
        let t = s.drop_last();
        lemma_count_without(t, x, dna);
        if s.last() != x {
            lemma_count_push(without(t, x), s.last(), dna);
        }
    }
}

/// Taking out an entry that a list does not hold leaves the list as it is.
pub proof fn lemma_without_absent(s: Seq<Seq<u8>>, x: Seq<u8>)
    requires
        !s.contains(x),
    ensures
        without(s, x) == s,
    decreases s.len(),
{
    reveal(Seq::filter);
    if s.len() > 0 {
        let t = s.drop_last();
        if t.contains(x) {
            let i = choose|i: int| 0 <= i < t.len() && t[i] == x;
            assert(s[i] == x);
        }
        lemma_without_absent(t, x);
        assert(s.last() != x) by {
            assert(s[s.len() - 1] == s.last());
        }
        assert(t.push(s.last()) =~= s);
    }
}

/// Taking `x` out of a list with `x` appended is taking it out of the list.
pub proof fn lemma_without_push(s: Seq<Seq<u8>>, x: Seq<u8>)
    ensures
        without(s.push(x), x) == without(s, x),
{
    reveal(Seq::filter);
    assert(s.push(x).drop_last() =~= s);
}

/// Whether a list holds `dna`.
pub fn list_contains(list: &Vec<Vec<u8>>, dna: &Vec<u8>) -> (r: bool)
    ensures
        r == dnas_view(list@).contains(dna@),
{
    let mut i: usize = 0;
    while i < list.len()
        invariant
            i <= list.len(),
            forall|j: int| 0 <= j < i ==> list@[j]@ != dna@,
        decreases list.len() - i,
    {
        if bytes_eq(&list[i], dna) {
            assert(dnas_view(list@)[i as int] == dna@);
            return true;
        }
        i = i + 1;
    }
    assert(!dnas_view(list@).contains(dna@)) by {
        if dnas_view(list@).contains(dna@) {
            let j = choose|j: int| 0 <= j < list@.len() && dnas_view(list@)[j] == dna@;
            assert(list@[j]@ == dna@);
        }
    }
    false
}

/// A copy of a list.
pub fn copy_list(list: &Vec<Vec<u8>>) -> (r: Vec<Vec<u8>>)
    ensures
        dnas_view(r@) == dnas_view(list@),
{
    let mut r: Vec<Vec<u8>> = Vec::new();
    let mut i: usize = 0;
    while i < list.len()
        invariant
            i <= list.len(),
            dnas_view(r@) == dnas_view(list@).take(i as int),
        decreases list.len() - i,
    {
        let ghost before = r@;
        let d = copy_bytes(&list[i]);
        r.push(d);
        assert(dnas_view(r@) =~= dnas_view(before).push(list@[i as int]@));
        assert(dnas_view(r@) =~= dnas_view(list@).take(i + 1));
        i = i + 1;
    }
    assert(dnas_view(list@).take(list.len() as int) =~= dnas_view(list@));
    r
}

/// Appends `dna` to a list bounded by `limit`: where the list has fewer
/// than `limit` entries, `dna` goes to its end and `Ok` comes back; where it
/// is full, the list stays as it is and `dna` comes back in `Err`.
pub fn try_push(list: &mut Vec<Vec<u8>>, limit: u32, dna: Vec<u8>) -> (r: Result<(), Vec<u8>>)
    ensures
        match bounded_push(dnas_view(old(list)@), limit, dna@) {
            Some(s) => r is Ok && dnas_view(final(list)@) == s,
            None => r matches Err(d) && d@ == dna@ && final(list)@ == old(list)@,
        },
{
    if list.len() < limit as usize {
        let ghost d = dna@;
        list.push(dna);
        assert(dnas_view(list@) =~= dnas_view(old(list)@).push(d));
        Ok(())
    } else {
        Err(dna)
    }
}

/// Takes every occurrence of `dna` out of a list, keeping the other
/// entries in their order.
pub fn retain_other(list: &mut Vec<Vec<u8>>, dna: &Vec<u8>)
    ensures
        dnas_view(final(list)@) == without(dnas_view(old(list)@), dna@),
{
    let ghost s = dnas_view(list@);
    let mut kept: Vec<Vec<u8>> = Vec::new();
    let mut i: usize = 0;
    while i < list.len()
        invariant
            i <= list.len(),
            s == dnas_view(list@),
            dnas_view(kept@) == without(s.take(i as int), dna@),
        decreases list.len() - i,
    {
        let ghost before = kept@;
        assert(s.take(i + 1).drop_last() =~= s.take(i as int));
        assert(s.take(i + 1).last() == list@[i as int]@);
        reveal(Seq::filter);
        if !bytes_eq(&list[i], dna) {
            let d = copy_bytes(&list[i]);
            kept.push(d);
            assert(dnas_view(kept@) =~= dnas_view(before).push(list@[i as int]@));
        }
        i = i + 1;
    }
    assert(s.take(list.len() as int) =~= s);
    *list = kept;
}

} // verus!
