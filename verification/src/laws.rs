//! What holds of the pallet's calls over any storage.
use vstd::prelude::*;

use crate::model::PalletView;
use crate::model::create_kitty_spec;
use crate::model::genesis_kitties;
use crate::model::genesis_owners;
use crate::model::lemma_transfer_consistent;
use crate::model::create_overflows;
use crate::model::genesis_state;
use crate::model::lemma_register_exact;
use crate::model::owned_in;
use crate::model::push_owned;
use crate::model::transfer_kitty_spec;
use crate::owned::count_of;
use crate::owned::lemma_count_contains;
use crate::owned::lemma_count_push;
use crate::owned::lemma_count_without;
use crate::owned::lemma_without_absent;
use crate::owned::lemma_without_len;
use crate::owned::lemma_without_push;
use crate::owned::lemma_without_subset;
use crate::owned::without;
use crate::types::AccountId;
use crate::types::DispatchError;
use crate::types::Error;
use crate::types::Moment;
use crate::types::Origin;
use crate::types::new_kitty;
use crate::types::signer_of;

verus! {

/// A call that is not signed is refused with `BadOrigin`, by either call.
pub proof fn law_unsigned_calls_refused(
    s: PalletView,
    origin: Origin,
    account: AccountId,
    dna: Seq<u8>,
    now: Moment,
)
    requires
        !(origin is Signed),
    ensures
        create_kitty_spec(s, origin, dna, now) == Err::<PalletView, DispatchError>(
            DispatchError::BadOrigin,
        ),
        transfer_kitty_spec(s, origin, account, dna) == Err::<PalletView, DispatchError>(
            DispatchError::BadOrigin,
        ),
{
}

/// A successful creation stores exactly one new kitty: the caller's, at
/// price zero, with the gender of its DNA and the creation moment; it
/// appends the DNA to the caller's list, counts one kitty more, and leaves
/// every other kitty and every other list as it was.
pub proof fn law_create_stores_one_kitty(s: PalletView, who: AccountId, dna: Seq<u8>, now: Moment)
    requires
        s.kitties.dom().finite(),
        create_kitty_spec(s, Origin::Signed(who), dna, now) is Ok,
    ensures
        ({
            let t = create_kitty_spec(s, Origin::Signed(who), dna, now)->Ok_0;
            &&& !s.kitties.contains_key(dna)
            &&& t.kitties.contains_key(dna)
            &&& t.kitties[dna] == new_kitty(who, dna, now)
            &&& t.kitties.dom() == s.kitties.dom().insert(dna)
            &&& t.kitties.dom().len() == s.kitties.dom().len() + 1
            &&& forall|d: Seq<u8>| #[trigger]
                s.kitties.contains_key(d) ==> t.kitties[d] == s.kitties[d]
            &&& t.owners[who] == owned_in(s.owners, who).push(dna)
            &&& forall|a: AccountId| a != who ==> #[trigger] owned_in(t.owners, a) == owned_in(s.owners, a)
            &&& t.number_kitties == s.number_kitties + 1 || s.number_kitties == u32::MAX
        }),
{
    let t = create_kitty_spec(s, Origin::Signed(who), dna, now)->Ok_0;
    assert(t.kitties.dom() =~= s.kitties.dom().insert(dna));
}

/// A DNA that is already stored cannot be created again.
pub proof fn law_create_refuses_duplicates(
    s: PalletView,
    origin: Origin,
    dna: Seq<u8>,
    now: Moment,
)
    requires
        s.kitties.contains_key(dna),
    ensures
        create_kitty_spec(s, origin, dna, now) is Err,
{
}

/// A caller whose list holds `limit` kitties cannot create another.
pub proof fn law_create_refuses_full_list(s: PalletView, who: AccountId, dna: Seq<u8>, now: Moment)
    requires
        owned_in(s.owners, who).len() >= s.limit,
    ensures
        create_kitty_spec(s, Origin::Signed(who), dna, now) == Err::<PalletView, DispatchError>(
            DispatchError::Module(Error::ExceedLimit),
        ),
{
}

/// A transfer to another account moves the kitty: the receiver becomes its
/// owner and lists it, the sender no longer lists it, the kitty keeps its
/// DNA, price, gender and creation moment, no kitty is added or removed,
/// every other kitty stays as it was, and the count is unchanged.
pub proof fn law_transfer_moves_kitty(
    s: PalletView,
    who: AccountId,
    account: AccountId,
    dna: Seq<u8>,
)
    requires
        s.consistent(),
        s.owners.contains_key(who),
        who != account,
        transfer_kitty_spec(s, Origin::Signed(who), account, dna) is Ok,
    ensures
        ({
            let t = transfer_kitty_spec(s, Origin::Signed(who), account, dna)->Ok_0;
            &&& s.owners[who].contains(dna)
            &&& t.kitties.contains_key(dna)
            &&& t.kitties[dna].owner == account
            &&& t.kitties[dna].dna == s.kitties[dna].dna
            &&& t.kitties[dna].price == s.kitties[dna].price
            &&& t.kitties[dna].gender == s.kitties[dna].gender
            &&& t.kitties[dna].created_date == s.kitties[dna].created_date
            &&& t.owners[account].contains(dna)
            &&& !t.owners[who].contains(dna)
            &&& t.kitties.dom() == s.kitties.dom()
            &&& forall|d: Seq<u8>| d != dna ==> #[trigger] t.kitties[d] == s.kitties[d]
            &&& t.number_kitties == s.number_kitties
        }),
{
    let t = transfer_kitty_spec(s, Origin::Signed(who), account, dna)->Ok_0;
    let sender = s.owners[who];
    assert(t.owners[who] == without(sender, dna));
    lemma_without_subset(sender, dna, dna);
    let l = owned_in(s.owners, account).push(dna);
    assert(l[l.len() - 1] == dna);
    assert(t.kitties.dom() =~= s.kitties.dom());
}

/// A transfer that a caller makes to itself keeps the kitty with the
/// caller and lists its DNA once more at the end of the caller's list.
pub proof fn law_self_transfer_appends(s: PalletView, who: AccountId, dna: Seq<u8>)
    requires
        s.consistent(),
        s.owners.contains_key(who),
        transfer_kitty_spec(s, Origin::Signed(who), who, dna) is Ok,
    ensures
        ({
            let t = transfer_kitty_spec(s, Origin::Signed(who), who, dna)->Ok_0;
            &&& t.owners == s.owners.insert(who, s.owners[who].push(dna))
            &&& t.kitties[dna].owner == who
        }),
{
}

/// Handing a kitty to another account and back, from a storage where
/// ownership is exact, always succeeds (the first transfer freed room in
/// the first owner's list) and restores the storage but for order: every
/// kitty is as it was, the count is as it was, the first owner's list holds
/// the same DNAs as many times each as before (the kitty's DNA moved to the
/// end), the other account's list is as it was (an account that had no
/// list now has an empty one), and every other list is untouched.
pub proof fn law_transfer_round_trip(s: PalletView, a: AccountId, b: AccountId, dna: Seq<u8>)
    requires
        s.consistent(),
        s.ownership_exact(),
        s.owners.contains_key(a),
        a != b,
        transfer_kitty_spec(s, Origin::Signed(a), b, dna) is Ok,
    ensures
        ({
            let t = transfer_kitty_spec(s, Origin::Signed(a), b, dna)->Ok_0;
            let back = transfer_kitty_spec(t, Origin::Signed(b), a, dna);
            &&& back is Ok
            &&& back->Ok_0.kitties == s.kitties
            &&& back->Ok_0.number_kitties == s.number_kitties
            &&& back->Ok_0.owners[a] == without(s.owners[a], dna).push(dna)
            &&& forall|x: Seq<u8>| #[trigger]
                count_of(back->Ok_0.owners[a], x) == count_of(s.owners[a], x)
            &&& owned_in(back->Ok_0.owners, b) == owned_in(s.owners, b)
            &&& back->Ok_0.owners.dom() == s.owners.dom().insert(b)
            &&& forall|c: AccountId|
                c != a && c != b ==> #[trigger] owned_in(back->Ok_0.owners, c) == owned_in(
                    s.owners,
                    c,
                )
        }),
{
    let t = transfer_kitty_spec(s, Origin::Signed(a), b, dna)->Ok_0;
    let la = s.owners[a];
    let lb = owned_in(s.owners, b);
    let w = without(la, dna);
    lemma_without_len(la, dna);
    lemma_transfer_consistent(s, Origin::Signed(a), b, dna);
    let l = lb.push(dna);
    assert(l[l.len() - 1] == dna);
    assert(t.owners[b].contains(dna));
    assert(t.owners[a] == w);
    assert(owned_in(t.owners, a).len() < s.limit);
    let u = transfer_kitty_spec(t, Origin::Signed(b), a, dna)->Ok_0;
    assert(u.kitties =~= s.kitties);
    assert(s.kitties[dna].owner == a);
    if lb.contains(dna) {
        assert(s.owners[b].contains(dna));
    }
    lemma_without_push(lb, dna);
    lemma_without_absent(lb, dna);
    assert(u.owners[b] == lb);
    assert forall|x: Seq<u8>| #[trigger] count_of(u.owners[a], x) == count_of(la, x) by {
        lemma_count_push(w, dna, x);
        lemma_count_without(la, dna, x);
    }
    assert(u.owners.dom() =~= s.owners.dom().insert(b));
}

/// A successful creation keeps ownership exact: the new kitty is listed
/// once, under its creator, and counted.
pub proof fn law_create_keeps_ownership_exact(
    s: PalletView,
    origin: Origin,
    dna: Seq<u8>,
    now: Moment,
)
    requires
        s.consistent(),
        s.ownership_exact(),
        !create_overflows(s, origin, dna),
    ensures
        create_kitty_spec(s, origin, dna, now) matches Ok(t) ==> t.ownership_exact(),
{
    if let Ok(who) = signer_of(origin) {
        if create_kitty_spec(s, origin, dna, now) is Ok {
            lemma_register_exact(s, who, dna, now);
            let t = create_kitty_spec(s, origin, dna, now)->Ok_0;
            let r = PalletView {
                number_kitties: (s.number_kitties + 1) as u32,
                kitties: s.kitties.insert(dna, new_kitty(who, dna, now)),
                owners: push_owned(s.owners, who, dna),
                ..s
            };
            assert(t.owners == r.owners && t.kitties == r.kitties && t.number_kitties
                == r.number_kitties);
        }
    }
}

/// A successful transfer to another account keeps ownership exact: the
/// kitty is then listed once, under its new owner, and nowhere else.
pub proof fn law_transfer_keeps_ownership_exact(
    s: PalletView,
    who: AccountId,
    account: AccountId,
    dna: Seq<u8>,
)
    requires
        s.consistent(),
        s.ownership_exact(),
        s.owners.contains_key(who),
        who != account,
    ensures
        transfer_kitty_spec(s, Origin::Signed(who), account, dna) matches Ok(t)
            ==> t.ownership_exact(),
{
    if let Ok(t) = transfer_kitty_spec(s, Origin::Signed(who), account, dna) {
        let ls = s.owners[who];
        let lr = owned_in(s.owners, account);
        let w = without(ls, dna);
        assert(s.kitties[dna].owner == who);
        if lr.contains(dna) {
            assert(s.owners[account].contains(dna));
        }
        assert(t.owners[who] == w);
        assert(t.owners[account] == lr.push(dna));
        assert forall|a: AccountId, d: Seq<u8>|
            t.owners.contains_key(a) && #[trigger] t.owners[a].contains(d) implies t.kitties.contains_key(
            d,
        ) && t.kitties[d].owner == a by {
            if a == account {
                if d != dna {
                    let i = choose|i: int| 0 <= i < lr.push(dna).len() && lr.push(dna)[i] == d;
                    assert(lr[i] == d);
                    assert(s.owners[account].contains(d));
                }
            } else if a == who {
                lemma_without_subset(ls, dna, d);
            } else {
                assert(s.owners[a] == t.owners[a]);
                if d == dna {
                    assert(s.kitties[dna].owner == a);
                }
            }
        }
        assert forall|d: Seq<u8>| #[trigger] t.kitties.contains_key(d) implies t.owners.contains_key(
            t.kitties[d].owner,
        ) && count_of(t.owners[t.kitties[d].owner], d) == 1 by {
            lemma_count_push(lr, dna, d);
            lemma_count_without(ls, dna, d);
            if d == dna {
                lemma_count_contains(lr, dna);
            }
        }
        assert(t.kitties.dom() =~= s.kitties.dom());
    }
}

/// The genesis build of pairs with distinct DNAs, no more of them than a
/// `u32` counts, leaves ownership exact.
pub proof fn law_genesis_ownership_exact(c: Seq<(AccountId, Seq<u8>)>, limit: u32, now: Moment)
    requires
        forall|i: int, j: int| 0 <= i < j < c.len() ==> c[i].1 != c[j].1,
        c.len() <= u32::MAX,
    ensures
        genesis_state(c, limit, now).ownership_exact(),
    decreases c.len(),
{
    if c.len() == 0 {
        assert(genesis_state(c, limit, now).kitties.dom() =~= Set::empty());
    } else {
        let p = c.drop_last();
        law_genesis_ownership_exact(p, limit, now);
        lemma_genesis_kitties_from_pairs(p, now, c.last().1);
        lemma_genesis_kitties_finite(p, now);
        if genesis_kitties(p, now).contains_key(c.last().1) {
            let i = choose|i: int| 0 <= i < p.len() && p[i].1 == c.last().1;
            assert(c[i].1 == c[c.len() - 1].1);
        }
        let s = genesis_state(p, limit, now);
        lemma_register_exact(s, c.last().0, c.last().1, now);
        let t = genesis_state(c, limit, now);
        assert(t.owners == push_owned(s.owners, c.last().0, c.last().1));
    }
}

/// A DNA names a kitty of the genesis build only where some pair holds it.
pub proof fn lemma_genesis_kitties_from_pairs(
    c: Seq<(AccountId, Seq<u8>)>,
    now: Moment,
    dna: Seq<u8>,
)
    ensures
        genesis_kitties(c, now).contains_key(dna) ==> exists|i: int|
            0 <= i < c.len() && c[i].1 == dna,
    decreases c.len(),
{
    if c.len() > 0 {
        let p = c.drop_last();
        lemma_genesis_kitties_from_pairs(p, now, dna);
        if genesis_kitties(p, now).contains_key(dna) {
            let i = choose|i: int| 0 <= i < p.len() && p[i].1 == dna;
            assert(c[i].1 == dna);
        } else if genesis_kitties(c, now).contains_key(dna) {
            assert(c[c.len() - 1].1 == dna);
        }
    }
}

/// The genesis build stores finitely many kitties.
pub proof fn lemma_genesis_kitties_finite(c: Seq<(AccountId, Seq<u8>)>, now: Moment)
    ensures
        genesis_kitties(c, now).dom().finite(),
    decreases c.len(),
{
    if c.len() > 0 {
        lemma_genesis_kitties_finite(c.drop_last(), now);
    }
}

/// Creation depends on nothing but the storage, the origin, the DNA and
/// the moment: equal storages given equal inputs end equal, with equal
/// results (no balance or other runtime value enters it).
pub proof fn law_create_determined(
    s1: PalletView,
    s2: PalletView,
    origin: Origin,
    dna: Seq<u8>,
    now: Moment,
)
    requires
        s1 == s2,
        !create_overflows(s1, origin, dna),
    ensures
        create_kitty_spec(s1, origin, dna, now) == create_kitty_spec(s2, origin, dna, now),
{
}

/// After the genesis build, every (owner, DNA) pair's owner lists the DNA
/// and a kitty with that DNA is stored.
pub proof fn law_genesis_lists_every_pair(c: Seq<(AccountId, Seq<u8>)>, now: Moment, i: int)
    requires
        0 <= i < c.len(),
    ensures
        genesis_owners(c).contains_key(c[i].0),
        genesis_owners(c)[c[i].0].contains(c[i].1),
        genesis_kitties(c, now).contains_key(c[i].1),
    decreases c.len(),
{
    let n = c.len() - 1;
    let prev = c.drop_last();
    if i < n {
        law_genesis_lists_every_pair(prev, now, i);
        assert(prev[i] == c[i]);
        let o = c[i].0;
        if o == c[n].0 {
            let l = owned_in(genesis_owners(prev), o);
            let j = choose|j: int| 0 <= j < l.len() && l[j] == c[i].1;
            assert(l.push(c[n].1)[j] == c[i].1);
        }
    } else {
        let l = owned_in(genesis_owners(prev), c[n].0).push(c[n].1);
        assert(l[l.len() - 1] == c[n].1);
    }
}

} // verus!
