//! Which inputs each operation accepts and which it refuses, stated over
//! the inputs themselves.
use vstd::prelude::*;

use crate::model::PalletView;
use crate::model::create_check;
use crate::model::create_kitty_spec;
use crate::model::genesis_fits;
use crate::model::create_overflows;
use crate::model::genesis_kitties;
use crate::model::genesis_owners;
use crate::model::genesis_state;
use crate::model::owned_in;
use crate::model::transfer_kitty_spec;
use crate::model::transfer_lists;
use crate::owned::bounded_push;
use crate::owned::lemma_count_contains;
use crate::owned::lemma_count_without;
use crate::owned::lemma_without_len;
use crate::owned::lemma_without_subset;
use crate::owned::without;
use crate::types::AccountId;
use crate::types::DispatchError;
use crate::types::Error;
use crate::types::EventView;
use crate::types::Gender;
use crate::types::Moment;
use crate::types::Origin;
use crate::types::gender_of;
use crate::types::signer_of;

verus! {

/// A push onto a list with room always succeeds and appends the entry at
/// the end; a push onto a list holding `limit` entries or more always
/// fails. Whatever comes back holds at most `limit` entries.
pub proof fn law_bounded_push_succeeds_iff_room(s: Seq<Seq<u8>>, limit: u32, dna: Seq<u8>)
    ensures
        s.len() < limit ==> bounded_push(s, limit, dna) == Some(s.push(dna)),
        s.len() >= limit ==> bounded_push(s, limit, dna) is None,
        bounded_push(s, limit, dna) matches Some(l) ==> l.len() == s.len() + 1 && l.len()
            <= limit && l.last() == dna && l.drop_last() == s,
{
    if s.len() < limit {
        assert(s.push(dna).drop_last() =~= s);
    }
}

/// A kitty's gender is female exactly when its DNA has odd length: the
/// empty DNA gives a male, one more byte switches the gender, and two more
/// bytes keep it.
pub proof fn law_gender_by_parity(dna: Seq<u8>, x: u8, y: u8)
    ensures
        gender_of(dna) == Gender::Female <==> dna.len() % 2 == 1,
        gender_of(dna) == Gender::Male <==> dna.len() % 2 == 0,
        gender_of(Seq::<u8>::empty()) == Gender::Male,
        gender_of(dna.push(x)) != gender_of(dna),
        gender_of(dna.push(x).push(y)) == gender_of(dna),
{
}

/// The checks of a creation refuse exactly a full list (with
/// `ExceedLimit`) and, where the list has room, a DNA already taken (with
/// `DuplicateKitty`): a list with room and a free DNA always pass, however
/// long the list is.
pub proof fn law_create_check_accepts_room(owned: Seq<Seq<u8>>, limit: u32, taken: bool)
    ensures
        owned.len() < limit && !taken ==> create_check(owned, limit, taken) is Ok,
        owned.len() >= limit ==> create_check(owned, limit, taken) == Err::<(), Error>(
            Error::ExceedLimit,
        ),
        owned.len() < limit && taken ==> create_check(owned, limit, taken) == Err::<(), Error>(
            Error::DuplicateKitty,
        ),
{
}

/// A signed creation succeeds exactly when the creator owns fewer than
/// `limit` kitties and the DNA is not stored; then the creator's list grows
/// by the DNA at its end and the kitty is stored under it.
pub proof fn law_create_succeeds_iff(s: PalletView, who: AccountId, dna: Seq<u8>, now: Moment)
    ensures
        create_kitty_spec(s, Origin::Signed(who), dna, now) is Ok <==> owned_in(s.owners, who).len()
            < s.limit && !s.kitties.contains_key(dna),
        create_kitty_spec(s, Origin::Signed(who), dna, now) matches Ok(t) ==> {
            &&& t.owners[who] == owned_in(s.owners, who).push(dna)
            &&& t.kitties.contains_key(dna)
            &&& t.kitties[dna].owner == who
            &&& t.kitties[dna].dna == dna
            &&& t.kitties[dna].price == 0
            &&& t.kitties[dna].created_date == now
            &&& (t.kitties[dna].gender == Gender::Female <==> dna.len() % 2 == 1)
            &&& t.limit == s.limit
            &&& t.events == s.events.push(EventView::KittyStored(dna))
        },
{
}

/// Only a creation that would succeed with the count at `u32::MAX` is out
/// of reach.
pub proof fn law_create_overflow_only_at_max(s: PalletView, origin: Origin, dna: Seq<u8>)
    ensures
        create_overflows(s, origin, dna) ==> s.number_kitties == u32::MAX,
        s.number_kitties < u32::MAX ==> !create_overflows(s, origin, dna),
{
}

/// A signed call is the signer's; a root or unsigned call has no signer.
pub proof fn law_signer(who: AccountId)
    ensures
        signer_of(Origin::Signed(who)) == Ok::<AccountId, DispatchError>(who),
        signer_of(Origin::Root) == Err::<AccountId, DispatchError>(DispatchError::BadOrigin),
        signer_of(Origin::Unsigned) == Err::<AccountId, DispatchError>(DispatchError::BadOrigin),
{
}

/// The list part of a transfer: a sender that owns the DNA and a receiver
/// with room always succeed, however long the sender's list is; the
/// receiver's list gets the DNA at its end, and the sender's list keeps
/// exactly its other entries and is shorter. A sender that does not own the
/// DNA is refused with `KittyNotOwned`, and otherwise a full receiver with
/// `ExceedLimit`.
pub proof fn law_transfer_lists_accept_room(
    sender: Seq<Seq<u8>>,
    receiver: Seq<Seq<u8>>,
    limit: u32,
    dna: Seq<u8>,
)
    ensures
        sender.contains(dna) && receiver.len() < limit ==> transfer_lists(
            sender,
            receiver,
            limit,
            dna,
        ) is Ok,
        !sender.contains(dna) ==> transfer_lists(sender, receiver, limit, dna) == Err::<
            (Seq<Seq<u8>>, Seq<Seq<u8>>),
            Error,
        >(Error::KittyNotOwned),
        sender.contains(dna) && receiver.len() >= limit ==> transfer_lists(
            sender,
            receiver,
            limit,
            dna,
        ) == Err::<(Seq<Seq<u8>>, Seq<Seq<u8>>), Error>(Error::ExceedLimit),
        transfer_lists(sender, receiver, limit, dna) matches Ok(lists) ==> {
            &&& lists.1 == receiver.push(dna)
            &&& lists.0.len() < sender.len()
            &&& forall|x: Seq<u8>| #[trigger]
                lists.0.contains(x) <==> sender.contains(x) && x != dna
        },
{
    if let Ok(lists) = transfer_lists(sender, receiver, limit, dna) {
        lemma_without_len(sender, dna);
        assert forall|x: Seq<u8>| #[trigger] lists.0.contains(x) <==> sender.contains(x) && x != dna by {
            lemma_without_subset(sender, dna, x);
            lemma_count_without(sender, dna, x);
            lemma_count_contains(sender, x);
            lemma_count_contains(lists.0, x);
        }
    }
}

/// A signed transfer succeeds exactly when the signer's list holds the DNA
/// and the receiver owns fewer than `limit` kitties; then the kitty belongs
/// to the receiver and the receiver's list ends with the DNA.
pub proof fn law_transfer_succeeds_iff(
    s: PalletView,
    who: AccountId,
    account: AccountId,
    dna: Seq<u8>,
)
    requires
        s.owners.contains_key(who),
    ensures
        transfer_kitty_spec(s, Origin::Signed(who), account, dna) is Ok <==> s.owners[who].contains(
            dna,
        ) && owned_in(s.owners, account).len() < s.limit,
        transfer_kitty_spec(s, Origin::Signed(who), account, dna) matches Ok(t) ==> {
            &&& t.kitties[dna].owner == account
            &&& t.owners[account] == owned_in(s.owners, account).push(dna)
            &&& t.number_kitties == s.number_kitties
            &&& t.limit == s.limit
            &&& t.events == s.events.push(EventView::KittyTransferedTo(account, dna))
        },
{
}

/// Taking a DNA out of a list keeps the other entries in their order:
/// nothing comes of the empty list, an appended other entry stays at the
/// end, and an appended copy of the DNA goes.
pub proof fn law_without_keeps_order(s: Seq<Seq<u8>>, dna: Seq<u8>, x: Seq<u8>)
    ensures
        without(Seq::<Seq<u8>>::empty(), dna) == Seq::<Seq<u8>>::empty(),
        x != dna ==> without(s.push(x), dna) == without(s, dna).push(x),
        without(s.push(dna), dna) == without(s, dna),
{
    reveal(Seq::filter);
    assert(s.push(x).drop_last() =~= s);
    assert(s.push(dna).drop_last() =~= s);
}

/// How many of the genesis pairs go to `owner`.
pub open spec fn pairs_of(c: Seq<(AccountId, Seq<u8>)>, owner: AccountId) -> nat {
    c.filter(|p: (AccountId, Seq<u8>)| p.0 == owner).len()
}

/// The DNAs of the genesis pairs that go to `owner`, in their order.
pub open spec fn dnas_of(c: Seq<(AccountId, Seq<u8>)>, owner: AccountId) -> Seq<Seq<u8>> {
    c.filter(|p: (AccountId, Seq<u8>)| p.0 == owner).map_values(|p: (AccountId, Seq<u8>)| p.1)
}

/// Each owner's list after the genesis build is the DNAs of that owner's
/// pairs, in the order of the pairs; so it has one entry per pair.
pub proof fn law_genesis_list(c: Seq<(AccountId, Seq<u8>)>, owner: AccountId)
    ensures
        owned_in(genesis_owners(c), owner) == dnas_of(c, owner),
        owned_in(genesis_owners(c), owner).len() == pairs_of(c, owner),
        genesis_owners(c).contains_key(owner) <==> pairs_of(c, owner) > 0,
    decreases c.len(),
{
    reveal(Seq::filter);
    if c.len() > 0 {
        let p = c.drop_last();
        law_genesis_list(p, owner);
        let f = p.filter(|q: (AccountId, Seq<u8>)| q.0 == owner);
        if c.last().0 == owner {
            assert(f.push(c.last()).map_values(|q: (AccountId, Seq<u8>)| q.1) =~= f.map_values(
                |q: (AccountId, Seq<u8>)| q.1,
            ).push(c.last().1));
        }
    } else {
        assert(dnas_of(c, owner) =~= Seq::empty());
    }
}

/// After the genesis build the kitty stored under a DNA is the one of the
/// last pair with that DNA: owned by that pair's owner, priced at zero,
/// created at `now`, with the gender of the DNA; and the count is the
/// number of pairs, where a `u32` can hold it.
pub proof fn law_genesis_kitty(c: Seq<(AccountId, Seq<u8>)>, limit: u32, now: Moment, i: int)
    requires
        0 <= i < c.len(),
        forall|j: int| i < j < c.len() ==> c[j].1 != c[i].1,
    ensures
        genesis_kitties(c, now).contains_key(c[i].1),
        genesis_kitties(c, now)[c[i].1].owner == c[i].0,
        genesis_kitties(c, now)[c[i].1].dna == c[i].1,
        genesis_kitties(c, now)[c[i].1].price == 0,
        genesis_kitties(c, now)[c[i].1].created_date == now,
        genesis_kitties(c, now)[c[i].1].gender == Gender::Female <==> c[i].1.len() % 2 == 1,
        c.len() <= u32::MAX ==> genesis_state(c, limit, now).number_kitties == c.len(),
    decreases c.len(),
{
    if i < c.len() - 1 {
        let p = c.drop_last();
        assert(p[i] == c[i]);
        assert(c[c.len() - 1].1 != c[i].1);
        law_genesis_kitty(p, limit, now, i);
    }
}

/// A genesis list fits the limit exactly when no owner receives more than
/// `limit` pairs, however many pairs there are in all.
pub proof fn law_genesis_fits_iff(c: Seq<(AccountId, Seq<u8>)>, limit: u32)
    ensures
        genesis_fits(c, limit) <==> forall|o: AccountId| #[trigger] pairs_of(c, o) <= limit,
    decreases c.len(),
{
    reveal(Seq::filter);
    if c.len() > 0 {
        let p = c.drop_last();
        let last = c.last().0;
        law_genesis_fits_iff(p, limit);
        law_genesis_list(p, last);
        assert forall|o: AccountId|
            #[trigger] pairs_of(c, o) == pairs_of(p, o) + if o == last {
                1nat
            } else {
                0nat
            } by {}
        if forall|o: AccountId| #[trigger] pairs_of(c, o) <= limit {
            assert(pairs_of(c, last) <= limit);
            assert forall|o: AccountId| #[trigger] pairs_of(p, o) <= limit by {
                assert(pairs_of(c, o) <= limit);
            }
        }
    }
}

} // verus!
