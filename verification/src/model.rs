//! The pallet's storage as mathematical values, and what each call and the
//! genesis build do to it.
use vstd::prelude::*;

use crate::owned::count_of;
use crate::owned::lemma_count_contains;
use crate::owned::lemma_count_push;
use crate::owned::lemma_without_len;
use crate::owned::lemma_without_subset;
use crate::owned::without;
use crate::types::AccountId;
use crate::types::DispatchError;
use crate::types::Error;
use crate::types::EventView;
use crate::types::KittyView;
use crate::types::Moment;
use crate::types::Origin;
use crate::types::new_kitty;
use crate::types::signer_of;

verus! {

/// The pallet's storage: the number of kitties, the kitties by DNA, the
/// list of DNAs that each account owns, the limit of kitties per account,
/// and the events deposited so far.
pub struct PalletView {
    pub number_kitties: u32,
    pub kitties: Map<Seq<u8>, KittyView>,
    pub owners: Map<AccountId, Seq<Seq<u8>>>,
    pub limit: u32,
    pub events: Seq<EventView>,
}

/// The list that `who` owns; an account with no entry owns the empty list.
pub open spec fn owned_in(owners: Map<AccountId, Seq<Seq<u8>>>, who: AccountId) -> Seq<Seq<u8>> {
    if owners.contains_key(who) {
        owners[who]
    } else {
        Seq::empty()
    }
}

/// The owner lists after `dna` is appended to the list of `who`.
pub open spec fn push_owned(owners: Map<AccountId, Seq<Seq<u8>>>, who: AccountId, dna: Seq<u8>) -> Map<
    AccountId,
    Seq<Seq<u8>>,
> {
    owners.insert(who, owned_in(owners, who).push(dna))
}

impl PalletView {
    /// What every reachable storage keeps: finitely many kitties and
    /// accounts are stored, no account owns more kitties than the limit,
    /// every DNA that an account owns names a stored kitty, and each stored
    /// kitty carries the DNA it is stored under.
    pub open spec fn consistent(self) -> bool {
        &&& self.kitties.dom().finite()
        &&& self.owners.dom().finite()
        &&& forall|a: AccountId| #[trigger]
            self.owners.contains_key(a) ==> self.owners[a].len() <= self.limit
        &&& forall|a: AccountId, d: Seq<u8>|
            self.owners.contains_key(a) && #[trigger] self.owners[a].contains(d)
                ==> self.kitties.contains_key(d)
        &&& forall|d: Seq<u8>| #[trigger] self.kitties.contains_key(d) ==> self.kitties[d].dna == d
    }
}

impl PalletView {
    /// Ownership is exact: every DNA that an account lists names a stored
    /// kitty owned by that account; every stored kitty is listed exactly
    /// once in its owner's list; and the count is the number of stored
    /// kitties.
    pub open spec fn ownership_exact(self) -> bool {
        &&& forall|a: AccountId, d: Seq<u8>|
            self.owners.contains_key(a) && #[trigger] self.owners[a].contains(d)
                ==> self.kitties.contains_key(d) && self.kitties[d].owner == a
        &&& forall|d: Seq<u8>| #[trigger]
            self.kitties.contains_key(d) ==> self.owners.contains_key(self.kitties[d].owner)
                && count_of(self.owners[self.kitties[d].owner], d) == 1
        &&& self.number_kitties == self.kitties.dom().len()
    }
}

/// The checks of a creation: the creator's list must have room, then the
/// DNA must be free.
pub open spec fn create_check(owned: Seq<Seq<u8>>, limit: u32, taken: bool) -> Result<(), Error> {
    if owned.len() >= limit {
        Err(Error::ExceedLimit)
    } else if taken {
        Err(Error::DuplicateKitty)
    } else {
        Ok(())
    }
}

/// What `create_kitty` does: a signed caller whose list has room creates a
/// kitty with a DNA not stored yet; the kitty is stored, appended to the
/// caller's list, counted, and announced.
pub open spec fn create_kitty_spec(s: PalletView, origin: Origin, dna: Seq<u8>, now: Moment) -> Result<
    PalletView,
    DispatchError,
> {
    match signer_of(origin) {
        Err(e) => Err(e),
        Ok(who) => match create_check(
            owned_in(s.owners, who),
            s.limit,
            s.kitties.contains_key(dna),
        ) {
            Err(e) => Err(DispatchError::Module(e)),
            Ok(_) => Ok(
                PalletView {
                    number_kitties: (s.number_kitties + 1) as u32,
                    kitties: s.kitties.insert(dna, new_kitty(who, dna, now)),
                    owners: push_owned(s.owners, who, dna),
                    limit: s.limit,
                    events: s.events.push(EventView::KittyStored(dna)),
                },
            ),
        },
    }
}

/// A creation that would count past `u32::MAX`.
pub open spec fn create_overflows(s: PalletView, origin: Origin, dna: Seq<u8>) -> bool {
    match signer_of(origin) {
        Ok(who) => {
            &&& create_check(owned_in(s.owners, who), s.limit, s.kitties.contains_key(dna)) is Ok
            &&& s.number_kitties == u32::MAX
        },
        Err(_) => false,
    }
}

/// What a transfer does to the sender's and the receiver's lists: the
/// sender must own the DNA and the receiver's list must have room; then
/// the DNA leaves the sender's list (every occurrence of it) and is
/// appended to the receiver's.
pub open spec fn transfer_lists(
    sender: Seq<Seq<u8>>,
    receiver: Seq<Seq<u8>>,
    limit: u32,
    dna: Seq<u8>,
) -> Result<(Seq<Seq<u8>>, Seq<Seq<u8>>), Error> {
    if !sender.contains(dna) {
        Err(Error::KittyNotOwned)
    } else if receiver.len() >= limit {
        Err(Error::ExceedLimit)
    } else {
        Ok((without(sender, dna), receiver.push(dna)))
    }
}

/// What `transfer_kitty` does: the signed caller hands the kitty with
/// `dna` to `account`. The caller's new list is written first and the
/// receiver's second, so a caller who hands a kitty to itself ends with
/// its old list and the DNA appended once more.
pub open spec fn transfer_kitty_spec(
    s: PalletView,
    origin: Origin,
    account: AccountId,
    dna: Seq<u8>,
) -> Result<PalletView, DispatchError> {
    match signer_of(origin) {
        Err(e) => Err(e),
        Ok(who) => match transfer_lists(s.owners[who], owned_in(s.owners, account), s.limit, dna) {
            Err(e) => Err(DispatchError::Module(e)),
            Ok(lists) => Ok(
                PalletView {
                    number_kitties: s.number_kitties,
                    kitties: s.kitties.insert(dna, KittyView { owner: account, ..s.kitties[dna] }),
                    owners: s.owners.insert(who, lists.0).insert(account, lists.1),
                    limit: s.limit,
                    events: s.events.push(EventView::KittyTransferedTo(account, dna)),
                },
            ),
        },
    }
}

/// The owner lists that a genesis list of (owner, DNA) pairs builds.
pub open spec fn genesis_owners(c: Seq<(AccountId, Seq<u8>)>) -> Map<AccountId, Seq<Seq<u8>>>
    decreases c.len(),
{
    if c.len() == 0 {
        Map::empty()
    } else {
        push_owned(genesis_owners(c.drop_last()), c.last().0, c.last().1)
    }
}

/// The kitties that a genesis list builds, created at moment `now`; a later
/// pair with the same DNA replaces an earlier one.
pub open spec fn genesis_kitties(c: Seq<(AccountId, Seq<u8>)>, now: Moment) -> Map<
    Seq<u8>,
    KittyView,
>
    decreases c.len(),
{
    if c.len() == 0 {
        Map::empty()
    } else {
        genesis_kitties(c.drop_last(), now).insert(c.last().1, new_kitty(c.last().0, c.last().1, now))
    }
}

/// Whether no owner's list outgrows `limit` while a genesis list is built.
pub open spec fn genesis_fits(c: Seq<(AccountId, Seq<u8>)>, limit: u32) -> bool
    decreases c.len(),
{
    c.len() == 0 || (genesis_fits(c.drop_last(), limit) && owned_in(
        genesis_owners(c.drop_last()),
        c.last().0,
    ).len() < limit)
}

/// The storage that the genesis build leaves: the number of pairs, cut to
/// `u32`, as the count, the kitties and owner lists of the pairs, and no
/// events.
pub open spec fn genesis_state(c: Seq<(AccountId, Seq<u8>)>, limit: u32, now: Moment) -> PalletView {
    PalletView {
        number_kitties: c.len() as u32,
        kitties: genesis_kitties(c, now),
        owners: genesis_owners(c),
        limit,
        events: Seq::empty(),
    }
}

/// Storing a new kitty of `who` and appending its DNA to the list of `who`
/// keeps the storage consistent, where that list has room.
pub proof fn lemma_register_consistent(s: PalletView, who: AccountId, dna: Seq<u8>, now: Moment)
    requires
        s.consistent(),
        owned_in(s.owners, who).len() < s.limit,
    ensures
        (PalletView {
            kitties: s.kitties.insert(dna, new_kitty(who, dna, now)),
            owners: push_owned(s.owners, who, dna),
            ..s
        }).consistent(),
{
    let t = PalletView {
        kitties: s.kitties.insert(dna, new_kitty(who, dna, now)),
        owners: push_owned(s.owners, who, dna),
        ..s
    };
    assert forall|a: AccountId, d: Seq<u8>|
        t.owners.contains_key(a) && #[trigger] t.owners[a].contains(d) implies t.kitties.contains_key(
        d,
    ) by {
        if a == who {
            let l = owned_in(s.owners, who);
            if d != dna {
                let i = choose|i: int| 0 <= i < l.push(dna).len() && l.push(dna)[i] == d;
                assert(l[i] == d);
                assert(s.owners[a].contains(d));
            }
        } else {
            assert(s.owners[a] == t.owners[a]);
        }
    }
}

/// Storing a new kitty of `who` under a DNA not stored yet, appending the
/// DNA to the list of `who` and counting the kitty keeps ownership exact.
pub proof fn lemma_register_exact(s: PalletView, who: AccountId, dna: Seq<u8>, now: Moment)
    requires
        s.kitties.dom().finite(),
        s.ownership_exact(),
        !s.kitties.contains_key(dna),
        s.number_kitties < u32::MAX,
    ensures
        (PalletView {
            number_kitties: (s.number_kitties + 1) as u32,
            kitties: s.kitties.insert(dna, new_kitty(who, dna, now)),
            owners: push_owned(s.owners, who, dna),
            ..s
        }).ownership_exact(),
{
    let t = PalletView {
        number_kitties: (s.number_kitties + 1) as u32,
        kitties: s.kitties.insert(dna, new_kitty(who, dna, now)),
        owners: push_owned(s.owners, who, dna),
        ..s
    };
    let owned = owned_in(s.owners, who);
    assert(!owned.contains(dna));
    assert forall|a: AccountId, d: Seq<u8>|
        t.owners.contains_key(a) && #[trigger] t.owners[a].contains(d) implies t.kitties.contains_key(
        d,
    ) && t.kitties[d].owner == a by {
        if a == who {
            if d != dna {
                let i = choose|i: int| 0 <= i < owned.push(dna).len() && owned.push(dna)[i] == d;
                assert(owned[i] == d);
                assert(s.owners[a].contains(d));
            }
        } else {
            assert(s.owners[a] == t.owners[a]);
        }
    }
    assert forall|d: Seq<u8>| #[trigger] t.kitties.contains_key(d) implies t.owners.contains_key(
        t.kitties[d].owner,
    ) && count_of(t.owners[t.kitties[d].owner], d) == 1 by {
        lemma_count_push(owned, dna, d);
        if d == dna {
            lemma_count_contains(owned, dna);
        }
    }
    assert(t.kitties.dom() =~= s.kitties.dom().insert(dna));
}

/// A successful creation keeps the storage consistent.
pub proof fn lemma_create_consistent(s: PalletView, origin: Origin, dna: Seq<u8>, now: Moment)
    requires
        s.consistent(),
    ensures
        create_kitty_spec(s, origin, dna, now) matches Ok(t) ==> t.consistent(),
{
    if let Ok(who) = signer_of(origin) {
        if create_check(owned_in(s.owners, who), s.limit, s.kitties.contains_key(dna)) is Ok {
            lemma_register_consistent(s, who, dna, now);
            let t = create_kitty_spec(s, origin, dna, now)->Ok_0;
            let r = PalletView {
                kitties: s.kitties.insert(dna, new_kitty(who, dna, now)),
                owners: push_owned(s.owners, who, dna),
                ..s
            };
            assert(t.owners == r.owners && t.kitties == r.kitties && t.limit == r.limit);
        }
    }
}

/// A successful transfer keeps the storage consistent.
pub proof fn lemma_transfer_consistent(
    s: PalletView,
    origin: Origin,
    account: AccountId,
    dna: Seq<u8>,
)
    requires
        s.consistent(),
        signer_of(origin) matches Ok(who) ==> s.owners.contains_key(who),
    ensures
        transfer_kitty_spec(s, origin, account, dna) matches Ok(t) ==> t.consistent(),
{
    if let Ok(who) = signer_of(origin) {
        let sender = s.owners[who];
        let receiver = owned_in(s.owners, account);
        if let Ok(lists) = transfer_lists(sender, receiver, s.limit, dna) {
            let t = transfer_kitty_spec(s, origin, account, dna)->Ok_0;
            assert(s.kitties.contains_key(dna));
            assert(t.kitties.dom() =~= s.kitties.dom());
            lemma_without_len(sender, dna);
            assert forall|a: AccountId, d: Seq<u8>|
                t.owners.contains_key(a) && #[trigger] t.owners[a].contains(
                    d,
                ) implies t.kitties.contains_key(d) by {
                if a == account {
                    if d != dna {
                        let l = receiver.push(dna);
                        let i = choose|i: int| 0 <= i < l.len() && l[i] == d;
                        assert(receiver[i] == d);
                        assert(s.owners[account].contains(d));
                    }
                } else if a == who {
                    lemma_without_subset(sender, dna, d);
                } else {
                    assert(s.owners[a] == t.owners[a]);
                }
            }
            assert forall|a: AccountId| #[trigger]
                t.owners.contains_key(a) implies t.owners[a].len() <= t.limit by {
                if a != account && a != who {
                    assert(s.owners[a] == t.owners[a]);
                }
            }
        }
    }
}

/// A genesis list that fits keeps fitting when cut short.
pub proof fn lemma_genesis_fits_prefix(c: Seq<(AccountId, Seq<u8>)>, limit: u32, k: int)
    requires
        genesis_fits(c, limit),
        0 <= k <= c.len(),
    ensures
        genesis_fits(c.take(k), limit),
    decreases c.len(),
{
    if k < c.len() {
        assert(c.drop_last() =~= c.take(c.len() - 1));
        lemma_genesis_fits_prefix(c.drop_last(), limit, k);
        assert(c.drop_last().take(k) =~= c.take(k));
    } else {
        assert(c.take(k) =~= c);
    }
}

/// The genesis build leaves a consistent storage.
pub proof fn lemma_genesis_consistent(c: Seq<(AccountId, Seq<u8>)>, limit: u32, now: Moment)
    requires
        genesis_fits(c, limit),
    ensures
        genesis_state(c, limit, now).consistent(),
    decreases c.len(),
{
    if c.len() > 0 {
        lemma_genesis_consistent(c.drop_last(), limit, now);
        let p = genesis_state(c.drop_last(), limit, now);
        lemma_register_consistent(p, c.last().0, c.last().1, now);
        let r = PalletView {
            kitties: p.kitties.insert(c.last().1, new_kitty(c.last().0, c.last().1, now)),
            owners: push_owned(p.owners, c.last().0, c.last().1),
            ..p
        };
        let t = genesis_state(c, limit, now);
        assert(t.owners == r.owners && t.kitties == r.kitties && t.limit == r.limit);
    }
}

} // verus!
