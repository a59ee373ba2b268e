//! The kitty pallet: its storage, its calls and its genesis build.
use vstd::prelude::*;

use crate::assoc::assoc_map;
use crate::assoc::keys_distinct;
use crate::assoc::lemma_assoc_contains;
use crate::assoc::lemma_assoc_index;
use crate::assoc::lemma_assoc_push;
use crate::assoc::lemma_assoc_update;
use crate::model::PalletView;
use crate::model::create_check;
use crate::model::create_kitty_spec;
use crate::model::create_overflows;
use crate::model::genesis_fits;
use crate::model::genesis_kitties;
use crate::model::genesis_owners;
use crate::model::genesis_state;
use crate::model::lemma_create_consistent;
use crate::model::lemma_genesis_consistent;
use crate::model::lemma_genesis_fits_prefix;
use crate::model::lemma_transfer_consistent;
use crate::model::owned_in;
use crate::model::push_owned;
use crate::model::transfer_kitty_spec;
use crate::model::transfer_lists;
use crate::owned::bounded_push;
use crate::owned::copy_list;
use crate::owned::dnas_view;
use crate::owned::list_contains;
use crate::owned::retain_other;
use crate::owned::try_push;
use crate::types::AccountId;
use crate::types::DispatchError;
use crate::types::Error;
use crate::types::Event;
use crate::types::EventView;
use crate::types::Gender;
use crate::types::Kitty;
use crate::types::KittyView;
use crate::types::Moment;
use crate::types::Origin;
use crate::types::copy_bytes;
use crate::types::bytes_eq;
use crate::types::ensure_signed;
use crate::types::gender_of;
use crate::types::new_kitty;
use crate::types::signer_of;

verus! {

/// What a successful creation produces: the creator's new list, the new
/// kitty and the new number of kitties.
pub struct Creation {
    pub owned: Vec<Vec<u8>>,
    pub kitty: Kitty,
    pub number_kitties: u32,
}

/// The decision of `create_kitty` on the values it reads from storage: the
/// list that `who` owns (empty where `who` has none), the limit, whether a
/// kitty with `dna` is stored already, and the number of kitties. Fails with
/// `ExceedLimit` where the list is full, then with `DuplicateKitty` where the
/// DNA is taken; otherwise appends the DNA to the list, makes the kitty and
/// counts it.
pub fn create_kitty_step(
    who: AccountId,
    owned: Vec<Vec<u8>>,
    limit: u32,
    dna: Vec<u8>,
    dna_taken: bool,
    number_kitties: u32,
    now: Moment,
) -> (r: Result<Creation, Error>)
    requires
        create_check(dnas_view(owned@), limit, dna_taken) is Ok ==> number_kitties < u32::MAX,
    ensures
        match create_check(dnas_view(owned@), limit, dna_taken) {
            Err(e) => r matches Err(x) && x == e,
            Ok(_) => r matches Ok(c) && dnas_view(c.owned@) == dnas_view(owned@).push(dna@)
                && c.kitty@ == new_kitty(who, dna@, now) && c.number_kitties == number_kitties + 1,
        },
{
    if owned.len() >= limit as usize {
        return Err(Error::ExceedLimit);
    }
    let gender = match Pallet::get_gender(copy_bytes(&dna)) {
        Ok(g) => g,
        Err(e) => return Err(e),
    };
    if dna_taken {
        return Err(Error::DuplicateKitty);
    }
    let kitty = Kitty::new(copy_bytes(&dna), who, 0, gender, now);
    let mut owned = owned;
    match try_push(&mut owned, limit, dna) {
        Ok(()) => {},
        Err(_) => return Err(Error::NoKitty),
    }
    Ok(Creation { owned, kitty, number_kitties: number_kitties + 1 })
}

/// The decision of `transfer_kitty` on the sender's and the receiver's
/// lists (the receiver's empty where it has none): fails with
/// `KittyNotOwned` where the sender does not own `dna`, then with
/// `ExceedLimit` where the receiver's list is full; otherwise gives the
/// sender's list without `dna` and the receiver's list with `dna` appended.
pub fn transfer_kitty_step(
    sender: Vec<Vec<u8>>,
    receiver: Vec<Vec<u8>>,
    limit: u32,
    dna: &Vec<u8>,
) -> (r: Result<(Vec<Vec<u8>>, Vec<Vec<u8>>), Error>)
    ensures
        match transfer_lists(dnas_view(sender@), dnas_view(receiver@), limit, dna@) {
            Err(e) => r matches Err(x) && x == e,
            Ok(lists) => r matches Ok(p) && dnas_view(p.0@) == lists.0 && dnas_view(p.1@)
                == lists.1,
        },
{
    if !list_contains(&sender, dna) {
        return Err(Error::KittyNotOwned);
    }
    if receiver.len() >= limit as usize {
        return Err(Error::ExceedLimit);
    }
    let mut receiver = receiver;
    match try_push(&mut receiver, limit, copy_bytes(dna)) {
        Ok(()) => {},
        Err(_) => return Err(Error::ExceedLimit),
    }
    let mut sender = sender;
    retain_other(&mut sender, dna);
    Ok((sender, receiver))
}

/// The list of DNAs that one account owns.
struct OwnerEntry {
    account: AccountId,
    dnas: Vec<Vec<u8>>,
}

spec fn kitty_pairs(ks: Seq<Kitty>) -> Seq<(Seq<u8>, KittyView)> {
    ks.map_values(|k: Kitty| (k@.dna, k@))
}

spec fn owner_pairs(os: Seq<OwnerEntry>) -> Seq<(AccountId, Seq<Seq<u8>>)> {
    os.map_values(|e: OwnerEntry| (e.account, dnas_view(e.dnas@)))
}

spec fn events_view(es: Seq<Event>) -> Seq<EventView> {
    es.map_values(|e: Event| e@)
}

/// The decision of the genesis build for one (owner, DNA) pair, on the
/// owner's list (empty where the owner has none): where the list has fewer
/// than `limit` entries, the list with the DNA appended and the owner's new
/// kitty, created at `now`; where it is full, the DNA back in `Err`.
pub fn genesis_step(
    owned: Vec<Vec<u8>>,
    limit: u32,
    owner: AccountId,
    dna: Vec<u8>,
    now: Moment,
) -> (r: Result<(Vec<Vec<u8>>, Kitty), Vec<u8>>)
    ensures
        match bounded_push(dnas_view(owned@), limit, dna@) {
            Some(l) => r matches Ok(p) && dnas_view(p.0@) == l && p.1@ == new_kitty(owner, dna@, now),
            None => r matches Err(d) && d@ == dna@,
        },
{
    let mut owned = owned;
    let kitty_dna = copy_bytes(&dna);
    match try_push(&mut owned, limit, dna) {
        Ok(()) => {},
        Err(d) => return Err(d),
    }
    let gender = match Pallet::get_gender(copy_bytes(&kitty_dna)) {
        Ok(g) => g,
        Err(_) => Gender::Male,
    };
    let kitty = Kitty::new(kitty_dna, owner, 0, gender, now);
    Ok((owned, kitty))
}

/// Where the kitty with `dna` is stored.
fn find_kitty_in(ks: &Vec<Kitty>, dna: &Vec<u8>) -> (r: Option<usize>)
    requires
        keys_distinct(kitty_pairs(ks@)),
    ensures
        match r {
            Some(i) => i < ks@.len() && ks@[i as int]@.dna == dna@ && assoc_map(
                kitty_pairs(ks@),
            ).contains_key(dna@) && assoc_map(kitty_pairs(ks@))[dna@] == ks@[i as int]@,
            None => !assoc_map(kitty_pairs(ks@)).contains_key(dna@),
        },
{
    let ghost pairs = kitty_pairs(ks@);
    let mut i: usize = 0;
    while i < ks.len()
        invariant
            i <= ks.len(),
            pairs == kitty_pairs(ks@),
            keys_distinct(pairs),
            forall|j: int| 0 <= j < i ==> pairs[j].0 != dna@,
        decreases ks.len() - i,
    {
        if bytes_eq(ks[i].dna(), dna) {
            proof {
                lemma_assoc_index(pairs, i as int);
            }
            return Some(i);
        }
        i = i + 1;
    }
    proof {
        lemma_assoc_contains(pairs, dna@);
    }
    None
}

/// Where the list of `account` is stored.
fn find_owner_in(os: &Vec<OwnerEntry>, account: AccountId) -> (r: Option<usize>)
    requires
        keys_distinct(owner_pairs(os@)),
    ensures
        match r {
            Some(i) => i < os@.len() && os@[i as int].account == account && assoc_map(
                owner_pairs(os@),
            ).contains_key(account) && assoc_map(owner_pairs(os@))[account] == dnas_view(
                os@[i as int].dnas@,
            ),
            None => !assoc_map(owner_pairs(os@)).contains_key(account),
        },
{
    let ghost pairs = owner_pairs(os@);
    let mut i: usize = 0;
    while i < os.len()
        invariant
            i <= os.len(),
            pairs == owner_pairs(os@),
            keys_distinct(pairs),
            forall|j: int| 0 <= j < i ==> pairs[j].0 != account,
        decreases os.len() - i,
    {
        if os[i].account == account {
            proof {
                lemma_assoc_index(pairs, i as int);
            }
            return Some(i);
        }
        i = i + 1;
    }
    proof {
        lemma_assoc_contains(pairs, account);
    }
    None
}

/// Writes the list of `account`, at index `idx` where `find_owner_in`
/// found it, as a new entry otherwise.
fn store_owned_in(os: &mut Vec<OwnerEntry>, idx: Option<usize>, account: AccountId, dnas: Vec<Vec<u8>>)
    requires
        keys_distinct(owner_pairs(old(os)@)),
        match idx {
            Some(i) => i < old(os)@.len() && old(os)@[i as int].account == account,
            None => !assoc_map(owner_pairs(old(os)@)).contains_key(account),
        },
    ensures
        keys_distinct(owner_pairs(final(os)@)),
        assoc_map(owner_pairs(final(os)@)) == assoc_map(owner_pairs(old(os)@)).insert(
            account,
            dnas_view(dnas@),
        ),
        final(os)@.len() >= old(os)@.len(),
        forall|j: int|
            0 <= j < old(os)@.len() ==> (#[trigger] final(os)@[j]).account == old(os)@[j].account,
{
    let ghost pairs = owner_pairs(os@);
    let ghost v = dnas_view(dnas@);
    match idx {
        Some(i) => {
            os.set(i, OwnerEntry { account, dnas });
            proof {
                lemma_assoc_update(pairs, i as int, v);
                assert(owner_pairs(os@) =~= pairs.update(i as int, (pairs[i as int].0, v)));
            }
        },
        None => {
            os.push(OwnerEntry { account, dnas });
            proof {
                lemma_assoc_push(pairs, account, v);
                assert(owner_pairs(os@) =~= pairs.push((account, v)));
            }
        },
    }
}

/// Writes a kitty under its DNA, at index `idx` where `find_kitty_in`
/// found one, as a new entry otherwise.
fn store_kitty_in(ks: &mut Vec<Kitty>, idx: Option<usize>, kitty: Kitty)
    requires
        keys_distinct(kitty_pairs(old(ks)@)),
        match idx {
            Some(i) => i < old(ks)@.len() && old(ks)@[i as int]@.dna == kitty@.dna,
            None => !assoc_map(kitty_pairs(old(ks)@)).contains_key(kitty@.dna),
        },
    ensures
        keys_distinct(kitty_pairs(final(ks)@)),
        assoc_map(kitty_pairs(final(ks)@)) == assoc_map(kitty_pairs(old(ks)@)).insert(
            kitty@.dna,
            kitty@,
        ),
{
    let ghost pairs = kitty_pairs(ks@);
    let ghost kv = kitty@;
    match idx {
        Some(i) => {
            ks.set(i, kitty);
            proof {
                lemma_assoc_update(pairs, i as int, kv);
                assert(kitty_pairs(ks@) =~= pairs.update(i as int, (pairs[i as int].0, kv)));
            }
        },
        None => {
            ks.push(kitty);
            proof {
                lemma_assoc_push(pairs, kv.dna, kv);
                assert(kitty_pairs(ks@) =~= pairs.push((kv.dna, kv)));
            }
        },
    }
}

/// The kitty pallet's storage: the number of kitties, the kitties, the
/// list of kitties of each account, the limit of kitties per account, and
/// the events deposited.
pub struct Pallet {
    number_kitties: u32,
    kitties: Vec<Kitty>,
    owners: Vec<OwnerEntry>,
    limit: u32,
    events: Vec<Event>,
}

impl View for Pallet {
    type V = PalletView;

    closed spec fn view(&self) -> PalletView {
        PalletView {
            number_kitties: self.number_kitties,
            kitties: assoc_map(kitty_pairs(self.kitties@)),
            owners: assoc_map(owner_pairs(self.owners@)),
            limit: self.limit,
            events: events_view(self.events@),
        }
    }
}

impl Pallet {
    /// The storage is well formed: each DNA and each account is stored
    /// once, and the storage is consistent.
    #[verifier::type_invariant]
    spec fn wf(self) -> bool {
        &&& keys_distinct(kitty_pairs(self.kitties@))
        &&& keys_distinct(owner_pairs(self.owners@))
        &&& self@.consistent()
    }

    /// The gender a DNA gives: `Female` for a DNA of odd length, `Male`
    /// otherwise. It never fails.
    pub fn get_gender(dna: Vec<u8>) -> (r: Result<Gender, Error>)
        ensures
            r == Ok::<Gender, Error>(gender_of(dna@)),
    {
        let mut res = Gender::Male;
        if dna.len() % 2 != 0 {
            res = Gender::Female;
        }
        Ok(res)
    }

    /// Appends an event to the deposited ones.
    fn deposit_event(&mut self, event: Event)
        ensures
            final(self)@ == (PalletView { events: old(self)@.events.push(event@), ..old(self)@ }),
    {
        proof {
            use_type_invariant(&*self);
        }
        let ghost ev = event@;
        let mut events: Vec<Event> = Vec::new();
        std::mem::swap(&mut events, &mut self.events);
        events.push(event);
        self.events = events;
        assert(events_view(self.events@) =~= events_view(old(self).events@).push(ev));
    }

    /// Creates a kitty from `dna` for the signer of `origin`, created at
    /// moment `now` (the runtime's time). A root or unsigned call fails with
    /// `BadOrigin`; a signer whose list is full fails with `ExceedLimit`; a
    /// DNA already stored fails with `DuplicateKitty`. A failed call leaves
    /// the storage as it was.
    pub fn create_kitty(&mut self, origin: Origin, dna: Vec<u8>, now: Moment) -> (r: Result<
        (),
        DispatchError,
    >)
        requires
            !create_overflows(old(self)@, origin, dna@),
        ensures
            final(self)@.consistent(),
            match create_kitty_spec(old(self)@, origin, dna@, now) {
                Ok(t) => r is Ok && final(self)@ == t,
                Err(e) => r == Err::<(), DispatchError>(e) && final(self)@ == old(self)@,
            },
    {
        proof {
            use_type_invariant(&*self);
        }
        let who = match ensure_signed(&origin) {
            Ok(w) => w,
            Err(e) => return Err(e),
        };
        let idx = find_owner_in(&self.owners, who);
        let owned = match idx {
            Some(i) => copy_list(&self.owners[i].dnas),
            None => Vec::new(),
        };
        assert(dnas_view(owned@) == owned_in(self@.owners, who));
        let taken = find_kitty_in(&self.kitties, &dna).is_some();
        let event_dna = copy_bytes(&dna);
        let ghost d = dna@;
        let ghost s0 = self@;
        match create_kitty_step(who, owned, self.limit, dna, taken, self.number_kitties, now) {
            Err(e) => Err(DispatchError::Module(e)),
            Ok(c) => {
                proof {
                    lemma_create_consistent(s0, origin, d, now);
                }
                let ghost t = create_kitty_spec(s0, origin, d, now)->Ok_0;
                let Creation { owned, kitty, number_kitties } = c;
                let mut owners: Vec<OwnerEntry> = Vec::new();
                std::mem::swap(&mut owners, &mut self.owners);
                assert(owner_pairs(self.owners@) =~= Seq::empty());
                let mut kitties: Vec<Kitty> = Vec::new();
                std::mem::swap(&mut kitties, &mut self.kitties);
                assert(kitty_pairs(self.kitties@) =~= Seq::empty());
                store_kitty_in(&mut kitties, None, kitty);
                store_owned_in(&mut owners, idx, who, owned);
                self.kitties = kitties;
                proof {
                    assert(self@.owners =~= Map::empty());
                }
                self.owners = owners;
                proof {
                    assert(self@.owners == t.owners);
                    assert(self@.kitties == t.kitties);
                }
                self.number_kitties = number_kitties;
                self.deposit_event(Event::KittyStored(event_dna));
                proof {
                    assert(self@ == t);
                }
                Ok(())
            },
        }
    }

    /// Hands the kitty with `dna` from the signer of `origin` to `account`.
    /// A root or unsigned call fails with `BadOrigin`; a signer that does
    /// not own the kitty fails with `KittyNotOwned`; a receiver whose list is
    /// full fails with `ExceedLimit`. A failed call leaves the storage as it
    /// was. The signer must have a list of kitties, possibly empty.
    pub fn transfer_kitty(&mut self, origin: Origin, account: AccountId, dna: Vec<u8>) -> (r:
        Result<(), DispatchError>)
        requires
            signer_of(origin) matches Ok(who) ==> old(self)@.owners.contains_key(who),
        ensures
            final(self)@.consistent(),
            match transfer_kitty_spec(old(self)@, origin, account, dna@) {
                Ok(t) => r is Ok && final(self)@ == t,
                Err(e) => r == Err::<(), DispatchError>(e) && final(self)@ == old(self)@,
            },
    {
        proof {
            use_type_invariant(&*self);
        }
        let who = match ensure_signed(&origin) {
            Ok(w) => w,
            Err(e) => return Err(e),
        };
        let i = match find_owner_in(&self.owners, who) {
            Some(i) => i,
            None => {
                proof {
                    assert(false);
                }
                return Err(DispatchError::BadOrigin);
            },
        };
        let sender = copy_list(&self.owners[i].dnas);
        let j = find_owner_in(&self.owners, account);
        let receiver = match j {
            Some(j) => copy_list(&self.owners[j].dnas),
            None => Vec::new(),
        };
        assert(dnas_view(receiver@) == owned_in(self@.owners, account));
        let ghost s0 = self@;
        match transfer_kitty_step(sender, receiver, self.limit, &dna) {
            Err(e) => Err(DispatchError::Module(e)),
            Ok((new_sender, new_receiver)) => {
                proof {
                    lemma_transfer_consistent(s0, origin, account, dna@);
                    assert(s0.kitties.contains_key(dna@));
                }
                let ghost t = transfer_kitty_spec(s0, origin, account, dna@)->Ok_0;
                let mut owners: Vec<OwnerEntry> = Vec::new();
                std::mem::swap(&mut owners, &mut self.owners);
                assert(owner_pairs(self.owners@) =~= Seq::empty());
                let mut kitties: Vec<Kitty> = Vec::new();
                std::mem::swap(&mut kitties, &mut self.kitties);
                assert(kitty_pairs(self.kitties@) =~= Seq::empty());
                store_owned_in(&mut owners, Some(i), who, new_sender);
                let j2 = match j {
                    Some(j) => Some(j),
                    None => {
                        proof {
                            assert(account != who);
                        }
                        None
                    },
                };
                store_owned_in(&mut owners, j2, account, new_receiver);
                let k = match find_kitty_in(&kitties, &dna) {
                    Some(k) => k,
                    None => {
                        proof {
                            assert(false);
                        }
                        return Err(DispatchError::BadOrigin);
                    },
                };
                let mut kitty = kitties[k].duplicate();
                kitty.set_owner(account);
                store_kitty_in(&mut kitties, Some(k), kitty);
                self.kitties = kitties;
                proof {
                    assert(self@.owners =~= Map::empty());
                }
                self.owners = owners;
                proof {
                    assert(self@.owners == t.owners);
                    assert(self@.kitties == t.kitties);
                }
                self.deposit_event(Event::KittyTransferedTo(account, dna));
                proof {
                    assert(self@ == t);
                }
                Ok(())
            },
        }
    }

    /// The number of kitties.
    pub fn number_kitties(&self) -> (r: u32)
        ensures
            r == self@.number_kitties,
            self@.consistent(),
    {
        proof {
            use_type_invariant(self);
        }
        self.number_kitties
    }

    /// The limit of kitties per account.
    pub fn kitties_limit(&self) -> (r: u32)
        ensures
            r == self@.limit,
            self@.consistent(),
    {
        proof {
            use_type_invariant(self);
        }
        self.limit
    }

    /// The kitty stored under `dna`, if any.
    pub fn kitties(&self, dna: &Vec<u8>) -> (r: Option<&Kitty>)
        ensures
            self@.consistent(),
            match r {
                Some(k) => self@.kitties.contains_key(dna@) && k@ == self@.kitties[dna@],
                None => !self@.kitties.contains_key(dna@),
            },
    {
        proof {
            use_type_invariant(self);
        }
        match find_kitty_in(&self.kitties, dna) {
            Some(i) => Some(&self.kitties[i]),
            None => None,
        }
    }

    /// The list of kitties of `account`, if it has one.
    pub fn owner(&self, account: AccountId) -> (r: Option<&Vec<Vec<u8>>>)
        ensures
            self@.consistent(),
            match r {
                Some(l) => self@.owners.contains_key(account) && dnas_view(l@)
                    == self@.owners[account],
                None => !self@.owners.contains_key(account),
            },
    {
        proof {
            use_type_invariant(self);
        }
        match find_owner_in(&self.owners, account) {
            Some(i) => Some(&self.owners[i].dnas),
            None => None,
        }
    }

    /// The events deposited so far, oldest first.
    pub fn events(&self) -> (r: &Vec<Event>)
        ensures
            r@.map_values(|e: Event| e@) == self@.events,
            self@.consistent(),
    {
        proof {
            use_type_invariant(self);
        }
        &self.events
    }
}

/// The kitties that a chain starts with: (owner, DNA) pairs.
pub struct GenesisConfig {
    pub kitties: Vec<(AccountId, Vec<u8>)>,
}

/// The pairs of a genesis config as plain values.
pub open spec fn config_view(c: Seq<(AccountId, Vec<u8>)>) -> Seq<(AccountId, Seq<u8>)> {
    c.map_values(|p: (AccountId, Vec<u8>)| (p.0, p.1@))
}

impl Default for GenesisConfig {
    fn default() -> (g: Self)
        ensures
            g.kitties@.len() == 0,
    {
        GenesisConfig { kitties: Vec::new() }
    }
}

impl GenesisConfig {
    /// Builds the starting storage with limit `limit`, the kitties created
    /// at moment `now`: where some owner would get more than `limit`
    /// kitties, `None`.
    pub fn try_build(&self, limit: u32, now: Moment) -> (r: Option<Pallet>)
        ensures
            match r {
                Some(p) => genesis_fits(config_view(self.kitties@), limit) && p@.consistent() && p@
                    == genesis_state(config_view(self.kitties@), limit, now),
                None => !genesis_fits(config_view(self.kitties@), limit),
            },
    {
        let ghost c = config_view(self.kitties@);
        let mut kitties: Vec<Kitty> = Vec::new();
        let mut owners: Vec<OwnerEntry> = Vec::new();
        proof {
            assert(kitty_pairs(kitties@) =~= Seq::empty());
            assert(owner_pairs(owners@) =~= Seq::empty());
            assert(c.take(0) =~= Seq::empty());
        }
        let mut i: usize = 0;
        while i < self.kitties.len()
            invariant
                i <= self.kitties.len(),
                c == config_view(self.kitties@),
                keys_distinct(kitty_pairs(kitties@)),
                keys_distinct(owner_pairs(owners@)),
                genesis_fits(c.take(i as int), limit),
                assoc_map(kitty_pairs(kitties@)) == genesis_kitties(c.take(i as int), now),
                assoc_map(owner_pairs(owners@)) == genesis_owners(c.take(i as int)),
            decreases self.kitties.len() - i,
        {
            let owner = self.kitties[i].0;
            let ghost d = self.kitties@[i as int].1@;
            let ghost t = c.take(i + 1);
            assert(t.drop_last() =~= c.take(i as int));
            assert(t.last() == (owner, d));
            let idx = find_owner_in(&owners, owner);
            let owned = match idx {
                Some(j) => copy_list(&owners[j].dnas),
                None => Vec::new(),
            };
            assert(dnas_view(owned@) == owned_in(assoc_map(owner_pairs(owners@)), owner));
            let (owned, kitty) = match genesis_step(owned, limit, owner, copy_bytes(&self.kitties[i].1), now) {
                Ok(p) => p,
                Err(_) => {
                    proof {
                        if genesis_fits(c, limit) {
                            lemma_genesis_fits_prefix(c, limit, i + 1);
                        }
                    }
                    return None;
                },
            };
            store_owned_in(&mut owners, idx, owner, owned);
            let kidx = find_kitty_in(&kitties, &self.kitties[i].1);
            store_kitty_in(&mut kitties, kidx, kitty);
            proof {
                assert(assoc_map(owner_pairs(owners@)) == genesis_owners(t));
                assert(assoc_map(kitty_pairs(kitties@)) == genesis_kitties(t, now));
            }
            i = i + 1;
        }
        proof {
            assert(c.take(self.kitties.len() as int) =~= c);
            lemma_genesis_consistent(c, limit, now);
            assert(events_view(Seq::<Event>::empty()) =~= Seq::empty());
        }
        let p = Pallet {
            number_kitties: self.kitties.len() as u32,
            kitties,
            owners,
            limit,
            events: Vec::new(),
        };
        proof {
            assert(events_view(p.events@) =~= Seq::empty());
            assert(p@ == genesis_state(c, limit, now));
        }
        Some(p)
    }

    /// Builds the starting storage with limit `limit`, the kitties created
    /// at moment `now`. No owner may get more than `limit` kitties.
    pub fn build(&self, limit: u32, now: Moment) -> (p: Pallet)
        requires
            genesis_fits(config_view(self.kitties@), limit),
        ensures
            p@.consistent(),
            p@ == genesis_state(config_view(self.kitties@), limit, now),
    {
        match self.try_build(limit, now) {
            Some(p) => p,
            None => {
                proof {
                    assert(false);
                }
                GenesisConfig::default().try_build(limit, now).unwrap()
            },
        }
    }
}

} // verus!
