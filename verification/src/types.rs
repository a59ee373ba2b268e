//! The values the kitty pallet works with: kitties, genders, origins,
//! events and errors.
use vstd::prelude::*;

verus! {

/// Counter type used for the number of kitties.
pub type Id = u32;

/// An account of the chain.
pub type AccountId = u64;

/// The balance type a kitty's price is counted in.
pub type Balance = u128;

/// A point in time, as the runtime's time provider reports it.
pub type Moment = u64;

/// The gender a kitty is born with.
#[derive(PartialEq, Eq, Structural, Clone, Copy, Debug)]
pub enum Gender {
    Male,
    Female,
}

impl Default for Gender {
    fn default() -> (g: Self)
        ensures
            g == Gender::Male,
    {
        Gender::Male
    }
}

/// The gender that a DNA determines: a DNA of odd length is female,
/// one of even length (the empty one included) is male.
pub open spec fn gender_of(dna: Seq<u8>) -> Gender {
    if dna.len() % 2 != 0 {
        Gender::Female
    } else {
        Gender::Male
    }
}

/// The errors that the pallet's calls can fail with.
#[derive(PartialEq, Eq, Structural, Clone, Copy, Debug)]
pub enum Error {
    InvalidPrice,
    StorageOverflow,
    KittyNotOwned,
    NoKitty,
    InvalidAccount,
    Overflow,
    ExceedLimit,
    DuplicateKitty,
}

/// Why a dispatched call failed: a bad origin, or an error of this pallet.
#[derive(PartialEq, Eq, Structural, Clone, Copy, Debug)]
pub enum DispatchError {
    BadOrigin,
    Module(Error),
}

/// Who dispatched a call.
#[derive(PartialEq, Eq, Structural, Clone, Copy, Debug)]
pub enum Origin {
    /// The privileged root origin.
    Root,
    /// A call signed by an account.
    Signed(AccountId),
    /// An unsigned call.
    Unsigned,
}

/// The signer of a call: `Ok(who)` for a call signed by `who`, and
/// `Err(BadOrigin)` for a root or an unsigned call.
pub open spec fn signer_of(origin: Origin) -> Result<AccountId, DispatchError> {
    match origin {
        Origin::Signed(who) => Ok(who),
        _ => Err(DispatchError::BadOrigin),
    }
}

/// Checks that a call was signed and returns the signer.
pub fn ensure_signed(origin: &Origin) -> (r: Result<AccountId, DispatchError>)
    ensures
        r == signer_of(*origin),
{
    match origin {
        Origin::Signed(who) => Ok(*who),
        _ => Err(DispatchError::BadOrigin),
    }
}

/// What is known of a kitty, as plain values.
pub struct KittyView {
    pub dna: Seq<u8>,
    pub owner: AccountId,
    pub price: Balance,
    pub gender: Gender,
    pub created_date: Moment,
}

/// A kitty: its DNA, its owner, its price, its gender and the moment it was
/// created.
#[derive(Debug)]
pub struct Kitty {
    dna: Vec<u8>,
    owner: AccountId,
    price: Balance,
    gender: Gender,
    created_date: Moment,
}

impl View for Kitty {
    type V = KittyView;

    closed spec fn view(&self) -> KittyView {
        KittyView {
            dna: self.dna@,
            owner: self.owner,
            price: self.price,
            gender: self.gender,
            created_date: self.created_date,
        }
    }
}

/// The kitty that `who` creates from `dna` at moment `now`: priced at zero,
/// with the gender that the DNA determines.
pub open spec fn new_kitty(who: AccountId, dna: Seq<u8>, now: Moment) -> KittyView {
    KittyView { dna, owner: who, price: 0, gender: gender_of(dna), created_date: now }
}

/// A copy of a byte string.
pub fn copy_bytes(v: &Vec<u8>) -> (r: Vec<u8>)
    ensures
        r@ == v@,
{
    let r = v.clone();
    assert(r@ =~= v@);
    r
}

/// Whether two byte strings are equal.
pub fn bytes_eq(a: &Vec<u8>, b: &Vec<u8>) -> (r: bool)
    ensures
        r == (a@ == b@),
{
    if a.len() != b.len() {
        return false;
    }
    let mut i: usize = 0;
    while i < a.len()
        invariant
            a.len() == b.len(),
            i <= a.len(),
            forall|j: int| 0 <= j < i ==> a@[j] == b@[j],
        decreases a.len() - i,
    {
        if a[i] != b[i] {
            return false;
        }
        i = i + 1;
    }
    assert(a@ =~= b@);
    true
}

impl Kitty {
    /// A kitty with the given DNA, owner, price, gender and creation
    /// moment.
    pub fn new(
        dna: Vec<u8>,
        owner: AccountId,
        price: Balance,
        gender: Gender,
        created_date: Moment,
    ) -> (k: Kitty)
        ensures
            k@ == (KittyView { dna: dna@, owner, price, gender, created_date }),
    {
        Kitty { dna, owner, price, gender, created_date }
    }

    /// A copy of this kitty.
    pub fn duplicate(&self) -> (k: Kitty)
        ensures
            k@ == self@,
    {
        Kitty {
            dna: copy_bytes(&self.dna),
            owner: self.owner,
            price: self.price,
            gender: self.gender,
            created_date: self.created_date,
        }
    }

    /// The kitty's DNA.
    pub fn dna(&self) -> (r: &Vec<u8>)
        ensures
            r@ == self@.dna,
    {
        &self.dna
    }

    /// The kitty's owner.
    pub fn owner(&self) -> (r: AccountId)
        ensures
            r == self@.owner,
    {
        self.owner
    }

    /// The kitty's price.
    pub fn price(&self) -> (r: Balance)
        ensures
            r == self@.price,
    {
        self.price
    }

    /// The kitty's gender.
    pub fn gender(&self) -> (r: Gender)
        ensures
            r == self@.gender,
    {
        self.gender
    }

    /// The moment the kitty was created.
    pub fn created_date(&self) -> (r: Moment)
        ensures
            r == self@.created_date,
    {
        self.created_date
    }

    /// Hands the kitty to a new owner; everything else stays.
    pub fn set_owner(&mut self, account: AccountId)
        ensures
            final(self)@ == (KittyView { owner: account, ..old(self)@ }),
    {
        self.owner = account;
    }
}

impl Default for Kitty {
    fn default() -> (k: Self)
        ensures
            k@ == (KittyView {
                dna: Seq::empty(),
                owner: 0,
                price: 0,
                gender: Gender::Male,
                created_date: 0,
            }),
    {
        let k = Kitty {
            dna: Vec::new(),
            owner: 0,
            price: 0,
            gender: Gender::Male,
            created_date: 0,
        };
        assert(k@.dna =~= Seq::<u8>::empty());
        k
    }
}

/// What is known of an event, as plain values.
pub enum EventView {
    KittyStored(Seq<u8>),
    KittyTransferedTo(AccountId, Seq<u8>),
    KittiesLimitSet(u32),
}

/// The events that the pallet deposits.
#[derive(Debug)]
pub enum Event {
    /// A kitty with this DNA was created.
    KittyStored(Vec<u8>),
    /// The kitty with this DNA was handed to this account.
    KittyTransferedTo(AccountId, Vec<u8>),
    /// The limit of kitties per owner was set.
    KittiesLimitSet(u32),
}

impl View for Event {
    type V = EventView;

    open spec fn view(&self) -> EventView {
        match self {
            Event::KittyStored(d) => EventView::KittyStored(d@),
            Event::KittyTransferedTo(a, d) => EventView::KittyTransferedTo(*a, d@),
            Event::KittiesLimitSet(n) => EventView::KittiesLimitSet(*n),
        }
    }
}

} // verus!
