//! A registry of kitties: accounts create kitties from their DNA, each
//! account owns a bounded list of kitties, and owners hand kitties to
//! other accounts.
use vstd::prelude::*;

pub mod assoc;
pub mod laws;
pub mod model;
pub mod outcomes;
pub mod owned;
pub mod pallet;
pub mod types;

pub use pallet::Creation;
pub use pallet::GenesisConfig;
pub use pallet::Pallet;
pub use pallet::create_kitty_step;
pub use pallet::genesis_step;
pub use pallet::transfer_kitty_step;
pub use types::DispatchError;
pub use types::Error;
pub use types::Event;
pub use types::Gender;
pub use types::Kitty;
pub use types::Origin;

verus! {

} // verus!

