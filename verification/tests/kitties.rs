use kitties::DispatchError;
use kitties::Error;
use kitties::Event;
use kitties::Gender;
use kitties::GenesisConfig;
use kitties::Kitty;
use kitties::Origin;
use kitties::Pallet;
use kitties::create_kitty_step;
use kitties::genesis_step;
use kitties::transfer_kitty_step;

fn empty_chain(limit: u32) -> Pallet {
    GenesisConfig::default().build(limit, 0)
}

fn dnas(list: &[&[u8]]) -> Vec<Vec<u8>> {
    list.iter().map(|d| d.to_vec()).collect()
}

#[test]
fn gender_follows_dna_length() {
    assert_eq!(Pallet::get_gender(b"Tommy".to_vec()), Ok(Gender::Female));
    assert_eq!(Pallet::get_gender(b"Tom".to_vec()), Ok(Gender::Female));
    assert_eq!(Pallet::get_gender(b"Toms".to_vec()), Ok(Gender::Male));
    assert_eq!(Pallet::get_gender(Vec::new()), Ok(Gender::Male));
}

#[test]
fn gender_default_is_male() {
    assert_eq!(Gender::default(), Gender::Male);
}

#[test]
fn default_kitty_is_blank() {
    let k = Kitty::default();
    assert!(k.dna().is_empty());
    assert_eq!(k.owner(), 0);
    assert_eq!(k.price(), 0);
    assert_eq!(k.gender(), Gender::Male);
    assert_eq!(k.created_date(), 0);
}

#[test]
fn create_kitty_stores_and_counts() {
    let mut p = empty_chain(3);
    assert_eq!(p.create_kitty(Origin::Signed(1), b"Tommy".to_vec(), 42), Ok(()));
    assert_eq!(p.number_kitties(), 1);
    let k = p.kitties(&b"Tommy".to_vec()).unwrap();
    assert_eq!(k.dna(), &b"Tommy".to_vec());
    assert_eq!(k.owner(), 1);
    assert_eq!(k.price(), 0);
    assert_eq!(k.gender(), Gender::Female);
    assert_eq!(k.created_date(), 42);
    assert_eq!(p.owner(1), Some(&dnas(&[b"Tommy"])));
    assert!(matches!(p.events().last(), Some(Event::KittyStored(d)) if d == b"Tommy"));
}

#[test]
fn create_kitty_by_root_or_unsigned_is_refused() {
    let mut p = empty_chain(3);
    assert_eq!(p.create_kitty(Origin::Root, b"Tommy".to_vec(), 1), Err(DispatchError::BadOrigin));
    assert_eq!(p.create_kitty(Origin::Unsigned, b"Tommy".to_vec(), 1), Err(DispatchError::BadOrigin));
    assert_eq!(p.number_kitties(), 0);
    assert!(p.kitties(&b"Tommy".to_vec()).is_none());
    assert!(p.events().is_empty());
}

#[test]
fn create_kitty_twice_is_a_duplicate() {
    let mut p = empty_chain(3);
    assert_eq!(p.create_kitty(Origin::Signed(1), b"Tommy".to_vec(), 1), Ok(()));
    assert_eq!(
        p.create_kitty(Origin::Signed(2), b"Tommy".to_vec(), 2),
        Err(DispatchError::Module(Error::DuplicateKitty))
    );
    assert_eq!(p.number_kitties(), 1);
    assert_eq!(p.kitties(&b"Tommy".to_vec()).unwrap().owner(), 1);
    assert!(p.owner(2).is_none());
}

#[test]
fn create_kitty_beyond_limit_is_refused() {
    let mut p = empty_chain(2);
    assert_eq!(p.create_kitty(Origin::Signed(1), b"a".to_vec(), 1), Ok(()));
    assert_eq!(p.create_kitty(Origin::Signed(1), b"bb".to_vec(), 1), Ok(()));
    assert_eq!(
        p.create_kitty(Origin::Signed(1), b"ccc".to_vec(), 1),
        Err(DispatchError::Module(Error::ExceedLimit))
    );
    assert_eq!(p.owner(1), Some(&dnas(&[b"a", b"bb"])));
    assert_eq!(p.number_kitties(), 2);
}

#[test]
fn full_list_is_checked_before_duplicate() {
    let mut p = empty_chain(1);
    assert_eq!(p.create_kitty(Origin::Signed(1), b"a".to_vec(), 1), Ok(()));
    assert_eq!(
        p.create_kitty(Origin::Signed(1), b"a".to_vec(), 1),
        Err(DispatchError::Module(Error::ExceedLimit))
    );
}

#[test]
fn create_kitty_with_zero_limit_is_refused() {
    let mut p = empty_chain(0);
    assert_eq!(
        p.create_kitty(Origin::Signed(1), b"a".to_vec(), 1),
        Err(DispatchError::Module(Error::ExceedLimit))
    );
}

#[test]
fn bench_create_kitty() {
    let mut p = empty_chain(10);
    p.create_kitty(Origin::Signed(7), b"Tommy".to_vec(), 0).unwrap();
    assert_eq!(p.number_kitties(), 1);
}

#[test]
fn bench_transfer_kitty() {
    let mut p = empty_chain(10);
    p.create_kitty(Origin::Signed(7), b"Tommy".to_vec(), 0).unwrap();
    let kitty = p.owner(7).cloned();
    p.transfer_kitty(Origin::Signed(7), 8, b"Tommy".to_vec()).unwrap();
    assert_eq!(p.owner(8).cloned(), kitty);
}

#[test]
fn transfer_moves_the_kitty() {
    let mut p = empty_chain(3);
    p.create_kitty(Origin::Signed(1), b"a".to_vec(), 5).unwrap();
    p.create_kitty(Origin::Signed(1), b"bb".to_vec(), 6).unwrap();
    assert_eq!(p.transfer_kitty(Origin::Signed(1), 2, b"a".to_vec()), Ok(()));
    assert_eq!(p.owner(1), Some(&dnas(&[b"bb"])));
    assert_eq!(p.owner(2), Some(&dnas(&[b"a"])));
    let k = p.kitties(&b"a".to_vec()).unwrap();
    assert_eq!(k.owner(), 2);
    assert_eq!(k.created_date(), 5);
    assert_eq!(k.gender(), Gender::Female);
    assert_eq!(p.number_kitties(), 2);
    assert!(matches!(p.events().last(), Some(Event::KittyTransferedTo(2, d)) if d == b"a"));
}

#[test]
fn transfer_of_kitty_not_owned_is_refused() {
    let mut p = empty_chain(3);
    p.create_kitty(Origin::Signed(1), b"a".to_vec(), 5).unwrap();
    p.create_kitty(Origin::Signed(2), b"bb".to_vec(), 5).unwrap();
    assert_eq!(
        p.transfer_kitty(Origin::Signed(1), 3, b"bb".to_vec()),
        Err(DispatchError::Module(Error::KittyNotOwned))
    );
    assert_eq!(p.kitties(&b"bb".to_vec()).unwrap().owner(), 2);
    assert!(p.owner(3).is_none());
}

#[test]
fn transfer_to_full_list_is_refused() {
    let mut p = empty_chain(1);
    p.create_kitty(Origin::Signed(1), b"a".to_vec(), 5).unwrap();
    p.create_kitty(Origin::Signed(2), b"bb".to_vec(), 5).unwrap();
    assert_eq!(
        p.transfer_kitty(Origin::Signed(1), 2, b"a".to_vec()),
        Err(DispatchError::Module(Error::ExceedLimit))
    );
    assert_eq!(p.owner(1), Some(&dnas(&[b"a"])));
    assert_eq!(p.owner(2), Some(&dnas(&[b"bb"])));
}

#[test]
fn transfer_by_root_is_refused() {
    let mut p = empty_chain(1);
    p.create_kitty(Origin::Signed(1), b"a".to_vec(), 5).unwrap();
    assert_eq!(p.transfer_kitty(Origin::Root, 2, b"a".to_vec()), Err(DispatchError::BadOrigin));
}

#[test]
fn transfer_to_self_lists_the_kitty_twice() {
    let mut p = empty_chain(3);
    p.create_kitty(Origin::Signed(1), b"a".to_vec(), 5).unwrap();
    assert_eq!(p.transfer_kitty(Origin::Signed(1), 1, b"a".to_vec()), Ok(()));
    assert_eq!(p.owner(1), Some(&dnas(&[b"a", b"a"])));
    assert_eq!(p.kitties(&b"a".to_vec()).unwrap().owner(), 1);
}

#[test]
fn transfer_and_back_restores_the_kitty() {
    let mut p = empty_chain(1);
    p.create_kitty(Origin::Signed(1), b"a".to_vec(), 5).unwrap();
    p.transfer_kitty(Origin::Signed(1), 2, b"a".to_vec()).unwrap();
    assert_eq!(p.owner(1), Some(&Vec::new()));
    p.transfer_kitty(Origin::Signed(2), 1, b"a".to_vec()).unwrap();
    let k = p.kitties(&b"a".to_vec()).unwrap();
    assert_eq!(k.owner(), 1);
    assert_eq!(k.created_date(), 5);
    assert_eq!(p.owner(1), Some(&dnas(&[b"a"])));
    assert_eq!(p.owner(2), Some(&Vec::new()));
}

#[test]
fn genesis_builds_lists_and_kitties() {
    let g = GenesisConfig {
        kitties: vec![(1, b"a".to_vec()), (2, b"bb".to_vec()), (1, b"ccc".to_vec())],
    };
    let p = g.build(2, 9);
    assert_eq!(p.number_kitties(), 3);
    assert_eq!(p.kitties_limit(), 2);
    assert_eq!(p.owner(1), Some(&dnas(&[b"a", b"ccc"])));
    assert_eq!(p.owner(2), Some(&dnas(&[b"bb"])));
    assert_eq!(p.kitties(&b"bb".to_vec()).unwrap().gender(), Gender::Male);
    assert_eq!(p.kitties(&b"ccc".to_vec()).unwrap().created_date(), 9);
    assert!(p.events().is_empty());
}

#[test]
fn genesis_duplicate_dna_keeps_last_owner() {
    let g = GenesisConfig { kitties: vec![(1, b"a".to_vec()), (2, b"a".to_vec())] };
    let p = g.build(5, 0);
    assert_eq!(p.number_kitties(), 2);
    assert_eq!(p.kitties(&b"a".to_vec()).unwrap().owner(), 2);
    assert_eq!(p.owner(1), Some(&dnas(&[b"a"])));
    assert_eq!(p.owner(2), Some(&dnas(&[b"a"])));
}

#[test]
fn genesis_over_limit_is_refused() {
    let g = GenesisConfig { kitties: vec![(1, b"a".to_vec()), (1, b"b".to_vec())] };
    assert!(g.try_build(1, 0).is_none());
    assert!(g.try_build(2, 0).is_some());
}

#[test]
fn create_step_decides_from_plain_values() {
    let c = create_kitty_step(3, dnas(&[b"x"]), 2, b"yy".to_vec(), false, 4, 11).unwrap();
    assert_eq!(c.owned, dnas(&[b"x", b"yy"]));
    assert_eq!(c.kitty.owner(), 3);
    assert_eq!(c.kitty.gender(), Gender::Male);
    assert_eq!(c.number_kitties, 5);
    assert!(matches!(create_kitty_step(3, dnas(&[b"x"]), 1, b"yy".to_vec(), false, 4, 11), Err(Error::ExceedLimit)));
    assert!(matches!(create_kitty_step(3, Vec::new(), 1, b"yy".to_vec(), true, 4, 11), Err(Error::DuplicateKitty)));
}

#[test]
fn transfer_step_removes_every_copy() {
    let (s, r) = transfer_kitty_step(dnas(&[b"a", b"b", b"a"]), Vec::new(), 2, &b"a".to_vec()).unwrap();
    assert_eq!(s, dnas(&[b"b"]));
    assert_eq!(r, dnas(&[b"a"]));
    assert_eq!(
        transfer_kitty_step(dnas(&[b"b"]), Vec::new(), 2, &b"a".to_vec()),
        Err(Error::KittyNotOwned)
    );
    assert_eq!(
        transfer_kitty_step(dnas(&[b"a"]), dnas(&[b"c"]), 1, &b"a".to_vec()),
        Err(Error::ExceedLimit)
    );
}

#[test]
fn round_trip_moves_dna_to_the_end() {
    let mut p = empty_chain(3);
    p.create_kitty(Origin::Signed(1), b"a".to_vec(), 5).unwrap();
    p.create_kitty(Origin::Signed(1), b"bb".to_vec(), 6).unwrap();
    p.transfer_kitty(Origin::Signed(1), 2, b"a".to_vec()).unwrap();
    p.transfer_kitty(Origin::Signed(2), 1, b"a".to_vec()).unwrap();
    assert_eq!(p.owner(1), Some(&dnas(&[b"bb", b"a"])));
    assert_eq!(p.owner(2), Some(&Vec::new()));
    assert_eq!(p.number_kitties(), 2);
    assert_eq!(p.kitties(&b"a".to_vec()).unwrap().owner(), 1);
    assert_eq!(p.kitties(&b"bb".to_vec()).unwrap().owner(), 1);
}

#[test]
fn genesis_step_appends_or_refuses() {
    let (owned, kitty) = genesis_step(dnas(&[b"x"]), 2, 4, b"abc".to_vec(), 8).unwrap();
    assert_eq!(owned, dnas(&[b"x", b"abc"]));
    assert_eq!(kitty.owner(), 4);
    assert_eq!(kitty.gender(), Gender::Female);
    assert_eq!(kitty.created_date(), 8);
    assert_eq!(kitty.price(), 0);
    assert_eq!(genesis_step(dnas(&[b"x"]), 1, 4, b"abc".to_vec(), 8).err(), Some(b"abc".to_vec()));
}
