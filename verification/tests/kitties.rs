use kitties::allocator::IdAllocator;
use kitties::entropy::EntropySource;
use kitties::kitty::{combine, combine_dna};
use kitties::registry::KittiesModule;
use kitties::{Error, Event};

fn fresh_module() -> KittiesModule {
    KittiesModule::new(vec![7u8; 32])
}

#[test]
fn create_kitty_work() {
    let mut m = fresh_module();
    assert_eq!(m.create(1), Ok(()));
    assert_eq!(m.events()[0], Event::Created(1, 0));
}

#[test]
fn breed_kitty_work() {
    let mut m = fresh_module();
    assert_eq!(m.create(1), Ok(()));
    assert_eq!(m.create(1), Ok(()));
    assert!(m.breed(1, 0, 1).is_ok());
    assert_eq!(m.events()[2], Event::Breeded(1, 2));
}

#[test]
fn breed_kitty_failed_parents_the_same() {
    let mut m = fresh_module();
    assert_eq!(m.create(1), Ok(()));
    assert_eq!(m.create(1), Ok(()));
    assert_eq!(m.breed(1, 0, 0), Err(Error::ParentsTheSame));
    // a refused breeding changes nothing
    assert_eq!(m.kitties_count(), 2);
    assert_eq!(m.events().len(), 2);
}

#[test]
fn breed_kitty_failed_invalid_kitty_id() {
    let mut m = fresh_module();
    assert_eq!(m.create(1), Ok(()));
    assert_eq!(m.create(1), Ok(()));
    assert_eq!(m.breed(1, 0, 2), Err(Error::InvalidKittyId));
    assert_eq!(m.kitties_count(), 2);
    assert_eq!(m.events().len(), 2);
}

#[test]
fn transfer_kitty_work() {
    let mut m = fresh_module();
    assert_eq!(m.create(1), Ok(()));
    assert_eq!(m.transfer(1, 2, 0), Ok(()));
    assert_eq!(m.events()[1], Event::Transfered(1, 2, 0));
}

#[test]
fn allocator_fails_only_at_max() {
    let full = IdAllocator::from_count(u32::MAX);
    assert_eq!(full.next_id(), Err(Error::KittiesCountOverflow));
    // reading never moves the counter
    assert_eq!(full.next_id(), Err(Error::KittiesCountOverflow));
    let a = IdAllocator::from_count(5);
    assert_eq!(a.next_id(), Ok(5));
    assert_eq!(IdAllocator::new().next_id(), Ok(0));
}

#[test]
fn create_assigns_increasing_ids() {
    let mut m = fresh_module();
    for expected in 0u32..5 {
        assert_eq!(m.next_kitty_id(), Ok(expected));
        assert_eq!(m.create(3), Ok(()));
        assert_eq!(m.events()[expected as usize], Event::Created(3, expected));
    }
    assert_eq!(m.kitties_count(), 5);
}

#[test]
fn create_records_owner_and_last_kitty() {
    let mut m = fresh_module();
    assert_eq!(m.create(9), Ok(()));
    assert_eq!(m.kitty_owner(0), Some(9));
    let k = m.kitties(0).expect("id 0 was assigned");
    assert_eq!(k.dna.len(), 16);
    assert_eq!(k.parents, None);
    assert!(k.mates.is_empty());
    assert!(k.brothers.is_empty());
    assert!(k.children.is_empty());
    let last = m.whos_kitties(9).expect("owner 9 created an entity");
    assert_eq!(last.dna, k.dna);
    assert_eq!(m.whos_kitties(8).is_none(), true);
}

#[test]
fn combine_exact_bytes() {
    assert_eq!(combine_dna(0b1100_1100, 0b1010_1010, 0b1111_0000), 0b1100_1010);
    assert_eq!(combine_dna(0xFF, 0x0F, 0x00), 0x0F);
    assert_eq!(combine_dna(0xFF, 0x0F, 0xFF), 0xFF);
    let d1 = vec![0b1100_1100u8, 0xFF, 0x00];
    let d2 = vec![0b1010_1010u8, 0x0F, 0xF0];
    let sel = vec![0b1111_0000u8, 0x00, 0xAA];
    assert_eq!(combine(&d1, &d2, &sel), vec![0b1100_1010u8, 0x0F, 0x50]);
}

#[test]
fn two_breeds_link_the_genealogy() {
    let mut m = fresh_module();
    assert_eq!(m.create(1), Ok(()));
    assert_eq!(m.create(1), Ok(()));

    // first offspring: id 2, no prior children means no brothers
    assert_eq!(m.breed(1, 0, 1), Ok(()));
    let k2 = m.kitties(2).expect("id 2 was bred");
    assert_eq!(k2.parents, Some((0, 1)));
    assert!(k2.brothers.is_empty());
    assert!(k2.children.is_empty());

    // second offspring: id 3, its brothers are exactly {2}
    assert_eq!(m.breed(1, 0, 1), Ok(()));
    let k3 = m.kitties(3).expect("id 3 was bred");
    assert_eq!(k3.parents, Some((0, 1)));
    assert_eq!(k3.brothers, vec![2]);
    // and entity 2 got the back-edge
    let k2 = m.kitties(2).expect("id 2 is still stored");
    assert_eq!(k2.brothers, vec![3]);

    // both parents list both children, and the mate edge is single
    let k0 = m.kitties(0).expect("id 0 is stored");
    let k1 = m.kitties(1).expect("id 1 is stored");
    assert_eq!(k0.children, vec![2, 3]);
    assert_eq!(k1.children, vec![2, 3]);
    assert_eq!(k0.mates, vec![1]);
    assert_eq!(k1.mates, vec![0]);

    // offspring ids differ, and the re-derived selector gives different dna
    assert_ne!(k2.dna, k3.dna);
    assert_eq!(m.kitty_owner(2), Some(1));
    assert_eq!(m.kitty_owner(3), Some(1));

    // the owner-to-last-entity record was overwritten by the second breed
    let last = m.whos_kitties(1).expect("actor 1 produced entities");
    assert_eq!(last.parents, Some((0, 1)));
    assert_eq!(last.dna, k3.dna);
}

#[test]
fn transfer_needs_no_existing_entity() {
    let mut m = fresh_module();
    assert_eq!(m.kitty_owner(42), None);
    assert_eq!(m.transfer(1, 7, 42), Ok(()));
    assert_eq!(m.kitty_owner(42), Some(7));
    // and it never checks the previous owner
    assert_eq!(m.transfer(3, 8, 42), Ok(()));
    assert_eq!(m.kitty_owner(42), Some(8));
}

#[test]
fn breed_missing_ids_report_invalid_first() {
    let mut m = fresh_module();
    // both ids missing: still InvalidKittyId, id1 is checked first
    assert_eq!(m.breed(1, 5, 9), Err(Error::InvalidKittyId));
    // a missing id that equals itself is reported as missing, not as
    // self-breeding: existence is checked before the self-breeding rule
    assert_eq!(m.breed(1, 5, 5), Err(Error::InvalidKittyId));
    assert_eq!(m.events().len(), 0);
}

#[test]
fn entropy_is_deterministic_and_compressed() {
    let mut a = EntropySource::new(vec![]);
    let mut b = EntropySource::new(vec![]);
    let va = a.derive(1);
    let vb = b.derive(1);
    // identical state and actor give the identical value on every replica
    assert_eq!(va, vb);
    // the payload (empty seed, actor, nonce) is longer than 16 bytes, so a
    // 16-byte result shows the hash compressed it
    assert_eq!(va.len(), 16);
    // a moved transaction counter changes the value
    let va2 = a.derive(1);
    assert_ne!(va, va2);
    // a different actor changes the value
    let vb2 = b.derive(2);
    assert_ne!(va2, vb2);
}

#[test]
fn seed_changes_created_dna() {
    let mut m1 = KittiesModule::new(vec![1u8; 32]);
    let mut m2 = KittiesModule::new(vec![2u8; 32]);
    assert_eq!(m1.create(1), Ok(()));
    assert_eq!(m2.create(1), Ok(()));
    let d1 = m1.kitties(0).unwrap().dna;
    let d2 = m2.kitties(0).unwrap().dna;
    assert_eq!(d1.len(), 16);
    assert_ne!(d1, d2);
}
