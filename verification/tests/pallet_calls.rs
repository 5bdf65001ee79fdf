use std::collections::HashMap;

use polkapet::genetics::{death_number_from_hash, generate_vec_reverse_digits_from_num};
use polkapet::hashing::random_hash;
use polkapet::{
    AccountId, ArithmeticError, Balance, BlockNumber, Config, DispatchError, DotLogoOvalPosition,
    Error, Event, GameStatus, Gender, Pallet, RandomSubject,
};

const ALICE: AccountId = 1;
const BOB: AccountId = 2;
const CHARLIE: AccountId = 3;
const PALLET: AccountId = 99;

struct MockRuntime {
    block: BlockNumber,
    extrinsic: Option<u32>,
    salt: u8,
    balances: HashMap<AccountId, Balance>,
    payments: Vec<(AccountId, AccountId, Balance)>,
    requests: Vec<(AccountId, AccountId, Balance)>,
    refuse_payments: bool,
}

impl MockRuntime {
    fn new() -> Self {
        let mut balances = HashMap::new();
        balances.insert(ALICE, 1_000);
        balances.insert(BOB, 1_000);
        balances.insert(CHARLIE, 1_000);
        balances.insert(PALLET, 0);
        MockRuntime {
            block: 1,
            extrinsic: Some(0),
            salt: 0,
            balances,
            payments: Vec::new(),
            requests: Vec::new(),
            refuse_payments: false,
        }
    }

    fn balance(&self, who: AccountId) -> Balance {
        *self.balances.get(&who).unwrap_or(&0)
    }
}

impl Config for MockRuntime {
    fn block_number(&self) -> BlockNumber {
        self.block
    }

    fn extrinsic_index(&self) -> Option<u32> {
        self.extrinsic
    }

    fn random(&self, subject: RandomSubject) -> [u8; 32] {
        let mut seed = [0u8; 32];
        for (i, b) in subject.seed().as_bytes().iter().enumerate() {
            seed[i % 32] ^= *b;
        }
        seed[30] = self.salt;
        seed[31] = self.block as u8;
        seed
    }

    fn transfer(&mut self, from: AccountId, to: AccountId, value: Balance) -> Result<(), DispatchError> {
        self.requests.push((from, to, value));
        if self.refuse_payments || self.balance(from) < value {
            return Err(DispatchError::Other);
        }
        *self.balances.entry(from).or_insert(0) -= value;
        *self.balances.entry(to).or_insert(0) += value;
        self.payments.push((from, to, value));
        Ok(())
    }
}

fn module(e: Error) -> DispatchError {
    DispatchError::Module(e)
}

/// Seeds whose first draw gives the wanted gender for the pet after `count` pets.
fn seed_for_gender(count: u64, gender: Gender, block: BlockNumber) -> [u8; 32] {
    for k in 0..=255u8 {
        let seed = [k; 32];
        let hash = random_hash(&seed, count, 0, 0, block);
        let g = if hash[0] % 2 == 0 { Gender::Male } else { Gender::Female };
        if g == gender {
            return seed;
        }
    }
    panic!("no seed");
}

fn expected_hash(random: &[u8; 32], count: u64, optional: u64, ext: u32, block: u32) -> [u8; 16] {
    let mut payload = Vec::new();
    payload.extend_from_slice(random);
    payload.extend_from_slice(&count.to_le_bytes());
    payload.extend_from_slice(&optional.to_le_bytes());
    payload.extend_from_slice(&ext.to_le_bytes());
    payload.extend_from_slice(&block.to_le_bytes());
    let mut encoded = vec![(payload.len() as u8) << 2];
    encoded.extend_from_slice(&payload);
    sp_io::hashing::blake2_128(&encoded)
}

#[test]
fn random_hash_is_blake2_of_scale_encoded_payload() {
    let random = [7u8; 32];
    let h = random_hash(&random, 5, 9, 2, 300);
    assert_eq!(h, expected_hash(&random, 5, 9, 2, 300));
    assert_ne!(h, expected_hash(&random, 5, 9, 2, 301));
}

#[test]
fn create_polkapet_mints_next_id_for_sender() {
    let mut p = Pallet::new(3, PALLET);
    let env = MockRuntime::new();
    assert_eq!(p.create_polkapet(&env, ALICE), Ok(()));
    assert_eq!(p.last_pet_id(), 1);
    let pet = p.get_pet_by_id(1).unwrap();
    assert_eq!(pet.owner, ALICE);
    assert_eq!(pet.price, None);
    assert_eq!(pet.power, 0);
    assert!(!pet.death);
    assert_eq!(pet.respawn, 0);
    assert_eq!(pet.pet_id, 1);
    assert!(!pet.is_join_minigame);
    let seed = env.random(RandomSubject::Gender);
    assert_eq!(pet.dna, expected_hash(&seed, 1, 0, 0, 1));
    let expected_gender = if pet.dna[0] % 2 == 0 { Gender::Male } else { Gender::Female };
    assert_eq!(pet.gender, expected_gender);
    assert_eq!(p.polkapets_owned(ALICE), vec![1]);
    assert_eq!(p.events(), &vec![Event::Created { polkapet: 1, owner: ALICE }]);
}

#[test]
fn create_polkapet_with_draws_oval_position_from_its_seed() {
    let mut p = Pallet::new(3, PALLET);
    let oval_seed = [3u8; 32];
    assert_eq!(p.create_polkapet_with(BOB, [1u8; 32], oval_seed, 4, 10), Ok(()));
    let pet = p.get_pet_by_id(1).unwrap();
    let oval_hash = expected_hash(&oval_seed, 1, 0, 4, 10);
    let expected = match oval_hash[0] % 6 {
        0 => DotLogoOvalPosition::Up,
        1 => DotLogoOvalPosition::RightUp,
        2 => DotLogoOvalPosition::LeftUp,
        3 => DotLogoOvalPosition::RightDown,
        4 => DotLogoOvalPosition::LeftDown,
        _ => DotLogoOvalPosition::Down,
    };
    assert_eq!(pet.oval_position, expected);
    assert_eq!(pet.dna, expected_hash(&[1u8; 32], 1, 0, 4, 10));
}

#[test]
fn create_polkapet_refuses_beyond_max_owned_and_changes_nothing() {
    let mut p = Pallet::new(2, PALLET);
    let env = MockRuntime::new();
    p.create_polkapet(&env, ALICE).unwrap();
    p.create_polkapet(&env, ALICE).unwrap();
    assert_eq!(p.create_polkapet(&env, ALICE), Err(module(Error::TooManyOwned)));
    assert_eq!(p.last_pet_id(), 2);
    assert_eq!(p.get_pet_by_id(3), None);
    assert_eq!(p.events().len(), 2);
    assert_eq!(p.create_polkapet(&env, BOB), Ok(()));
    assert_eq!(p.get_pet_by_id(3).unwrap().owner, BOB);
}

#[test]
fn mint_refuses_a_taken_id() {
    let mut p = Pallet::new(5, PALLET);
    assert_eq!(p.mint(&ALICE, [0; 16], Gender::Male, DotLogoOvalPosition::Up, 7), Ok(()));
    assert_eq!(
        p.mint(&BOB, [1; 16], Gender::Female, DotLogoOvalPosition::Down, 7),
        Err(module(Error::DuplicatePolkapet))
    );
    assert_eq!(p.get_pet_by_id(7).unwrap().owner, ALICE);
    assert_eq!(p.polkapets_owned(BOB), Vec::<u64>::new());
}

#[test]
fn create_polkapet_bulk_makes_q_minus_one_pets() {
    let mut p = Pallet::new(10, PALLET);
    let env = MockRuntime::new();
    assert_eq!(p.create_polkapet_bulk(&env, ALICE, 4), Ok(()));
    assert_eq!(p.last_pet_id(), 3);
    assert_eq!(p.polkapets_owned(ALICE), vec![1, 2, 3]);
    assert_eq!(p.create_polkapet_bulk(&env, ALICE, 0), Ok(()));
    assert_eq!(p.create_polkapet_bulk(&env, ALICE, 1), Ok(()));
    assert_eq!(p.last_pet_id(), 3);
}

#[test]
fn create_polkapet_bulk_skips_refused_attempts() {
    let mut p = Pallet::new(2, PALLET);
    let env = MockRuntime::new();
    assert_eq!(p.create_polkapet_bulk(&env, ALICE, 6), Ok(()));
    assert_eq!(p.last_pet_id(), 2);
    assert_eq!(p.polkapets_owned(ALICE), vec![1, 2]);
}

#[test]
fn set_and_remove_price() {
    let mut p = Pallet::new(3, PALLET);
    let env = MockRuntime::new();
    p.create_polkapet(&env, ALICE).unwrap();
    assert_eq!(p.set_price(BOB, 1, Some(10)), Err(module(Error::NotOwner)));
    assert_eq!(p.set_price(ALICE, 2, Some(10)), Err(module(Error::NoPolkapet)));
    assert_eq!(p.set_price(ALICE, 1, Some(10)), Ok(()));
    assert_eq!(p.get_pet_by_id(1).unwrap().price, Some(10));
    assert_eq!(p.remove_price(BOB, 1), Err(module(Error::NotOwner)));
    assert_eq!(p.remove_price(ALICE, 1), Ok(()));
    assert_eq!(p.get_pet_by_id(1).unwrap().price, None);
    let events = p.take_events();
    assert_eq!(
        events[1..].to_vec(),
        vec![
            Event::PriceSet { polkapet: 1, price: Some(10) },
            Event::PriceSet { polkapet: 1, price: None },
        ]
    );
    assert!(p.events().is_empty());
}

#[test]
fn transfer_moves_the_pet_and_takes_it_off_the_market() {
    let mut p = Pallet::new(3, PALLET);
    let env = MockRuntime::new();
    p.create_polkapet(&env, ALICE).unwrap();
    p.create_polkapet(&env, ALICE).unwrap();
    p.create_polkapet(&env, ALICE).unwrap();
    p.set_price(ALICE, 1, Some(5)).unwrap();
    assert_eq!(p.transfer(ALICE, BOB, 1), Ok(()));
    let pet = p.get_pet_by_id(1).unwrap();
    assert_eq!(pet.owner, BOB);
    assert_eq!(pet.price, None);
    // swap-remove: the last id takes the place of the moved one
    assert_eq!(p.polkapets_owned(ALICE), vec![3, 2]);
    assert_eq!(p.polkapets_owned(BOB), vec![1]);
    assert_eq!(
        p.events().last(),
        Some(&Event::Transferred { from: ALICE, to: BOB, polkapet: 1 })
    );
}

#[test]
fn transfer_errors() {
    let mut p = Pallet::new(1, PALLET);
    let env = MockRuntime::new();
    p.create_polkapet(&env, ALICE).unwrap();
    p.create_polkapet(&env, BOB).unwrap();
    assert_eq!(p.transfer(ALICE, BOB, 9), Err(module(Error::NoPolkapet)));
    assert_eq!(p.transfer(BOB, CHARLIE, 1), Err(module(Error::NotOwner)));
    assert_eq!(p.transfer(ALICE, ALICE, 1), Err(module(Error::TransferToSelf)));
    assert_eq!(p.transfer(ALICE, BOB, 1), Err(module(Error::TooManyOwned)));
    assert_eq!(p.get_pet_by_id(1).unwrap().owner, ALICE);
}

#[test]
fn buy_charges_the_asking_price_not_the_limit() {
    let mut p = Pallet::new(3, PALLET);
    let mut env = MockRuntime::new();
    p.create_polkapet(&env, ALICE).unwrap();
    assert_eq!(p.buy_polkapet(&mut env, BOB, 1, 100), Err(module(Error::NotForSale)));
    p.set_price(ALICE, 1, Some(40)).unwrap();
    assert_eq!(p.buy_polkapet(&mut env, BOB, 1, 39), Err(module(Error::BidPriceTooLow)));
    assert_eq!(p.buy_polkapet(&mut env, BOB, 1, 40), Err(module(Error::BidPriceTooLow)));
    assert!(env.payments.is_empty());
    assert!(env.requests.is_empty());
    assert_eq!(p.buy_polkapet(&mut env, BOB, 1, 100), Ok(()));
    assert_eq!(env.requests, vec![(BOB, ALICE, 40)]);
    assert_eq!(env.payments, vec![(BOB, ALICE, 40)]);
    assert_eq!(env.balance(ALICE), 1_040);
    assert_eq!(env.balance(BOB), 960);
    assert_eq!(p.get_pet_by_id(1).unwrap().owner, BOB);
    let events = p.events();
    assert_eq!(
        events[events.len() - 2..].to_vec(),
        vec![
            Event::Sold { seller: ALICE, buyer: BOB, polkapet: 1, price: 40 },
            Event::Transferred { from: ALICE, to: BOB, polkapet: 1 },
        ]
    );
}

#[test]
fn buy_with_failed_payment_changes_nothing() {
    let mut p = Pallet::new(3, PALLET);
    let mut env = MockRuntime::new();
    p.create_polkapet(&env, ALICE).unwrap();
    p.set_price(ALICE, 1, Some(2_000)).unwrap();
    let before = p.events().len();
    assert_eq!(p.buy_polkapet(&mut env, BOB, 1, 2_001), Err(DispatchError::Other));
    assert_eq!(env.requests, vec![(BOB, ALICE, 2_000)]);
    assert!(env.payments.is_empty());
    assert_eq!(env.balance(BOB), 1_000);
    assert_eq!(p.get_pet_by_id(1).unwrap().owner, ALICE);
    assert_eq!(p.get_pet_by_id(1).unwrap().price, Some(2_000));
    assert_eq!(p.polkapets_owned(BOB), Vec::<u64>::new());
    assert_eq!(p.events().len(), before);
}

#[test]
fn do_transfer_with_reports_the_payment_outcome() {
    let mut p = Pallet::new(3, PALLET);
    let env = MockRuntime::new();
    p.create_polkapet(&env, ALICE).unwrap();
    p.set_price(ALICE, 1, Some(8)).unwrap();
    assert_eq!(p.check_transfer(1, BOB, Some(9)), Ok(Some((ALICE, 8))));
    assert_eq!(p.check_transfer(1, BOB, None), Ok(None));
    assert_eq!(
        p.do_transfer_with(1, BOB, Some(9), Err(DispatchError::Other)),
        Err(DispatchError::Other)
    );
    assert_eq!(p.get_pet_by_id(1).unwrap().owner, ALICE);
    assert_eq!(p.do_transfer_with(1, BOB, Some(9), Ok(())), Ok(()));
    assert_eq!(p.get_pet_by_id(1).unwrap().owner, BOB);
}

#[test]
fn breed_needs_two_own_pets_of_opposite_gender() {
    let mut p = Pallet::new(10, PALLET);
    let male = seed_for_gender(1, Gender::Male, 1);
    let female = seed_for_gender(2, Gender::Female, 1);
    p.create_polkapet_with(ALICE, male, [0; 32], 0, 1).unwrap();
    p.create_polkapet_with(ALICE, female, [0; 32], 0, 1).unwrap();
    p.create_polkapet_with(BOB, male, [0; 32], 0, 1).unwrap();
    let mom = p.get_pet_by_id(1).unwrap();
    let dad = p.get_pet_by_id(2).unwrap();
    assert_eq!(mom.gender, Gender::Male);
    assert_eq!(dad.gender, Gender::Female);
    assert_eq!(
        p.breed_polkapet_with(ALICE, 1, 9, [5; 32], [6; 32], 0, 1),
        Err(module(Error::NoPolkapet))
    );
    assert_eq!(
        p.breed_polkapet_with(ALICE, 1, 3, [5; 32], [6; 32], 0, 1),
        Err(module(Error::NotOwner))
    );
    assert_eq!(
        p.breed_polkapet_with(ALICE, 1, 1, [5; 32], [6; 32], 0, 1),
        Err(module(Error::CantBreed))
    );
    assert_eq!(p.breed_polkapet_with(ALICE, 1, 2, [5; 32], [6; 32], 0, 1), Ok(()));
    let child = p.get_pet_by_id(4).unwrap();
    let random = expected_hash(&[5; 32], 3, 0, 0, 1);
    for i in 0..16 {
        let expected = if random[i] % 2 == 0 { mom.dna[i] } else { dad.dna[i] };
        assert_eq!(child.dna[i], expected);
    }
    let gender = if random[0] % 2 == 0 { Gender::Male } else { Gender::Female };
    assert_eq!(child.gender, gender);
    assert_eq!(child.owner, ALICE);
    assert_eq!(p.last_pet_id(), 4);
}

#[test]
fn breed_polkapet_through_the_runtime() {
    let mut p = Pallet::new(20, PALLET);
    let env = MockRuntime::new();
    let mut males = Vec::new();
    let mut females = Vec::new();
    for _ in 0..12 {
        p.create_polkapet(&env, ALICE).unwrap();
    }
    for id in 1..=p.last_pet_id() {
        let pet = p.get_pet_by_id(id).unwrap();
        if pet.gender == Gender::Male { males.push(id) } else { females.push(id) }
    }
    assert!(!males.is_empty() && !females.is_empty());
    if let (Some(m), Some(f)) = (males.first(), females.first()) {
        let before = p.last_pet_id();
        assert_eq!(p.breed_polkapet(&env, ALICE, *m, *f), Ok(()));
        assert_eq!(p.last_pet_id(), before + 1);
        let (dna, _) = p.breed_dna(&env, &[0; 16], &[255; 16]);
        let random = expected_hash(&env.random(RandomSubject::Gender), before + 1, 0, 0, 1);
        for i in 0..16 {
            assert_eq!(dna[i], if random[i] % 2 == 0 { 0 } else { 255 });
        }
    }
}

#[test]
fn empower_adds_the_boost_of_the_oval_position() {
    let mut p = Pallet::new(10, PALLET);
    let mut env = MockRuntime::new();
    p.create_polkapet(&env, ALICE).unwrap();
    assert_eq!(p.empower(BOB, 1), Ok(()));
    assert_eq!(p.get_pet_by_id(1).unwrap().power, 0);
    assert_eq!(p.empower(BOB, 2), Err(module(Error::NoPolkapet)));
    env.block = 5;
    p.on_finalize(&mut env, 5);
    let boost = p.oval_boost_number();
    for b in [boost.up, boost.right_up, boost.left_up, boost.right_down, boost.left_down, boost.down] {
        assert!((1..=6).contains(&b));
    }
    let pet = p.get_pet_by_id(1).unwrap();
    let expected = match pet.oval_position {
        DotLogoOvalPosition::Up => boost.up,
        DotLogoOvalPosition::RightUp => boost.right_up,
        DotLogoOvalPosition::LeftUp => boost.left_up,
        DotLogoOvalPosition::RightDown => boost.right_down,
        DotLogoOvalPosition::LeftDown => boost.left_down,
        DotLogoOvalPosition::Down => boost.down,
    };
    assert_eq!(p.empower(ALICE, 1), Ok(()));
    assert_eq!(p.empower(ALICE, 1), Ok(()));
    assert_eq!(p.get_pet_by_id(1).unwrap().power, 2 * expected as u32);
    assert_eq!(
        p.events().last(),
        Some(&Event::Empowered { polkapet: 1, power: 2 * expected as u32 })
    );
}

#[test]
fn respawn_costs_a_tenth_of_the_power() {
    let mut p = Pallet::new(10, PALLET);
    let mut env = MockRuntime::new();
    p.create_polkapet(&env, ALICE).unwrap();
    env.block = 5;
    p.on_finalize(&mut env, 5);
    for _ in 0..20 {
        p.empower(ALICE, 1).unwrap();
    }
    let power = p.get_pet_by_id(1).unwrap().power;
    assert!(power >= 20);
    assert_eq!(p.respawn(BOB, 1), Err(module(Error::NotOwner)));
    assert_eq!(p.respawn(ALICE, 2), Err(module(Error::NoPolkapet)));
    assert_eq!(p.respawn(ALICE, 1), Ok(()));
    let pet = p.get_pet_by_id(1).unwrap();
    assert_eq!(pet.power, (power as f64 * 0.9) as u32);
    assert_eq!(pet.respawn, 1);
    assert!(!pet.death);
    assert_eq!(p.events().last(), Some(&Event::Respawn { polkapet: 1 }));
}

#[test]
fn integer_tenth_matches_the_float_product() {
    let mut samples: Vec<u32> = (0..100_000).collect();
    samples.extend([u32::MAX, u32::MAX - 1, 4_000_000_000, 1_234_567_890, 999_999_999, 10, 20, 30]);
    let mut x: u64 = 12345;
    for _ in 0..100_000 {
        x = x.wrapping_mul(6364136223846793005).wrapping_add(1442695040888963407);
        samples.push((x >> 32) as u32);
    }
    for p in samples {
        assert_eq!((p as f64 * 0.9) as u32, (p as u64 * 9 / 10) as u32, "power {}", p);
    }
}

#[test]
fn create_minigame_checks_duration_and_takes_the_reward() {
    let mut p = Pallet::new(10, PALLET);
    let mut env = MockRuntime::new();
    assert_eq!(
        p.create_minigame(&mut env, ALICE, b"race".to_vec(), Some(100), None, 0),
        Err(module(Error::BlockDurationInvalid))
    );
    assert_eq!(
        p.create_minigame(&mut env, ALICE, b"race".to_vec(), Some(100), None, 101),
        Err(module(Error::BlockDurationInvalid))
    );
    assert_eq!(p.create_minigame(&mut env, ALICE, b"race".to_vec(), Some(100), Some(2), 10), Ok(()));
    assert_eq!(env.payments, vec![(ALICE, PALLET, 100)]);
    assert_eq!(p.last_minigame_id(), 1);
    let game = p.get_minigame_by_id(1).unwrap();
    assert_eq!(game.game_id, 1);
    assert_eq!(game.owner, ALICE);
    assert_eq!(game.description, b"race".to_vec());
    assert_eq!(game.status, GameStatus::Prepare);
    assert_eq!(game.finish_block, 0);
    assert_eq!(game.block_duration, 10);
    assert_eq!(p.minigame_owned(ALICE), vec![1]);
    assert_eq!(p.events().last(), Some(&Event::GameCreated { id: 1, reward: 100 }));
    assert_eq!(p.create_minigame(&mut env, BOB, vec![], None, None, 100), Ok(()));
    assert_eq!(env.requests, vec![(ALICE, PALLET, 100)]);
    assert_eq!(p.events().len(), 1);
    assert_eq!(p.minigame_owned(BOB), vec![2]);
    assert_eq!(p.account_id(), PALLET);
}

#[test]
fn create_minigame_with_failed_reward_payment_changes_nothing() {
    let mut p = Pallet::new(10, PALLET);
    let mut env = MockRuntime::new();
    env.refuse_payments = true;
    assert_eq!(
        p.create_minigame(&mut env, ALICE, vec![1], Some(5), None, 3),
        Err(DispatchError::Other)
    );
    assert_eq!(env.requests, vec![(ALICE, PALLET, 5)]);
    assert_eq!(env.balance(ALICE), 1_000);
    assert_eq!(p.last_minigame_id(), 0);
    assert!(p.get_minigame_by_id(1).is_none());
    assert!(p.minigame_owned(ALICE).is_empty());
    assert!(p.events().is_empty());
    assert_eq!(
        p.create_minigame_with(ALICE, vec![1], None, None, 3, Err(DispatchError::Other)),
        Ok(())
    );
    assert_eq!(p.last_minigame_id(), 1);
}

#[test]
fn join_minigame_rules() {
    let mut p = Pallet::new(10, PALLET);
    let mut env = MockRuntime::new();
    for _ in 0..3 {
        p.create_polkapet(&env, ALICE).unwrap();
    }
    p.create_minigame(&mut env, BOB, vec![], None, Some(2), 5).unwrap();
    assert_eq!(p.join_minigame(ALICE, 7, 1), Err(module(Error::NoMinigame)));
    assert_eq!(p.join_minigame(ALICE, 1, 9), Err(module(Error::NoPolkapet)));
    assert_eq!(p.join_minigame(CHARLIE, 1, 1), Ok(()));
    assert!(p.get_pet_by_id(1).unwrap().is_join_minigame);
    assert_eq!(p.join_minigame(ALICE, 1, 1), Err(module(Error::AlreadyJoinGame)));
    assert_eq!(p.join_minigame(ALICE, 1, 2), Ok(()));
    assert_eq!(p.join_minigame(ALICE, 1, 3), Err(module(Error::ExceedingMaxPlayers)));
    let players = p.get_minigame_players(1).unwrap();
    assert_eq!(players.len(), 2);
    assert_eq!(players[0].pet_id, 1);
    assert!(players[0].is_join_minigame);
    assert_eq!(p.start_minigame_with(BOB, 1, 10), Ok(()));
    assert_eq!(p.join_minigame(ALICE, 1, 3), Err(module(Error::GameStartedOrEnded)));
}

#[test]
fn start_minigame_rules() {
    let mut p = Pallet::new(10, PALLET);
    let mut env = MockRuntime::new();
    p.create_polkapet(&env, ALICE).unwrap();
    p.create_polkapet(&env, ALICE).unwrap();
    p.create_minigame(&mut env, BOB, vec![], None, None, 7).unwrap();
    assert_eq!(p.start_minigame_with(BOB, 4, 10), Err(module(Error::NoMinigame)));
    assert_eq!(p.start_minigame_with(ALICE, 1, 10), Err(module(Error::NotOwner)));
    assert_eq!(p.start_minigame_with(BOB, 1, 10), Err(module(Error::NoPlayer)));
    p.join_minigame(ALICE, 1, 1).unwrap();
    p.join_minigame(ALICE, 1, 2).unwrap();
    assert_eq!(
        p.start_minigame_with(BOB, 1, u32::MAX - 3),
        Err(DispatchError::Arithmetic(ArithmeticError::Overflow))
    );
    env.block = 10;
    assert_eq!(p.start_minigame(&env, BOB, 1), Ok(()));
    let game = p.get_minigame_by_id(1).unwrap();
    assert_eq!(game.status, GameStatus::OnGoing);
    assert_eq!(game.finish_block, 17);
    assert_eq!(p.running_minigame_id(), vec![1]);
    let results = p.finished_minigame_results(1).unwrap();
    assert_eq!(results.len(), 2);
    assert_eq!((results[0].pet_id, results[0].point), (1, 0));
    assert_eq!((results[1].pet_id, results[1].point), (2, 0));
    assert_eq!(p.start_minigame(&env, BOB, 1), Err(module(Error::GameStartedOrEnded)));
}

#[test]
fn running_game_scores_finishes_and_pays_winners() {
    let mut p = Pallet::new(10, PALLET);
    let mut env = MockRuntime::new();
    for _ in 0..3 {
        p.create_polkapet(&env, ALICE).unwrap();
    }
    p.transfer(ALICE, CHARLIE, 3).unwrap();
    p.create_minigame(&mut env, BOB, vec![], Some(1_000), None, 4).unwrap();
    for id in 1..=3 {
        p.join_minigame(ALICE, 1, id).unwrap();
    }
    env.block = 10;
    p.start_minigame(&env, BOB, 1).unwrap();
    assert_eq!(env.balance(PALLET), 1_000);
    for block in 11..=14u32 {
        env.block = block;
        p.on_finalize(&mut env, block);
        let results = p.finished_minigame_results(1).unwrap();
        for w in results.windows(2) {
            assert!(w[0].point <= w[1].point);
        }
    }
    let game = p.get_minigame_by_id(1).unwrap();
    assert_eq!(game.status, GameStatus::Finish);
    assert!(p.running_minigame_id().is_empty());
    for id in 1..=3 {
        assert!(!p.get_pet_by_id(id).unwrap().is_join_minigame);
    }
    assert!(p.get_minigame_players(1).unwrap().iter().all(|q| !q.is_join_minigame));
    let results = p.finished_minigame_results(1).unwrap();
    let max = results.last().unwrap().point;
    let winners: Vec<_> = results.iter().filter(|r| r.point == max).collect();
    let share = 900 / winners.len() as u128;
    let paid: Vec<_> = env.payments.iter().filter(|t| t.0 == PALLET).cloned().collect();
    assert_eq!(paid.len(), winners.len());
    for (t, w) in paid.iter().zip(winners.iter()) {
        let owner = p.get_pet_by_id(w.pet_id).unwrap().owner;
        assert_eq!(*t, (PALLET, owner, share));
    }
    assert_eq!(env.balance(PALLET), 1_000 - share * winners.len() as u128);
}

#[test]
fn released_players_are_written_back_from_their_snapshots() {
    let mut p = Pallet::new(10, PALLET);
    let mut env = MockRuntime::new();
    p.create_polkapet(&env, ALICE).unwrap();
    p.create_minigame(&mut env, BOB, vec![], None, None, 2).unwrap();
    p.join_minigame(ALICE, 1, 1).unwrap();
    env.block = 20;
    p.start_minigame(&env, BOB, 1).unwrap();
    p.transfer(ALICE, CHARLIE, 1).unwrap();
    assert_eq!(p.get_pet_by_id(1).unwrap().owner, CHARLIE);
    env.block = 22;
    p.on_finalize(&mut env, 22);
    // the snapshot taken when the pet joined carries the owner of that time
    assert_eq!(p.get_pet_by_id(1).unwrap().owner, ALICE);
    assert_eq!(p.polkapets_owned(CHARLIE), vec![1]);
}

#[test]
fn finish_minigame_not_running_reports_no_minigame() {
    let mut p = Pallet::new(10, PALLET);
    let mut env = MockRuntime::new();
    p.create_minigame(&mut env, BOB, vec![], None, None, 2).unwrap();
    assert_eq!(p.finish_minigame(1), Err(module(Error::NoMinigame)));
    assert_eq!(p.get_minigame_by_id(1).unwrap().status, GameStatus::Finish);
}

#[test]
fn calculate_minigame_result_adds_hash_bytes_and_sorts() {
    let mut p = Pallet::new(10, PALLET);
    let mut env = MockRuntime::new();
    for _ in 0..4 {
        p.create_polkapet(&env, ALICE).unwrap();
    }
    p.create_minigame(&mut env, BOB, vec![], None, None, 50).unwrap();
    for id in 1..=4 {
        p.join_minigame(ALICE, 1, id).unwrap();
    }
    p.start_minigame_with(BOB, 1, 10).unwrap();
    let seed = [9u8; 32];
    p.calculate_minigame_result_with(1, seed, 1, 12);
    let results = p.finished_minigame_results(1).unwrap();
    let mut expected: Vec<(u64, u32)> = (1..=4u64)
        .map(|id| (id, expected_hash(&seed, 4, id, 1, 12)[0] as u32))
        .collect();
    expected.sort_by(|a, b| a.1.cmp(&b.1));
    let got: Vec<(u64, u32)> = results.iter().map(|r| (r.pet_id, r.point)).collect();
    assert_eq!(got, expected);
}

#[test]
fn kill_random_pet_with_kills_one_in_a_hundred() {
    let mut p = Pallet::new(200, PALLET);
    let env = MockRuntime::new();
    for _ in 0..150 {
        p.create_polkapet(&env, ALICE).unwrap();
    }
    for id in 1..=150 {
        assert!(!p.get_pet_by_id(id).unwrap().death);
    }
    let seed = [42u8; 32];
    p.kill_random_pet_with(seed, 0, 50);
    let n = death_number_from_hash(&expected_hash(&seed, 150, 0, 0, 50), 150).unwrap();
    for id in 1..=150u64 {
        let pet = p.get_pet_by_id(id).unwrap();
        let killed = n > 0 && n <= 150 && id == n;
        assert_eq!(pet.death, killed, "pet {}", id);
    }
}

#[test]
fn death_number_has_the_digits_of_the_count() {
    let hash = [17u8, 23, 200, 5, 9, 0, 0, 0, 0, 0, 0, 0, 0, 0, 0, 0];
    // count 305: digits 5, 0, 3 (least significant first)
    // 17 % 10 = 7, 23 % 10 = 3, 200 % (3 + 1) = 0
    assert_eq!(death_number_from_hash(&hash, 305), Ok(37));
    assert_eq!(death_number_from_hash(&hash, 0), Ok(0));
    // count 9: a single digit, drawn below 10
    assert_eq!(death_number_from_hash(&hash, 9), Ok(7));
    assert_eq!(generate_vec_reverse_digits_from_num(1203), Ok(vec![3, 0, 2, 1]));
    assert_eq!(generate_vec_reverse_digits_from_num(0), Ok(vec![]));
}

#[test]
fn a_pet_in_a_game_cannot_join_another() {
    let mut p = Pallet::new(10, PALLET);
    let mut env = MockRuntime::new();
    p.create_polkapet(&env, ALICE).unwrap();
    p.create_minigame(&mut env, BOB, vec![], None, None, 5).unwrap();
    p.create_minigame(&mut env, CHARLIE, vec![], None, None, 5).unwrap();
    assert_eq!(p.join_minigame(ALICE, 1, 1), Ok(()));
    assert_eq!(p.join_minigame(ALICE, 2, 1), Err(module(Error::AlreadyJoinGame)));
    assert_eq!(p.get_minigame_players(2), None);
}

/// Three pets, the first two owned by ALICE and BOB, in a game of BOB's with the given
/// reward, started at block 1 for 2 blocks.
fn game_of_two_players(reward: Option<Balance>) -> (Pallet, MockRuntime) {
    let mut p = Pallet::new(10, PALLET);
    let mut env = MockRuntime::new();
    for _ in 0..3 {
        p.create_polkapet(&env, ALICE).unwrap();
    }
    p.transfer(ALICE, BOB, 2).unwrap();
    p.create_minigame(&mut env, BOB, vec![], reward, None, 2).unwrap();
    p.join_minigame(ALICE, 1, 1).unwrap();
    p.join_minigame(BOB, 1, 2).unwrap();
    env.block = 1;
    p.start_minigame(&env, BOB, 1).unwrap();
    env.requests.clear();
    (p, env)
}

#[test]
fn hook_splits_the_taxed_reward_between_tied_winners() {
    let (mut p, mut env) = game_of_two_players(Some(100));
    assert_eq!(p.get_minigame_by_id(1).unwrap().finish_block, 3);
    // block 3 is odd: no round of play, both players stay tied at no points
    env.block = 3;
    assert_eq!(p.reward_payouts(1, 100), (vec![(ALICE, 45), (BOB, 45)], true));
    assert_eq!(p.operate_running_game(&mut env, 3), Ok(()));
    assert_eq!(env.requests, vec![(PALLET, ALICE, 45), (PALLET, BOB, 45)]);
    assert_eq!(env.balance(PALLET), 10);
    let results = p.finished_minigame_results(1).unwrap();
    assert!(results.iter().all(|r| r.point == 0));
    assert_eq!(p.get_minigame_by_id(1).unwrap().status, GameStatus::Finish);
    assert!(p.running_minigame_id().is_empty());
}

#[test]
fn hook_pays_nothing_for_a_game_without_reward() {
    let (mut p, mut env) = game_of_two_players(None);
    env.block = 3;
    assert_eq!(p.operate_running_game(&mut env, 3), Ok(()));
    assert!(env.requests.is_empty());
    assert_eq!(p.get_minigame_by_id(1).unwrap().status, GameStatus::Finish);
}

#[test]
fn hook_before_the_last_block_pays_nothing() {
    let (mut p, mut env) = game_of_two_players(Some(100));
    env.block = 2;
    assert_eq!(p.operate_running_game(&mut env, 2), Ok(()));
    assert!(env.requests.is_empty());
    assert_eq!(p.get_minigame_by_id(1).unwrap().status, GameStatus::OnGoing);
    assert_eq!(p.running_minigame_id(), vec![1]);
}

#[test]
fn hook_stops_at_a_refused_reward_payment() {
    let (mut p, mut env) = game_of_two_players(Some(100));
    p.create_minigame(&mut env, CHARLIE, vec![], Some(50), None, 2).unwrap();
    p.join_minigame(CHARLIE, 2, 3).unwrap();
    p.start_minigame(&env, CHARLIE, 2).unwrap();
    env.requests.clear();
    env.refuse_payments = true;
    env.block = 3;
    assert_eq!(p.operate_running_game(&mut env, 3), Err(DispatchError::Other));
    // the first winner's payment was asked for and refused; nothing more was asked
    assert_eq!(env.requests, vec![(PALLET, ALICE, 45)]);
    assert_eq!(env.balance(PALLET), 150);
    // the first game finished before its payment; the second was not reached
    assert_eq!(p.get_minigame_by_id(1).unwrap().status, GameStatus::Finish);
    assert_eq!(p.get_minigame_by_id(2).unwrap().status, GameStatus::OnGoing);
    assert_eq!(p.running_minigame_id(), vec![2]);
}

#[test]
fn giving_a_pet_away_and_back_restores_it() {
    let mut p = Pallet::new(10, PALLET);
    let mut env = MockRuntime::new();
    for _ in 0..3 {
        p.create_polkapet(&env, ALICE).unwrap();
    }
    p.create_polkapet(&env, BOB).unwrap();
    p.set_price(ALICE, 1, Some(30)).unwrap();
    let before = p.get_pet_by_id(1).unwrap();
    let alice_before = p.polkapets_owned(ALICE);
    let bob_before = p.polkapets_owned(BOB);
    assert_eq!(p.transfer(ALICE, BOB, 1), Ok(()));
    assert_eq!(p.transfer(BOB, ALICE, 1), Ok(()));
    let after = p.get_pet_by_id(1).unwrap();
    assert_eq!(after.owner, ALICE);
    assert_eq!(after.price, None);
    assert_eq!(after.dna, before.dna);
    assert_eq!(p.polkapets_owned(BOB), bob_before);
    let mut alice_after = p.polkapets_owned(ALICE);
    let mut alice_sorted = alice_before.clone();
    alice_after.sort();
    alice_sorted.sort();
    assert_eq!(alice_after, alice_sorted);
    assert_ne!(p.polkapets_owned(ALICE), alice_before);
    assert!(env.requests.is_empty());
    let _ = &mut env;
}

#[test]
fn a_game_finishes_at_its_last_block_and_not_before() {
    let (mut p, mut env) = game_of_two_players(None);
    for block in 1..=2u32 {
        env.block = block;
        p.on_finalize(&mut env, block);
        assert_eq!(p.get_minigame_by_id(1).unwrap().status, GameStatus::OnGoing);
        assert!(p.get_pet_by_id(1).unwrap().is_join_minigame);
    }
    env.block = 3;
    p.on_finalize(&mut env, 3);
    assert_eq!(p.get_minigame_by_id(1).unwrap().status, GameStatus::Finish);
    assert!(p.running_minigame_id().is_empty());
    assert!(!p.get_pet_by_id(1).unwrap().is_join_minigame);
    assert!(!p.get_pet_by_id(2).unwrap().is_join_minigame);
    env.block = 4;
    p.on_finalize(&mut env, 4);
    assert_eq!(p.get_minigame_by_id(1).unwrap().status, GameStatus::Finish);
}
