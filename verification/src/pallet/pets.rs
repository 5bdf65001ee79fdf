use vstd::prelude::*;

verus! {

use crate::types::{
    AccountId, ArithmeticError, Balance, BlockNumber, DispatchError, DotLogoOvalPosition, Error,
    Event, Gender, PetId, Polkapet,
};
use crate::model::{creation_reads, draw_reads, lemma_seq_to_dna};
use crate::config::{Config, RandomSubject, index_or_zero, or_zero};
use crate::genetics::{boost_value, dna_and_gender, gender_of, mix_dna, mixed_dna, oval_position_of};
use crate::hashing::{random_hash, random_hash_spec};
use super::{Pallet, lemma_first_index_unique, lemma_views_insert, position, vec_or_default};

broadcast use vstd::std_specs::hash::group_hash_axioms;

impl Pallet {
    /// Mints a pet for `owner`, unless the id is taken or `owner` already owns as many pets as
    /// allowed.
    pub fn mint(
        &mut self,
        owner: &AccountId,
        dna: [u8; 16],
        gender: Gender,
        oval_position: DotLogoOvalPosition,
        pet_id: PetId,
    ) -> (r: Result<(), DispatchError>)
        requires
            old(self).wf(),
        ensures
            final(self).wf(),
            match old(self)@.mint_error(*owner, pet_id) {
                Some(e) => r == Err::<(), DispatchError>(DispatchError::Module(e)) && final(self)@
                    == old(self)@,
                None => r is Ok && final(self)@ == old(self)@.minted(
                    *owner,
                    dna,
                    gender,
                    oval_position,
                    pet_id,
                ),
            },
    {
        let polkapet = Polkapet {
            dna,
            price: None,
            gender,
            owner: *owner,
            oval_position,
            power: 0,
            death: false,
            respawn: 0,
            pet_id,
            is_join_minigame: false,
        };
        if self.polkapets_by_id.contains_key(&pet_id) {
            return Err(DispatchError::Module(Error::DuplicatePolkapet));
        }
        let mut owned = vec_or_default(&self.polkapets_owned, owner);
        if owned.len() >= self.max_polkapet_owned as usize {
            return Err(DispatchError::Module(Error::TooManyOwned));
        }
        owned.push(pet_id);
        proof {
            lemma_views_insert(self.polkapets_owned@, *owner, owned);
        }
        self.polkapets_owned.insert(*owner, owned);
        self.polkapets_by_id.insert(pet_id, polkapet);
        self.events.push(Event::Created { polkapet: pet_id, owner: *owner });
        proof {
            assert(self@ =~= old(self)@.minted(*owner, dna, gender, oval_position, pet_id));
        }
        Ok(())
    }

    /// Creates a pet for `sender` with the next id, its DNA and gender drawn from `gender_seed`
    /// and its oval position from `oval_seed`, in the given extrinsic and block.
    pub fn create_polkapet_with(
        &mut self,
        sender: AccountId,
        gender_seed: [u8; 32],
        oval_seed: [u8; 32],
        extrinsic_index: u32,
        block_number: BlockNumber,
    ) -> (r: Result<(), DispatchError>)
        requires
            old(self).wf(),
        ensures
            final(self).wf(),
            match old(self)@.create_error(sender) {
                Some(e) => r == Err::<(), DispatchError>(e) && final(self)@ == old(self)@,
                None => r is Ok && final(self)@ == old(self)@.created(
                    sender,
                    gender_seed@,
                    oval_seed@,
                    extrinsic_index,
                    block_number,
                ),
            },
    {
        if self.last_pet_id == u64::MAX {
            return Err(DispatchError::Module(Error::PetIdOverflow));
        }
        let pet_id = self.last_pet_id + 1;
        let (dna, gender) = dna_and_gender(
            random_hash(&gender_seed, pet_id, 0, extrinsic_index, block_number),
        );
        let oval_hash = random_hash(&oval_seed, pet_id, 0, extrinsic_index, block_number);
        let oval_position = oval_position_of(&oval_hash);
        proof {
            lemma_seq_to_dna(dna);
        }
        match self.mint(&sender, dna, gender, oval_position, pet_id) {
            Ok(()) => {},
            Err(e) => return Err(e),
        }
        let _ = self.get_new_pet_id_and_increase();
        assert(self@ =~= old(self)@.created(sender, gender_seed@, oval_seed@, extrinsic_index, block_number));
        Ok(())
    }

    /// Creates a pet for `sender`, drawing its DNA, gender and oval position from the runtime's
    /// randomness: a seed for the gender with the extrinsic index and block number, then a seed
    /// for the oval position. The reads are made, and recorded, whether or not it succeeds.
    pub fn create_polkapet<C: Config>(&mut self, env: &C, sender: AccountId) -> (r: Result<
        (),
        DispatchError,
    >)
        requires
            old(self).wf(),
        ensures
            final(self).wf(),
            old(self)@.create_outcome(final(self)@, sender),
            match old(self)@.create_error(sender) {
                Some(e) => r == Err::<(), DispatchError>(e),
                None => r is Ok,
            },
    {
        let (gender_seed, index, number) = self.draw(env, RandomSubject::Gender);
        let oval_seed = self.read_random(env, RandomSubject::DotLogoOvalPosition);
        let ghost read = self@;
        assert(read.reads =~= old(self)@.reads + creation_reads(gender_seed, oval_seed, index, number));
        assert(read == old(self)@.with_reads(creation_reads(gender_seed, oval_seed, index, number)));
        let r = self.create_polkapet_with(sender, gender_seed, oval_seed, index_or_zero(index), number);
        assert(old(self)@.create_outcome(self@, sender)) by {
            assert(self@ == match old(self)@.create_error(sender) {
                Some(_) => read,
                None => read.created(sender, gender_seed@, oval_seed@, or_zero(index), number),
            });
        }
        r
    }

    /// Attempts `q - 1` times to create a pet for `sender`; refused attempts are skipped.
    pub fn create_polkapet_bulk<C: Config>(&mut self, env: &C, sender: AccountId, q: u8) -> (r: Result<
        (),
        DispatchError,
    >)
        requires
            old(self).wf(),
        ensures
            final(self).wf(),
            r is Ok,
            old(self)@.bulk_outcome(final(self)@, sender, if q >= 1 { (q - 1) as nat } else { 0 }),
    {
        let mut n: u8 = 1;
        assert(old(self)@.bulk_outcome(self@, sender, 0));
        while n < q
            invariant
                1 <= n,
                n <= q || n == 1,
                self.wf(),
                old(self)@.bulk_outcome(self@, sender, (n - 1) as nat),
            decreases q - n,
        {
            let ghost mid = self@;
            let _ = self.create_polkapet(env, sender);
            proof {
                assert(mid.create_outcome(self@, sender));
                assert(old(self)@.bulk_outcome(self@, sender, n as nat));
            }
            n = n + 1;
        }
        assert(q >= 1 ==> n == q);
        assert((if q >= 1 { (q - 1) as nat } else { 0nat }) == (n - 1) as nat);
        Ok(())
    }

    /// Sets the price of a pet that `sender` owns (`None`: not for sale).
    pub fn set_price(&mut self, sender: AccountId, pet_id: PetId, new_price: Option<Balance>) -> (r:
        Result<(), DispatchError>)
        requires
            old(self).wf(),
        ensures
            final(self).wf(),
            match old(self)@.price_error(sender, pet_id) {
                Some(e) => r == Err::<(), DispatchError>(e) && final(self)@ == old(self)@,
                None => r is Ok && final(self)@ == old(self)@.priced(pet_id, new_price),
            },
    {
        let mut polkapet = match self.pet(pet_id) {
            Some(p) => p,
            None => return Err(DispatchError::Module(Error::NoPolkapet)),
        };
        if polkapet.owner != sender {
            return Err(DispatchError::Module(Error::NotOwner));
        }
        polkapet.price = new_price;
        self.polkapets_by_id.insert(polkapet.pet_id, polkapet);
        self.events.push(Event::PriceSet { polkapet: pet_id, price: new_price });
        proof {
            assert(self@ =~= old(self)@.priced(pet_id, new_price));
        }
        Ok(())
    }

    /// Takes a pet that `sender` owns off the market.
    pub fn remove_price(&mut self, sender: AccountId, pet_id: PetId) -> (r: Result<(), DispatchError>)
        requires
            old(self).wf(),
        ensures
            final(self).wf(),
            match old(self)@.price_error(sender, pet_id) {
                Some(e) => r == Err::<(), DispatchError>(e) && final(self)@ == old(self)@,
                None => r is Ok && final(self)@ == old(self)@.priced(pet_id, None),
            },
    {
        let mut polkapet = match self.pet(pet_id) {
            Some(p) => p,
            None => return Err(DispatchError::Module(Error::NoPolkapet)),
        };
        if polkapet.owner != sender {
            return Err(DispatchError::Module(Error::NotOwner));
        }
        polkapet.price = None;
        self.polkapets_by_id.insert(polkapet.pet_id, polkapet);
        self.events.push(Event::PriceSet { polkapet: pet_id, price: None });
        proof {
            assert(self@ =~= old(self)@.priced(pet_id, None));
        }
        Ok(())
    }

    /// Checks a move of pet `pet_id` to `to` without changing anything; on a sale, returns the
    /// seller and the price that `to` owes.
    pub fn check_transfer(&self, pet_id: PetId, to: AccountId, maybe_limit_price: Option<Balance>) -> (r:
        Result<Option<(AccountId, Balance)>, DispatchError>)
        requires
            self.wf(),
        ensures
            match self@.transfer_error(pet_id, to, maybe_limit_price) {
                Some(e) => r == Err::<Option<(AccountId, Balance)>, DispatchError>(
                    DispatchError::Module(e),
                ),
                None => r == Ok::<Option<(AccountId, Balance)>, DispatchError>(
                    match self@.sale_price(pet_id, maybe_limit_price) {
                        Some(price) => Some((self@.pets[pet_id].owner, price)),
                        None => None,
                    },
                ),
            },
    {
        let polkapet = match self.pet(pet_id) {
            Some(p) => p,
            None => return Err(DispatchError::Module(Error::NoPolkapet)),
        };
        let from = polkapet.owner;
        if from == to {
            return Err(DispatchError::Module(Error::TransferToSelf));
        }
        let from_owned = vec_or_default(&self.polkapets_owned, &from);
        if position(&from_owned, pet_id).is_none() {
            return Err(DispatchError::Module(Error::NoPolkapet));
        }
        let to_owned = vec_or_default(&self.polkapets_owned, &to);
        if to_owned.len() >= self.max_polkapet_owned as usize {
            return Err(DispatchError::Module(Error::TooManyOwned));
        }
        match maybe_limit_price {
            None => Ok(None),
            Some(limit_price) => match polkapet.price {
                Some(price) => if limit_price > price {
                    Ok(Some((from, price)))
                } else {
                    Err(DispatchError::Module(Error::BidPriceTooLow))
                },
                None => Err(DispatchError::Module(Error::NotForSale)),
            },
        }
    }

    /// Moves pet `pet_id` to `to`; with a limit price it is a sale at the asking price, for which
    /// `payment` is the outcome of the buyer paying the seller. The moved pet is off the market.
    pub fn do_transfer_with(
        &mut self,
        pet_id: PetId,
        to: AccountId,
        maybe_limit_price: Option<Balance>,
        payment: Result<(), DispatchError>,
    ) -> (r: Result<(), DispatchError>)
        requires
            old(self).wf(),
        ensures
            final(self).wf(),
            match old(self)@.transfer_error(pet_id, to, maybe_limit_price) {
                Some(e) => r == Err::<(), DispatchError>(DispatchError::Module(e)) && final(self)@
                    == old(self)@,
                None => match (old(self)@.sale_price(pet_id, maybe_limit_price), payment) {
                    (Some(_), Err(e)) => r == Err::<(), DispatchError>(e) && final(self)@ == old(
                        self,
                    )@,
                    _ => r == Ok::<(), DispatchError>(()) && final(self)@ == old(self)@.transferred(
                        pet_id,
                        to,
                        maybe_limit_price,
                    ),
                },
            },
    {
        let mut polkapet = match self.pet(pet_id) {
            Some(p) => p,
            None => return Err(DispatchError::Module(Error::NoPolkapet)),
        };
        let from = polkapet.owner;
        if from == to {
            return Err(DispatchError::Module(Error::TransferToSelf));
        }
        let mut from_owned = vec_or_default(&self.polkapets_owned, &from);
        match position(&from_owned, pet_id) {
            Some(ind) => {
                proof {
                    lemma_first_index_unique(from_owned@, pet_id, ind as int);
                }
                from_owned.swap_remove(ind);
            },
            None => return Err(DispatchError::Module(Error::NoPolkapet)),
        }
        let mut to_owned = vec_or_default(&self.polkapets_owned, &to);
        if to_owned.len() >= self.max_polkapet_owned as usize {
            return Err(DispatchError::Module(Error::TooManyOwned));
        }
        to_owned.push(pet_id);
        if let Some(limit_price) = maybe_limit_price {
            if let Some(price) = polkapet.price {
                if limit_price <= price {
                    return Err(DispatchError::Module(Error::BidPriceTooLow));
                }
                if let Err(e) = payment {
                    return Err(e);
                }
                self.events.push(
                    Event::Sold { seller: from, buyer: to, polkapet: pet_id, price },
                );
            } else {
                return Err(DispatchError::Module(Error::NotForSale));
            }
        }
        polkapet.owner = to;
        polkapet.price = None;
        self.polkapets_by_id.insert(polkapet.pet_id, polkapet);
        proof {
            lemma_views_insert(self.polkapets_owned@, to, to_owned);
        }
        self.polkapets_owned.insert(to, to_owned);
        proof {
            lemma_views_insert(self.polkapets_owned@, from, from_owned);
        }
        self.polkapets_owned.insert(from, from_owned);
        self.events.push(Event::Transferred { from, to, polkapet: pet_id });
        proof {
            assert(self@ =~= old(self)@.transferred(pet_id, to, maybe_limit_price));
        }
        Ok(())
    }

    /// Moves pet `pet_id` to `to`; with a limit price it is a sale: the runtime's currency is
    /// asked to move the asking price from `to` to the seller before anything changes, and a
    /// refusal is returned with nothing changed.
    pub fn do_transfer<C: Config>(
        &mut self,
        env: &mut C,
        pet_id: PetId,
        to: AccountId,
        maybe_limit_price: Option<Balance>,
    ) -> (r: Result<(), DispatchError>)
        requires
            old(self).wf(),
        ensures
            final(self).wf(),
            match old(self)@.transfer_error(pet_id, to, maybe_limit_price) {
                Some(e) => r == Err::<(), DispatchError>(DispatchError::Module(e)) && final(self)@
                    == old(self)@,
                None => match old(self)@.sale_price(pet_id, maybe_limit_price) {
                    None => r is Ok && final(self)@ == old(self)@.transferred(
                        pet_id,
                        to,
                        maybe_limit_price,
                    ),
                    Some(price) => {
                        let paid = old(self)@.with_transfer(
                            to,
                            old(self)@.pets[pet_id].owner,
                            price,
                            r,
                        );
                        final(self)@ == if r is Ok {
                            paid.transferred(pet_id, to, maybe_limit_price)
                        } else {
                            paid
                        }
                    },
                },
            },
    {
        let payment = match self.check_transfer(pet_id, to, maybe_limit_price) {
            Err(e) => return Err(e),
            Ok(Some((seller, price))) => self.pay(env, to, seller, price),
            Ok(None) => Ok(()),
        };
        self.do_transfer_with(pet_id, to, maybe_limit_price, payment)
    }

    /// Why `sender` may not give pet `pet_id` to `to`, if it may not.
    pub open spec fn give_error(self, sender: AccountId, to: AccountId, pet_id: PetId) -> Option<
        DispatchError,
    > {
        match self@.price_error(sender, pet_id) {
            Some(e) => Some(e),
            None => crate::model::module_error(self@.transfer_error(pet_id, to, None)),
        }
    }

    /// Gives a pet that `sender` owns to `to`.
    pub fn transfer(&mut self, sender: AccountId, to: AccountId, pet_id: PetId) -> (r: Result<
        (),
        DispatchError,
    >)
        requires
            old(self).wf(),
        ensures
            final(self).wf(),
            match old(self).give_error(sender, to, pet_id) {
                Some(e) => r == Err::<(), DispatchError>(e) && final(self)@ == old(self)@,
                None => r is Ok && final(self)@ == old(self)@.transferred(pet_id, to, None),
            },
    {
        let polkapet = match self.pet(pet_id) {
            Some(p) => p,
            None => return Err(DispatchError::Module(Error::NoPolkapet)),
        };
        if polkapet.owner != sender {
            return Err(DispatchError::Module(Error::NotOwner));
        }
        self.do_transfer_with(pet_id, to, None, Ok(()))
    }

    /// `buyer` buys pet `pet_id` at its asking price, which must be below `limit_price`: the
    /// runtime's currency is asked to move the asking price from `buyer` to the seller, and
    /// the pet changes hands when it does.
    pub fn buy_polkapet<C: Config>(
        &mut self,
        env: &mut C,
        buyer: AccountId,
        pet_id: PetId,
        limit_price: Balance,
    ) -> (r: Result<(), DispatchError>)
        requires
            old(self).wf(),
        ensures
            final(self).wf(),
            match old(self)@.transfer_error(pet_id, buyer, Some(limit_price)) {
                Some(e) => r == Err::<(), DispatchError>(DispatchError::Module(e)) && final(self)@
                    == old(self)@,
                None => {
                    let pet = old(self)@.pets[pet_id];
                    let paid = old(self)@.with_transfer(buyer, pet.owner, pet.price.unwrap(), r);
                    final(self)@ == if r is Ok {
                        paid.transferred(pet_id, buyer, Some(limit_price))
                    } else {
                        paid
                    }
                },
            },
    {
        self.do_transfer(env, pet_id, buyer, Some(limit_price))
    }

    /// Draws 16 random bytes from the runtime's randomness for `subject`, mixed with the pet
    /// count, `optional_param`, the extrinsic index and the block number, all read from the
    /// runtime and recorded.
    pub(super) fn generate_random_hash<C: Config>(&mut self, env: &C, subject: RandomSubject, optional_param: u64) -> (hash: [u8; 16])
        requires
            old(self).wf(),
        ensures
            final(self).wf(),
            exists|seed: [u8; 32], index: Option<u32>, number: BlockNumber|
                final(self)@ == #[trigger] old(self)@.with_reads(draw_reads(subject, seed, index, number))
                    && hash@ == random_hash_spec(
                    seed@,
                    old(self)@.last_pet_id,
                    optional_param,
                    or_zero(index),
                    number,
                ),
    {
        let (random, index, number) = self.draw(env, subject);
        let hash = random_hash(&random, self.last_pet_id, optional_param, index_or_zero(index), number);
        assert(self@ == old(self)@.with_reads(draw_reads(subject, random, index, number)));
        hash
    }

    /// Draws a random DNA, with the runtime's randomness for the gender, and reads the gender
    /// from it.
    fn gen_dna<C: Config>(&mut self, env: &C) -> (r: ([u8; 16], Gender))
        requires
            old(self).wf(),
        ensures
            final(self).wf(),
            exists|seed: [u8; 32], index: Option<u32>, number: BlockNumber|
                final(self)@ == #[trigger] old(self)@.with_reads(
                    draw_reads(RandomSubject::Gender, seed, index, number),
                ) && r.0@ == random_hash_spec(seed@, old(self)@.last_pet_id, 0, or_zero(index), number),
            r.1 == gender_of(r.0@),
    {
        let hash = self.generate_random_hash(env, RandomSubject::Gender, 0);
        dna_and_gender(hash)
    }

    /// The DNA and gender of a child of two pets: a random DNA, drawn with the runtime's
    /// randomness for the gender, chooses each byte from one parent, and gives the gender.
    pub fn breed_dna<C: Config>(&mut self, env: &C, parent1: &[u8; 16], parent2: &[u8; 16]) -> (r: (
        [u8; 16],
        Gender,
    ))
        requires
            old(self).wf(),
        ensures
            final(self).wf(),
            exists|seed: [u8; 32], index: Option<u32>, number: BlockNumber|
                final(self)@ == #[trigger] old(self)@.with_reads(
                    draw_reads(RandomSubject::Gender, seed, index, number),
                ) && {
                    let random = random_hash_spec(
                        seed@,
                        old(self)@.last_pet_id,
                        0,
                        or_zero(index),
                        number,
                    );
                    r.0@ == mixed_dna(parent1@, parent2@, random) && r.1 == gender_of(random)
                },
    {
        let (random_dna, new_gender) = self.gen_dna(env);
        let new_dna = mix_dna(parent1, parent2, random_dna);
        (new_dna, new_gender)
    }

    /// `sender` breeds two of its pets of opposite genders into a new pet; the random DNA is
    /// drawn from `gender_seed`, the oval position from `oval_seed`.
    pub fn breed_polkapet_with(
        &mut self,
        sender: AccountId,
        parent_1: PetId,
        parent_2: PetId,
        gender_seed: [u8; 32],
        oval_seed: [u8; 32],
        extrinsic_index: u32,
        block_number: BlockNumber,
    ) -> (r: Result<(), DispatchError>)
        requires
            old(self).wf(),
        ensures
            final(self).wf(),
            match old(self)@.breed_error(sender, parent_1, parent_2) {
                Some(e) => r == Err::<(), DispatchError>(e) && final(self)@ == old(self)@,
                None => r is Ok && final(self)@ == old(self)@.bred(
                    sender,
                    parent_1,
                    parent_2,
                    gender_seed@,
                    oval_seed@,
                    extrinsic_index,
                    block_number,
                ),
            },
    {
        let maybe_mom = match self.pet(parent_1) {
            Some(p) => p,
            None => return Err(DispatchError::Module(Error::NoPolkapet)),
        };
        let maybe_dad = match self.pet(parent_2) {
            Some(p) => p,
            None => return Err(DispatchError::Module(Error::NoPolkapet)),
        };
        if maybe_mom.owner != sender {
            return Err(DispatchError::Module(Error::NotOwner));
        }
        if maybe_dad.owner != sender {
            return Err(DispatchError::Module(Error::NotOwner));
        }
        if maybe_mom.gender == maybe_dad.gender {
            return Err(DispatchError::Module(Error::CantBreed));
        }
        let count = self.last_pet_id;
        let (random_dna, new_gender) = dna_and_gender(
            random_hash(&gender_seed, count, 0, extrinsic_index, block_number),
        );
        let new_dna = mix_dna(&maybe_mom.dna, &maybe_dad.dna, random_dna);
        let oval_hash = random_hash(&oval_seed, count, 0, extrinsic_index, block_number);
        let oval_position = oval_position_of(&oval_hash);
        if self.last_pet_id == u64::MAX {
            return Err(DispatchError::Module(Error::PetIdOverflow));
        }
        let pet_id = count + 1;
        proof {
            lemma_seq_to_dna(new_dna);
        }
        match self.mint(&sender, new_dna, new_gender, oval_position, pet_id) {
            Ok(()) => {},
            Err(e) => return Err(e),
        }
        let _ = self.get_new_pet_id_and_increase();
        assert(self@ =~= old(self)@.bred(
            sender,
            parent_1,
            parent_2,
            gender_seed@,
            oval_seed@,
            extrinsic_index,
            block_number,
        ));
        Ok(())
    }

    /// `sender` breeds two of its pets of opposite genders into a new pet, drawing the random
    /// DNA and the oval position from the runtime's randomness as pet creation does. The reads
    /// are made, and recorded, whether or not it succeeds.
    pub fn breed_polkapet<C: Config>(
        &mut self,
        env: &C,
        sender: AccountId,
        parent_1: PetId,
        parent_2: PetId,
    ) -> (r: Result<(), DispatchError>)
        requires
            old(self).wf(),
        ensures
            final(self).wf(),
            exists|gender_seed: [u8; 32], oval_seed: [u8; 32], index: Option<u32>, number: BlockNumber|
                {
                    let read = #[trigger] old(self)@.with_reads(
                        creation_reads(gender_seed, oval_seed, index, number),
                    );
                    match old(self)@.breed_error(sender, parent_1, parent_2) {
                        Some(e) => r == Err::<(), DispatchError>(e) && final(self)@ == read,
                        None => r is Ok && final(self)@ == read.bred(
                            sender,
                            parent_1,
                            parent_2,
                            gender_seed@,
                            oval_seed@,
                            or_zero(index),
                            number,
                        ),
                    }
                },
    {
        let (gender_seed, index, number) = self.draw(env, RandomSubject::Gender);
        let oval_seed = self.read_random(env, RandomSubject::DotLogoOvalPosition);
        let ghost read = self@;
        assert(read.reads =~= old(self)@.reads + creation_reads(gender_seed, oval_seed, index, number));
        assert(read == old(self)@.with_reads(creation_reads(gender_seed, oval_seed, index, number)));
        self.breed_polkapet_with(
            sender,
            parent_1,
            parent_2,
            gender_seed,
            oval_seed,
            index_or_zero(index),
            number,
        )
    }

    /// Adds to a pet's power the boost of its oval position; anyone may empower any pet.
    pub fn empower(&mut self, who: AccountId, pet_id: PetId) -> (r: Result<(), DispatchError>)
        requires
            old(self).wf(),
        ensures
            final(self).wf(),
            match old(self)@.empower_error(pet_id) {
                Some(e) => r == Err::<(), DispatchError>(e) && final(self)@ == old(self)@,
                None => r is Ok && final(self)@ == old(self)@.empowered(pet_id),
            },
    {
        let mut polkapet = match self.pet(pet_id) {
            Some(p) => p,
            None => return Err(DispatchError::Module(Error::NoPolkapet)),
        };
        let empowed_boost = boost_value(&self.oval_boost_number, polkapet.oval_position);
        let new_power = match polkapet.power.checked_add(empowed_boost as u32) {
            Some(p) => p,
            None => return Err(DispatchError::Arithmetic(ArithmeticError::Overflow)),
        };
        polkapet.power = new_power;
        self.polkapets_by_id.insert(polkapet.pet_id, polkapet);
        self.events.push(Event::Empowered { polkapet: polkapet.pet_id, power: new_power });
        proof {
            assert(self@ =~= old(self)@.empowered(pet_id));
        }
        Ok(())
    }

    /// Brings a pet that `who` owns back to life, at nine tenths of its power.
    pub fn respawn(&mut self, who: AccountId, pet_id: PetId) -> (r: Result<(), DispatchError>)
        requires
            old(self).wf(),
        ensures
            final(self).wf(),
            match old(self)@.respawn_error(who, pet_id) {
                Some(e) => r == Err::<(), DispatchError>(e) && final(self)@ == old(self)@,
                None => r is Ok && final(self)@ == old(self)@.respawned(pet_id),
            },
    {
        let mut polkapet = match self.pet(pet_id) {
            Some(p) => p,
            None => return Err(DispatchError::Module(Error::NoPolkapet)),
        };
        if polkapet.owner != who {
            return Err(DispatchError::Module(Error::NotOwner));
        }
        polkapet.respawn = match polkapet.respawn.checked_add(1) {
            Some(n) => n,
            None => return Err(DispatchError::Arithmetic(ArithmeticError::Overflow)),
        };
        // `(power as f64 * 0.9) as u32` of the runtime equals `power * 9 / 10` rounded down
        // for every `u32` power: the float product lies within 1e-6 above the exact tenth.
        polkapet.power = ((polkapet.power as u64) * 9 / 10) as u32;
        polkapet.death = false;
        self.polkapets_by_id.insert(polkapet.pet_id, polkapet);
        self.events.push(Event::Respawn { polkapet: pet_id });
        proof {
            assert(self@ =~= old(self)@.respawned(pet_id));
        }
        Ok(())
    }
}

} // verus!
