use vstd::prelude::*;

verus! {

use crate::types::{
    BlockNumber, DispatchError, DotLogoOvalPositionBoost, Error, Event, PetId, Polkapet,
};
use crate::model::{PalletModel, draw_reads};
use crate::config::{Config, RandomSubject, index_or_zero, or_zero};
use crate::genetics::{boost_from_hash, boost_of, death_number_from_hash};
use crate::hashing::{random_hash, random_hash_spec};
use crate::scores::points_at_most;
use super::Pallet;

broadcast use vstd::std_specs::hash::group_hash_axioms;

impl Pallet {
    /// Sets whether pet `pet_id` is dead.
    fn update_pet_death_status(&mut self, pet_id: PetId, status: bool) -> (r: Result<(), DispatchError>)
        requires
            old(self).wf(),
        ensures
            final(self).wf(),
            old(self)@.pets.contains_key(pet_id) ==> r is Ok && final(self)@ == old(self)@.with_pet(
                Polkapet { death: status, ..old(self)@.pets[pet_id] },
            ),
            !old(self)@.pets.contains_key(pet_id) ==> r == Err::<(), DispatchError>(
                DispatchError::Module(Error::NoPolkapet),
            ) && final(self)@ == old(self)@,
    {
        let mut new_pet = match self.pet(pet_id) {
            Some(p) => p,
            None => return Err(DispatchError::Module(Error::NoPolkapet)),
        };
        new_pet.death = status;
        self.polkapets_by_id.insert(pet_id, new_pet);
        assert(self@ =~= old(self)@.with_pet(Polkapet { death: status, ..old(self)@.pets[pet_id] }));
        Ok(())
    }

    /// Sets the power of pet `pet_id`.
    fn update_pet_power(&mut self, pet_id: PetId, new_power: u32) -> (r: Result<(), DispatchError>)
        requires
            old(self).wf(),
        ensures
            final(self).wf(),
            old(self)@.pets.contains_key(pet_id) ==> r is Ok && final(self)@ == old(self)@.with_pet(
                Polkapet { power: new_power, ..old(self)@.pets[pet_id] },
            ),
            !old(self)@.pets.contains_key(pet_id) ==> r == Err::<(), DispatchError>(
                DispatchError::Module(Error::NoPolkapet),
            ) && final(self)@ == old(self)@,
    {
        let mut new_pet = match self.pet(pet_id) {
            Some(p) => p,
            None => return Err(DispatchError::Module(Error::NoPolkapet)),
        };
        new_pet.power = new_power;
        self.polkapets_by_id.insert(pet_id, new_pet);
        assert(self@ =~= old(self)@.with_pet(Polkapet { power: new_power, ..old(self)@.pets[pet_id] }));
        Ok(())
    }

    /// The `i`-th random pet number, drawn from `seed`.
    fn generate_random_death_number(
        &self,
        seed: &[u8; 32],
        i: u64,
        extrinsic_index: u32,
        block_number: BlockNumber,
    ) -> (r: Result<PetId, DispatchError>)
        requires
            self@.last_pet_id < 10_000_000_000_000_000,
        ensures
            r matches Ok(n) && n == self@.death_draw(seed@, i, extrinsic_index, block_number),
    {
        let hash = random_hash(seed, self.last_pet_id, i, extrinsic_index, block_number);
        death_number_from_hash(&hash, self.last_pet_id)
    }

    /// Kills about one pet in a hundred, each picked by a random number drawn from `seed`:
    /// the pet dies and loses its power.
    pub fn kill_random_pet_with(&mut self, seed: [u8; 32], extrinsic_index: u32, block_number: BlockNumber)
        requires
            old(self).wf(),
            old(self)@.ready_for_kills(),
        ensures
            final(self).wf(),
            final(self)@ == old(self)@.kills(
                seed@,
                (old(self)@.last_pet_id * 100 / 10000) as nat,
                extrinsic_index,
                block_number,
            ),
    {
        let count = self.last_pet_id;
        let death_number = count * 100 / 10000;
        let mut i: u64 = 0;
        while i < death_number
            invariant
                i <= death_number,
                death_number == count * 100 / 10000,
                count == old(self)@.last_pet_id,
                old(self)@.ready_for_kills(),
                self.wf(),
                self@.last_pet_id == count,
                self@.pets.dom() == old(self)@.pets.dom(),
                self@ == old(self)@.kills(seed@, i as nat, extrinsic_index, block_number),
            decreases death_number - i,
        {
            let ran_pet_id = self.generate_random_death_number(&seed, i, extrinsic_index, block_number).unwrap();
            if ran_pet_id > 0 && ran_pet_id <= count {
                assert(self@.pets.contains_key(ran_pet_id));
                let ghost before = self@;
                assert(before.pets[ran_pet_id].pet_id == ran_pet_id);
                self.update_pet_death_status(ran_pet_id, true).unwrap();
                self.update_pet_power(ran_pet_id, 0).unwrap();
                self.events.push(Event::UpdatePetDeathStatus { polkapet: ran_pet_id });
                assert(self@.pets =~= before.pets.insert(
                    ran_pet_id,
                    Polkapet { death: true, power: 0, ..before.pets[ran_pet_id] },
                ));
                assert(self@ =~= before.killed(ran_pet_id));
            }
            i = i + 1;
        }
    }

    /// Kills about one pet in a hundred, each picked by a number drawn from the runtime's
    /// randomness: one draw, whose seed, extrinsic index and block number are recorded.
    fn kill_random_pet<C: Config>(&mut self, env: &C)
        requires
            old(self).wf(),
            old(self)@.ready_for_kills(),
        ensures
            final(self).wf(),
            exists|seed: [u8; 32], index: Option<u32>, number: BlockNumber|
                final(self)@ == #[trigger] old(self)@.with_reads(
                    draw_reads(RandomSubject::RandomDeathNumber, seed, index, number),
                ).kills(seed@, old(self)@.kill_count(), or_zero(index), number),
    {
        let (seed, index, number) = self.draw(env, RandomSubject::RandomDeathNumber);
        let ghost drawn = self@;
        self.kill_random_pet_with(seed, index_or_zero(index), number);
        assert(drawn.kill_count() == old(self)@.kill_count());
        assert(self@ == old(self)@.with_reads(
            draw_reads(RandomSubject::RandomDeathNumber, seed, index, number),
        ).kills(seed@, old(self)@.kill_count(), or_zero(index), number));
    }

    /// The oval boost table drawn anew from the runtime's randomness.
    fn random_oval_boost_value<C: Config>(&mut self, env: &C) -> (boost: DotLogoOvalPositionBoost)
        requires
            old(self).wf(),
        ensures
            final(self).wf(),
            exists|seed: [u8; 32], index: Option<u32>, number: BlockNumber|
                final(self)@ == #[trigger] old(self)@.with_reads(
                    draw_reads(RandomSubject::DotLogoOvalPositionBoost, seed, index, number),
                ) && boost == boost_of(
                    random_hash_spec(seed@, old(self)@.last_pet_id, 0, or_zero(index), number),
                ),
    {
        let hash = self.generate_random_hash(env, RandomSubject::DotLogoOvalPositionBoost, 0);
        boost_from_hash(&hash)
    }

    /// The end-of-block hook: every fifth block the oval boosts are drawn anew, every fiftieth
    /// block about one pet in a hundred is killed, and every block the running mini-games take
    /// their turn (a failure there is ignored).
    pub fn on_finalize<C: Config>(&mut self, env: &mut C, block_number: BlockNumber)
        requires
            old(self).wf(),
            block_number % 50 == 0 ==> old(self)@.ready_for_kills(),
            block_number % 2 == 0 ==> old(self)@.scores_fit(),
        ensures
            final(self).wf(),
            exists|m1: PalletModel, m2: PalletModel|
                #![trigger old(self)@.boost_outcome(m1, block_number), m1.kill_outcome(m2, block_number)]
                old(self)@.boost_outcome(m1, block_number) && m1.kill_outcome(m2, block_number)
                    && m2.games_outcome(final(self)@, block_number),
    {
        let current_block_number = block_number;
        if current_block_number % 5 == 0 {
            let ghost m0 = self@;
            let boost = self.random_oval_boost_value(env);
            let ghost drawn = self@;
            self.oval_boost_number = boost;
            proof {
                let (seed, index, number) = choose|seed: [u8; 32], index: Option<u32>, number: BlockNumber|
                    drawn == #[trigger] m0.with_reads(
                        draw_reads(RandomSubject::DotLogoOvalPositionBoost, seed, index, number),
                    ) && boost == boost_of(
                        random_hash_spec(seed@, m0.last_pet_id, 0, or_zero(index), number),
                    );
                assert(self@ == m0.with_reads(
                    draw_reads(RandomSubject::DotLogoOvalPositionBoost, seed, index, number),
                ).boosted(random_hash_spec(seed@, m0.last_pet_id, 0, or_zero(index), number)));
            }
        }
        let ghost m1 = self@;
        assert(old(self)@.boost_outcome(m1, block_number));
        if current_block_number % 50 == 0 {
            self.kill_random_pet(env);
        }
        let ghost m2 = self@;
        assert(m1.kill_outcome(m2, block_number));
        assert(m2.running == old(self)@.running && m2.results == old(self)@.results) by {
            if current_block_number % 50 == 0 {
                let (seed, index, number) = choose|seed: [u8; 32], index: Option<u32>, number: BlockNumber|
                    m2 == #[trigger] m1.with_reads(
                        draw_reads(RandomSubject::RandomDeathNumber, seed, index, number),
                    ).kills(seed@, m1.kill_count(), or_zero(index), number);
                crate::model::lemma_kills_frame(
                    m1.with_reads(draw_reads(RandomSubject::RandomDeathNumber, seed, index, number)),
                    seed@,
                    m1.kill_count(),
                    or_zero(index),
                    number,
                );
            }
        }
        assert(current_block_number % 2 == 0 ==> m2.scores_fit()) by {
            assert forall|i: int| current_block_number % 2 == 0 && 0 <= i < m2.running.len() implies points_at_most(
                #[trigger] m2.results_of(m2.running[i]),
                u32::MAX - 255,
            ) by {
                assert(old(self)@.running[i] == m2.running[i]);
                assert(points_at_most(old(self)@.results_of(old(self)@.running[i]), u32::MAX - 255));
            }
        }
        let r = self.operate_running_game(env, current_block_number);
        assert(m2.games_outcome(self@, block_number));
    }
}

} // verus!
