use vstd::prelude::*;

verus! {

use crate::types::{
    AccountId, ArithmeticError, Balance, BlockNumber, DispatchError, Error, Event, GameStatus,
    Minigame, MinigameId, MinigameResult, PetId, Polkapet,
};
use crate::model::{
    PalletModel, RuntimeRead, draw_reads, answers_after, bumped, first_index, initial_results, lemma_answers_split,
    lemma_hook_prefix, lemma_hook_stopped, lemma_payments_made_run, lemma_swap_removed_keeps, paid_winners, release_pets,
    swap_removed, unjoined, winners,
};
use crate::config::{Config, RandomSubject, index_or_zero, or_zero};
use crate::hashing::random_hash;
use crate::reward::{reward_per_winner, reward_share};
use crate::scores::{points_at_most, sort_results};
use super::{Pallet, copy_vec, lemma_first_index_unique, lemma_views_insert, position, vec_or_default};

broadcast use vstd::std_specs::hash::group_hash_axioms;

/// Whether `players` holds a pet equal to `pet` in every field.
fn contains_pet(players: &Vec<Polkapet>, pet: &Polkapet) -> (r: bool)
    ensures
        r == players@.contains(*pet),
{
    let mut i: usize = 0;
    while i < players.len()
        invariant
            i <= players.len(),
            forall|j: int| 0 <= j < i ==> players@[j] != *pet,
        decreases players.len() - i,
    {
        if crate::types::pet_eq(&players[i], pet) {
            return true;
        }
        i = i + 1;
    }
    false
}

impl Pallet {
    /// `sender` creates a mini-game; a reward, if any, is paid into the pallet's account, and
    /// `payment` is the outcome of that payment.
    pub fn create_minigame_with(
        &mut self,
        sender: AccountId,
        description: Vec<u8>,
        reward: Option<Balance>,
        max_player: Option<u32>,
        block_duration: u32,
        payment: Result<(), DispatchError>,
    ) -> (r: Result<(), DispatchError>)
        requires
            old(self).wf(),
        ensures
            final(self).wf(),
            match old(self)@.create_game_error(block_duration) {
                Some(e) => r == Err::<(), DispatchError>(e) && final(self)@ == old(self)@,
                None => match (reward, payment) {
                    (Some(_), Err(e)) => r == Err::<(), DispatchError>(e) && final(self)@ == old(
                        self,
                    )@,
                    _ => r == Ok::<(), DispatchError>(()) && final(self)@ == old(self)@.game_created(
                        sender,
                        description,
                        reward,
                        max_player,
                        block_duration,
                    ),
                },
            },
    {
        if !(block_duration > 0 && block_duration <= 100) {
            return Err(DispatchError::Module(Error::BlockDurationInvalid));
        }
        let new_game_id = match self.get_new_minigame_id_and_increase() {
            Ok(id) => id,
            Err(e) => return Err(e),
        };
        let new_game = Minigame {
            game_id: new_game_id,
            owner: sender,
            description,
            reward,
            max_player,
            block_duration,
            finish_block: 0,
            status: GameStatus::Prepare,
        };
        if let Some(value) = reward {
            if let Err(e) = payment {
                self.last_minigame_id = new_game_id - 1;
                assert(self@ =~= old(self)@);
                return Err(e);
            }
            self.events.push(Event::GameCreated { id: new_game_id, reward: value });
        }
        let mut owned_games = vec_or_default(&self.minigame_owned, &sender);
        owned_games.push(new_game_id);
        proof {
            lemma_views_insert(self.minigame_owned@, sender, owned_games);
        }
        self.minigame_owned.insert(sender, owned_games);
        self.minigame_by_id.insert(new_game_id, new_game);
        proof {
            assert(self@ =~= old(self)@.game_created(
                sender,
                description,
                reward,
                max_player,
                block_duration,
            ));
        }
        Ok(())
    }

    /// `sender` creates a mini-game lasting `block_duration` blocks (from 1 to 100); with a
    /// reward, the runtime's currency is asked to move it from `sender` into the pallet's
    /// account, and a refusal is returned with no game created.
    pub fn create_minigame<C: Config>(
        &mut self,
        env: &mut C,
        sender: AccountId,
        description: Vec<u8>,
        reward: Option<Balance>,
        max_player: Option<u32>,
        block_duration: u32,
    ) -> (r: Result<(), DispatchError>)
        requires
            old(self).wf(),
        ensures
            final(self).wf(),
            match old(self)@.create_game_error(block_duration) {
                Some(e) => r == Err::<(), DispatchError>(e) && final(self)@ == old(self)@,
                None => match reward {
                    None => r is Ok && final(self)@ == old(self)@.game_created(
                        sender,
                        description,
                        reward,
                        max_player,
                        block_duration,
                    ),
                    Some(value) => {
                        let paid = old(self)@.with_transfer(
                            sender,
                            old(self)@.pallet_account,
                            value,
                            r,
                        );
                        final(self)@ == if r is Ok {
                            paid.game_created(sender, description, reward, max_player, block_duration)
                        } else {
                            paid
                        }
                    },
                },
            },
    {
        if !(block_duration > 0 && block_duration <= 100) {
            return Err(DispatchError::Module(Error::BlockDurationInvalid));
        }
        if self.last_minigame_id == u64::MAX {
            return Err(DispatchError::Module(Error::MinigameIdOverflow));
        }
        let payment = match reward {
            Some(value) => {
                let pallet_account = self.pallet_account;
                self.pay(env, sender, pallet_account, value)
            },
            None => Ok(()),
        };
        self.create_minigame_with(sender, description, reward, max_player, block_duration, payment)
    }

    /// Enters pet `pet_id` in mini-game `minigame_id` before it starts; anyone may enter any
    /// pet, once, while there is room.
    pub fn join_minigame(&mut self, who: AccountId, minigame_id: MinigameId, pet_id: PetId) -> (r:
        Result<(), DispatchError>)
        requires
            old(self).wf(),
        ensures
            final(self).wf(),
            match old(self)@.join_error(minigame_id, pet_id) {
                Some(e) => r == Err::<(), DispatchError>(e) && final(self)@ == old(self)@,
                None => r is Ok && final(self)@ == old(self)@.joined(minigame_id, pet_id),
            },
    {
        let (status, max_player) = match self.minigame_by_id.get(&minigame_id) {
            Some(game) => (game.status, game.max_player),
            None => return Err(DispatchError::Module(Error::NoMinigame)),
        };
        if status != GameStatus::Prepare {
            return Err(DispatchError::Module(Error::GameStartedOrEnded));
        }
        let mut polkapet = match self.pet(pet_id) {
            Some(p) => p,
            None => return Err(DispatchError::Module(Error::NoPolkapet)),
        };
        if polkapet.is_join_minigame {
            return Err(DispatchError::Module(Error::AlreadyJoinGame));
        }
        polkapet.is_join_minigame = true;
        let mut minigame_players = vec_or_default(&self.minigame_players, &minigame_id);
        if contains_pet(&minigame_players, &polkapet) {
            return Err(DispatchError::Module(Error::AlreadyJoinGame));
        }
        if let Some(max_player) = max_player {
            if !(max_player > minigame_players.len() as u32) {
                return Err(DispatchError::Module(Error::ExceedingMaxPlayers));
            }
        }
        self.polkapets_by_id.insert(polkapet.pet_id, polkapet);
        minigame_players.push(polkapet);
        proof {
            lemma_views_insert(self.minigame_players@, minigame_id, minigame_players);
        }
        self.minigame_players.insert(minigame_id, minigame_players);
        proof {
            assert(self@ =~= old(self)@.joined(minigame_id, pet_id));
        }
        Ok(())
    }

    /// The owner `who` starts mini-game `minigame_id` at block `current_block`: it runs for its
    /// duration, and each player starts with no points.
    pub fn start_minigame_with(&mut self, who: AccountId, minigame_id: MinigameId, current_block: u32) -> (r:
        Result<(), DispatchError>)
        requires
            old(self).wf(),
        ensures
            final(self).wf(),
            match old(self)@.start_error(who, minigame_id, current_block) {
                Some(e) => r == Err::<(), DispatchError>(e) && final(self)@ == old(self)@,
                None => r is Ok && final(self)@ == old(self)@.started(minigame_id, current_block),
            },
    {
        let (status, owner, block_duration) = match self.minigame_by_id.get(&minigame_id) {
            Some(game) => (game.status, game.owner, game.block_duration),
            None => return Err(DispatchError::Module(Error::NoMinigame)),
        };
        if status != GameStatus::Prepare {
            return Err(DispatchError::Module(Error::GameStartedOrEnded));
        }
        if owner != who {
            return Err(DispatchError::Module(Error::NotOwner));
        }
        let finish_block = match current_block.checked_add(block_duration) {
            Some(b) => b,
            None => return Err(DispatchError::Arithmetic(ArithmeticError::Overflow)),
        };
        let players = vec_or_default(&self.minigame_players, &minigame_id);
        if players.len() == 0 {
            return Err(DispatchError::Module(Error::NoPlayer));
        }
        let mut minigame = match self.minigame_by_id.remove(&minigame_id) {
            Some(game) => game,
            None => return Err(DispatchError::Module(Error::NoMinigame)),
        };
        minigame.status = GameStatus::OnGoing;
        minigame.finish_block = finish_block;
        self.minigame_by_id.insert(minigame_id, minigame);
        self.running_minigame_ids.push(minigame_id);
        let mut minigame_results = vec_or_default(&self.minigame_results, &minigame_id);
        let ghost base = minigame_results@;
        let mut i: usize = 0;
        while i < players.len()
            invariant
                i <= players.len(),
                minigame_results@ == base + initial_results(players@.subrange(0, i as int)),
            decreases players.len() - i,
        {
            minigame_results.push(MinigameResult { pet_id: players[i].pet_id, point: 0 });
            assert(initial_results(players@.subrange(0, i as int + 1)) =~= initial_results(
                players@.subrange(0, i as int),
            ).push(MinigameResult { pet_id: players@[i as int].pet_id, point: 0 }));
            assert(base + initial_results(players@.subrange(0, i as int + 1)) =~= (base
                + initial_results(players@.subrange(0, i as int))).push(
                MinigameResult { pet_id: players@[i as int].pet_id, point: 0 },
            ));
            i = i + 1;
        }
        assert(players@.subrange(0, players.len() as int) =~= players@);
        proof {
            lemma_views_insert(self.minigame_results@, minigame_id, minigame_results);
        }
        self.minigame_results.insert(minigame_id, minigame_results);
        proof {
            assert(self@.games =~= old(self)@.started(minigame_id, current_block).games);
            assert(self@ =~= old(self)@.started(minigame_id, current_block));
            assert forall|g: MinigameId|
                #[trigger] self@.games.contains_key(g) && self@.games[g].status == GameStatus::OnGoing
                    implies self@.running.contains(g) by {
                if g == minigame_id {
                    assert(self@.running[self@.running.len() - 1] == g);
                } else {
                    let k = choose|k: int| 0 <= k < old(self)@.running.len() && old(self)@.running[k] == g;
                    assert(self@.running[k] == g);
                }
            }
        }
        Ok(())
    }

    /// The owner `who` starts mini-game `minigame_id` at the current block, read from the
    /// runtime and recorded.
    pub fn start_minigame<C: Config>(&mut self, env: &C, who: AccountId, minigame_id: MinigameId) -> (r:
        Result<(), DispatchError>)
        requires
            old(self).wf(),
        ensures
            final(self).wf(),
            exists|current_block: u32|
                {
                    let read = #[trigger] old(self)@.with_reads(
                        seq![RuntimeRead::BlockNumber { number: current_block }],
                    );
                    match old(self)@.start_error(who, minigame_id, current_block) {
                        Some(e) => r == Err::<(), DispatchError>(e) && final(self)@ == read,
                        None => r is Ok && final(self)@ == read.started(minigame_id, current_block),
                    }
                },
    {
        let current_block = self.read_block_number(env);
        let ghost read = self@;
        let r = self.start_minigame_with(who, minigame_id, current_block);
        assert(match old(self)@.start_error(who, minigame_id, current_block) {
            Some(e) => r == Err::<(), DispatchError>(e) && self@ == read,
            None => r is Ok && self@ == read.started(minigame_id, current_block),
        });
        r
    }
}

proof fn lemma_paid_winners_step(pets: Map<PetId, Polkapet>, w: Seq<MinigameResult>, i: int)
    requires
        0 <= i < w.len(),
    ensures
        paid_winners(pets, w.subrange(i, w.len() as int)) == if pets.contains_key(w[i].pet_id) {
            1 + paid_winners(pets, w.subrange(i + 1, w.len() as int))
        } else {
            0
        },
{
    let t = w.subrange(i, w.len() as int);
    assert(t[0] == w[i]);
    assert(t.subrange(1, t.len() as int) =~= w.subrange(i + 1, w.len() as int));
}

impl Pallet {
    /// A round of play in mini-game `minigame_id`: each score line gains the leading byte of a
    /// hash drawn from `seed` for its pet, then the lines are sorted by points, stably.
    pub fn calculate_minigame_result_with(
        &mut self,
        minigame_id: MinigameId,
        seed: [u8; 32],
        extrinsic_index: u32,
        block_number: BlockNumber,
    )
        requires
            old(self).wf(),
            points_at_most(old(self)@.results_of(minigame_id), u32::MAX - 255),
        ensures
            final(self).wf(),
            final(self)@ == old(self)@.scored(minigame_id, seed@, extrinsic_index, block_number),
    {
        let minigame_results = vec_or_default(&self.minigame_results, &minigame_id);
        let ghost s = minigame_results@;
        let mut played: Vec<MinigameResult> = Vec::new();
        let mut i: usize = 0;
        while i < minigame_results.len()
            invariant
                i <= minigame_results.len(),
                s == minigame_results@,
                points_at_most(s, u32::MAX - 255),
                played@ == bumped(
                    s.subrange(0, i as int),
                    seed@,
                    self@.last_pet_id,
                    extrinsic_index,
                    block_number,
                ),
            decreases minigame_results.len() - i,
        {
            let result = minigame_results[i];
            let hash = random_hash(&seed, self.last_pet_id, result.pet_id, extrinsic_index, block_number);
            assert(s[i as int].point <= u32::MAX - 255);
            played.push(MinigameResult { pet_id: result.pet_id, point: result.point + hash[0] as u32 });
            assert(bumped(s.subrange(0, i as int + 1), seed@, self@.last_pet_id, extrinsic_index, block_number)
                =~= bumped(s.subrange(0, i as int), seed@, self@.last_pet_id, extrinsic_index, block_number).push(
                MinigameResult { pet_id: result.pet_id, point: (result.point + hash[0] as u32) as u32 },
            ));
            i = i + 1;
        }
        assert(s.subrange(0, s.len() as int) =~= s);
        let sorted = sort_results(&played);
        proof {
            lemma_views_insert(self.minigame_results@, minigame_id, sorted);
        }
        self.minigame_results.insert(minigame_id, sorted);
        proof {
            assert(self@ =~= old(self)@.scored(minigame_id, seed@, extrinsic_index, block_number));
        }
    }

    /// Marks mini-game `minigame_id` finished, takes it off the running list and releases its
    /// players: each player's snapshot is written back as its pet, out of the game.
    pub fn finish_minigame(&mut self, minigame_id: MinigameId) -> (r: Result<(), DispatchError>)
        requires
            old(self).wf(),
            old(self)@.games.contains_key(minigame_id),
        ensures
            final(self).wf(),
            old(self)@.running.contains(minigame_id) ==> r is Ok && final(self)@ == old(
                self,
            )@.marked_finished(minigame_id).released(minigame_id),
            !old(self)@.running.contains(minigame_id) ==> r == Err::<(), DispatchError>(
                DispatchError::Module(Error::NoMinigame),
            ) && final(self)@ == old(self)@.marked_finished(minigame_id),
    {
        let mut minigame = self.minigame_by_id.remove(&minigame_id).unwrap();
        assert(minigame == old(self)@.games[minigame_id]);
        minigame.status = GameStatus::Finish;
        self.minigame_by_id.insert(minigame_id, minigame);
        assert(self.minigame_by_id@ =~= old(self)@.marked_finished(minigame_id).games);
        assert(self@ =~= old(self)@.marked_finished(minigame_id));
        let ghost m2 = self@;
        match position(&self.running_minigame_ids, minigame_id) {
            Some(ind) => {
                proof {
                    lemma_first_index_unique(self.running_minigame_ids@, minigame_id, ind as int);
                    assert forall|g: MinigameId|
                        #[trigger] m2.games.contains_key(g) && m2.games[g].status
                            == GameStatus::OnGoing implies swap_removed(
                        m2.running,
                        ind as int,
                    ).contains(g) by {
                        lemma_swap_removed_keeps(m2.running, ind as int, g);
                    }
                }
                self.running_minigame_ids.swap_remove(ind);
            },
            None => return Err(DispatchError::Module(Error::NoMinigame)),
        }
        let players = vec_or_default(&self.minigame_players, &minigame_id);
        let ghost pets0 = self.polkapets_by_id@;
        let ghost m_swap = self@;
        let mut released: Vec<Polkapet> = Vec::new();
        let mut i: usize = 0;
        while i < players.len()
            invariant
                i <= players.len(),
                players@ == m2.players_of(minigame_id),
                self.polkapets_by_id@ == release_pets(pets0, players@.subrange(0, i as int)),
                released@ == players@.subrange(0, i as int).map_values(|p: Polkapet| unjoined(p)),
                self.wf(),
                self@ == (PalletModel { pets: self.polkapets_by_id@, ..m_swap }),
                m_swap.running == swap_removed(m2.running, first_index(m2.running, minigame_id)),
                m_swap == (PalletModel { running: m_swap.running, ..m2 }),
                m_swap.consistent(),
                forall|id: PetId| m_swap.pets.contains_key(id) ==> #[trigger] self.polkapets_by_id@.contains_key(id),
            decreases players.len() - i,
        {
            let mut player = players[i];
            player.is_join_minigame = false;
            self.polkapets_by_id.insert(player.pet_id, player);
            released.push(player);
            assert(players@.subrange(0, i as int + 1).drop_last() =~= players@.subrange(0, i as int));
            assert(released@ =~= players@.subrange(0, i as int + 1).map_values(|p: Polkapet| unjoined(p)));
            i = i + 1;
        }
        assert(players@.subrange(0, players.len() as int) =~= players@);
        proof {
            lemma_views_insert(self.minigame_players@, minigame_id, released);
        }
        self.minigame_players.insert(minigame_id, released);
        proof {
            assert(self@ =~= m2.released(minigame_id));
        }
        Ok(())
    }

    /// The reward payments of mini-game `minigame_id` with reward `value`: a share of the taxed
    /// reward to the owner of each winner's pet, up to the first winner whose pet is gone; and
    /// whether no winner's pet is gone.
    pub fn reward_payouts(&self, minigame_id: MinigameId, value: Balance) -> (r: (
        Vec<(AccountId, Balance)>,
        bool,
    ))
        ensures
            r.0@ == self@.game_payouts(minigame_id, value),
            r.1 == self@.winners_present(minigame_id),
    {
        let minigame_results = vec_or_default(&self.minigame_results, &minigame_id);
        let ghost s = minigame_results@;
        let mut winner_results: Vec<MinigameResult> = Vec::new();
        if minigame_results.len() > 0 {
            let max_value = minigame_results[minigame_results.len() - 1].point;
            let mut i: usize = 0;
            while i < minigame_results.len()
                invariant
                    i <= minigame_results.len(),
                    s == minigame_results@,
                    s.len() > 0,
                    max_value == s.last().point,
                    winner_results@ == s.subrange(0, i as int).filter(
                        |r: MinigameResult| r.point == max_value,
                    ),
                decreases minigame_results.len() - i,
            {
                let item = minigame_results[i];
                proof {
                    s.subrange(0, i as int).lemma_filter_push(item, |r: MinigameResult| r.point == max_value);
                    assert(s.subrange(0, i as int + 1) =~= s.subrange(0, i as int).push(item));
                }
                if item.point == max_value {
                    winner_results.push(item);
                }
                i = i + 1;
            }
            assert(s.subrange(0, s.len() as int) =~= s);
        }
        let ghost w = winner_results@;
        assert(w == winners(s));
        let reward_per_winner_value = reward_per_winner(value, winner_results.len());
        let mut payments: Vec<(AccountId, Balance)> = Vec::new();
        assert(w.subrange(0, w.len() as int) =~= w);
        let mut k: usize = 0;
        while k < winner_results.len()
            invariant
                k <= winner_results.len(),
                w == winner_results@,
                forall|j: int| 0 <= j < k ==> self@.pets.contains_key(#[trigger] w[j].pet_id),
                paid_winners(self@.pets, w) == k + paid_winners(self@.pets, w.subrange(k as int, w.len() as int)),
                w == winners(self@.results_of(minigame_id)),
                reward_per_winner_value == reward_share(value, w.len()),
                payments@ == w.subrange(0, k as int).map_values(
                    |x: MinigameResult| (self@.pets[x.pet_id].owner, reward_per_winner_value),
                ),
            decreases winner_results.len() - k,
        {
            let winner_result = winner_results[k];
            proof {
                lemma_paid_winners_step(self@.pets, w, k as int);
            }
            match self.pet(winner_result.pet_id) {
                Some(winner_pet) => {
                    payments.push((winner_pet.owner, reward_per_winner_value));
                    assert(w.subrange(0, k as int + 1) =~= w.subrange(0, k as int).push(winner_result));
                    assert(payments@ =~= w.subrange(0, k as int + 1).map_values(
                        |x: MinigameResult| (self@.pets[x.pet_id].owner, reward_per_winner_value),
                    ));
                },
                None => {
                    assert(paid_winners(self@.pets, w) == k);
                    assert(payments@ =~= self@.game_payouts(minigame_id, value));
                    return (payments, false);
                },
            }
            k = k + 1;
        }
        assert(w.subrange(k as int, w.len() as int) =~= Seq::<MinigameResult>::empty());
        assert(w.subrange(0, w.len() as int) =~= w);
        assert(payments@ =~= self@.game_payouts(minigame_id, value));
        (payments, true)
    }
}

proof fn lemma_turn_keeps_other_results(
    m: PalletModel,
    g: MinigameId,
    h: MinigameId,
    current_block: u32,
    seed: Seq<u8>,
    extrinsic_index: u32,
    block_number: BlockNumber,
    outs: Seq<Result<(), DispatchError>>,
)
    requires
        g != h,
    ensures
        m.game_turn(g, current_block, seed, extrinsic_index, block_number, outs).0.results_of(h)
            == m.results_of(h),
{
}

impl Pallet {
    /// The turn of mini-game `id` in the running-game hook at block `current_block`: on even
    /// blocks its scores gain random points drawn from `seed`; if this is its last block it
    /// finishes, releases its players and, with a reward, the runtime's currency is asked to
    /// pay each winner's owner a share from the pallet's account. Returns the error that stops
    /// the hook, if any.
    fn operate_game<C: Config>(
        &mut self,
        env: &mut C,
        id: MinigameId,
        current_block: u32,
        seed: [u8; 32],
        extrinsic_index: u32,
        block_number: BlockNumber,
    ) -> (r: Option<DispatchError>)
        requires
            old(self).wf(),
            current_block % 2 == 0 ==> points_at_most(old(self)@.results_of(id), u32::MAX - 255),
        ensures
            final(self).wf(),
            old(self)@.transfers.len() <= final(self)@.transfers.len(),
            final(self)@.transfers.subrange(0, old(self)@.transfers.len() as int) == old(
                self,
            )@.transfers,
            ({
                let outs = answers_after(final(self)@.transfers, old(self)@.transfers.len());
                old(self)@.game_turn(id, current_block, seed@, extrinsic_index, block_number, outs)
                    == (final(self)@, r, outs.len())
            }),
    {
        let ghost m0 = self@;
        let ghost l0 = m0.transfers.len();
        assert(answers_after(m0.transfers, l0) =~= Seq::<Result<(), DispatchError>>::empty());
        assert(m0.transfers.subrange(0, l0 as int) =~= m0.transfers);
        let (finish_block, reward) = match self.minigame_by_id.get(&id) {
            Some(minigame) => (minigame.finish_block, minigame.reward),
            None => return Some(DispatchError::Module(Error::NoMinigame)),
        };
        if current_block % 2 == 0 {
            self.calculate_minigame_result_with(id, seed, extrinsic_index, block_number);
        }
        if finish_block != current_block {
            return None;
        }
        if let Err(e) = self.finish_minigame(id) {
            return Some(e);
        }
        let value = match reward {
            Some(v) => v,
            None => return None,
        };
        let (payments, all_present) = self.reward_payouts(id, value);
        let ghost m3 = self@;
        assert(m3.transfers == m0.transfers);
        let pallet_account = self.pallet_account;
        let mut j: usize = 0;
        assert(m3 =~= m3.with_requests(pallet_account, payments@.take(0), answers_after(self@.transfers, l0)));
        while j < payments.len()
            invariant
                j <= payments.len(),
                self.wf(),
                payments@ == m3.game_payouts(id, value),
                pallet_account == m3.pallet_account,
                l0 == m3.transfers.len(),
                m3.transfers == m0.transfers,
                m0 == old(self)@,
                m0.games.contains_key(id),
                m0.games[id].finish_block == current_block,
                m0.games[id].reward == Some(value),
                ({
                    let m1 = if current_block % 2 == 0 {
                        m0.scored(id, seed@, extrinsic_index, block_number)
                    } else {
                        m0
                    };
                    &&& m1.marked_finished(id).running.contains(id)
                    &&& m3 == m1.marked_finished(id).released(id)
                }),
                all_present == m3.winners_present(id),
                answers_after(self@.transfers, l0).len() == j,
                forall|k: int| 0 <= k < j ==> #[trigger] answers_after(self@.transfers, l0)[k] is Ok,
                self@ == m3.with_requests(
                    pallet_account,
                    payments@.take(j as int),
                    answers_after(self@.transfers, l0),
                ),
            decreases payments.len() - j,
        {
            let (to, amount) = payments[j];
            let ghost prev = self@;
            let paid = self.pay(env, pallet_account, to, amount);
            proof {
                let o = answers_after(prev.transfers, l0);
                let o2 = answers_after(self@.transfers, l0);
                assert(o2 =~= o.push(paid));
                assert(self@.transfers =~= m3.with_requests(
                    pallet_account,
                    payments@.take(j + 1),
                    o2,
                ).transfers);
            }
            if let Err(e) = paid {
                proof {
                    let o2 = answers_after(self@.transfers, l0);
                    lemma_payments_made_run(o2, j as nat, payments@.len());
                    assert(o2.skip(j as int)[0] == o2[j as int]);
                    assert(self@.transfers.subrange(0, l0 as int) =~= m0.transfers);
                }
                return Some(e);
            }
            j = j + 1;
        }
        proof {
            let o = answers_after(self@.transfers, l0);
            lemma_payments_made_run(o, j as nat, payments@.len());
            assert(payments@.take(j as int) =~= payments@);
            assert(self@.transfers.subrange(0, l0 as int) =~= m0.transfers);
        }
        if !all_present {
            return Some(DispatchError::Module(Error::NoPolkapet));
        }
        None
    }

    /// One turn of the running-game hook for each mini-game under way at block
    /// `current_block`, in the order of the running list: on even blocks each game's scores
    /// gain random points; a game whose last block this is finishes, releases its players and,
    /// with a reward, the runtime's currency is asked to pay each winner's owner a share from
    /// the pallet's account. The first failure (a missing game or winner's pet, or a refused
    /// payment) stops the hook and is returned; what was done before it stays.
    pub fn operate_running_game<C: Config>(&mut self, env: &mut C, current_block: u32) -> (r: Result<
        (),
        DispatchError,
    >)
        requires
            old(self).wf(),
            current_block % 2 == 0 ==> old(self)@.scores_fit(),
        ensures
            final(self).wf(),
            old(self)@.running_outcome(final(self)@, r, current_block),
    {
        let (seed, index, block_number) = self.draw(env, RandomSubject::RandomResult);
        let extrinsic_index = index_or_zero(index);
        let running_game_ids = copy_vec(&self.running_minigame_ids);
        let ghost ids = running_game_ids@;
        let ghost m0 = self@;
        let ghost drawn = old(self)@.with_reads(
            draw_reads(RandomSubject::RandomResult, seed, index, block_number),
        );
        assert forall|j: int| current_block % 2 == 0 && 0 <= j < ids.len() implies points_at_most(
            #[trigger] self@.results_of(ids[j]),
            u32::MAX - 255,
        ) by {
            assert(self@.running == old(self)@.running && self@.results == old(self)@.results);
            assert(ids[j] == old(self)@.running[j]);
            assert(points_at_most(old(self)@.results_of(old(self)@.running[j]), u32::MAX - 255));
        }
        let ghost l0 = m0.transfers.len();
        assert(answers_after(m0.transfers, l0) =~= Seq::<Result<(), DispatchError>>::empty());
        assert(m0.transfers.subrange(0, l0 as int) =~= m0.transfers);
        let mut i: usize = 0;
        while i < running_game_ids.len()
            invariant
                i <= running_game_ids.len(),
                ids == running_game_ids@,
                ids == m0.running,
                m0 == drawn,
                drawn == old(self)@.with_reads(
                    draw_reads(RandomSubject::RandomResult, seed, index, block_number),
                ),
                extrinsic_index == or_zero(index),
                l0 == m0.transfers.len(),
                self.wf(),
                ids.no_duplicates(),
                current_block % 2 == 0 ==> forall|j: int| i <= j < ids.len() ==> points_at_most(
                    #[trigger] self@.results_of(ids[j]),
                    u32::MAX - 255,
                ),
                l0 <= self@.transfers.len(),
                self@.transfers.subrange(0, l0 as int) == m0.transfers,
                m0.hook(
                    ids,
                    i as nat,
                    current_block,
                    seed@,
                    extrinsic_index,
                    block_number,
                    answers_after(self@.transfers, l0),
                ) == (self@, None::<DispatchError>, answers_after(self@.transfers, l0).len()),
            decreases running_game_ids.len() - i,
        {
            let id = running_game_ids[i];
            let ghost before = self@;
            let ghost cur = answers_after(before.transfers, l0);
            assert(current_block % 2 == 0 ==> points_at_most(self@.results_of(ids[i as int]), u32::MAX - 255));
            let stop = self.operate_game(env, id, current_block, seed, extrinsic_index, block_number);
            let ghost next = answers_after(self@.transfers, l0);
            let ghost game_outs = answers_after(self@.transfers, before.transfers.len());
            proof {
                assert(self@.transfers.subrange(0, before.transfers.len() as int) == before.transfers);
                lemma_answers_split(self@.transfers, l0, before.transfers.len());
                assert(next == cur + game_outs);
                lemma_hook_prefix(
                    m0,
                    ids,
                    i as nat,
                    current_block,
                    seed@,
                    extrinsic_index,
                    block_number,
                    cur,
                    game_outs,
                );
                assert(next.skip(cur.len() as int) =~= game_outs);
                assert(self@.transfers.subrange(0, l0 as int) =~= before.transfers.subrange(
                    0,
                    l0 as int,
                ));
                assert(m0.hook(ids, (i + 1) as nat, current_block, seed@, extrinsic_index, block_number, next)
                    == (self@, stop, next.len()));
            }
            if let Some(e) = stop {
                proof {
                    lemma_hook_stopped(
                        m0,
                        ids,
                        (i + 1) as nat,
                        ids.len(),
                        current_block,
                        seed@,
                        extrinsic_index,
                        block_number,
                        next,
                    );
                    assert(drawn.hook_outcome(self@, Err(e), current_block, seed@, extrinsic_index, block_number));
                    assert(old(self)@.running_outcome(self@, Err(e), current_block));
                }
                return Err(e);
            }
            proof {
                assert forall|j: int| current_block % 2 == 0 && i + 1 <= j < ids.len() implies points_at_most(
                    #[trigger] self@.results_of(ids[j]),
                    u32::MAX - 255,
                ) by {
                    assert(ids[j] != ids[i as int]);
                    lemma_turn_keeps_other_results(
                        before,
                        id,
                        ids[j],
                        current_block,
                        seed@,
                        extrinsic_index,
                        block_number,
                        game_outs,
                    );
                }
            }
            i = i + 1;
        }
        let r = Ok(());
        assert(drawn.hook_outcome(self@, r, current_block, seed@, extrinsic_index, block_number));
        assert(old(self)@.running_outcome(self@, r, current_block));
        r
    }
}

} // verus!
