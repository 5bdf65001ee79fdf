use vstd::prelude::*;

mod hooks;
mod minigames;
mod pets;

verus! {

use std::collections::HashMap;
use crate::types::{
    AccountId, Balance, BlockNumber, DispatchError, DotLogoOvalPositionBoost, Error, Event, Minigame, MinigameId,
    MinigameResult, PetId, Polkapet,
};
use crate::model::{PalletModel, RuntimeRead, TransferRequest, draw_reads, is_first_index, first_index};
use crate::config::{Config, RandomSubject};

broadcast use vstd::std_specs::hash::group_hash_axioms;

/// The values of a map of vectors, each taken by its view.
pub open spec fn views_of<K, V>(m: Map<K, Vec<V>>) -> Map<K, Seq<V>> {
    m.map_values(|v: Vec<V>| v@)
}

pub(crate) proof fn lemma_views_insert<K, V>(m: Map<K, Vec<V>>, k: K, v: Vec<V>)
    ensures
        views_of(m.insert(k, v)) == views_of(m).insert(k, v@),
{
    assert(views_of(m.insert(k, v)) =~= views_of(m).insert(k, v@));
}

pub(crate) proof fn lemma_views_empty<K, V>()
    ensures
        views_of(Map::<K, Vec<V>>::empty()) == Map::<K, Seq<V>>::empty(),
{
    assert(views_of(Map::<K, Vec<V>>::empty()) =~= Map::<K, Seq<V>>::empty());
}

/// The pallet's storage.
pub struct Pallet {
    max_polkapet_owned: u32,
    pallet_account: AccountId,
    last_pet_id: PetId,
    polkapets_by_id: HashMap<PetId, Polkapet>,
    polkapets_owned: HashMap<AccountId, Vec<PetId>>,
    oval_boost_number: DotLogoOvalPositionBoost,
    last_minigame_id: MinigameId,
    minigame_by_id: HashMap<MinigameId, Minigame>,
    minigame_players: HashMap<MinigameId, Vec<Polkapet>>,
    minigame_owned: HashMap<AccountId, Vec<MinigameId>>,
    running_minigame_ids: Vec<MinigameId>,
    minigame_results: HashMap<MinigameId, Vec<MinigameResult>>,
    events: Vec<Event>,
    requested: Ghost<Seq<TransferRequest>>,
    read_log: Ghost<Seq<RuntimeRead>>,
}

impl View for Pallet {
    type V = PalletModel;

    closed spec fn view(&self) -> PalletModel {
        PalletModel {
            max_owned: self.max_polkapet_owned,
            pallet_account: self.pallet_account,
            last_pet_id: self.last_pet_id,
            pets: self.polkapets_by_id@,
            owned: views_of(self.polkapets_owned@),
            oval_boost: self.oval_boost_number,
            last_minigame_id: self.last_minigame_id,
            games: self.minigame_by_id@,
            players: views_of(self.minigame_players@),
            games_owned: views_of(self.minigame_owned@),
            running: self.running_minigame_ids@,
            results: views_of(self.minigame_results@),
            events: self.events@,
            transfers: self.requested@,
            reads: self.read_log@,
        }
    }
}

/// A copy of a vector of copyable values.
pub(crate) fn copy_vec<T: Copy>(v: &Vec<T>) -> (r: Vec<T>)
    ensures
        r@ == v@,
{
    let mut r: Vec<T> = Vec::new();
    let mut i: usize = 0;
    while i < v.len()
        invariant
            i <= v.len(),
            r@ == v@.subrange(0, i as int),
        decreases v.len() - i,
    {
        r.push(v[i]);
        assert(v@.subrange(0, i as int + 1) =~= v@.subrange(0, i as int).push(v@[i as int]));
        i = i + 1;
    }
    assert(v@.subrange(0, v.len() as int) =~= v@);
    r
}

/// The vector stored under `k`, or an empty one.
pub(crate) fn vec_or_default<K: std::hash::Hash + Eq, T: Copy>(m: &HashMap<K, Vec<T>>, k: &K) -> (r: Vec<T>)
    requires
        vstd::std_specs::hash::obeys_key_model::<K>(),
    ensures
        r@ == (if views_of(m@).contains_key(*k) {
            views_of(m@)[*k]
        } else {
            Seq::empty()
        }),
{
    match m.get(k) {
        Some(v) => copy_vec(v),
        None => Vec::new(),
    }
}

/// The first position of `x` in `v`, if any.
pub(crate) fn position(v: &Vec<PetId>, x: PetId) -> (r: Option<usize>)
    ensures
        match r {
            Some(i) => is_first_index(v@, x, i as int),
            None => !v@.contains(x),
        },
{
    let mut i: usize = 0;
    while i < v.len()
        invariant
            i <= v.len(),
            forall|j: int| 0 <= j < i ==> v@[j] != x,
        decreases v.len() - i,
    {
        if v[i] == x {
            return Some(i);
        }
        i = i + 1;
    }
    None
}

pub(crate) proof fn lemma_first_index_unique<A>(s: Seq<A>, x: A, i: int)
    requires
        is_first_index(s, x, i),
    ensures
        first_index(s, x) == i,
{
    let j = first_index(s, x);
    assert(is_first_index(s, x, j));
    if j < i {
        assert(s[j] != x);
    }
    if i < j {
        assert(s[i] != x);
    }
}

impl Pallet {
    /// The storage is consistent.
    pub open spec fn wf(&self) -> bool {
        self@.consistent()
    }

    /// Empty storage for a pallet whose accounts may own at most `max_polkapet_owned` pets and
    /// whose rewards are held by `pallet_account`.
    pub fn new(max_polkapet_owned: u32, pallet_account: AccountId) -> (pallet: Pallet)
        ensures
            pallet.wf(),
            pallet@ == (PalletModel {
                max_owned: max_polkapet_owned,
                pallet_account,
                last_pet_id: 0,
                pets: Map::empty(),
                owned: Map::empty(),
                oval_boost: DotLogoOvalPositionBoost {
                    up: 0,
                    right_up: 0,
                    left_up: 0,
                    right_down: 0,
                    left_down: 0,
                    down: 0,
                },
                last_minigame_id: 0,
                games: Map::empty(),
                players: Map::empty(),
                games_owned: Map::empty(),
                running: Seq::empty(),
                results: Map::empty(),
                events: Seq::empty(),
                transfers: Seq::empty(),
                reads: Seq::empty(),
            }),
    {
        let pallet = Pallet {
            max_polkapet_owned,
            pallet_account,
            last_pet_id: 0,
            polkapets_by_id: HashMap::new(),
            polkapets_owned: HashMap::new(),
            oval_boost_number: DotLogoOvalPositionBoost {
                up: 0,
                right_up: 0,
                left_up: 0,
                right_down: 0,
                left_down: 0,
                down: 0,
            },
            last_minigame_id: 0,
            minigame_by_id: HashMap::new(),
            minigame_players: HashMap::new(),
            minigame_owned: HashMap::new(),
            running_minigame_ids: Vec::new(),
            minigame_results: HashMap::new(),
            events: Vec::new(),
            requested: Ghost(Seq::empty()),
            read_log: Ghost(Seq::empty()),
        };
        proof {
            lemma_views_empty::<AccountId, PetId>();
            lemma_views_empty::<MinigameId, Polkapet>();
            lemma_views_empty::<AccountId, MinigameId>();
            lemma_views_empty::<MinigameId, MinigameResult>();
        }
        pallet
    }

    /// The account that holds mini-game rewards.
    pub fn account_id(&self) -> (account: AccountId)
        ensures
            account == self@.pallet_account,
    {
        self.pallet_account
    }

    /// Asks the runtime's currency to move `amount` from `from` to `to`, and records the request
    /// with the currency's answer.
    pub(crate) fn pay<C: Config>(&mut self, env: &mut C, from: AccountId, to: AccountId, amount: Balance) -> (r:
        Result<(), DispatchError>)
        requires
            old(self).wf(),
        ensures
            final(self).wf(),
            final(self)@ == old(self)@.with_transfer(from, to, amount, r),
            r is Ok ==> r == Ok::<(), DispatchError>(()),
    {
        let r = match env.transfer(from, to, amount) {
            Ok(()) => Ok(()),
            Err(e) => Err(e),
        };
        proof {
            self.requested@ = self.requested@.push(
                TransferRequest { from, to, amount, outcome: r },
            );
            assert(self@ =~= old(self)@.with_transfer(from, to, amount, r));
        }
        r
    }

    /// Reads a random seed for `subject` from the runtime, and records it.
    pub(crate) fn read_random<C: Config>(&mut self, env: &C, subject: RandomSubject) -> (seed: [u8; 32])
        requires
            old(self).wf(),
        ensures
            final(self).wf(),
            final(self)@ == old(self)@.with_reads(seq![RuntimeRead::Random { subject, seed }]),
    {
        let seed = env.random(subject);
        proof {
            self.read_log@ = self.read_log@.push(RuntimeRead::Random { subject, seed });
            assert(self@.reads =~= old(self)@.reads + seq![RuntimeRead::Random { subject, seed }]);
            assert(self@ == old(self)@.with_reads(seq![RuntimeRead::Random { subject, seed }]));
        }
        seed
    }

    /// Reads the index of the extrinsic being applied from the runtime, and records it.
    pub(crate) fn read_extrinsic_index<C: Config>(&mut self, env: &C) -> (index: Option<u32>)
        requires
            old(self).wf(),
        ensures
            final(self).wf(),
            final(self)@ == old(self)@.with_reads(seq![RuntimeRead::ExtrinsicIndex { index }]),
    {
        let index = env.extrinsic_index();
        proof {
            self.read_log@ = self.read_log@.push(RuntimeRead::ExtrinsicIndex { index });
            assert(self@.reads =~= old(self)@.reads + seq![RuntimeRead::ExtrinsicIndex { index }]);
            assert(self@ == old(self)@.with_reads(seq![RuntimeRead::ExtrinsicIndex { index }]));
        }
        index
    }

    /// Reads the current block number from the runtime, and records it.
    pub(crate) fn read_block_number<C: Config>(&mut self, env: &C) -> (number: BlockNumber)
        requires
            old(self).wf(),
        ensures
            final(self).wf(),
            final(self)@ == old(self)@.with_reads(seq![RuntimeRead::BlockNumber { number }]),
    {
        let number = env.block_number();
        proof {
            self.read_log@ = self.read_log@.push(RuntimeRead::BlockNumber { number });
            assert(self@.reads =~= old(self)@.reads + seq![RuntimeRead::BlockNumber { number }]);
            assert(self@ == old(self)@.with_reads(seq![RuntimeRead::BlockNumber { number }]));
        }
        number
    }

    /// One random draw: reads a seed for `subject`, the extrinsic index and the block number
    /// from the runtime, and records them.
    pub(crate) fn draw<C: Config>(&mut self, env: &C, subject: RandomSubject) -> (r: (
        [u8; 32],
        Option<u32>,
        BlockNumber,
    ))
        requires
            old(self).wf(),
        ensures
            final(self).wf(),
            final(self)@ == old(self)@.with_reads(draw_reads(subject, r.0, r.1, r.2)),
    {
        let seed = self.read_random(env, subject);
        let index = self.read_extrinsic_index(env);
        let number = self.read_block_number(env);
        assert(self@.reads =~= old(self)@.reads + draw_reads(subject, seed, index, number));
        assert(self@ == old(self)@.with_reads(draw_reads(subject, seed, index, number)));
        (seed, index, number)
    }

    /// Hands out the next pet id.
    pub(crate) fn get_new_pet_id_and_increase(&mut self) -> (r: Result<PetId, DispatchError>)
        ensures
            old(self)@.last_pet_id == u64::MAX ==> r == Err::<PetId, DispatchError>(
                DispatchError::Module(Error::PetIdOverflow),
            ) && final(self)@ == old(self)@,
            old(self)@.last_pet_id < u64::MAX ==> r == Ok::<PetId, DispatchError>(
                (old(self)@.last_pet_id + 1) as u64,
            ) && final(self)@ == (PalletModel {
                last_pet_id: (old(self)@.last_pet_id + 1) as u64,
                ..old(self)@
            }),
    {
        let new_last_id = match self.last_pet_id.checked_add(1) {
            Some(id) => id,
            None => return Err(DispatchError::Module(Error::PetIdOverflow)),
        };
        self.last_pet_id = new_last_id;
        Ok(new_last_id)
    }

    /// Hands out the next mini-game id.
    pub(crate) fn get_new_minigame_id_and_increase(&mut self) -> (r: Result<MinigameId, DispatchError>)
        ensures
            old(self)@.last_minigame_id == u64::MAX ==> r == Err::<MinigameId, DispatchError>(
                DispatchError::Module(Error::MinigameIdOverflow),
            ) && final(self)@ == old(self)@,
            old(self)@.last_minigame_id < u64::MAX ==> r == Ok::<MinigameId, DispatchError>(
                (old(self)@.last_minigame_id + 1) as u64,
            ) && final(self)@ == (PalletModel {
                last_minigame_id: (old(self)@.last_minigame_id + 1) as u64,
                ..old(self)@
            }),
    {
        let new_last_id = match self.last_minigame_id.checked_add(1) {
            Some(id) => id,
            None => return Err(DispatchError::Module(Error::MinigameIdOverflow)),
        };
        self.last_minigame_id = new_last_id;
        Ok(new_last_id)
    }

    /// The pet stored under `pet_id`, if any.
    pub(crate) fn pet(&self, pet_id: PetId) -> (r: Option<Polkapet>)
        ensures
            match r {
                Some(p) => self@.pets.contains_key(pet_id) && p == self@.pets[pet_id],
                None => !self@.pets.contains_key(pet_id),
            },
    {
        match self.polkapets_by_id.get(&pet_id) {
            Some(p) => Some(*p),
            None => None,
        }
    }
}

impl Pallet {
    /// The last pet id handed out.
    pub fn last_pet_id(&self) -> (id: PetId)
        ensures
            id == self@.last_pet_id,
    {
        self.last_pet_id
    }

    /// The pet stored under `pet_id`, if any.
    pub fn get_pet_by_id(&self, pet_id: PetId) -> (r: Option<Polkapet>)
        ensures
            r == (if self@.pets.contains_key(pet_id) {
                Some(self@.pets[pet_id])
            } else {
                None::<Polkapet>
            }),
    {
        self.pet(pet_id)
    }

    /// Ids of the pets that `account` owns.
    pub fn polkapets_owned(&self, account: AccountId) -> (ids: Vec<PetId>)
        ensures
            ids@ == self@.owned_of(account),
    {
        vec_or_default(&self.polkapets_owned, &account)
    }

    /// The current boost of each oval position.
    pub fn oval_boost_number(&self) -> (boost: DotLogoOvalPositionBoost)
        ensures
            boost == self@.oval_boost,
    {
        self.oval_boost_number
    }

    /// The last mini-game id handed out.
    pub fn last_minigame_id(&self) -> (id: MinigameId)
        ensures
            id == self@.last_minigame_id,
    {
        self.last_minigame_id
    }

    /// The mini-game stored under `minigame_id`, if any.
    pub fn get_minigame_by_id(&self, minigame_id: MinigameId) -> (r: Option<&Minigame>)
        ensures
            match r {
                Some(game) => self@.games.contains_key(minigame_id) && *game == self@.games[minigame_id],
                None => !self@.games.contains_key(minigame_id),
            },
    {
        self.minigame_by_id.get(&minigame_id)
    }

    /// Snapshots of the pets that joined mini-game `minigame_id`, if any joined or it finished.
    pub fn get_minigame_players(&self, minigame_id: MinigameId) -> (r: Option<Vec<Polkapet>>)
        ensures
            match r {
                Some(players) => self@.players.contains_key(minigame_id) && players@
                    == self@.players[minigame_id],
                None => !self@.players.contains_key(minigame_id),
            },
    {
        match self.minigame_players.get(&minigame_id) {
            Some(players) => Some(copy_vec(players)),
            None => None,
        }
    }

    /// Ids of the mini-games that `account` created.
    pub fn minigame_owned(&self, account: AccountId) -> (ids: Vec<MinigameId>)
        ensures
            ids@ == self@.games_owned_of(account),
    {
        vec_or_default(&self.minigame_owned, &account)
    }

    /// Ids of the mini-games under way.
    pub fn running_minigame_id(&self) -> (ids: Vec<MinigameId>)
        ensures
            ids@ == self@.running,
    {
        copy_vec(&self.running_minigame_ids)
    }

    /// The scores of mini-game `minigame_id`, if it has any.
    pub fn finished_minigame_results(&self, minigame_id: MinigameId) -> (r: Option<
        Vec<MinigameResult>,
    >)
        ensures
            match r {
                Some(results) => self@.results.contains_key(minigame_id) && results@
                    == self@.results[minigame_id],
                None => !self@.results.contains_key(minigame_id),
            },
    {
        match self.minigame_results.get(&minigame_id) {
            Some(results) => Some(copy_vec(results)),
            None => None,
        }
    }

    /// The events deposited so far.
    pub fn events(&self) -> (events: &Vec<Event>)
        ensures
            events@ == self@.events,
    {
        &self.events
    }

    /// Hands out the events deposited so far and forgets them.
    pub fn take_events(&mut self) -> (events: Vec<Event>)
        ensures
            events@ == old(self)@.events,
            final(self)@ == (PalletModel { events: Seq::empty(), ..old(self)@ }),
    {
        let mut events: Vec<Event> = Vec::new();
        std::mem::swap(&mut events, &mut self.events);
        assert(self@ =~= (PalletModel { events: Seq::empty(), ..old(self)@ }));
        events
    }
}

} // verus!
