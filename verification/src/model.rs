use vstd::prelude::*;

verus! {

use crate::types::{
    AccountId, Balance, BlockNumber, DispatchError, ArithmeticError, DotLogoOvalPosition,
    DotLogoOvalPositionBoost, Error, Event, Gender, GameStatus, Minigame, MinigameId,
    MinigameResult, PetId, Polkapet,
};
use crate::genetics::{boost_for, gender_of, mixed_dna, oval_of};
use crate::hashing::random_hash_spec;
use crate::scores::{sort_by_point, points_at_most};
use crate::genetics::{boost_of, death_number_of};
use crate::reward::reward_share;
use crate::config::{RandomSubject, or_zero};

/// A payment that the pallet asked of the runtime's currency, with the currency's answer.
pub struct TransferRequest {
    pub from: AccountId,
    pub to: AccountId,
    pub amount: Balance,
    pub outcome: Result<(), DispatchError>,
}

/// A value the pallet read from the runtime.
pub enum RuntimeRead {
    /// A random seed for a subject.
    Random { subject: RandomSubject, seed: [u8; 32] },
    /// The index of the extrinsic being applied, if one is.
    ExtrinsicIndex { index: Option<u32> },
    /// The current block number.
    BlockNumber { number: BlockNumber },
}

/// What one random draw reads from the runtime, in order: a seed for `subject`, the extrinsic
/// index and the block number.
pub open spec fn draw_reads(
    subject: RandomSubject,
    seed: [u8; 32],
    index: Option<u32>,
    number: BlockNumber,
) -> Seq<RuntimeRead> {
    seq![
        RuntimeRead::Random { subject, seed },
        RuntimeRead::ExtrinsicIndex { index },
        RuntimeRead::BlockNumber { number },
    ]
}

/// What creating or breeding a pet reads from the runtime, in order: a draw for the DNA and
/// gender, then a seed for the oval position.
pub open spec fn creation_reads(
    gender_seed: [u8; 32],
    oval_seed: [u8; 32],
    index: Option<u32>,
    number: BlockNumber,
) -> Seq<RuntimeRead> {
    draw_reads(RandomSubject::Gender, gender_seed, index, number).push(
        RuntimeRead::Random { subject: RandomSubject::DotLogoOvalPosition, seed: oval_seed },
    )
}

/// The storage of the pallet, as mathematical values.
pub struct PalletModel {
    /// The most pets one account may own.
    pub max_owned: u32,
    /// The account that holds mini-game rewards.
    pub pallet_account: AccountId,
    /// The last pet id handed out.
    pub last_pet_id: u64,
    /// Pets by id.
    pub pets: Map<PetId, Polkapet>,
    /// Ids of the pets each account owns (a missing account owns none).
    pub owned: Map<AccountId, Seq<PetId>>,
    /// The current boost of each oval position.
    pub oval_boost: DotLogoOvalPositionBoost,
    /// The last mini-game id handed out.
    pub last_minigame_id: u64,
    /// Mini-games by id.
    pub games: Map<MinigameId, Minigame>,
    /// Snapshots of the pets that joined each mini-game.
    pub players: Map<MinigameId, Seq<Polkapet>>,
    /// Ids of the mini-games each account created.
    pub games_owned: Map<AccountId, Seq<MinigameId>>,
    /// Ids of the mini-games under way.
    pub running: Seq<MinigameId>,
    /// Scores of each mini-game.
    pub results: Map<MinigameId, Seq<MinigameResult>>,
    /// Events deposited so far.
    pub events: Seq<Event>,
    /// Payments asked of the runtime's currency so far, in order, with its answers.
    pub transfers: Seq<TransferRequest>,
    /// Values read from the runtime so far, in order.
    pub reads: Seq<RuntimeRead>,
}

/// Whether `i` is the first position of `x` in `s`.
pub open spec fn is_first_index<A>(s: Seq<A>, x: A, i: int) -> bool {
    &&& 0 <= i < s.len()
    &&& s[i] == x
    &&& forall|j: int| 0 <= j < i ==> s[j] != x
}

/// The first position of `x` in `s` (meaningful when `s` contains `x`).
pub open spec fn first_index<A>(s: Seq<A>, x: A) -> int {
    choose|i: int| is_first_index(s, x, i)
}

proof fn lemma_first_index_from(s: Seq<PetId>, x: PetId, i: int)
    requires
        0 <= i < s.len(),
        s[i] == x,
    ensures
        exists|k: int| is_first_index(s, x, k),
    decreases i,
{
    if exists|j: int| 0 <= j < i && s[j] == x {
        let j = choose|j: int| 0 <= j < i && s[j] == x;
        lemma_first_index_from(s, x, j);
    } else {
        assert(is_first_index(s, x, i));
    }
}

/// A sequence that holds `x` has a first position of `x`.
pub proof fn lemma_first_index(s: Seq<PetId>, x: PetId)
    requires
        s.contains(x),
    ensures
        is_first_index(s, x, first_index(s, x)),
{
    let i = choose|i: int| 0 <= i < s.len() && s[i] == x;
    lemma_first_index_from(s, x, i);
}

/// `s` without its element at `i`, the last element taking its place (`Vec::swap_remove`).
pub open spec fn swap_removed<A>(s: Seq<A>, i: int) -> Seq<A> {
    s.update(i, s.last()).drop_last()
}

/// A pet as minted: no price, no power, alive, never respawned, in no mini-game.
pub open spec fn fresh_pet(
    owner: AccountId,
    dna: [u8; 16],
    gender: Gender,
    oval_position: DotLogoOvalPosition,
    pet_id: PetId,
) -> Polkapet {
    Polkapet {
        dna,
        price: None,
        gender,
        owner,
        oval_position,
        power: 0,
        death: false,
        respawn: 0,
        pet_id,
        is_join_minigame: false,
    }
}

/// A mini-game as created: not started.
pub open spec fn fresh_game(
    game_id: MinigameId,
    owner: AccountId,
    description: Vec<u8>,
    reward: Option<Balance>,
    max_player: Option<u32>,
    block_duration: u32,
) -> Minigame {
    Minigame {
        game_id,
        owner,
        description,
        reward,
        max_player,
        block_duration,
        finish_block: 0,
        status: GameStatus::Prepare,
    }
}

/// A pet's power after a respawn: nine tenths of it, rounded down.
pub open spec fn respawn_power(power: u32) -> u32 {
    (power * 9 / 10) as u32
}

/// The initial score line of each player of a mini-game.
pub open spec fn initial_results(players: Seq<Polkapet>) -> Seq<MinigameResult> {
    players.map_values(|p: Polkapet| MinigameResult { pet_id: p.pet_id, point: 0 })
}

/// A pallet error, if any, as a call error.
pub open spec fn module_error(e: Option<Error>) -> Option<DispatchError> {
    match e {
        Some(x) => Some(DispatchError::Module(x)),
        None => None,
    }
}

impl PalletModel {
    /// Ids of the pets `account` owns.
    pub open spec fn owned_of(self, account: AccountId) -> Seq<PetId> {
        if self.owned.contains_key(account) {
            self.owned[account]
        } else {
            Seq::empty()
        }
    }

    /// Ids of the mini-games `account` created.
    pub open spec fn games_owned_of(self, account: AccountId) -> Seq<MinigameId> {
        if self.games_owned.contains_key(account) {
            self.games_owned[account]
        } else {
            Seq::empty()
        }
    }

    /// The players of mini-game `id`.
    pub open spec fn players_of(self, id: MinigameId) -> Seq<Polkapet> {
        if self.players.contains_key(id) {
            self.players[id]
        } else {
            Seq::empty()
        }
    }

    /// The scores of mini-game `id`.
    pub open spec fn results_of(self, id: MinigameId) -> Seq<MinigameResult> {
        if self.results.contains_key(id) {
            self.results[id]
        } else {
            Seq::empty()
        }
    }

    /// What every operation keeps: each pet is stored under its own id, no account owns more
    /// pets than allowed, the ownership lists name existing pets, each pet at most once, and
    /// every id up to the last one handed out names a pet.
    pub open spec fn consistent(self) -> bool {
        &&& forall|id: PetId| #[trigger] self.pets.contains_key(id) ==> self.pets[id].pet_id == id
        &&& forall|a: AccountId| #[trigger]
            self.owned.contains_key(a) ==> self.owned[a].len() <= self.max_owned
        &&& self.owned_ids_sound()
        &&& self.games_sound()
        &&& forall|id: PetId| 0 < id <= self.last_pet_id ==> #[trigger] self.pets.contains_key(id)
    }

    /// Every mini-game id is at most the last one handed out, and the running list names the
    /// mini-games under way, each once.
    pub open spec fn games_sound(self) -> bool {
        &&& forall|g: MinigameId| #[trigger] self.games.contains_key(g) ==> g <= self.last_minigame_id
        &&& forall|i: int|
            0 <= i < self.running.len() ==> self.games.contains_key(#[trigger] self.running[i])
                && self.games[self.running[i]].status == GameStatus::OnGoing
        &&& forall|g: MinigameId|
            #[trigger] self.games.contains_key(g) && self.games[g].status == GameStatus::OnGoing
                ==> self.running.contains(g)
        &&& self.running.no_duplicates()
    }

    /// Every id in an ownership list names an existing pet, and no id is listed twice, in one
    /// list or in two.
    pub open spec fn owned_ids_sound(self) -> bool {
        &&& forall|a: AccountId, i: int|
            self.owned.contains_key(a) && 0 <= i < self.owned[a].len() ==> self.pets.contains_key(
                #[trigger] self.owned[a][i],
            )
        &&& forall|a: AccountId, b: AccountId, i: int, j: int|
            self.owned.contains_key(a) && self.owned.contains_key(b) && 0 <= i < self.owned[a].len()
                && 0 <= j < self.owned[b].len() && (a != b || i != j) ==> #[trigger] self.owned[a][i]
                != #[trigger] self.owned[b][j]
    }

    /// The same storage with one more event.
    pub open spec fn with_event(self, e: Event) -> PalletModel {
        PalletModel { events: self.events.push(e), ..self }
    }

    /// The same storage after asking the currency to move `amount` from `from` to `to`, which
    /// answered `outcome`.
    pub open spec fn with_transfer(
        self,
        from: AccountId,
        to: AccountId,
        amount: Balance,
        outcome: Result<(), DispatchError>,
    ) -> PalletModel {
        PalletModel {
            transfers: self.transfers.push(TransferRequest { from, to, amount, outcome }),
            ..self
        }
    }

    /// The same storage after reading `rs` from the runtime.
    pub open spec fn with_reads(self, rs: Seq<RuntimeRead>) -> PalletModel {
        PalletModel { reads: self.reads + rs, ..self }
    }

    /// The same storage after asking the currency for the payments `pays`, each from `from`,
    /// which it answered with `outs` in turn.
    pub open spec fn with_requests(
        self,
        from: AccountId,
        pays: Seq<(AccountId, Balance)>,
        outs: Seq<Result<(), DispatchError>>,
    ) -> PalletModel {
        PalletModel {
            transfers: self.transfers + Seq::new(
                pays.len(),
                |i: int| TransferRequest { from, to: pays[i].0, amount: pays[i].1, outcome: outs[i] },
            ),
            ..self
        }
    }

    /// The same storage with one pet replaced.
    pub open spec fn with_pet(self, pet: Polkapet) -> PalletModel {
        PalletModel { pets: self.pets.insert(pet.pet_id, pet), ..self }
    }

    // ---- minting ----
    /// Why minting pet `pet_id` for `owner` fails, if it does.
    pub open spec fn mint_error(self, owner: AccountId, pet_id: PetId) -> Option<Error> {
        if self.pets.contains_key(pet_id) {
            Some(Error::DuplicatePolkapet)
        } else if self.owned_of(owner).len() >= self.max_owned {
            Some(Error::TooManyOwned)
        } else {
            None
        }
    }

    /// The storage after minting a pet.
    pub open spec fn minted(
        self,
        owner: AccountId,
        dna: [u8; 16],
        gender: Gender,
        oval_position: DotLogoOvalPosition,
        pet_id: PetId,
    ) -> PalletModel {
        PalletModel {
            pets: self.pets.insert(pet_id, fresh_pet(owner, dna, gender, oval_position, pet_id)),
            owned: self.owned.insert(owner, self.owned_of(owner).push(pet_id)),
            events: self.events.push(Event::Created { polkapet: pet_id, owner }),
            ..self
        }
    }

    /// Why creating a pet for `sender` fails, if it does.
    pub open spec fn create_error(self, sender: AccountId) -> Option<DispatchError> {
        if self.last_pet_id == u64::MAX {
            Some(DispatchError::Module(Error::PetIdOverflow))
        } else {
            module_error(self.mint_error(sender, (self.last_pet_id + 1) as u64))
        }
    }

    /// The storage after creating a pet whose DNA and oval position were drawn from the given
    /// random seeds, extrinsic index and block number.
    pub open spec fn created(
        self,
        sender: AccountId,
        gender_seed: Seq<u8>,
        oval_seed: Seq<u8>,
        extrinsic_index: u32,
        block_number: BlockNumber,
    ) -> PalletModel {
        let id = (self.last_pet_id + 1) as u64;
        let dna = random_hash_spec(gender_seed, id, 0, extrinsic_index, block_number);
        let oval = oval_of(random_hash_spec(oval_seed, id, 0, extrinsic_index, block_number)[0]);
        PalletModel { last_pet_id: id, ..self }.minted(
            sender,
            seq_to_dna(dna),
            gender_of(dna),
            oval,
            id,
        )
    }

    // ---- prices ----
    /// Why `sender` may not set the price of pet `pet_id`, if it may not.
    pub open spec fn price_error(self, sender: AccountId, pet_id: PetId) -> Option<DispatchError> {
        if !self.pets.contains_key(pet_id) {
            Some(DispatchError::Module(Error::NoPolkapet))
        } else if self.pets[pet_id].owner != sender {
            Some(DispatchError::Module(Error::NotOwner))
        } else {
            None
        }
    }

    /// The storage after setting the price of pet `pet_id`.
    pub open spec fn priced(self, pet_id: PetId, price: Option<Balance>) -> PalletModel {
        self.with_pet(Polkapet { price, ..self.pets[pet_id] }).with_event(
            Event::PriceSet { polkapet: pet_id, price },
        )
    }

    // ---- transfers ----
    /// Why moving pet `pet_id` to `to` fails before any payment, if it does.
    pub open spec fn transfer_error(
        self,
        pet_id: PetId,
        to: AccountId,
        maybe_limit_price: Option<Balance>,
    ) -> Option<Error> {
        if !self.pets.contains_key(pet_id) {
            Some(Error::NoPolkapet)
        } else {
            let pet = self.pets[pet_id];
            let from = pet.owner;
            if from == to {
                Some(Error::TransferToSelf)
            } else if !self.owned_of(from).contains(pet_id) {
                Some(Error::NoPolkapet)
            } else if self.owned_of(to).len() >= self.max_owned {
                Some(Error::TooManyOwned)
            } else {
                match maybe_limit_price {
                    None => None,
                    Some(limit) => match pet.price {
                        None => Some(Error::NotForSale),
                        Some(price) => if limit > price {
                            None
                        } else {
                            Some(Error::BidPriceTooLow)
                        },
                    },
                }
            }
        }
    }

    /// The price that the new owner pays for pet `pet_id`: its asking price, on a sale.
    pub open spec fn sale_price(self, pet_id: PetId, maybe_limit_price: Option<Balance>) -> Option<
        Balance,
    > {
        match maybe_limit_price {
            None => None,
            Some(_) => self.pets[pet_id].price,
        }
    }

    /// The storage after moving pet `pet_id` to `to`.
    pub open spec fn transferred(
        self,
        pet_id: PetId,
        to: AccountId,
        maybe_limit_price: Option<Balance>,
    ) -> PalletModel {
        let pet = self.pets[pet_id];
        let from = pet.owner;
        let from_owned = self.owned_of(from);
        let from_owned_after = swap_removed(from_owned, first_index(from_owned, pet_id));
        let sold = match self.sale_price(pet_id, maybe_limit_price) {
            Some(price) => self.events.push(
                Event::Sold { seller: from, buyer: to, polkapet: pet_id, price },
            ),
            None => self.events,
        };
        PalletModel {
            pets: self.pets.insert(pet_id, Polkapet { owner: to, price: None, ..pet }),
            owned: self.owned.insert(to, self.owned_of(to).push(pet_id)).insert(
                from,
                from_owned_after,
            ),
            events: sold.push(Event::Transferred { from, to, polkapet: pet_id }),
            ..self
        }
    }

    // ---- breeding ----
    /// Why `sender` may not breed pets `parent_1` and `parent_2`, if it may not.
    pub open spec fn breed_error(self, sender: AccountId, parent_1: PetId, parent_2: PetId) -> Option<
        DispatchError,
    > {
        if !self.pets.contains_key(parent_1) || !self.pets.contains_key(parent_2) {
            Some(DispatchError::Module(Error::NoPolkapet))
        } else if self.pets[parent_1].owner != sender || self.pets[parent_2].owner != sender {
            Some(DispatchError::Module(Error::NotOwner))
        } else if self.pets[parent_1].gender == self.pets[parent_2].gender {
            Some(DispatchError::Module(Error::CantBreed))
        } else {
            self.create_error(sender)
        }
    }

    /// The storage after breeding, the random DNA and oval position drawn from the given seeds.
    pub open spec fn bred(
        self,
        sender: AccountId,
        parent_1: PetId,
        parent_2: PetId,
        gender_seed: Seq<u8>,
        oval_seed: Seq<u8>,
        extrinsic_index: u32,
        block_number: BlockNumber,
    ) -> PalletModel {
        let count = self.last_pet_id;
        let random = random_hash_spec(gender_seed, count, 0, extrinsic_index, block_number);
        let child = mixed_dna(self.pets[parent_1].dna@, self.pets[parent_2].dna@, random);
        let oval = oval_of(random_hash_spec(oval_seed, count, 0, extrinsic_index, block_number)[0]);
        let id = (count + 1) as u64;
        PalletModel { last_pet_id: id, ..self }.minted(
            sender,
            seq_to_dna(child),
            gender_of(random),
            oval,
            id,
        )
    }

    // ---- power ----
    /// The boost that pet `pet_id` gains from its oval position.
    pub open spec fn boost_of_pet(self, pet_id: PetId) -> u8 {
        boost_for(self.oval_boost, self.pets[pet_id].oval_position)
    }

    /// Why empowering pet `pet_id` fails, if it does.
    pub open spec fn empower_error(self, pet_id: PetId) -> Option<DispatchError> {
        if !self.pets.contains_key(pet_id) {
            Some(DispatchError::Module(Error::NoPolkapet))
        } else if self.pets[pet_id].power + self.boost_of_pet(pet_id) > u32::MAX {
            Some(DispatchError::Arithmetic(ArithmeticError::Overflow))
        } else {
            None
        }
    }

    /// The storage after empowering pet `pet_id`.
    pub open spec fn empowered(self, pet_id: PetId) -> PalletModel {
        let power = (self.pets[pet_id].power + self.boost_of_pet(pet_id)) as u32;
        self.with_pet(Polkapet { power, ..self.pets[pet_id] }).with_event(
            Event::Empowered { polkapet: pet_id, power },
        )
    }

    /// Why `who` may not respawn pet `pet_id`, if it may not.
    pub open spec fn respawn_error(self, who: AccountId, pet_id: PetId) -> Option<DispatchError> {
        if !self.pets.contains_key(pet_id) {
            Some(DispatchError::Module(Error::NoPolkapet))
        } else if self.pets[pet_id].owner != who {
            Some(DispatchError::Module(Error::NotOwner))
        } else if self.pets[pet_id].respawn == u32::MAX {
            Some(DispatchError::Arithmetic(ArithmeticError::Overflow))
        } else {
            None
        }
    }

    /// The storage after respawning pet `pet_id`.
    pub open spec fn respawned(self, pet_id: PetId) -> PalletModel {
        let pet = self.pets[pet_id];
        self.with_pet(
            Polkapet {
                respawn: (pet.respawn + 1) as u32,
                power: respawn_power(pet.power),
                death: false,
                ..pet
            },
        ).with_event(Event::Respawn { polkapet: pet_id })
    }

    // ---- mini-games ----
    /// Why creating a mini-game fails, if it does (before any reward is paid in).
    pub open spec fn create_game_error(self, block_duration: u32) -> Option<DispatchError> {
        if !(0 < block_duration <= 100) {
            Some(DispatchError::Module(Error::BlockDurationInvalid))
        } else if self.last_minigame_id == u64::MAX {
            Some(DispatchError::Module(Error::MinigameIdOverflow))
        } else {
            None
        }
    }

    /// The storage after creating a mini-game.
    pub open spec fn game_created(
        self,
        sender: AccountId,
        description: Vec<u8>,
        reward: Option<Balance>,
        max_player: Option<u32>,
        block_duration: u32,
    ) -> PalletModel {
        let id = (self.last_minigame_id + 1) as u64;
        let events = match reward {
            Some(value) => self.events.push(Event::GameCreated { id, reward: value }),
            None => self.events,
        };
        PalletModel {
            last_minigame_id: id,
            games: self.games.insert(
                id,
                fresh_game(id, sender, description, reward, max_player, block_duration),
            ),
            games_owned: self.games_owned.insert(sender, self.games_owned_of(sender).push(id)),
            events,
            ..self
        }
    }

    /// Why pet `pet_id` may not join mini-game `game_id`, if it may not.
    pub open spec fn join_error(self, game_id: MinigameId, pet_id: PetId) -> Option<DispatchError> {
        if !self.games.contains_key(game_id) {
            Some(DispatchError::Module(Error::NoMinigame))
        } else if self.games[game_id].status != GameStatus::Prepare {
            Some(DispatchError::Module(Error::GameStartedOrEnded))
        } else if !self.pets.contains_key(pet_id) {
            Some(DispatchError::Module(Error::NoPolkapet))
        } else if self.pets[pet_id].is_join_minigame {
            Some(DispatchError::Module(Error::AlreadyJoinGame))
        } else if self.players_of(game_id).contains(
            Polkapet { is_join_minigame: true, ..self.pets[pet_id] },
        ) {
            Some(DispatchError::Module(Error::AlreadyJoinGame))
        } else {
            match self.games[game_id].max_player {
                Some(max_player) => if max_player > (self.players_of(game_id).len() as u32) {
                    None
                } else {
                    Some(DispatchError::Module(Error::ExceedingMaxPlayers))
                },
                None => None,
            }
        }
    }

    /// The storage after pet `pet_id` joined mini-game `game_id`.
    pub open spec fn joined(self, game_id: MinigameId, pet_id: PetId) -> PalletModel {
        let pet = Polkapet { is_join_minigame: true, ..self.pets[pet_id] };
        PalletModel {
            pets: self.pets.insert(pet_id, pet),
            players: self.players.insert(game_id, self.players_of(game_id).push(pet)),
            ..self
        }
    }

    /// Why `who` may not start mini-game `game_id` at block `current_block`, if it may not.
    pub open spec fn start_error(self, who: AccountId, game_id: MinigameId, current_block: u32) -> Option<
        DispatchError,
    > {
        if !self.games.contains_key(game_id) {
            Some(DispatchError::Module(Error::NoMinigame))
        } else if self.games[game_id].status != GameStatus::Prepare {
            Some(DispatchError::Module(Error::GameStartedOrEnded))
        } else if self.games[game_id].owner != who {
            Some(DispatchError::Module(Error::NotOwner))
        } else if current_block + self.games[game_id].block_duration > u32::MAX {
            Some(DispatchError::Arithmetic(ArithmeticError::Overflow))
        } else if self.players_of(game_id).len() == 0 {
            Some(DispatchError::Module(Error::NoPlayer))
        } else {
            None
        }
    }

    /// The storage after mini-game `game_id` started at block `current_block`.
    pub open spec fn started(self, game_id: MinigameId, current_block: u32) -> PalletModel {
        let game = self.games[game_id];
        PalletModel {
            games: self.games.insert(
                game_id,
                Minigame {
                    status: GameStatus::OnGoing,
                    finish_block: (current_block + game.block_duration) as u32,
                    ..game
                },
            ),
            running: self.running.push(game_id),
            results: self.results.insert(
                game_id,
                self.results_of(game_id) + initial_results(self.players_of(game_id)),
            ),
            ..self
        }
    }
}

/// Score lines after one round of play: each pet gains the leading byte of a hash drawn for it.
pub open spec fn bumped(
    s: Seq<MinigameResult>,
    seed: Seq<u8>,
    count: u64,
    extrinsic_index: u32,
    block_number: BlockNumber,
) -> Seq<MinigameResult> {
    s.map_values(
        |r: MinigameResult|
            MinigameResult {
                point: (r.point + random_hash_spec(
                    seed,
                    count,
                    r.pet_id,
                    extrinsic_index,
                    block_number,
                )[0]) as u32,
                ..r
            },
    )
}

/// A pet released from its mini-game.
pub open spec fn unjoined(p: Polkapet) -> Polkapet {
    Polkapet { is_join_minigame: false, ..p }
}

/// Pets after writing back the released snapshot of each player, in order.
pub open spec fn release_pets(pets: Map<PetId, Polkapet>, players: Seq<Polkapet>) -> Map<
    PetId,
    Polkapet,
>
    decreases players.len(),
{
    if players.len() == 0 {
        pets
    } else {
        release_pets(pets, players.drop_last()).insert(
            players.last().pet_id,
            unjoined(players.last()),
        )
    }
}

/// The score lines of the winners: those with the points of the last line.
pub open spec fn winners(results: Seq<MinigameResult>) -> Seq<MinigameResult> {
    if results.len() == 0 {
        Seq::empty()
    } else {
        results.filter(|r: MinigameResult| r.point == results.last().point)
    }
}

/// The number of leading winners whose pets exist.
pub open spec fn paid_winners(pets: Map<PetId, Polkapet>, winners: Seq<MinigameResult>) -> nat
    decreases winners.len(),
{
    if winners.len() == 0 {
        0
    } else if pets.contains_key(winners[0].pet_id) {
        1 + paid_winners(pets, winners.subrange(1, winners.len() as int))
    } else {
        0
    }
}

/// The reward payments of a finished mini-game, one share to the owner of each winner, up to
/// the first winner whose pet is gone.
pub open spec fn payouts(
    pets: Map<PetId, Polkapet>,
    winners: Seq<MinigameResult>,
    share: Balance,
) -> Seq<(AccountId, Balance)> {
    winners.subrange(0, paid_winners(pets, winners) as int).map_values(
        |w: MinigameResult| (pets[w.pet_id].owner, share),
    )
}

/// The currency's answers to the payments in `log` after its first `n`.
pub open spec fn answers_after(log: Seq<TransferRequest>, n: nat) -> Seq<Result<(), DispatchError>> {
    log.skip(n as int).map_values(|t: TransferRequest| t.outcome)
}

/// How many of `n` payments are asked for when the currency answers them with `outs` in turn:
/// all of them, or those up to and including the first refused one.
pub open spec fn payments_made(outs: Seq<Result<(), DispatchError>>, n: nat) -> nat
    decreases n,
{
    if n == 0 {
        0
    } else if outs.len() > 0 && outs[0] is Err {
        1
    } else {
        1 + payments_made(
            if outs.len() > 0 {
                outs.drop_first()
            } else {
                outs
            },
            (n - 1) as nat,
        )
    }
}

/// The error of the last of `made` payments answered by `outs`, if it was refused.
pub open spec fn last_refusal(outs: Seq<Result<(), DispatchError>>, made: nat) -> Option<
    DispatchError,
> {
    if made == 0 {
        None
    } else {
        match outs[made - 1] {
            Err(e) => Some(e),
            Ok(_) => None,
        }
    }
}

/// The 16 bytes of a sequence as an array.
pub open spec fn seq_to_dna(s: Seq<u8>) -> [u8; 16] {
    choose|a: [u8; 16]| a@ == s
}

/// An array is the array of its own bytes.
pub proof fn lemma_seq_to_dna(a: [u8; 16])
    ensures
        seq_to_dna(a@) == a,
{
    broadcast use vstd::array::axiom_array_ext_equal;

    let b = seq_to_dna(a@);
    assert(b@ == a@);
    assert(b =~= a);
}

impl PalletModel {
    /// The storage after a round of play in mini-game `game_id`: the scores gain random points
    /// and are sorted by points.
    pub open spec fn scored(
        self,
        game_id: MinigameId,
        seed: Seq<u8>,
        extrinsic_index: u32,
        block_number: BlockNumber,
    ) -> PalletModel {
        PalletModel {
            results: self.results.insert(
                game_id,
                sort_by_point(
                    bumped(
                        self.results_of(game_id),
                        seed,
                        self.last_pet_id,
                        extrinsic_index,
                        block_number,
                    ),
                ),
            ),
            ..self
        }
    }

    /// The storage after marking mini-game `game_id` finished.
    pub open spec fn marked_finished(self, game_id: MinigameId) -> PalletModel {
        PalletModel {
            games: self.games.insert(
                game_id,
                Minigame { status: GameStatus::Finish, ..self.games[game_id] },
            ),
            ..self
        }
    }

    /// The storage after mini-game `game_id` left the running list and released its players.
    pub open spec fn released(self, game_id: MinigameId) -> PalletModel {
        let players = self.players_of(game_id);
        PalletModel {
            running: swap_removed(self.running, first_index(self.running, game_id)),
            pets: release_pets(self.pets, players),
            players: self.players.insert(game_id, players.map_values(|p: Polkapet| unjoined(p))),
            ..self
        }
    }

    /// The reward payments of mini-game `game_id` with reward `value`.
    pub open spec fn game_payouts(self, game_id: MinigameId, value: Balance) -> Seq<
        (AccountId, Balance),
    > {
        let w = winners(self.results_of(game_id));
        payouts(self.pets, w, reward_share(value, w.len()))
    }

    /// Whether every winner of mini-game `game_id` still has its pet.
    pub open spec fn winners_present(self, game_id: MinigameId) -> bool {
        let w = winners(self.results_of(game_id));
        paid_winners(self.pets, w) == w.len()
    }

    /// One game's turn of the running-game hook at block `current_block`, the currency
    /// answering its reward payments with `outs` in turn: the storage after it, the error that
    /// stops the hook there, if any, and how many answers it used.
    pub open spec fn game_turn(
        self,
        game_id: MinigameId,
        current_block: u32,
        seed: Seq<u8>,
        extrinsic_index: u32,
        block_number: BlockNumber,
        outs: Seq<Result<(), DispatchError>>,
    ) -> (PalletModel, Option<DispatchError>, nat) {
        if !self.games.contains_key(game_id) {
            (self, Some(DispatchError::Module(Error::NoMinigame)), 0)
        } else {
            let game = self.games[game_id];
            let m1 = if current_block % 2 == 0 {
                self.scored(game_id, seed, extrinsic_index, block_number)
            } else {
                self
            };
            if game.finish_block != current_block {
                (m1, None, 0)
            } else {
                let m2 = m1.marked_finished(game_id);
                if !m2.running.contains(game_id) {
                    (m2, Some(DispatchError::Module(Error::NoMinigame)), 0)
                } else {
                    let m3 = m2.released(game_id);
                    match game.reward {
                        None => (m3, None, 0),
                        Some(value) => {
                            let pays = m3.game_payouts(game_id, value);
                            let made = payments_made(outs, pays.len());
                            let m4 = m3.with_requests(
                                m3.pallet_account,
                                pays.take(made as int),
                                outs,
                            );
                            let err = match last_refusal(outs, made) {
                                Some(x) => Some(x),
                                None => if m3.winners_present(game_id) {
                                    None
                                } else {
                                    Some(DispatchError::Module(Error::NoPolkapet))
                                },
                            };
                            (m4, err, made)
                        },
                    }
                }
            }
        }
    }

    /// The running-game hook after the turns of the first `k` games of `ids`, the currency
    /// answering the reward payments with `outs` in turn: the storage, the error that stopped
    /// it, if any, and how many answers it used.
    pub open spec fn hook(
        self,
        ids: Seq<MinigameId>,
        k: nat,
        current_block: u32,
        seed: Seq<u8>,
        extrinsic_index: u32,
        block_number: BlockNumber,
        outs: Seq<Result<(), DispatchError>>,
    ) -> (PalletModel, Option<DispatchError>, nat)
        decreases k,
    {
        if k == 0 {
            (self, None, 0)
        } else {
            let prev = self.hook(
                ids,
                (k - 1) as nat,
                current_block,
                seed,
                extrinsic_index,
                block_number,
                outs,
            );
            if prev.1 is Some || k > ids.len() {
                prev
            } else {
                let t = prev.0.game_turn(
                    ids[k - 1],
                    current_block,
                    seed,
                    extrinsic_index,
                    block_number,
                    outs.skip(prev.2 as int),
                );
                (t.0, t.1, prev.2 + t.2)
            }
        }
    }

    /// What the running-game hook leaves, started from this storage at block `current_block`:
    /// `after` is the storage after the turns of the games under way, up to the first that
    /// fails, with the currency's answers that `after` records; `r` is that failure, if any.
    pub open spec fn hook_outcome(
        self,
        after: PalletModel,
        r: Result<(), DispatchError>,
        current_block: u32,
        seed: Seq<u8>,
        extrinsic_index: u32,
        block_number: BlockNumber,
    ) -> bool {
        let outs = answers_after(after.transfers, self.transfers.len());
        let h = self.hook(
            self.running,
            self.running.len(),
            current_block,
            seed,
            extrinsic_index,
            block_number,
            outs,
        );
        &&& after == h.0
        &&& r == match h.1 {
            Some(e) => Err::<(), DispatchError>(e),
            None => Ok(()),
        }
    }

    /// The storage after pet `pet_id` was killed: dead, with no power.
    pub open spec fn killed(self, pet_id: PetId) -> PalletModel {
        self.with_pet(Polkapet { death: true, power: 0, ..self.pets[pet_id] }).with_event(
            Event::UpdatePetDeathStatus { polkapet: pet_id },
        )
    }

    /// The pet number of the `i`-th random kill.
    pub open spec fn death_draw(
        self,
        seed: Seq<u8>,
        i: u64,
        extrinsic_index: u32,
        block_number: BlockNumber,
    ) -> nat {
        death_number_of(
            random_hash_spec(seed, self.last_pet_id, i, extrinsic_index, block_number),
            self.last_pet_id,
        )
    }

    /// The storage after the first `k` random kills.
    pub open spec fn kills(
        self,
        seed: Seq<u8>,
        k: nat,
        extrinsic_index: u32,
        block_number: BlockNumber,
    ) -> PalletModel
        decreases k,
    {
        if k == 0 {
            self
        } else {
            let m = self.kills(seed, (k - 1) as nat, extrinsic_index, block_number);
            let n = self.death_draw(seed, (k - 1) as u64, extrinsic_index, block_number);
            if 0 < n <= self.last_pet_id {
                m.killed(n as u64)
            } else {
                m
            }
        }
    }

    /// The pet count has few enough digits for the random kill.
    pub open spec fn ready_for_kills(self) -> bool {
        self.last_pet_id < 10_000_000_000_000_000
    }

    /// No score line of a mini-game under way can overflow in a round of play.
    pub open spec fn scores_fit(self) -> bool {
        forall|i: int|
            0 <= i < self.running.len() ==> points_at_most(
                #[trigger] self.results_of(self.running[i]),
                u32::MAX - 255,
            )
    }

    /// The storage after the oval boosts were drawn anew from a random hash.
    pub open spec fn boosted(self, hash: Seq<u8>) -> PalletModel {
        PalletModel { oval_boost: boost_of(hash), ..self }
    }
}

impl PalletModel {
    /// What one attempt to create a pet for `sender` leaves, the runtime answering its reads
    /// as `after` records them: the storage with those reads, and with one new pet drawn from
    /// them unless the attempt is refused.
    pub open spec fn create_outcome(self, after: PalletModel, sender: AccountId) -> bool {
        exists|gender_seed: [u8; 32], oval_seed: [u8; 32], index: Option<u32>, number: BlockNumber|
            {
                let read = #[trigger] self.with_reads(
                    creation_reads(gender_seed, oval_seed, index, number),
                );
                after == match self.create_error(sender) {
                    Some(_) => read,
                    None => read.created(sender, gender_seed@, oval_seed@, or_zero(index), number),
                }
            }
    }

    /// What `k` attempts in a row to create a pet for `sender` may leave.
    pub open spec fn bulk_outcome(self, after: PalletModel, sender: AccountId, k: nat) -> bool
        decreases k,
    {
        if k == 0 {
            after == self
        } else {
            exists|mid: PalletModel|
                self.bulk_outcome(mid, sender, (k - 1) as nat) && #[trigger] mid.create_outcome(
                    after,
                    sender,
                )
        }
    }

    /// The number of random kills for the current pet count: one in a hundred, rounded down.
    pub open spec fn kill_count(self) -> nat {
        (self.last_pet_id * 100 / 10000) as nat
    }

    /// What the block hook's new oval boosts leave at block `current_block`, the runtime
    /// answering its reads as `after` records them.
    pub open spec fn boost_outcome(self, after: PalletModel, current_block: u32) -> bool {
        if current_block % 5 == 0 {
            exists|seed: [u8; 32], index: Option<u32>, number: BlockNumber|
                after == #[trigger] self.with_reads(
                    draw_reads(RandomSubject::DotLogoOvalPositionBoost, seed, index, number),
                ).boosted(random_hash_spec(seed@, self.last_pet_id, 0, or_zero(index), number))
        } else {
            after == self
        }
    }

    /// What the block hook's random kills leave at block `current_block`, the runtime
    /// answering its reads as `after` records them.
    pub open spec fn kill_outcome(self, after: PalletModel, current_block: u32) -> bool {
        if current_block % 50 == 0 {
            exists|seed: [u8; 32], index: Option<u32>, number: BlockNumber|
                after == #[trigger] self.with_reads(
                    draw_reads(RandomSubject::RandomDeathNumber, seed, index, number),
                ).kills(seed@, self.kill_count(), or_zero(index), number)
        } else {
            after == self
        }
    }

    /// What the running-game hook leaves at block `current_block`, started from this storage:
    /// it draws a seed for the scores, then takes its turn with the runtime's answers that
    /// `after` records; `r` is what it returns.
    pub open spec fn running_outcome(
        self,
        after: PalletModel,
        r: Result<(), DispatchError>,
        current_block: u32,
    ) -> bool {
        exists|seed: [u8; 32], index: Option<u32>, number: BlockNumber|
            #[trigger] self.with_reads(
                draw_reads(RandomSubject::RandomResult, seed, index, number),
            ).hook_outcome(after, r, current_block, seed@, or_zero(index), number)
    }

    /// What the block hook's turn of the running games may leave at block `current_block`.
    pub open spec fn games_outcome(self, after: PalletModel, current_block: u32) -> bool {
        exists|r: Result<(), DispatchError>| #[trigger] self.running_outcome(after, r, current_block)
    }
}

/// Random kills touch only pets and events.
pub proof fn lemma_kills_frame(
    m: PalletModel,
    seed: Seq<u8>,
    k: nat,
    extrinsic_index: u32,
    block_number: BlockNumber,
)
    ensures
        ({
            let after = m.kills(seed, k, extrinsic_index, block_number);
            &&& after.running == m.running
            &&& after.results == m.results
            &&& after.last_pet_id == m.last_pet_id
            &&& after.transfers == m.transfers
            &&& after.reads == m.reads
        }),
    decreases k,
{
    if k > 0 {
        lemma_kills_frame(m, seed, (k - 1) as nat, extrinsic_index, block_number);
    }
}

/// The answers to the payments after the first `a` of `t` are those up to the `b`-th, then
/// those after it.
pub proof fn lemma_answers_split(t: Seq<TransferRequest>, a: nat, b: nat)
    requires
        a <= b <= t.len(),
    ensures
        answers_after(t, a) == answers_after(t.subrange(0, b as int), a) + answers_after(t, b),
{
    assert(answers_after(t, a) =~= answers_after(t.subrange(0, b as int), a) + answers_after(t, b));
}

/// No more payments are asked for than there are to make.
pub proof fn lemma_payments_made_bound(outs: Seq<Result<(), DispatchError>>, n: nat)
    ensures
        payments_made(outs, n) <= n,
    decreases n,
{
    if n > 0 && !(outs.len() > 0 && outs[0] is Err) {
        lemma_payments_made_bound(
            if outs.len() > 0 {
                outs.drop_first()
            } else {
                outs
            },
            (n - 1) as nat,
        );
    }
}

/// After `j` accepted payments, the count goes on with the answers after them.
pub proof fn lemma_payments_made_run(outs: Seq<Result<(), DispatchError>>, j: nat, n: nat)
    requires
        j <= n,
        j <= outs.len(),
        forall|i: int| 0 <= i < j ==> #[trigger] outs[i] is Ok,
    ensures
        payments_made(outs, n) == j + payments_made(outs.skip(j as int), (n - j) as nat),
    decreases j,
{
    if j > 0 {
        assert(outs[0] is Ok);
        let t = outs.drop_first();
        assert forall|i: int| 0 <= i < j - 1 implies #[trigger] t[i] is Ok by {
            assert(t[i] == outs[i + 1]);
        }
        lemma_payments_made_run(t, (j - 1) as nat, (n - 1) as nat);
        assert(t.skip(j - 1) =~= outs.skip(j as int));
    } else {
        assert(outs.skip(0) =~= outs);
    }
}

/// The count of payments depends only on the answers it uses.
pub proof fn lemma_payments_made_prefix(
    x: Seq<Result<(), DispatchError>>,
    y: Seq<Result<(), DispatchError>>,
    n: nat,
)
    requires
        payments_made(x, n) <= x.len(),
    ensures
        payments_made(x + y, n) == payments_made(x, n),
    decreases n,
{
    if n > 0 && x.len() > 0 {
        assert((x + y)[0] == x[0]);
        if x[0] is Ok {
            assert((x + y).drop_first() =~= x.drop_first() + y);
            lemma_payments_made_prefix(x.drop_first(), y, (n - 1) as nat);
        }
    }
}

/// A game's turn depends only on the answers it uses.
pub proof fn lemma_game_turn_prefix(
    m: PalletModel,
    game_id: MinigameId,
    current_block: u32,
    seed: Seq<u8>,
    extrinsic_index: u32,
    block_number: BlockNumber,
    x: Seq<Result<(), DispatchError>>,
    y: Seq<Result<(), DispatchError>>,
)
    requires
        m.game_turn(game_id, current_block, seed, extrinsic_index, block_number, x).2 <= x.len(),
    ensures
        m.game_turn(game_id, current_block, seed, extrinsic_index, block_number, x + y)
            == m.game_turn(game_id, current_block, seed, extrinsic_index, block_number, x),
{
    if m.games.contains_key(game_id) && m.games[game_id].finish_block == current_block {
        let m1 = if current_block % 2 == 0 {
            m.scored(game_id, seed, extrinsic_index, block_number)
        } else {
            m
        };
        let m2 = m1.marked_finished(game_id);
        if m2.running.contains(game_id) {
            let m3 = m2.released(game_id);
            if let Some(value) = m.games[game_id].reward {
                let pays = m3.game_payouts(game_id, value);
                lemma_payments_made_prefix(x, y, pays.len());
                lemma_payments_made_bound(x, pays.len());
                let made = payments_made(x, pays.len());
                let a = m3.with_requests(m3.pallet_account, pays.take(made as int), x + y);
                let b = m3.with_requests(m3.pallet_account, pays.take(made as int), x);
                assert(a.transfers =~= b.transfers);
                if made > 0 {
                    assert((x + y)[made - 1] == x[made - 1]);
                }
            }
        }
    }
}

/// The running-game hook depends only on the answers it uses.
pub proof fn lemma_hook_prefix(
    m: PalletModel,
    ids: Seq<MinigameId>,
    k: nat,
    current_block: u32,
    seed: Seq<u8>,
    extrinsic_index: u32,
    block_number: BlockNumber,
    x: Seq<Result<(), DispatchError>>,
    y: Seq<Result<(), DispatchError>>,
)
    requires
        m.hook(ids, k, current_block, seed, extrinsic_index, block_number, x).2 <= x.len(),
    ensures
        m.hook(ids, k, current_block, seed, extrinsic_index, block_number, x + y) == m.hook(
            ids,
            k,
            current_block,
            seed,
            extrinsic_index,
            block_number,
            x,
        ),
    decreases k,
{
    if k > 0 {
        let prev = m.hook(ids, (k - 1) as nat, current_block, seed, extrinsic_index, block_number, x);
        lemma_hook_prefix(m, ids, (k - 1) as nat, current_block, seed, extrinsic_index, block_number, x, y);
        if !(prev.1 is Some || k > ids.len()) {
            assert((x + y).skip(prev.2 as int) =~= x.skip(prev.2 as int) + y);
            lemma_game_turn_prefix(
                prev.0,
                ids[k - 1],
                current_block,
                seed,
                extrinsic_index,
                block_number,
                x.skip(prev.2 as int),
                y,
            );
        }
    }
}

/// Once stopped, the running-game hook stays where it stopped.
pub proof fn lemma_hook_stopped(
    m: PalletModel,
    ids: Seq<MinigameId>,
    j: nat,
    k: nat,
    current_block: u32,
    seed: Seq<u8>,
    extrinsic_index: u32,
    block_number: BlockNumber,
    x: Seq<Result<(), DispatchError>>,
)
    requires
        j <= k,
        m.hook(ids, j, current_block, seed, extrinsic_index, block_number, x).1 is Some,
    ensures
        m.hook(ids, k, current_block, seed, extrinsic_index, block_number, x) == m.hook(
            ids,
            j,
            current_block,
            seed,
            extrinsic_index,
            block_number,
            x,
        ),
    decreases k,
{
    if k > j {
        lemma_hook_stopped(m, ids, j, (k - 1) as nat, current_block, seed, extrinsic_index, block_number, x);
    }
}

/// Removing one element with `swap_removed` keeps every other element.
pub proof fn lemma_swap_removed_keeps<A>(s: Seq<A>, k: int, x: A)
    requires
        0 <= k < s.len(),
        s.contains(x),
        x != s[k],
    ensures
        swap_removed(s, k).contains(x),
{
    let t = swap_removed(s, k);
    let i = choose|i: int| 0 <= i < s.len() && s[i] == x;
    if i == s.len() - 1 {
        assert(t[k] == x);
    } else {
        assert(t[i] == x);
    }
}

} // verus!