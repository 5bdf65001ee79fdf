use vstd::prelude::*;

verus! {

/// Account identifier.
pub type AccountId = u64;

/// Balance of the currency the pallet trades in.
pub type Balance = u128;

/// Block height.
pub type BlockNumber = u32;

/// Identifier of a pet.
pub type PetId = u64;

/// Identifier of a mini-game.
pub type MinigameId = u64;

/// Gender of a pet.
#[derive(Clone, Copy, Debug, PartialEq, Eq, Structural)]
pub enum Gender {
    Male,
    Female,
}

/// Position of the dot-logo oval on a pet.
#[derive(Clone, Copy, Debug, PartialEq, Eq, Structural)]
pub enum DotLogoOvalPosition {
    Up,
    RightUp,
    LeftUp,
    RightDown,
    LeftDown,
    Down,
}

/// Life cycle of a mini-game.
#[derive(Clone, Copy, Debug, PartialEq, Eq, Structural)]
pub enum GameStatus {
    Prepare,
    OnGoing,
    Finish,
}

/// Power boost granted to a pet by its oval position.
#[derive(Clone, Copy, Debug, PartialEq, Eq, Structural)]
pub struct DotLogoOvalPositionBoost {
    pub up: u8,
    pub right_up: u8,
    pub left_up: u8,
    pub right_down: u8,
    pub left_down: u8,
    pub down: u8,
}

/// A pet.
#[derive(Clone, Copy, Debug, PartialEq, Eq)]
pub struct Polkapet {
    pub dna: [u8; 16],
    pub price: Option<Balance>,
    pub gender: Gender,
    pub owner: AccountId,
    pub oval_position: DotLogoOvalPosition,
    pub power: u32,
    pub death: bool,
    pub respawn: u32,
    pub pet_id: PetId,
    pub is_join_minigame: bool,
}

/// Whether two pets agree in every field (the equality of the derived `PartialEq`).
pub fn pet_eq(a: &Polkapet, b: &Polkapet) -> (r: bool)
    ensures
        r == (*a == *b),
{
    let mut i: usize = 0;
    while i < 16
        invariant
            0 <= i <= 16,
            forall|j: int| 0 <= j < i ==> a.dna[j] == b.dna[j],
        decreases 16 - i,
    {
        if a.dna[i] != b.dna[i] {
            return false;
        }
        i = i + 1;
    }
    assert(a.dna =~= b.dna) by {
        broadcast use vstd::array::axiom_array_ext_equal;
    }
    let same_price = match (a.price, b.price) {
        (Some(x), Some(y)) => x == y,
        (None, None) => true,
        _ => false,
    };
    same_price && a.gender == b.gender && a.owner == b.owner && a.oval_position == b.oval_position
        && a.power == b.power && a.death == b.death && a.respawn == b.respawn && a.pet_id == b.pet_id
        && a.is_join_minigame == b.is_join_minigame
}

/// A mini-game that pets join and play for a reward.
#[derive(Clone, Debug, PartialEq, Eq)]
pub struct Minigame {
    pub game_id: MinigameId,
    pub owner: AccountId,
    pub description: Vec<u8>,
    pub reward: Option<Balance>,
    pub max_player: Option<u32>,
    pub block_duration: u32,
    pub finish_block: u32,
    pub status: GameStatus,
}

/// Score of one pet in a mini-game.
#[derive(Clone, Copy, Debug, PartialEq, Eq, Structural)]
pub struct MinigameResult {
    pub pet_id: PetId,
    pub point: u32,
}

/// Errors of the pallet.
#[derive(Clone, Copy, Debug, PartialEq, Eq, Structural)]
pub enum Error {
    /// An account may only own `MaxPolkapetsOwned` pets.
    TooManyOwned,
    /// Trying to transfer or buy a pet from oneself.
    TransferToSelf,
    /// This pet already exists.
    DuplicatePolkapet,
    /// This pet does not exist.
    NoPolkapet,
    /// You are not the owner of this pet.
    NotOwner,
    /// This pet is not for sale.
    NotForSale,
    /// The buying price is not greater than the asking price.
    BidPriceTooLow,
    /// Two pets of different gender are needed to breed.
    CantBreed,
    /// The pet id counter would overflow.
    PetIdOverflow,
    /// Arithmetic failure while drawing a random number.
    OtherError,
    /// The mini-game id counter would overflow.
    MinigameIdOverflow,
    /// The block duration of a new mini-game is not in `1..=100`.
    BlockDurationInvalid,
    /// This mini-game does not exist.
    NoMinigame,
    /// The mini-game has already started or ended.
    GameStartedOrEnded,
    /// The pet has already joined a mini-game.
    AlreadyJoinGame,
    /// A mini-game cannot start without players.
    NoPlayer,
    /// The mini-game is full.
    ExceedingMaxPlayers,
}

/// Arithmetic failures.
#[derive(Clone, Copy, Debug, PartialEq, Eq, Structural)]
pub enum ArithmeticError {
    Underflow,
    Overflow,
    DivisionByZero,
}

/// Why a call failed.
#[derive(Clone, Copy, Debug, PartialEq, Eq, Structural)]
pub enum DispatchError {
    /// An error of this pallet.
    Module(Error),
    /// An arithmetic failure.
    Arithmetic(ArithmeticError),
    /// A failure reported by the currency while moving funds.
    Other,
}

/// Events that the pallet deposits.
#[derive(Clone, Copy, Debug, PartialEq, Eq, Structural)]
pub enum Event {
    /// A new pet was created.
    Created { polkapet: PetId, owner: AccountId },
    /// The price of a pet was set.
    PriceSet { polkapet: PetId, price: Option<Balance> },
    /// A pet was transferred.
    Transferred { from: AccountId, to: AccountId, polkapet: PetId },
    /// A pet was sold.
    Sold { seller: AccountId, buyer: AccountId, polkapet: PetId, price: Balance },
    /// A pet was empowered.
    Empowered { polkapet: PetId, power: u32 },
    /// A pet was killed.
    UpdatePetDeathStatus { polkapet: PetId },
    /// A pet was respawned.
    Respawn { polkapet: PetId },
    /// A mini-game with a reward was created.
    GameCreated { id: u64, reward: Balance },
}

} // verus!
