//! Pet ownership, trading, breeding and mini-game rules of the polkapet pallet,
//! written as a verified state machine over plain values.

pub mod types;
pub mod hashing;
pub mod genetics;
pub mod reward;
pub mod model;
pub mod config;
pub mod scores;
pub mod pallet;
pub mod laws;

pub use config::{Config, RandomSubject};
pub use model::PalletModel;
pub use pallet::Pallet;
pub use types::{
    AccountId, ArithmeticError, Balance, BlockNumber, DispatchError, DotLogoOvalPosition,
    DotLogoOvalPositionBoost, Error, Event, GameStatus, Gender, Minigame, MinigameId,
    MinigameResult, PetId, Polkapet,
};
