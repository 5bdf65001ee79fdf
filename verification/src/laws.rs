use vstd::prelude::*;

verus! {

use crate::types::{
    AccountId, Balance, BlockNumber, DispatchError, Error, Event, GameStatus, Minigame, MinigameId,
    PetId, Polkapet,
};
use crate::model::{PalletModel, TransferRequest, release_pets, respawn_power, seq_to_dna, winners};
use crate::genetics::{gender_of, mixed_dna, boost_of, oval_of, death_number_of};
use crate::types::{DotLogoOvalPosition, MinigameResult};
use crate::model::{RuntimeRead, draw_reads};
use crate::config::{RandomSubject, or_zero};
use crate::scores::points_at_most;
use crate::hashing::random_hash_spec;
use crate::reward::{reward_share, lemma_shares_within_reward};
use crate::scores::{sorted_by_point, sort_by_point, lemma_sort_by_point};

/// No account ever owns more pets than the pallet allows.
pub proof fn law_owned_within_cap(m: PalletModel, account: AccountId)
    requires
        m.consistent(),
    ensures
        m.owned_of(account).len() <= m.max_owned,
{
}

/// The running list names each mini-game under way once, and only started ones.
pub proof fn law_running_games_under_way(m: PalletModel, i: int)
    requires
        m.consistent(),
        0 <= i < m.running.len(),
    ensures
        m.games.contains_key(m.running[i]),
        m.games[m.running[i]].status == GameStatus::OnGoing,
        forall|j: int| 0 <= j < m.running.len() && j != i ==> m.running[j] != m.running[i],
{
}

/// Every mini-game under way is on the running list.
pub proof fn law_games_under_way_are_running(m: PalletModel, game_id: MinigameId)
    requires
        m.consistent(),
        m.games.contains_key(game_id),
        m.games[game_id].status == GameStatus::OnGoing,
    ensures
        m.running.contains(game_id),
{
}

/// A sale charges the asking price, which is below the buyer's limit; the events record the
/// sale, then the transfer.
pub proof fn law_sale_at_asking_price(m: PalletModel, pet_id: PetId, buyer: AccountId, limit: Balance)
    requires
        m.consistent(),
        m.transfer_error(pet_id, buyer, Some(limit)) is None,
    ensures
        m.pets[pet_id].price is Some,
        m.sale_price(pet_id, Some(limit)) == m.pets[pet_id].price,
        m.pets[pet_id].price.unwrap() < limit,
        m.transferred(pet_id, buyer, Some(limit)).events == m.events + seq![
            Event::Sold {
                seller: m.pets[pet_id].owner,
                buyer,
                polkapet: pet_id,
                price: m.pets[pet_id].price.unwrap(),
            },
            Event::Transferred { from: m.pets[pet_id].owner, to: buyer, polkapet: pet_id },
        ],
{
    let after = m.transferred(pet_id, buyer, Some(limit));
    assert(after.events =~= m.events + seq![
        Event::Sold {
            seller: m.pets[pet_id].owner,
            buyer,
            polkapet: pet_id,
            price: m.pets[pet_id].price.unwrap(),
        },
        Event::Transferred { from: m.pets[pet_id].owner, to: buyer, polkapet: pet_id },
    ]);
}

/// A transfer hands the pet to the receiver off the market, moves its id from the giver's list
/// to the end of the receiver's, keeps every other listed id where it was listed and keeps the
/// set of pets; the storage stays consistent.
pub proof fn law_transfer_moves_ownership(
    m: PalletModel,
    pet_id: PetId,
    to: AccountId,
    maybe_limit_price: Option<Balance>,
)
    requires
        m.consistent(),
        m.transfer_error(pet_id, to, maybe_limit_price) is None,
    ensures
        ({
            let after = m.transferred(pet_id, to, maybe_limit_price);
            let from = m.pets[pet_id].owner;
            &&& after.pets[pet_id] == (Polkapet { owner: to, price: None, ..m.pets[pet_id] })
            &&& after.pets.dom() == m.pets.dom()
            &&& after.owned_of(to) == m.owned_of(to).push(pet_id)
            &&& !after.owned_of(from).contains(pet_id)
            &&& after.owned_of(from).len() + 1 == m.owned_of(from).len()
            &&& forall|x: PetId|
                x != pet_id ==> (#[trigger] after.owned_of(from).contains(x) <==> m.owned_of(
                    from,
                ).contains(x))
            &&& after.consistent()
        }),
{
    let after = m.transferred(pet_id, to, maybe_limit_price);
    let from = m.pets[pet_id].owner;
    let s = m.owned_of(from);
    let k = crate::model::first_index(s, pet_id);
    crate::model::lemma_first_index(s, pet_id);
    let t = crate::model::swap_removed(s, k);
    assert(after.owned_of(from) == t);
    assert(after.pets.dom() =~= m.pets.dom());
    assert forall|i: int| 0 <= i < t.len() implies #[trigger] t[i] != pet_id && s.contains(t[i]) by {
        if i == k {
            assert(t[i] == s[s.len() - 1]);
            assert(s[s.len() - 1] != s[k]);
        } else {
            assert(t[i] == s[i]);
            assert(s[i] != s[k]);
        }
    }
    assert forall|x: PetId| x != pet_id implies (#[trigger] after.owned_of(from).contains(x)
        <==> m.owned_of(from).contains(x)) by {
        if s.contains(x) {
            let i = choose|i: int| 0 <= i < s.len() && s[i] == x;
            if i == s.len() - 1 {
                assert(t[k] == x);
            } else {
                assert(t[i] == x);
            }
        }
    }
}

/// Creating a pet hands out the next id, which no pet had, to the sender, at the end of its
/// list; the pet's gender is that of its DNA's leading byte.
pub proof fn law_create_adds_one_pet(
    m: PalletModel,
    sender: AccountId,
    gender_seed: Seq<u8>,
    oval_seed: Seq<u8>,
    extrinsic_index: u32,
    block_number: BlockNumber,
)
    requires
        m.consistent(),
        m.create_error(sender) is None,
        random_hash_spec(gender_seed, (m.last_pet_id + 1) as u64, 0, extrinsic_index, block_number).len() == 16,
    ensures
        ({
            let after = m.created(sender, gender_seed, oval_seed, extrinsic_index, block_number);
            let id = (m.last_pet_id + 1) as u64;
            &&& after.last_pet_id == m.last_pet_id + 1
            &&& !m.pets.contains_key(id)
            &&& after.pets.dom() == m.pets.dom().insert(id)
            &&& after.pets[id].owner == sender
            &&& after.pets[id].gender == gender_of(after.pets[id].dna@)
            &&& after.owned_of(sender) == m.owned_of(sender).push(id)
        }),
{
    let id = (m.last_pet_id + 1) as u64;
    let dna = random_hash_spec(gender_seed, id, 0, extrinsic_index, block_number);
    lemma_dna_of_bytes(dna);
    let after = m.created(sender, gender_seed, oval_seed, extrinsic_index, block_number);
    assert(after.pets.dom() =~= m.pets.dom().insert(id));
}

/// Sixteen bytes read as an array give the same bytes back.
pub proof fn lemma_dna_of_bytes(s: Seq<u8>)
    requires
        s.len() == 16,
    ensures
        seq_to_dna(s)@ == s,
{
    let a: [u8; 16] = [
        s[0], s[1], s[2], s[3], s[4], s[5], s[6], s[7], s[8], s[9], s[10], s[11], s[12], s[13],
        s[14], s[15],
    ];
    assert(a@ =~= s);
}

/// Each byte of a child's DNA is the byte of one of its parents at that place.
pub proof fn law_child_dna_from_parents(parent1: [u8; 16], parent2: [u8; 16], random: Seq<u8>)
    ensures
        forall|i: int|
            0 <= i < 16 ==> #[trigger] mixed_dna(parent1@, parent2@, random)[i] == parent1[i]
                || mixed_dna(parent1@, parent2@, random)[i] == parent2[i],
{
}

/// Every boost drawn lies between 1 and 6.
pub proof fn law_boosts_between_one_and_six(hash: Seq<u8>)
    ensures
        ({
            let b = boost_of(hash);
            &&& 1 <= b.up <= 6
            &&& 1 <= b.right_up <= 6
            &&& 1 <= b.left_up <= 6
            &&& 1 <= b.right_down <= 6
            &&& 1 <= b.left_down <= 6
            &&& 1 <= b.down <= 6
        }),
{
}

/// The reward payments of a finished mini-game all pay the same share, and together never
/// exceed nine tenths of the reward.
pub proof fn law_payouts_within_reward(m: PalletModel, game_id: MinigameId, value: Balance)
    ensures
        ({
            let p = m.game_payouts(game_id, value);
            let share = reward_share(value, winners(m.results_of(game_id)).len());
            &&& forall|i: int| 0 <= i < p.len() ==> (#[trigger] p[i]).1 == share
            &&& p.len() * share * 10 <= value * 9
        }),
{
    let w = winners(m.results_of(game_id));
    let share = reward_share(value, w.len());
    lemma_shares_within_reward(value, w.len());
    lemma_paid_winners_at_most(m.pets, w);
    let n = crate::model::paid_winners(m.pets, w);
    assert(n * share <= w.len() * share) by (nonlinear_arith)
        requires
            n <= w.len(),
    ;
}

proof fn lemma_paid_winners_at_most(pets: Map<PetId, Polkapet>, w: Seq<crate::types::MinigameResult>)
    ensures
        crate::model::paid_winners(pets, w) <= w.len(),
    decreases w.len(),
{
    if w.len() > 0 {
        lemma_paid_winners_at_most(pets, w.subrange(1, w.len() as int));
    }
}

/// After a round of play a mini-game's scores are sorted by points, so its winners hold the
/// top score, and there are winners as soon as there are scores.
pub proof fn law_winners_hold_top_score(
    m: PalletModel,
    game_id: MinigameId,
    seed: Seq<u8>,
    extrinsic_index: u32,
    block_number: BlockNumber,
)
    ensures
        ({
            let s = m.scored(game_id, seed, extrinsic_index, block_number).results_of(game_id);
            let w = winners(s);
            &&& sorted_by_point(s)
            &&& forall|i: int, j: int|
                0 <= i < w.len() && 0 <= j < s.len() ==> #[trigger] w[i].point >= #[trigger] s[j].point
            &&& s.len() > 0 ==> w.len() > 0
        }),
{
    let m1 = m.scored(game_id, seed, extrinsic_index, block_number);
    let s = m1.results_of(game_id);
    let input = crate::model::bumped(m.results_of(game_id), seed, m.last_pet_id, extrinsic_index, block_number);
    lemma_sort_by_point(input);
    assert(s == sort_by_point(input));
    if s.len() > 0 {
        let top = s.last().point;
        let w = winners(s);
        assert forall|i: int| 0 <= i < w.len() implies #[trigger] w[i].point == top by {
            s.lemma_filter_pred(|r: crate::types::MinigameResult| r.point == top, i);
        }
        s.lemma_filter_contains(|r: crate::types::MinigameResult| r.point == top, s.len() - 1);
    }
}

/// A pet that joined a mini-game cannot join one again.
pub proof fn law_no_second_join(m: PalletModel, game_id: MinigameId, pet_id: PetId, other_game: MinigameId)
    requires
        m.join_error(game_id, pet_id) is None,
    ensures
        m.joined(game_id, pet_id).join_error(other_game, pet_id) is Some,
        m.joined(game_id, pet_id).games.contains_key(other_game)
            && m.joined(game_id, pet_id).games[other_game].status == GameStatus::Prepare
            ==> m.joined(game_id, pet_id).join_error(other_game, pet_id) == Some(
            DispatchError::Module(Error::AlreadyJoinGame),
        ),
{
}

/// A respawn keeps at most the power the pet had and costs at most a tenth of it, rounded up.
pub proof fn law_respawn_power(power: u32)
    ensures
        respawn_power(power) <= power,
        power - respawn_power(power) <= power / 10 + 1,
{
}

/// Random kills keep the set of pets, and leave each pet unchanged or dead without power.
pub proof fn law_kills_only_kill(
    m: PalletModel,
    seed: Seq<u8>,
    k: nat,
    extrinsic_index: u32,
    block_number: BlockNumber,
)
    requires
        m.consistent(),
        m.ready_for_kills(),
    ensures
        ({
            let after = m.kills(seed, k, extrinsic_index, block_number);
            &&& after.pets.dom() == m.pets.dom()
            &&& forall|id: PetId|
                #[trigger] after.pets.contains_key(id) ==> after.pets[id] == m.pets[id]
                    || after.pets[id] == (Polkapet { death: true, power: 0, ..m.pets[id] })
        }),
    decreases k,
{
    if k > 0 {
        law_kills_only_kill(m, seed, (k - 1) as nat, extrinsic_index, block_number);
        crate::model::lemma_kills_frame(m, seed, (k - 1) as nat, extrinsic_index, block_number);
        let prev = m.kills(seed, (k - 1) as nat, extrinsic_index, block_number);
        let after = m.kills(seed, k, extrinsic_index, block_number);
        let n = m.death_draw(seed, (k - 1) as u64, extrinsic_index, block_number);
        if 0 < n <= m.last_pet_id {
            assert(m.pets.contains_key(n as u64));
            assert(prev.pets[n as u64].pet_id == n) by {
                assert(m.pets[n as u64].pet_id == n);
            }
            assert(after.pets.dom() =~= m.pets.dom());
        }
    }
}

/// Setting a price and then removing it leaves the pet as it was, off the market.
pub proof fn law_remove_price_after_set(m: PalletModel, pet_id: PetId, price: Balance)
    requires
        m.consistent(),
        m.pets.contains_key(pet_id),
    ensures
        m.priced(pet_id, Some(price)).priced(pet_id, None).pets[pet_id] == (Polkapet {
            price: None,
            ..m.pets[pet_id]
        }),
        m.priced(pet_id, Some(price)).pets[pet_id].price == Some(price),
{
}

/// Finishing a mini-game takes every player's pet out of the game.
pub proof fn law_finish_releases_players(m: PalletModel, game_id: MinigameId)
    ensures
        ({
            let players = m.players_of(game_id);
            let after = m.marked_finished(game_id).released(game_id);
            forall|i: int|
                0 <= i < players.len() ==> after.pets.contains_key(#[trigger] players[i].pet_id)
                    && !after.pets[players[i].pet_id].is_join_minigame
        }),
{
    lemma_release_pets_unjoins(m.pets, m.players_of(game_id));
}

proof fn lemma_release_pets_unjoins(pets: Map<PetId, Polkapet>, players: Seq<Polkapet>)
    ensures
        forall|i: int|
            0 <= i < players.len() ==> release_pets(pets, players).contains_key(
                #[trigger] players[i].pet_id,
            ) && !release_pets(pets, players)[players[i].pet_id].is_join_minigame,
    decreases players.len(),
{
    if players.len() > 0 {
        let init = players.drop_last();
        lemma_release_pets_unjoins(pets, init);
        assert forall|i: int| 0 <= i < players.len() implies release_pets(pets, players).contains_key(
            #[trigger] players[i].pet_id,
        ) && !release_pets(pets, players)[players[i].pet_id].is_join_minigame by {
            if i < players.len() - 1 {
                assert(players[i] == init[i]);
            }
        }
    }
}

/// A finished mini-game leaves the running list for good and is marked finished, so the
/// running-game hook never pays its reward again.
pub proof fn law_finished_game_leaves_running(m: PalletModel, game_id: MinigameId)
    requires
        m.consistent(),
        m.running.contains(game_id),
    ensures
        ({
            let after = m.marked_finished(game_id).released(game_id);
            &&& !after.running.contains(game_id)
            &&& after.running.len() + 1 == m.running.len()
            &&& after.games[game_id].status == GameStatus::Finish
        }),
{
    let s = m.running;
    crate::model::lemma_first_index(s, game_id);
    let k = crate::model::first_index(s, game_id);
    let t = crate::model::swap_removed(s, k);
    let after = m.marked_finished(game_id).released(game_id);
    assert(after.running == t);
    assert forall|i: int| 0 <= i < t.len() implies #[trigger] t[i] != game_id by {
        if i == k {
            assert(t[i] == s[s.len() - 1]);
        } else {
            assert(t[i] == s[i]);
        }
    }
}

/// In the running-game hook, a mini-game's turn asks the runtime's currency only for reward
/// payments, and only when the game finishes with a reward: the `i`-th payment goes from the
/// pallet's account to the owner of the `i`-th winner's pet, every payment is the same share,
/// there are no more payments than winners, and together they never exceed nine tenths of the
/// reward.
pub proof fn law_hook_pays_winners(
    m: PalletModel,
    game_id: MinigameId,
    current_block: u32,
    seed: Seq<u8>,
    extrinsic_index: u32,
    block_number: BlockNumber,
    outs: Seq<Result<(), DispatchError>>,
)
    ensures
        ({
            let t = m.game_turn(game_id, current_block, seed, extrinsic_index, block_number, outs);
            let after = t.0;
            let asked = after.transfers.skip(m.transfers.len() as int);
            let value = m.games[game_id].reward.unwrap();
            let w = winners(after.results_of(game_id));
            let share = reward_share(value, w.len());
            &&& m.transfers.len() <= after.transfers.len()
            &&& after.transfers.subrange(0, m.transfers.len() as int) == m.transfers
            &&& asked.len() == t.2
            &&& asked.len() > 0 ==> m.games.contains_key(game_id) && m.games[game_id].finish_block
                == current_block && m.games[game_id].reward is Some
            &&& asked.len() <= w.len()
            &&& forall|i: int|
                0 <= i < asked.len() ==> #[trigger] asked[i] == (TransferRequest {
                    from: m.pallet_account,
                    to: after.pets[w[i].pet_id].owner,
                    amount: share,
                    outcome: outs[i],
                })
            &&& asked.len() * share * 10 <= value * 9
        }),
{
    let t = m.game_turn(game_id, current_block, seed, extrinsic_index, block_number, outs);
    let after = t.0;
    let asked = after.transfers.skip(m.transfers.len() as int);
    if m.games.contains_key(game_id) && m.games[game_id].finish_block == current_block {
        let m1 = if current_block % 2 == 0 {
            m.scored(game_id, seed, extrinsic_index, block_number)
        } else {
            m
        };
        let m2 = m1.marked_finished(game_id);
        if m2.running.contains(game_id) {
            let m3 = m2.released(game_id);
            if let Some(value) = m.games[game_id].reward {
                let pays = m3.game_payouts(game_id, value);
                let w = winners(m3.results_of(game_id));
                let share = reward_share(value, w.len());
                crate::model::lemma_payments_made_bound(outs, pays.len());
                let made = crate::model::payments_made(outs, pays.len());
                lemma_paid_winners_at_most(m3.pets, w);
                law_payouts_within_reward(m3, game_id, value);
                assert(after.results_of(game_id) == m3.results_of(game_id));
                assert(after.pets == m3.pets);
                assert(asked =~= Seq::new(
                    made,
                    |i: int| TransferRequest {
                        from: m.pallet_account,
                        to: pays[i].0,
                        amount: pays[i].1,
                        outcome: outs[i],
                    },
                ));
                assert forall|i: int| 0 <= i < asked.len() implies #[trigger] asked[i] == (
                TransferRequest {
                    from: m.pallet_account,
                    to: after.pets[w[i].pet_id].owner,
                    amount: share,
                    outcome: outs[i],
                }) by {
                    assert(pays[i] == (m3.pets[w[i].pet_id].owner, share));
                }
                assert(made * share <= pays.len() * share) by (nonlinear_arith)
                    requires
                        made <= pays.len(),
                ;
                assert(asked.len() == made);
                assert(pays.len() * share * 10 <= value * 9);
                assert(asked.len() * share * 10 <= value * 9);
                assert(asked.len() <= w.len());
                assert(after.transfers.subrange(0, m.transfers.len() as int) =~= m.transfers);
            } else {
                assert(asked =~= Seq::<TransferRequest>::empty());
                assert(after.transfers.subrange(0, m.transfers.len() as int) =~= m.transfers);
            }
        } else {
            assert(asked =~= Seq::<TransferRequest>::empty());
            assert(after.transfers.subrange(0, m.transfers.len() as int) =~= m.transfers);
        }
    } else {
        assert(asked =~= Seq::<TransferRequest>::empty());
        assert(after.transfers.subrange(0, m.transfers.len() as int) =~= m.transfers);
    }
}

/// Starting a mini-game at block `start` puts it under way until its last block,
/// `start` plus its duration.
pub proof fn law_start_sets_last_block(m: PalletModel, who: AccountId, game_id: MinigameId, start: u32)
    requires
        m.start_error(who, game_id, start) is None,
    ensures
        ({
            let after = m.started(game_id, start);
            &&& after.games[game_id].finish_block == start + m.games[game_id].block_duration
            &&& after.games[game_id].status == GameStatus::OnGoing
            &&& after.running.contains(game_id)
        }),
{
    let after = m.started(game_id, start);
    assert(after.running[after.running.len() - 1] == game_id);
}

/// At its last block, a mini-game under way finishes in the running-game hook's turn: it is
/// marked finished, leaves the running list and its players' pets are out of the game,
/// whatever the currency answers.
pub proof fn law_game_finishes_at_its_last_block(
    m: PalletModel,
    game_id: MinigameId,
    current_block: u32,
    seed: Seq<u8>,
    extrinsic_index: u32,
    block_number: BlockNumber,
    outs: Seq<Result<(), DispatchError>>,
)
    requires
        m.consistent(),
        m.running.contains(game_id),
        m.games[game_id].finish_block == current_block,
    ensures
        ({
            let after = m.game_turn(game_id, current_block, seed, extrinsic_index, block_number, outs).0;
            let players = m.players_of(game_id);
            &&& after.games[game_id].status == GameStatus::Finish
            &&& !after.running.contains(game_id)
            &&& forall|i: int|
                0 <= i < players.len() ==> after.pets.contains_key(#[trigger] players[i].pet_id)
                    && !after.pets[players[i].pet_id].is_join_minigame
        }),
{
    let i = choose|i: int| 0 <= i < m.running.len() && m.running[i] == game_id;
    assert(m.games.contains_key(m.running[i]));
    let m1 = if current_block % 2 == 0 {
        m.scored(game_id, seed, extrinsic_index, block_number)
    } else {
        m
    };
    assert(m1.consistent());
    assert(m1.players_of(game_id) == m.players_of(game_id));
    law_finish_releases_players(m1, game_id);
    law_finished_game_leaves_running(m1, game_id);
}

/// Before its last block, the running-game hook's turn leaves a mini-game as it was, under way.
pub proof fn law_game_runs_until_its_last_block(
    m: PalletModel,
    game_id: MinigameId,
    current_block: u32,
    seed: Seq<u8>,
    extrinsic_index: u32,
    block_number: BlockNumber,
    outs: Seq<Result<(), DispatchError>>,
)
    requires
        m.games.contains_key(game_id),
        m.games[game_id].finish_block != current_block,
    ensures
        ({
            let t = m.game_turn(game_id, current_block, seed, extrinsic_index, block_number, outs);
            &&& t.0.games == m.games
            &&& t.0.running == m.running
            &&& t.1 is None
        }),
{
}

/// Whether `after` holds the same mini-games as `m`, each unchanged or, if its last block is
/// `current_block`, marked finished.
pub open spec fn finishes_only_due(m: PalletModel, after: PalletModel, current_block: u32) -> bool {
    &&& after.games.dom() == m.games.dom()
    &&& forall|h: MinigameId|
        #[trigger] m.games.contains_key(h) ==> after.games[h] == m.games[h] || (
        m.games[h].finish_block == current_block && after.games[h] == Minigame {
            status: GameStatus::Finish,
            ..m.games[h]
        })
}

proof fn lemma_turn_finishes_only_due(
    m: PalletModel,
    game_id: MinigameId,
    current_block: u32,
    seed: Seq<u8>,
    extrinsic_index: u32,
    block_number: BlockNumber,
    outs: Seq<Result<(), DispatchError>>,
)
    ensures
        finishes_only_due(
            m,
            m.game_turn(game_id, current_block, seed, extrinsic_index, block_number, outs).0,
            current_block,
        ),
{
    let after = m.game_turn(game_id, current_block, seed, extrinsic_index, block_number, outs).0;
    assert(after.games.dom() =~= m.games.dom());
}

/// The running-game hook marks finished only mini-games whose last block this is, changes
/// nothing else of any mini-game, and never takes a finished one back.
pub proof fn law_hook_finishes_only_due_games(
    m: PalletModel,
    ids: Seq<MinigameId>,
    k: nat,
    current_block: u32,
    seed: Seq<u8>,
    extrinsic_index: u32,
    block_number: BlockNumber,
    outs: Seq<Result<(), DispatchError>>,
)
    ensures
        ({
            let after = m.hook(ids, k, current_block, seed, extrinsic_index, block_number, outs).0;
            &&& finishes_only_due(m, after, current_block)
            &&& forall|h: MinigameId|
                #[trigger] m.games.contains_key(h) && m.games[h].status == GameStatus::Finish
                    ==> after.games[h].status == GameStatus::Finish
        }),
    decreases k,
{
    if k > 0 {
        law_hook_finishes_only_due_games(m, ids, (k - 1) as nat, current_block, seed, extrinsic_index, block_number, outs);
        let prev = m.hook(ids, (k - 1) as nat, current_block, seed, extrinsic_index, block_number, outs);
        if !(prev.1 is Some || k > ids.len()) {
            let x = outs.skip(prev.2 as int);
            lemma_turn_finishes_only_due(prev.0, ids[k - 1], current_block, seed, extrinsic_index, block_number, x);
            let after = prev.0.game_turn(ids[k - 1], current_block, seed, extrinsic_index, block_number, x).0;
            assert forall|h: MinigameId| #[trigger] m.games.contains_key(h) implies after.games[h]
                == m.games[h] || (m.games[h].finish_block == current_block && after.games[h]
                == Minigame { status: GameStatus::Finish, ..m.games[h] }) by {
                assert(prev.0.games.contains_key(h));
            }
        }
    }
}

/// Whether each account's list names exactly the pets that it owns.
pub open spec fn owners_in_step(m: PalletModel) -> bool {
    forall|a: AccountId, id: PetId|
        #[trigger] m.owned_of(a).contains(id) <==> m.pets.contains_key(id) && m.pets[id].owner == a
}

/// A transfer keeps each account's list in step with the owners of the pets.
pub proof fn law_transfer_keeps_owners_in_step(
    m: PalletModel,
    pet_id: PetId,
    to: AccountId,
    maybe_limit_price: Option<Balance>,
)
    requires
        m.consistent(),
        owners_in_step(m),
        m.transfer_error(pet_id, to, maybe_limit_price) is None,
    ensures
        owners_in_step(m.transferred(pet_id, to, maybe_limit_price)),
{
    let after = m.transferred(pet_id, to, maybe_limit_price);
    let from = m.pets[pet_id].owner;
    law_transfer_moves_ownership(m, pet_id, to, maybe_limit_price);
    assert forall|a: AccountId, id: PetId| #[trigger] after.owned_of(a).contains(id) <==> after.pets.contains_key(id)
        && after.pets[id].owner == a by {
        if a == to {
            assert(after.owned_of(to) == m.owned_of(to).push(pet_id));
            if id != pet_id {
                assert(after.owned_of(to).contains(id) ==> m.owned_of(to).contains(id)) by {
                    if after.owned_of(to).contains(id) {
                        let k = choose|k: int| 0 <= k < after.owned_of(to).len() && after.owned_of(to)[k] == id;
                        assert(m.owned_of(to)[k] == id);
                    }
                }
                assert(m.owned_of(to).contains(id) ==> after.owned_of(to).contains(id)) by {
                    if m.owned_of(to).contains(id) {
                        let k = choose|k: int| 0 <= k < m.owned_of(to).len() && m.owned_of(to)[k] == id;
                        assert(after.owned_of(to)[k] == id);
                    }
                }
            } else {
                assert(after.owned_of(to)[after.owned_of(to).len() - 1] == pet_id);
            }
        } else if a == from {
            if id != pet_id {
                assert(after.owned_of(from).contains(id) <==> m.owned_of(from).contains(id));
            }
        } else {
            assert(after.owned_of(a) == m.owned_of(a));
            if id == pet_id {
                assert(!m.owned_of(a).contains(pet_id));
            }
        }
    }
}

/// Whether no mini-game has more players than it allows, and each pet plays in at most one
/// unfinished mini-game, once, marked as in a game.
pub open spec fn players_sound(m: PalletModel) -> bool {
    &&& forall|g: MinigameId|
        #[trigger] m.games.contains_key(g) && m.games[g].max_player is Some ==> m.players_of(g).len()
            <= m.games[g].max_player.unwrap()
    &&& forall|g: MinigameId, i: int|
        m.games.contains_key(g) && m.games[g].status != GameStatus::Finish && 0 <= i
            < m.players_of(g).len() ==> m.pets.contains_key(#[trigger] m.players_of(g)[i].pet_id)
            && m.pets[m.players_of(g)[i].pet_id].is_join_minigame
    &&& forall|g: MinigameId, h: MinigameId, i: int, j: int|
        m.games.contains_key(g) && m.games[g].status != GameStatus::Finish && m.games.contains_key(h)
            && m.games[h].status != GameStatus::Finish && 0 <= i < m.players_of(g).len() && 0 <= j
            < m.players_of(h).len() && (g != h || i != j) ==> #[trigger] m.players_of(g)[i].pet_id
            != #[trigger] m.players_of(h)[j].pet_id
}

/// Joining keeps every mini-game within its player limit, and each pet in at most one
/// unfinished mini-game.
pub proof fn law_join_keeps_players_sound(m: PalletModel, game_id: MinigameId, pet_id: PetId)
    requires
        m.consistent(),
        players_sound(m),
        m.join_error(game_id, pet_id) is None,
    ensures
        players_sound(m.joined(game_id, pet_id)),
{
    let after = m.joined(game_id, pet_id);
    assert(m.pets[pet_id].pet_id == pet_id);
    let old_players = m.players_of(game_id);
    assert(after.players_of(game_id) == old_players.push(
        Polkapet { is_join_minigame: true, ..m.pets[pet_id] },
    ));
    assert forall|g: MinigameId, i: int|
        m.games.contains_key(g) && m.games[g].status != GameStatus::Finish && 0 <= i
            < m.players_of(g).len() implies #[trigger] m.players_of(g)[i].pet_id != pet_id by {
        if m.players_of(g)[i].pet_id == pet_id {
            assert(m.pets[m.players_of(g)[i].pet_id].is_join_minigame);
        }
    }
    assert forall|g: MinigameId|
        #[trigger] after.games.contains_key(g) && after.games[g].max_player is Some implies after.players_of(
        g,
    ).len() <= after.games[g].max_player.unwrap() by {
        if g != game_id {
            assert(after.players_of(g) == m.players_of(g));
        }
    }
    assert forall|g: MinigameId, i: int|
        after.games.contains_key(g) && after.games[g].status != GameStatus::Finish && 0 <= i
            < after.players_of(g).len() implies after.pets.contains_key(
        #[trigger] after.players_of(g)[i].pet_id,
    ) && after.pets[after.players_of(g)[i].pet_id].is_join_minigame by {
        if g != game_id || i < old_players.len() {
            assert(after.players_of(g)[i] == m.players_of(g)[i]);
            assert(m.players_of(g)[i].pet_id != pet_id);
            assert(m.pets.contains_key(m.players_of(g)[i].pet_id)
                && m.pets[m.players_of(g)[i].pet_id].is_join_minigame);
        } else {
            assert(after.players_of(g)[i].pet_id == pet_id);
        }
    }
    assert forall|g: MinigameId, h: MinigameId, i: int, j: int|
        after.games.contains_key(g) && after.games[g].status != GameStatus::Finish
            && after.games.contains_key(h) && after.games[h].status != GameStatus::Finish && 0 <= i
            < after.players_of(g).len() && 0 <= j < after.players_of(h).len() && (g != h || i != j)
            implies #[trigger] after.players_of(g)[i].pet_id != #[trigger] after.players_of(h)[j].pet_id by {
        let gi_new = g == game_id && i == old_players.len();
        let hj_new = h == game_id && j == old_players.len();
        if gi_new {
            assert(after.players_of(g)[i].pet_id == pet_id);
        }
        if hj_new {
            assert(after.players_of(h)[j].pet_id == pet_id);
        }
        if !gi_new && !hj_new {
            assert(after.players_of(g)[i] == m.players_of(g)[i]);
            assert(after.players_of(h)[j] == m.players_of(h)[j]);
            assert(m.players_of(g)[i].pet_id != m.players_of(h)[j].pet_id);
        }
        if !gi_new {
            assert(after.players_of(g)[i] == m.players_of(g)[i]);
            assert(m.players_of(g)[i].pet_id != pet_id);
        }
        if !hj_new {
            assert(after.players_of(h)[j] == m.players_of(h)[j]);
            assert(m.players_of(h)[j].pet_id != pet_id);
        }
    }
}

/// Giving a pet away and back restores it, off the market, and both accounts' lists (the
/// giver's up to order); no payment is asked for.
pub proof fn law_transfer_there_and_back(m: PalletModel, pet_id: PetId, to: AccountId)
    requires
        m.consistent(),
        m.transfer_error(pet_id, to, None) is None,
        m.transferred(pet_id, to, None).transfer_error(pet_id, m.pets[pet_id].owner, None) is None,
    ensures
        ({
            let from = m.pets[pet_id].owner;
            let back = m.transferred(pet_id, to, None).transferred(pet_id, from, None);
            &&& back.pets == m.pets.insert(pet_id, Polkapet { price: None, ..m.pets[pet_id] })
            &&& back.owned_of(to) == m.owned_of(to)
            &&& back.owned_of(from).len() == m.owned_of(from).len()
            &&& forall|x: PetId| #[trigger] back.owned_of(from).contains(x) <==> m.owned_of(from).contains(x)
            &&& back.transfers == m.transfers
        }),
{
    let from = m.pets[pet_id].owner;
    let m1 = m.transferred(pet_id, to, None);
    let back = m1.transferred(pet_id, from, None);
    law_transfer_moves_ownership(m, pet_id, to, None);
    law_transfer_moves_ownership(m1, pet_id, from, None);
    // the pet was not in the receiver's list, so going back removes the id pushed last
    let s = m.owned_of(to);
    let t = m1.owned_of(to);
    assert(t == s.push(pet_id));
    assert(!s.contains(pet_id)) by {
        if s.contains(pet_id) {
            let j = choose|j: int| 0 <= j < s.len() && s[j] == pet_id;
            crate::model::lemma_first_index(m.owned_of(from), pet_id);
            let k = crate::model::first_index(m.owned_of(from), pet_id);
            assert(m.owned.contains_key(to) && m.owned.contains_key(from));
            assert(m.owned[to][j] != m.owned[from][k]);
        }
    }
    crate::model::lemma_first_index(t, pet_id);
    let k = crate::model::first_index(t, pet_id);
    assert(k == s.len()) by {
        if k < s.len() {
            assert(s[k] == pet_id);
        }
    }
    assert(crate::model::swap_removed(t, k) =~= s);
    assert(back.owned_of(to) == s);
    assert(back.owned_of(from) == m1.owned_of(from).push(pet_id));
    assert forall|x: PetId| #[trigger] back.owned_of(from).contains(x) <==> m.owned_of(from).contains(x) by {
        let u = m1.owned_of(from);
        if x == pet_id {
            assert(back.owned_of(from)[u.len() as int] == pet_id);
            crate::model::lemma_first_index(m.owned_of(from), pet_id);
        } else {
            assert(back.owned_of(from).contains(x) ==> u.contains(x)) by {
                if back.owned_of(from).contains(x) {
                    let i = choose|i: int| 0 <= i < back.owned_of(from).len() && back.owned_of(from)[i] == x;
                    assert(u[i] == x);
                }
            }
            assert(u.contains(x) ==> back.owned_of(from).contains(x)) by {
                if u.contains(x) {
                    let i = choose|i: int| 0 <= i < u.len() && u[i] == x;
                    assert(back.owned_of(from)[i] == x);
                }
            }
        }
    }
    assert(back.pets =~= m.pets.insert(pet_id, Polkapet { price: None, ..m.pets[pet_id] }));
}

/// Sorting by points keeps exactly the same score lines.
proof fn lemma_sort_keeps_lines(u: Seq<MinigameResult>, x: MinigameResult)
    ensures
        sort_by_point(u).contains(x) <==> u.contains(x),
{
    lemma_sort_by_point(u);
    let t = sort_by_point(u);
    let pred = |r: MinigameResult| r.point == x.point;
    assert(crate::scores::with_point(t, x.point) == t.filter(pred));
    assert(crate::scores::with_point(u, x.point) == u.filter(pred));
    if t.contains(x) {
        let i = choose|i: int| 0 <= i < t.len() && t[i] == x;
        t.lemma_filter_contains(pred, i);
        u.lemma_filter_contains_rev(pred, x);
    }
    if u.contains(x) {
        let i = choose|i: int| 0 <= i < u.len() && u[i] == x;
        u.lemma_filter_contains(pred, i);
        t.lemma_filter_contains_rev(pred, x);
    }
}

/// A round of play adds to each score line of the mini-game the leading byte of the hash
/// drawn for its pet: points accumulate, and no line is lost or made up.
pub proof fn law_round_adds_hash_byte(
    m: PalletModel,
    game_id: MinigameId,
    seed: Seq<u8>,
    extrinsic_index: u32,
    block_number: BlockNumber,
)
    requires
        points_at_most(m.results_of(game_id), u32::MAX - 255),
    ensures
        ({
            let s = m.results_of(game_id);
            let t = m.scored(game_id, seed, extrinsic_index, block_number).results_of(game_id);
            &&& t.len() == s.len()
            &&& forall|i: int|
                0 <= i < t.len() ==> exists|j: int|
                    0 <= j < s.len() && s[j].pet_id == #[trigger] t[i].pet_id && t[i].point == s[j].point
                        + random_hash_spec(seed, m.last_pet_id, s[j].pet_id, extrinsic_index, block_number)[0]
            &&& forall|j: int|
                0 <= j < s.len() ==> exists|i: int|
                    0 <= i < t.len() && t[i].pet_id == #[trigger] s[j].pet_id && t[i].point == s[j].point
                        + random_hash_spec(seed, m.last_pet_id, s[j].pet_id, extrinsic_index, block_number)[0]
        }),
{
    let s = m.results_of(game_id);
    let u = crate::model::bumped(s, seed, m.last_pet_id, extrinsic_index, block_number);
    let t = m.scored(game_id, seed, extrinsic_index, block_number).results_of(game_id);
    assert(t == sort_by_point(u));
    lemma_sort_by_point(u);
    let h = |j: int| random_hash_spec(seed, m.last_pet_id, s[j].pet_id, extrinsic_index, block_number)[0];
    assert forall|j: int| 0 <= j < s.len() implies u[j].pet_id == s[j].pet_id && u[j].point == s[j].point
        + h(j) by {
        assert(s[j].point <= u32::MAX - 255);
    }
    assert forall|i: int| 0 <= i < t.len() implies exists|j: int|
        0 <= j < s.len() && s[j].pet_id == #[trigger] t[i].pet_id && t[i].point == s[j].point
            + random_hash_spec(seed, m.last_pet_id, s[j].pet_id, extrinsic_index, block_number)[0] by {
        lemma_sort_keeps_lines(u, t[i]);
        assert(t.contains(t[i]));
        let j = choose|j: int| 0 <= j < u.len() && u[j] == t[i];
        assert(u[j].pet_id == s[j].pet_id && u[j].point == s[j].point + h(j));
    }
    assert forall|j: int| 0 <= j < s.len() implies exists|i: int|
        0 <= i < t.len() && t[i].pet_id == #[trigger] s[j].pet_id && t[i].point == s[j].point
            + random_hash_spec(seed, m.last_pet_id, s[j].pet_id, extrinsic_index, block_number)[0] by {
        lemma_sort_keeps_lines(u, u[j]);
        assert(u.contains(u[j]));
        let i = choose|i: int| 0 <= i < t.len() && t[i] == u[j];
        assert(u[j].pet_id == s[j].pet_id && u[j].point == s[j].point + h(j));
    }
}

/// A bred child's oval position is drawn from the oval seed, as a new pet's is: the leading
/// byte of that draw picks it, whatever the parents' positions; its DNA and gender come from
/// the draw of the gender seed, and it belongs to the breeder.
pub proof fn law_child_oval_position_is_drawn(
    m: PalletModel,
    sender: AccountId,
    parent_1: PetId,
    parent_2: PetId,
    gender_seed: Seq<u8>,
    oval_seed: Seq<u8>,
    extrinsic_index: u32,
    block_number: BlockNumber,
)
    requires
        m.breed_error(sender, parent_1, parent_2) is None,
    ensures
        ({
            let child = m.bred(
                sender,
                parent_1,
                parent_2,
                gender_seed,
                oval_seed,
                extrinsic_index,
                block_number,
            ).pets[(m.last_pet_id + 1) as u64];
            let oval_byte = random_hash_spec(oval_seed, m.last_pet_id, 0, extrinsic_index, block_number)[0];
            &&& child.oval_position == oval_of(oval_byte)
            &&& oval_byte % 6 == 0 ==> child.oval_position == DotLogoOvalPosition::Up
            &&& oval_byte % 6 == 1 ==> child.oval_position == DotLogoOvalPosition::RightUp
            &&& oval_byte % 6 == 2 ==> child.oval_position == DotLogoOvalPosition::LeftUp
            &&& oval_byte % 6 == 3 ==> child.oval_position == DotLogoOvalPosition::RightDown
            &&& oval_byte % 6 == 4 ==> child.oval_position == DotLogoOvalPosition::LeftDown
            &&& oval_byte % 6 == 5 ==> child.oval_position == DotLogoOvalPosition::Down
            &&& child.owner == sender
            &&& child.pet_id == m.last_pet_id + 1
        }),
{
}

/// A successful respawn brings the pet back alive, dead or not before, with nine tenths of its
/// power rounded down and one more respawn; nothing else of the pet changes.
pub proof fn law_respawn_revives(m: PalletModel, who: AccountId, pet_id: PetId)
    requires
        m.consistent(),
        m.respawn_error(who, pet_id) is None,
    ensures
        ({
            let before = m.pets[pet_id];
            let after = m.respawned(pet_id).pets[pet_id];
            &&& !after.death
            &&& after.respawn == before.respawn + 1
            &&& after.power == before.power * 9 / 10
            &&& after == (Polkapet {
                death: false,
                respawn: after.respawn,
                power: after.power,
                ..before
            })
            &&& m.respawned(pet_id).events == m.events.push(Event::Respawn { polkapet: pet_id })
        }),
{
    let p = m.pets[pet_id].power;
    assert(p * 9 / 10 <= p) by (nonlinear_arith);
}

/// Empowering a pet adds to its power the boost that the current table grants to the pet's
/// own oval position: the table's field of the same name.
pub proof fn law_empower_uses_own_position(m: PalletModel, pet_id: PetId)
    requires
        m.consistent(),
        m.empower_error(pet_id) is None,
    ensures
        ({
            let before = m.pets[pet_id];
            let after = m.empowered(pet_id).pets[pet_id];
            let b = m.oval_boost;
            &&& after == (Polkapet { power: after.power, ..before })
            &&& before.oval_position == DotLogoOvalPosition::Up ==> after.power == before.power + b.up
            &&& before.oval_position == DotLogoOvalPosition::RightUp ==> after.power == before.power
                + b.right_up
            &&& before.oval_position == DotLogoOvalPosition::LeftUp ==> after.power == before.power
                + b.left_up
            &&& before.oval_position == DotLogoOvalPosition::RightDown ==> after.power
                == before.power + b.right_down
            &&& before.oval_position == DotLogoOvalPosition::LeftDown ==> after.power
                == before.power + b.left_down
            &&& before.oval_position == DotLogoOvalPosition::Down ==> after.power == before.power
                + b.down
        }),
{
}

proof fn lemma_kills_keyed(
    m: PalletModel,
    seed: Seq<u8>,
    k: nat,
    extrinsic_index: u32,
    block_number: BlockNumber,
)
    requires
        m.consistent(),
    ensures
        m.kills(seed, k, extrinsic_index, block_number).pets.dom() == m.pets.dom(),
        forall|id: PetId| #[trigger]
            m.kills(seed, k, extrinsic_index, block_number).pets.contains_key(id) ==> m.kills(
                seed,
                k,
                extrinsic_index,
                block_number,
            ).pets[id].pet_id == id,
    decreases k,
{
    if k > 0 {
        lemma_kills_keyed(m, seed, (k - 1) as nat, extrinsic_index, block_number);
        let prev = m.kills(seed, (k - 1) as nat, extrinsic_index, block_number);
        let n = m.death_draw(seed, (k - 1) as u64, extrinsic_index, block_number);
        if 0 < n <= m.last_pet_id {
            assert(m.pets.contains_key(n as u64));
            assert(prev.pets[n as u64].pet_id == n);
            assert(m.kills(seed, k, extrinsic_index, block_number).pets.dom() =~= m.pets.dom());
        }
    }
}

/// The kills of `m.kills(seed, k, ..)`: each of the first `k` draws that names a pet leaves it
/// dead without power.
proof fn lemma_drawn_pets_die(
    m: PalletModel,
    seed: Seq<u8>,
    k: nat,
    extrinsic_index: u32,
    block_number: BlockNumber,
    i: u64,
)
    requires
        m.consistent(),
        i < k,
        0 < m.death_draw(seed, i, extrinsic_index, block_number) <= m.last_pet_id,
    ensures
        ({
            let n = m.death_draw(seed, i, extrinsic_index, block_number) as u64;
            let after = m.kills(seed, k, extrinsic_index, block_number);
            after.pets.contains_key(n) && after.pets[n].death && after.pets[n].power == 0
        }),
    decreases k,
{
    let n = m.death_draw(seed, i, extrinsic_index, block_number) as u64;
    lemma_kills_keyed(m, seed, (k - 1) as nat, extrinsic_index, block_number);
    lemma_kills_keyed(m, seed, k, extrinsic_index, block_number);
    let prev = m.kills(seed, (k - 1) as nat, extrinsic_index, block_number);
    let after = m.kills(seed, k, extrinsic_index, block_number);
    assert(m.pets.contains_key(n));
    if i < k - 1 {
        lemma_drawn_pets_die(m, seed, (k - 1) as nat, extrinsic_index, block_number, i);
        let n2 = m.death_draw(seed, (k - 1) as u64, extrinsic_index, block_number);
        if 0 < n2 <= m.last_pet_id {
            assert(m.pets.contains_key(n2 as u64));
            assert(prev.pets[n2 as u64].pet_id == n2);
        }
    } else {
        assert(i == k - 1);
        assert(prev.pets[n].pet_id == n);
    }
}

/// At every fiftieth block the end-of-block hook draws a seed for random deaths and makes one
/// random kill per hundred pets (rounded down): each drawn number that names a pet leaves
/// that pet dead without power. At other blocks it kills nothing and reads nothing.
pub proof fn law_kills_every_fiftieth_block(m: PalletModel, after: PalletModel, current_block: u32)
    requires
        m.consistent(),
        m.kill_outcome(after, current_block),
    ensures
        current_block % 50 != 0 ==> after == m,
        current_block % 50 == 0 ==> exists|seed: [u8; 32], index: Option<u32>, number: BlockNumber|
            {
                &&& after.reads == m.reads + #[trigger] draw_reads(
                    RandomSubject::RandomDeathNumber,
                    seed,
                    index,
                    number,
                )
                &&& forall|i: u64|
                    i < m.last_pet_id * 100 / 10000 && 0 < #[trigger] m.death_draw(
                        seed@,
                        i,
                        or_zero(index),
                        number,
                    ) <= m.last_pet_id ==> {
                        let n = m.death_draw(seed@, i, or_zero(index), number) as u64;
                        after.pets.contains_key(n) && after.pets[n].death && after.pets[n].power == 0
                    }
            },
{
    if current_block % 50 == 0 {
        let (seed, index, number) = choose|seed: [u8; 32], index: Option<u32>, number: BlockNumber|
            after == #[trigger] m.with_reads(
                draw_reads(RandomSubject::RandomDeathNumber, seed, index, number),
            ).kills(seed@, m.kill_count(), or_zero(index), number);
        let mr = m.with_reads(draw_reads(RandomSubject::RandomDeathNumber, seed, index, number));
        assert(mr.consistent());
        crate::model::lemma_kills_frame(mr, seed@, m.kill_count(), or_zero(index), number);
        assert forall|i: u64|
            i < m.last_pet_id * 100 / 10000 && 0 < #[trigger] m.death_draw(
                seed@,
                i,
                or_zero(index),
                number,
            ) <= m.last_pet_id implies {
                let n = m.death_draw(seed@, i, or_zero(index), number) as u64;
                after.pets.contains_key(n) && after.pets[n].death && after.pets[n].power == 0
            } by {
            assert(mr.death_draw(seed@, i, or_zero(index), number) == m.death_draw(
                seed@,
                i,
                or_zero(index),
                number,
            ));
            lemma_drawn_pets_die(mr, seed@, m.kill_count(), or_zero(index), number, i);
        }
    }
}

/// At every fifth block the end-of-block hook draws a new boost table: the boost of the `k`-th
/// oval position (Up, RightUp, LeftUp, RightDown, LeftDown, Down) is one more than the `k`-th
/// byte of the drawn hash modulo six; nothing else changes but the record of the draw. At other
/// blocks the table and everything else stay.
pub proof fn law_boosts_every_fifth_block(m: PalletModel, after: PalletModel, current_block: u32)
    requires
        m.boost_outcome(after, current_block),
    ensures
        current_block % 5 != 0 ==> after == m,
        current_block % 5 == 0 ==> exists|seed: [u8; 32], index: Option<u32>, number: BlockNumber|
            {
                let h = random_hash_spec(seed@, m.last_pet_id, 0, or_zero(index), number);
                &&& after.reads == m.reads + #[trigger] draw_reads(
                    RandomSubject::DotLogoOvalPositionBoost,
                    seed,
                    index,
                    number,
                )
                &&& after.oval_boost.up == h[0] % 6 + 1
                &&& after.oval_boost.right_up == h[1] % 6 + 1
                &&& after.oval_boost.left_up == h[2] % 6 + 1
                &&& after.oval_boost.right_down == h[3] % 6 + 1
                &&& after.oval_boost.left_down == h[4] % 6 + 1
                &&& after.oval_boost.down == h[5] % 6 + 1
                &&& after == (PalletModel { oval_boost: after.oval_boost, reads: after.reads, ..m })
            },
{
    if current_block % 5 == 0 {
        let (seed, index, number) = choose|seed: [u8; 32], index: Option<u32>, number: BlockNumber|
            after == #[trigger] m.with_reads(
                draw_reads(RandomSubject::DotLogoOvalPositionBoost, seed, index, number),
            ).boosted(random_hash_spec(seed@, m.last_pet_id, 0, or_zero(index), number));
        assert(after.reads == m.reads + draw_reads(
            RandomSubject::DotLogoOvalPositionBoost,
            seed,
            index,
            number,
        ));
    }
}

/// The running-game hook plays a round in a mini-game only on even blocks: there its scores
/// become those of a round of play, elsewhere they stay.
pub proof fn law_rounds_on_even_blocks(
    m: PalletModel,
    game_id: MinigameId,
    current_block: u32,
    seed: Seq<u8>,
    extrinsic_index: u32,
    block_number: BlockNumber,
    outs: Seq<Result<(), DispatchError>>,
)
    requires
        m.games.contains_key(game_id),
    ensures
        m.game_turn(game_id, current_block, seed, extrinsic_index, block_number, outs).0.results_of(
            game_id,
        ) == if current_block % 2 == 0 {
            m.scored(game_id, seed, extrinsic_index, block_number).results_of(game_id)
        } else {
            m.results_of(game_id)
        },
{
}

} // verus!