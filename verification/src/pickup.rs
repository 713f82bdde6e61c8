//! The phase of a tick in which players pick up the items they touch.

use crate::collision::{tagged_out, without};
use crate::geometry::{is_colliding, overlap, Triangle};
use crate::models::{GameConfig, Item, PlayerState};
use crate::motion::{items_valid, players_valid};
use crate::seqs::{lemma_filter_all, lemma_filter_len_le};
use std::collections::HashSet;
use vstd::prelude::*;
use vstd::std_specs::hash::*;

verus! {

/// The player after an item was offered to it: changed if they overlap.
pub open spec fn offered(player: PlayerState, item: Item, config: GameConfig) -> PlayerState {
    if overlap(player.circle(), item.circle()) {
        item.applied(player, config)
    } else {
        player
    }
}

/// The players after an item was offered to each of them.
pub open spec fn offer_spec(
    players: Seq<PlayerState>,
    item: Item,
    config: GameConfig,
) -> Seq<PlayerState> {
    players.map_values(|p: PlayerState| offered(p, item, config))
}

/// The player at `j` overlaps the item.
pub open spec fn touches(players: Seq<PlayerState>, j: int, item: Item) -> bool {
    0 <= j < players.len() && overlap(players[j].circle(), item.circle())
}

/// Some player overlaps the item.
pub open spec fn taken(players: Seq<PlayerState>, item: Item) -> bool {
    exists|j: int| touches(players, j, item)
}

/// What the pickups leave: the players as the items changed them, and the ids
/// of the items that were picked up.
pub struct Harvest {
    pub players: Seq<PlayerState>,
    pub used: Set<u32>,
}

/// The outcome of offering the items to the players one after the other, in
/// their order. A later item meets the players as the earlier ones left them.
pub open spec fn harvest(players: Seq<PlayerState>, items: Seq<Item>, config: GameConfig) -> Harvest
    decreases items.len(),
{
    if items.len() == 0 {
        Harvest { players, used: Set::empty() }
    } else {
        let before = harvest(players, items.drop_last(), config);
        let item = items.last();
        Harvest {
            players: offer_spec(before.players, item, config),
            used: if taken(before.players, item) {
                before.used.insert(item.id)
            } else {
                before.used
            },
        }
    }
}

/// Offers one item to every player. Tells whether any player took it.
pub fn offer(players: &mut Vec<PlayerState>, item: Item, config: GameConfig) -> (any: bool)
    requires
        config.valid(),
        players_valid(old(players)@, config),
    ensures
        final(players)@ == offer_spec(old(players)@, item, config),
        any == taken(old(players)@, item),
        players_valid(final(players)@, config),
{
    let mut any: bool = false;
    let mut j: usize = 0;
    while j < players.len()
        invariant
            j <= players.len(),
            players.len() == old(players).len(),
            config.valid(),
            players_valid(old(players)@, config),
            forall|k: int|
                0 <= k < j ==> #[trigger] players@[k] == offered(old(players)@[k], item, config),
            forall|k: int| j <= k < players.len() ==> #[trigger] players@[k] == old(players)@[k],
            forall|k: int| 0 <= k < j ==> (#[trigger] players@[k]).valid(config),
            any == exists|k: int| 0 <= k < j && #[trigger] touches(old(players)@, k, item),
        decreases players.len() - j,
    {
        let mut player: PlayerState = players[j];
        if is_colliding(&player, &item) {
            assert(touches(old(players)@, j as int, item));
            item.apply_to(&mut player, config);
            players.set(j, player);
            any = true;
        }
        j += 1;
    }
    assert(players@ =~= offer_spec(old(players)@, item, config));
    any
}

/// Lets the players pick up the items they touch and removes those items.
pub fn gather(players: &mut Vec<PlayerState>, items: &mut Vec<Item>, config: GameConfig)
    requires
        config.valid(),
        players_valid(old(players)@, config),
        items_valid(old(items)@, config),
    ensures
        final(players)@ == harvest(old(players)@, old(items)@, config).players,
        final(items)@ == old(items)@.filter(
            tagged_out::<Item>(harvest(old(players)@, old(items)@, config).used),
        ),
        players_valid(final(players)@, config),
        items_valid(final(items)@, config),
        final(items)@.len() <= old(items)@.len(),
{
    broadcast use group_hash_axioms;

    let mut used: HashSet<u32> = HashSet::new();
    let mut i: usize = 0;
    assert(items@.take(0) =~= Seq::<Item>::empty());
    while i < items.len()
        invariant
            i <= items.len(),
            config.valid(),
            items@ == old(items)@,
            players_valid(players@, config),
            players@ == harvest(old(players)@, items@.take(i as int), config).players,
            used@ == harvest(old(players)@, items@.take(i as int), config).used,
        decreases items.len() - i,
    {
        assert(items@.take(i + 1).drop_last() =~= items@.take(i as int));
        let item: Item = items[i];
        let any: bool = offer(players, item, config);
        if any {
            used.insert(item.id);
        }
        i += 1;
    }
    assert(items@.take(items.len() as int) =~= items@);
    let kept: Vec<Item> = without(items, &used);
    proof {
        lemma_filter_all(items@, tagged_out::<Item>(used@), |it: Item| it.valid(config));
        lemma_filter_len_le(items@, tagged_out::<Item>(used@));
    }
    *items = kept;
}

} // verus!
