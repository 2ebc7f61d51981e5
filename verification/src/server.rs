//! The server's answers to what the players ask: each function takes the
//! board and the request of the connection `entity` and applies the rules.

use vstd::prelude::*;
use crate::model::{
    BlockApartenance, BlockPosition, BlockType, EventBuild, Moula, PacketIdentification, RecoltEvent,
    CombatEvent, ConqueteEvent, Race, TrainEvent, no_position, ReponceCombatEvent, Troup, TroupApartenance, range_of, troup_owner_of, DestroyEvent, DeplacementEvent, Tour, TroupPosition, block_owner_of, enemy_of, has_price, is_player, price_of,
};
use crate::model::{can_build, speed_of};
use crate::random::random_below;
use crate::hexgrid::{cases_adjacentes_rayon, contient, coords_fit, coords_fit_exec, pair_fits_exec, est_adjacente, in_zone, neighbour, pair_fits};
use crate::combat::{combat_loser, combat_score, lemma_empty_side_loses, loser, score, score_fits, score_fits_exec};
use crate::board::{Block, Board, Player, TroupUnit, block_positions, troup_tile, block_at, distinct_blocks, player_at, players_wf};

verus! {

/// The board is left as it was.
pub open spec fn unchanged(b0: Board, b1: Board) -> bool {
    &&& b1.blocks@ == b0.blocks@
    &&& b1.troups@ == b0.troups@
    &&& b1.players@ == b0.players@
    &&& b1.tour == b0.tour
}

/// The request comes from the player whose turn it is; the index of that player.
pub open spec fn current_player_index(b: Board, entity: u64) -> Option<int> {
    match player_at(b.players@, entity) {
        Some(i) => if b.players@[i].identity == b.tour.current_player { Some(i) } else { None },
        None => None,
    }
}

/// Whether a build request on this board runs without failing: on a grass
/// tile of the current player's request, the requester must be a player,
/// and where the tile is theirs the building must have a price.
pub open spec fn build_defined(b: Board, entity: u64, ev: EventBuild) -> bool {
    match current_player_index(b, entity) {
        Some(i) => match block_at(b.blocks@, ev.pos) {
            Some(j) => b.blocks@[j].kind == BlockType::Grass ==> (is_player(ev.who_are_u) && (
                block_owner_of(ev.who_are_u) == b.blocks@[j].owner ==> has_price(ev.type_b))),
            None => true,
        },
        None => true,
    }
}

/// Whether the building goes up: the tile is grass, owned by the requester's
/// side, and player `i` can pay for it.
pub open spec fn build_happens(b: Board, i: int, ev: EventBuild) -> bool {
    match block_at(b.blocks@, ev.pos) {
        Some(j) => {
            &&& b.blocks@[j].kind == BlockType::Grass
            &&& block_owner_of(ev.who_are_u) == b.blocks@[j].owner
            &&& b.players@[i].moula.stone >= price_of(ev.type_b).unwrap().0
            &&& b.players@[i].moula.wood >= price_of(ev.type_b).unwrap().1
        },
        None => false,
    }
}

/// A player after paying stone and wood.
pub open spec fn paid(p: Player, stone: u32, wood: u32) -> Player {
    Player {
        moula: Moula { stone: (p.moula.stone - stone) as u32, wood: (p.moula.wood - wood) as u32, food: p.moula.food },
        ..p
    }
}

/// The effect of a build request: nothing unless it comes from the player
/// whose turn it is; then the turn passes, and if the building goes up it
/// replaces the grass, the tile becomes the requester's and the player pays.
pub open spec fn build_effect(b0: Board, b1: Board, entity: u64, ev: EventBuild) -> bool {
    match current_player_index(b0, entity) {
        None => unchanged(b0, b1),
        Some(i) => {
            &&& b1.tour.current_player == enemy_of(b0.tour.current_player)
            &&& b1.troups@ == b0.troups@
            &&& if build_happens(b0, i, ev) {
                let j = block_at(b0.blocks@, ev.pos).unwrap();
                let price = price_of(ev.type_b).unwrap();
                &&& b1.blocks@ == b0.blocks@.update(j, Block { pos: ev.pos, kind: ev.type_b, owner: block_owner_of(ev.who_are_u) })
                &&& b1.players@ == b0.players@.update(i, paid(b0.players@[i], price.0, price.1))
            } else {
                &&& b1.blocks@ == b0.blocks@
                &&& b1.players@ == b0.players@
            }
        },
    }
}

proof fn lemma_update_block_keeps_distinct(bs: Seq<Block>, j: int, nb: Block)
    requires
        distinct_blocks(bs),
        0 <= j < bs.len(),
        nb.pos == bs[j].pos,
    ensures
        distinct_blocks(bs.update(j, nb)),
{
    assert forall|a: int, c: int| 0 <= a < bs.len() && 0 <= c < bs.len() && a != c implies bs.update(j, nb)[a].pos != bs.update(j, nb)[c].pos by {
        assert(bs[a].pos != bs[c].pos);
    }
}

proof fn lemma_update_player_keeps_wf(ps: Seq<Player>, i: int, np: Player)
    requires
        players_wf(ps),
        0 <= i < ps.len(),
        np.entity == ps[i].entity,
        np.identity == ps[i].identity,
    ensures
        players_wf(ps.update(i, np)),
{
    assert forall|a: int, c: int| 0 <= a < ps.len() && 0 <= c < ps.len() && a != c implies ps.update(i, np)[a].entity != ps.update(i, np)[c].entity by {
        assert(ps[a].entity != ps[c].entity);
    }
    assert forall|a: int| 0 <= a < ps.len() implies is_player(#[trigger] ps.update(i, np)[a].identity) by {
        assert(is_player(ps[a].identity));
    }
}

/// The index of the player behind `entity` when it is their turn.
fn current_player(board: &Board, entity: u64) -> (r: Option<usize>)
    requires
        board.wf(),
    ensures
        match r {
            Some(i) => current_player_index(*board, entity) == Some(i as int) && i < board.players@.len(),
            None => current_player_index(*board, entity) is None,
        },
{
    match board.find_player(entity) {
        Some(i) => if board.players[i].identity == board.tour.current_player { Some(i) } else { None },
        None => None,
    }
}

/// Whether the building has a price.
fn a_un_prix(t: BlockType) -> (r: bool)
    ensures
        r == has_price(t),
{
    match t {
        BlockType::Castle | BlockType::Grass | BlockType::GrassForest | BlockType::GrassHill => false,
        _ => true,
    }
}

/// Whether a build request runs without failing on this board (see `build_defined`).
pub fn build_possible(board: &Board, entity: u64, event: EventBuild) -> (r: bool)
    requires
        board.wf(),
    ensures
        r == build_defined(*board, entity, event),
{
    if current_player(board, entity).is_none() {
        return true;
    }
    match board.find_block(event.pos) {
        None => true,
        Some(j) => {
            let b = board.blocks[j];
            if b.kind != BlockType::Grass {
                true
            } else if event.who_are_u == PacketIdentification::Spectateur {
                false
            } else {
                event.who_are_u.get_block_apartenance() != b.owner || a_un_prix(event.type_b)
            }
        },
    }
}

/// A player builds `event.type_b` on the tile at `event.pos`.
pub fn gestion_build(board: &mut Board, entity: u64, event: EventBuild)
    requires
        old(board).wf(),
        build_defined(*old(board), entity, event),
    ensures
        final(board).wf(),
        build_effect(*old(board), *final(board), entity, event),
{
    let found = board.find_player(entity);
    if let Some(i) = found {
        let player = board.players[i];
        if board.tour.current_player == player.identity {
            assert(current_player_index(*old(board), entity) == Some(i as int));
            if let Some(j) = board.find_block(event.pos) {
                let block = board.blocks[j];
                assert(block_at(old(board).blocks@, event.pos) == Some(j as int));
                if block.kind == BlockType::Grass {
                    if event.who_are_u.get_block_apartenance() == block.owner {
                        if can_build(event.type_b, player.moula) {
                            let price = event.type_b.get_price();
                            let np = Player {
                                moula: Moula {
                                    stone: player.moula.stone - price[0],
                                    wood: player.moula.wood - price[1],
                                    food: player.moula.food,
                                },
                                ..player
                            };
                            let nb = Block { pos: block.pos, kind: event.type_b, owner: event.who_are_u.get_block_apartenance() };
                            proof {
                                lemma_update_player_keeps_wf(board.players@, i as int, np);
                                lemma_update_block_keeps_distinct(board.blocks@, j as int, nb);
                            }
                            board.players.set(i, np);
                            board.blocks.set(j, nb);
                        }
                    }
                }
            }
            board.tour.change_tour();
        }
    }
}

/// What harvesting the tile at `pos` gives player `i`: the tile must be of
/// the player's side and a forest (wood) or a hill (stone).
pub open spec fn harvest_happens(b: Board, i: int, pos: BlockPosition) -> bool {
    match block_at(b.blocks@, pos) {
        Some(j) => {
            &&& b.blocks@[j].owner == block_owner_of(b.players@[i].identity)
            &&& (b.blocks@[j].kind == BlockType::GrassForest || b.blocks@[j].kind == BlockType::GrassHill)
        },
        None => false,
    }
}

/// Whether a harvest on this board keeps the resources within their range.
pub open spec fn recolt_defined(b: Board, entity: u64, ev: RecoltEvent) -> bool {
    match current_player_index(b, entity) {
        Some(i) => harvest_happens(b, i, ev.pos) ==> {
            let j = block_at(b.blocks@, ev.pos).unwrap();
            if b.blocks@[j].kind == BlockType::GrassForest {
                b.players@[i].moula.wood + 500 <= u32::MAX
            } else {
                b.players@[i].moula.stone + 500 <= u32::MAX
            }
        },
        None => true,
    }
}

/// A player after a harvest of the tile kind `k`.
pub open spec fn harvested(p: Player, k: BlockType) -> Player {
    if k == BlockType::GrassForest {
        Player { moula: Moula { wood: (p.moula.wood + 500) as u32, ..p.moula }, ..p }
    } else {
        Player { moula: Moula { stone: (p.moula.stone + 500) as u32, ..p.moula }, ..p }
    }
}

/// The effect of a harvest: nothing unless it comes from the player whose
/// turn it is; then the turn passes, and a forest or hill of the player's
/// side turns to grass and pays 500 wood or 500 stone.
pub open spec fn recolt_effect(b0: Board, b1: Board, entity: u64, ev: RecoltEvent) -> bool {
    match current_player_index(b0, entity) {
        None => unchanged(b0, b1),
        Some(i) => {
            &&& b1.tour.current_player == enemy_of(b0.tour.current_player)
            &&& b1.troups@ == b0.troups@
            &&& if harvest_happens(b0, i, ev.pos) {
                let j = block_at(b0.blocks@, ev.pos).unwrap();
                &&& b1.blocks@ == b0.blocks@.update(j, Block { kind: BlockType::Grass, ..b0.blocks@[j] })
                &&& b1.players@ == b0.players@.update(i, harvested(b0.players@[i], b0.blocks@[j].kind))
            } else {
                &&& b1.blocks@ == b0.blocks@
                &&& b1.players@ == b0.players@
            }
        },
    }
}

/// Whether a harvest request runs without failing on this board (see `recolt_defined`).
pub fn recolt_possible(board: &Board, entity: u64, event: RecoltEvent) -> (r: bool)
    requires
        board.wf(),
    ensures
        r == recolt_defined(*board, entity, event),
{
    let i = match current_player(board, entity) {
        Some(i) => i,
        None => return true,
    };
    let p = board.players[i];
    assert(is_player(board.players@[i as int].identity));
    match board.find_block(event.pos) {
        None => true,
        Some(j) => {
            let b = board.blocks[j];
            if b.owner != p.identity.get_block_apartenance() {
                true
            } else {
                match b.kind {
                    BlockType::GrassForest => p.moula.wood <= 0xffff_ffff - 500,
                    BlockType::GrassHill => p.moula.stone <= 0xffff_ffff - 500,
                    _ => true,
                }
            }
        },
    }
}

/// A player harvests the forest or the hill at `event.pos`.
pub fn gestion_use_resource(board: &mut Board, entity: u64, event: RecoltEvent)
    requires
        old(board).wf(),
        recolt_defined(*old(board), entity, event),
    ensures
        final(board).wf(),
        recolt_effect(*old(board), *final(board), entity, event),
{
    let found = board.find_player(entity);
    if let Some(i) = found {
        let player = board.players[i];
        if board.tour.current_player == player.identity {
            assert(current_player_index(*old(board), entity) == Some(i as int));
            if let Some(j) = board.find_block(event.pos) {
                let block = board.blocks[j];
                if player.identity.get_block_apartenance() == block.owner {
                    let np = match block.kind {
                        BlockType::GrassForest => Some(Player { moula: Moula { wood: player.moula.wood + 500, ..player.moula }, ..player }),
                        BlockType::GrassHill => Some(Player { moula: Moula { stone: player.moula.stone + 500, ..player.moula }, ..player }),
                        _ => None,
                    };
                    if let Some(np) = np {
                        let nb = Block { kind: BlockType::Grass, ..block };
                        proof {
                            lemma_update_player_keeps_wf(board.players@, i as int, np);
                            lemma_update_block_keeps_distinct(board.blocks@, j as int, nb);
                        }
                        board.players.set(i, np);
                        board.blocks.set(j, nb);
                    }
                }
            }
            board.tour.change_tour();
        }
    }
}

/// The effect of a demolition: nothing unless it comes from the player
/// whose turn it is; then the turn passes and the tile at `pos`, if it is of
/// the player's side, turns to grass whatever stood on it.
pub open spec fn destroy_effect(b0: Board, b1: Board, entity: u64, ev: DestroyEvent) -> bool {
    match current_player_index(b0, entity) {
        None => unchanged(b0, b1),
        Some(i) => {
            &&& b1.tour.current_player == enemy_of(b0.tour.current_player)
            &&& b1.troups@ == b0.troups@
            &&& b1.players@ == b0.players@
            &&& match block_at(b0.blocks@, ev.pos) {
                Some(j) => if b0.blocks@[j].owner == block_owner_of(b0.players@[i].identity) {
                    b1.blocks@ == b0.blocks@.update(j, Block { kind: BlockType::Grass, ..b0.blocks@[j] })
                } else {
                    b1.blocks@ == b0.blocks@
                },
                None => b1.blocks@ == b0.blocks@,
            }
        },
    }
}

/// A player clears the tile at `event.pos`.
pub fn destroy_server_side(board: &mut Board, entity: u64, event: DestroyEvent)
    requires
        old(board).wf(),
    ensures
        final(board).wf(),
        destroy_effect(*old(board), *final(board), entity, event),
{
    let found = board.find_player(entity);
    if let Some(i) = found {
        let player = board.players[i];
        if board.tour.current_player == player.identity {
            assert(current_player_index(*old(board), entity) == Some(i as int));
            if let Some(j) = board.find_block(event.pos) {
                let block = board.blocks[j];
                if player.identity.get_block_apartenance() == block.owner {
                    let nb = Block { kind: BlockType::Grass, ..block };
                    proof {
                        lemma_update_block_keeps_distinct(board.blocks@, j as int, nb);
                    }
                    board.blocks.set(j, nb);
                }
            }
            board.tour.change_tour();
        }
    }
}

/// A harvest that pays clears the tile: when it is player `i`'s turn (and
/// the harvest runs, see `recolt_defined`) and the tile `j` at the target is a forest or a hill of the player's side,
/// it turns to grass (keeping its place and owner), every other tile stays,
/// and the player alone gains 500 wood for a forest or 500 stone for a hill.
pub proof fn lemma_harvest_clears_tile(b0: Board, b1: Board, entity: u64, ev: RecoltEvent, i: int, j: int)
    requires
        b0.wf(),
        recolt_defined(b0, entity, ev),
        recolt_effect(b0, b1, entity, ev),
        current_player_index(b0, entity) == Some(i),
        0 <= j < b0.blocks@.len(),
        b0.blocks@[j].pos == ev.pos,
        b0.blocks@[j].owner == block_owner_of(b0.players@[i].identity),
        b0.blocks@[j].kind == BlockType::GrassForest || b0.blocks@[j].kind == BlockType::GrassHill,
    ensures
        b1.blocks@.len() == b0.blocks@.len(),
        b1.blocks@[j].kind == BlockType::Grass,
        b1.blocks@[j].pos == b0.blocks@[j].pos,
        b1.blocks@[j].owner == b0.blocks@[j].owner,
        forall|k: int| 0 <= k < b0.blocks@.len() && k != j ==> b1.blocks@[k] == #[trigger] b0.blocks@[k],
        b1.players@.len() == b0.players@.len(),
        forall|k: int| 0 <= k < b0.players@.len() && k != i ==> b1.players@[k] == #[trigger] b0.players@[k],
        b1.players@[i].moula.food == b0.players@[i].moula.food,
        b0.blocks@[j].kind == BlockType::GrassForest ==>
            b1.players@[i].moula.wood == b0.players@[i].moula.wood + 500 && b1.players@[i].moula.stone == b0.players@[i].moula.stone,
        b0.blocks@[j].kind == BlockType::GrassHill ==>
            b1.players@[i].moula.stone == b0.players@[i].moula.stone + 500 && b1.players@[i].moula.wood == b0.players@[i].moula.wood,
{
    let j2 = block_at(b0.blocks@, ev.pos).unwrap();
    assert(b0.blocks@[j2].pos == ev.pos);
    assert(j2 == j);
    assert(harvest_happens(b0, i, ev.pos));
}

/// A harvest pays only for a forest or a hill of one's own side: when it is
/// player `i`'s turn and no tile at the target is a forest or a hill of the
/// player's side, the tiles and everyone's resources stay as they were.
pub proof fn lemma_harvest_refused_elsewhere(b0: Board, b1: Board, entity: u64, ev: RecoltEvent, i: int)
    requires
        recolt_effect(b0, b1, entity, ev),
        current_player_index(b0, entity) == Some(i),
        forall|j: int| 0 <= j < b0.blocks@.len() && (#[trigger] b0.blocks@[j]).pos == ev.pos ==>
            !(b0.blocks@[j].owner == block_owner_of(b0.players@[i].identity)
                && (b0.blocks@[j].kind == BlockType::GrassForest || b0.blocks@[j].kind == BlockType::GrassHill)),
    ensures
        b1.blocks@ == b0.blocks@,
        b1.players@ == b0.players@,
        b1.tour.current_player == enemy_of(b0.tour.current_player),
{
    if let Some(j) = block_at(b0.blocks@, ev.pos) {
        assert(b0.blocks@[j].pos == ev.pos);
    }
}

/// A tile pays only once: after a harvest that pays, a second harvest of
/// the same tile (on the tiles that the first one left, by whoever asks)
/// pays nothing and leaves the tiles as they are.
pub proof fn lemma_harvest_pays_once(
    b0: Board,
    b1: Board,
    b2: Board,
    b3: Board,
    entity: u64,
    ev: RecoltEvent,
    entity2: u64,
)
    requires
        b0.wf(),
        b2.wf(),
        recolt_effect(b0, b1, entity, ev),
        current_player_index(b0, entity) matches Some(i) && harvest_happens(b0, i, ev.pos),
        b2.blocks@ == b1.blocks@,
        recolt_effect(b2, b3, entity2, ev),
    ensures
        b3.players@ == b2.players@,
        b3.blocks@ == b2.blocks@,
{
    let i = current_player_index(b0, entity).unwrap();
    let j = block_at(b0.blocks@, ev.pos).unwrap();
    assert(b0.blocks@[j].pos == ev.pos);
    assert(b2.blocks@[j].pos == ev.pos);
    assert(b2.blocks@[j].kind == BlockType::Grass);
    if let Some(k) = current_player_index(b2, entity2) {
        if harvest_happens(b2, k, ev.pos) {
            let j2 = block_at(b2.blocks@, ev.pos).unwrap();
            assert(b2.blocks@[j2].pos == ev.pos);
            assert(j2 == j);
            assert(false);
        }
    }
}

/// Demolishing a building brings the map back to what it was before the
/// building went up: a build request that took effect, followed (on a map
/// with the same tiles, at a later turn of the same player) by a demolition
/// of that tile, leaves the tiles as they were before the build.
pub proof fn lemma_destroy_undoes_build(
    b0: Board,
    b1: Board,
    b2: Board,
    b3: Board,
    entity: u64,
    ev: EventBuild,
    entity2: u64,
)
    requires
        b0.wf(),
        b2.wf(),
        build_effect(b0, b1, entity, ev),
        current_player_index(b0, entity) matches Some(i) && build_happens(b0, i, ev),
        b2.blocks@ == b1.blocks@,
        current_player_index(b2, entity2) matches Some(k) && b2.players@[k].identity == ev.who_are_u,
        destroy_effect(b2, b3, entity2, DestroyEvent { pos: ev.pos }),
    ensures
        b3.blocks@ == b0.blocks@,
{
    let i = current_player_index(b0, entity).unwrap();
    let j = block_at(b0.blocks@, ev.pos).unwrap();
    let nb = Block { pos: ev.pos, kind: ev.type_b, owner: block_owner_of(ev.who_are_u) };
    assert(b2.blocks@ == b0.blocks@.update(j, nb));
    assert(b2.blocks@[j].pos == ev.pos);
    let j2 = block_at(b2.blocks@, ev.pos).unwrap();
    assert(b2.blocks@[j2].pos == ev.pos);
    assert(j2 == j);
    assert(b3.blocks@ == b2.blocks@.update(j, Block { kind: BlockType::Grass, ..b2.blocks@[j] }));
    assert(b3.blocks@ =~= b0.blocks@);
}

/// The number of tiles of kind `k` owned by `o`.
pub open spec fn count_owned(bs: Seq<Block>, o: BlockApartenance, k: BlockType) -> nat
    decreases bs.len(),
{
    if bs.len() == 0 {
        0
    } else {
        count_owned(bs.drop_last(), o, k) + if bs.last().owner == o && bs.last().kind == k { 1nat } else { 0nat }
    }
}

/// Resources after a turn's income: 100 wood per farm, 100 stone per mine
/// and 25 food per sheep pen of the owner `o`.
pub open spec fn with_income(m: Moula, bs: Seq<Block>, o: BlockApartenance) -> Moula {
    Moula {
        stone: (m.stone + 100 * count_owned(bs, o, BlockType::Mine)) as u32,
        wood: (m.wood + 100 * count_owned(bs, o, BlockType::Farm)) as u32,
        food: (m.food + 25 * count_owned(bs, o, BlockType::Sheep)) as u32,
    }
}

/// Whether a player's income keeps the resources within their range.
pub open spec fn income_fits(m: Moula, bs: Seq<Block>, o: BlockApartenance) -> bool {
    &&& m.stone + 100 * count_owned(bs, o, BlockType::Mine) <= u32::MAX
    &&& m.wood + 100 * count_owned(bs, o, BlockType::Farm) <= u32::MAX
    &&& m.food + 25 * count_owned(bs, o, BlockType::Sheep) <= u32::MAX
}

proof fn lemma_count_prefix(bs: Seq<Block>, n: int, o: BlockApartenance, k: BlockType)
    requires
        0 <= n <= bs.len(),
    ensures
        count_owned(bs.take(n), o, k) <= count_owned(bs, o, k),
    decreases bs.len() - n,
{
    if n < bs.len() {
        lemma_count_prefix(bs, n + 1, o, k);
        assert(bs.take(n + 1).drop_last() == bs.take(n));
    } else {
        assert(bs.take(n) == bs);
    }
}

/// The income of one player over all tiles.
fn income(moula: Moula, blocks: &Vec<Block>, o: BlockApartenance) -> (r: Moula)
    requires
        income_fits(moula, blocks@, o),
    ensures
        r == with_income(moula, blocks@, o),
{
    let mut m = moula;
    let mut k: usize = 0;
    while k < blocks.len()
        invariant
            k <= blocks@.len(),
            income_fits(moula, blocks@, o),
            m == with_income(moula, blocks@.take(k as int), o),
        decreases blocks@.len() - k,
    {
        let blk = blocks[k];
        proof {
            assert(blocks@.take(k + 1).drop_last() == blocks@.take(k as int));
            assert(blocks@.take(k + 1).last() == blk);
            lemma_count_prefix(blocks@, k + 1, o, BlockType::Mine);
            lemma_count_prefix(blocks@, k + 1, o, BlockType::Farm);
            lemma_count_prefix(blocks@, k + 1, o, BlockType::Sheep);
        }
        if blk.owner == o {
            match blk.kind {
                BlockType::Farm => m.wood = m.wood + 100,
                BlockType::Mine => m.stone = m.stone + 100,
                BlockType::Sheep => m.food = m.food + 25,
                _ => {},
            }
        }
        k = k + 1;
    }
    proof {
        assert(blocks@.take(k as int) == blocks@);
    }
    m
}

/// A player after the income of the tiles of their side.
pub open spec fn after_income(p: Player, bs: Seq<Block>) -> Player {
    Player { moula: with_income(p.moula, bs, block_owner_of(p.identity)), ..p }
}

/// Whether `start` plus `step` for each tile of kind `k` owned by `o`
/// stays within `u32`.
fn fits_with_blocks(blocks: &Vec<Block>, o: BlockApartenance, k: BlockType, start: u32, step: u64) -> (r: bool)
    requires
        step <= 100,
    ensures
        r == (start + step * count_owned(blocks@, o, k) <= u32::MAX),
{
    let ghost bs = blocks@;
    let mut acc: u64 = start as u64;
    let mut over = false;
    let mut i: usize = 0;
    proof {
        assert(bs.take(0) =~= Seq::<Block>::empty());
        assert(count_owned(bs.take(0), o, k) == 0);
        assert(step * count_owned(bs.take(0), o, k) == 0) by (nonlinear_arith)
            requires count_owned(bs.take(0), o, k) == 0;
    }
    while i < blocks.len()
        invariant
            i <= bs.len(),
            bs == blocks@,
            step <= 100,
            !over ==> acc == start + step * count_owned(bs.take(i as int), o, k) && acc <= u32::MAX,
            over ==> start + step * count_owned(bs.take(i as int), o, k) > u32::MAX,
        decreases bs.len() - i,
    {
        let b = blocks[i];
        let ghost c = count_owned(bs.take(i as int), o, k);
        proof {
            assert(bs.take(i + 1).drop_last() == bs.take(i as int));
            assert(bs.take(i + 1).last() == b);
            assert(step * (c + 1) == step * c + step) by (nonlinear_arith);
            assert(step * c >= 0) by (nonlinear_arith) requires step >= 0, c >= 0;
        }
        if b.owner == o && b.kind == k && !over {
            if acc + step > 0xffff_ffff {
                over = true;
            } else {
                acc = acc + step;
            }
        }
        i = i + 1;
    }
    proof {
        assert(bs.take(i as int) == bs);
    }
    !over
}

/// Whether every player's income keeps the resources within their range,
/// as `get_ressource` requires.
pub fn income_possible(board: &Board) -> (r: bool)
    requires
        board.wf(),
    ensures
        r == forall|i: int| 0 <= i < board.players@.len() ==>
            income_fits(#[trigger] board.players@[i].moula, board.blocks@, block_owner_of(board.players@[i].identity)),
{
    let mut k: usize = 0;
    while k < board.players.len()
        invariant
            k <= board.players@.len(),
            board.wf(),
            forall|i: int| 0 <= i < k ==>
                income_fits(#[trigger] board.players@[i].moula, board.blocks@, block_owner_of(board.players@[i].identity)),
        decreases board.players@.len() - k,
    {
        let p = board.players[k];
        assert(is_player(board.players@[k as int].identity));
        let o = p.identity.get_block_apartenance();
        let ok = fits_with_blocks(&board.blocks, o, BlockType::Mine, p.moula.stone, 100)
            && fits_with_blocks(&board.blocks, o, BlockType::Farm, p.moula.wood, 100)
            && fits_with_blocks(&board.blocks, o, BlockType::Sheep, p.moula.food, 25);
        if !ok {
            assert(!income_fits(board.players@[k as int].moula, board.blocks@, block_owner_of(board.players@[k as int].identity)));
            return false;
        }
        k = k + 1;
    }
    true
}

/// The income of every player once the turn has changed.
pub fn get_ressource(board: &mut Board)
    requires
        old(board).wf(),
        forall|i: int| 0 <= i < old(board).players@.len() ==>
            income_fits(#[trigger] old(board).players@[i].moula, old(board).blocks@, block_owner_of(old(board).players@[i].identity)),
    ensures
        final(board).wf(),
        final(board).blocks@ == old(board).blocks@,
        final(board).troups@ == old(board).troups@,
        final(board).tour == old(board).tour,
        final(board).players@.len() == old(board).players@.len(),
        forall|i: int| 0 <= i < old(board).players@.len() ==>
            #[trigger] final(board).players@[i] == after_income(old(board).players@[i], old(board).blocks@),
{
    let mut i: usize = 0;
    while i < board.players.len()
        invariant
            i <= board.players@.len(),
            board.players@.len() == old(board).players@.len(),
            board.blocks@ == old(board).blocks@,
            board.troups@ == old(board).troups@,
            board.tour == old(board).tour,
            board.wf(),
            forall|a: int| 0 <= a < old(board).players@.len() ==>
                income_fits(#[trigger] old(board).players@[a].moula, old(board).blocks@, block_owner_of(old(board).players@[a].identity)),
            forall|a: int| 0 <= a < i ==> #[trigger] board.players@[a] == after_income(old(board).players@[a], old(board).blocks@),
            forall|a: int| i <= a < board.players@.len() ==> #[trigger] board.players@[a] == old(board).players@[a],
        decreases board.players@.len() - i,
    {
        let p = board.players[i];
        assert(is_player(board.players@[i as int].identity));
        let owner = p.identity.get_block_apartenance();
        let m = income(p.moula, &board.blocks, owner);
        let np = Player { moula: m, ..p };
        proof {
            lemma_update_player_keeps_wf(board.players@, i as int, np);
        }
        board.players.set(i, np);
        i = i + 1;
    }
}

/// The number of troops standing on the tile `p`.
pub open spec fn count_at(ts: Seq<TroupUnit>, p: BlockPosition) -> nat
    decreases ts.len(),
{
    if ts.len() == 0 {
        0
    } else {
        count_at(ts.drop_last(), p) + if troup_tile(ts.last().pos) == p { 1nat } else { 0nat }
    }
}

/// A troop after a move from `start` to `end`: it moves if it stood on `start`.
pub open spec fn moved_one(t: TroupUnit, start: BlockPosition, end: BlockPosition) -> TroupUnit {
    if troup_tile(t.pos) == start {
        TroupUnit { pos: TroupPosition { x: end.x, y: end.y }, ..t }
    } else {
        t
    }
}

/// The turn after it has been handed over `n` times.
pub open spec fn flipped(t: Tour, n: nat) -> Tour {
    if n % 2 == 1 {
        Tour { current_player: enemy_of(t.current_player) }
    } else {
        t
    }
}

proof fn lemma_flip_step(t: Tour, n: nat)
    requires
        is_player(t.current_player),
    ensures
        flipped(t, n + 1) == (Tour { current_player: enemy_of(flipped(t, n).current_player) }),
        is_player(flipped(t, n).current_player),
{
}

/// The effect of a move: if there is a tile at `pos_start`, every troop on
/// it goes to `pos_end` and the turn is handed over once per troop moved;
/// otherwise nothing changes.
pub open spec fn deplacement_effect(b0: Board, b1: Board, ev: DeplacementEvent) -> bool {
    &&& b1.blocks@ == b0.blocks@
    &&& b1.players@ == b0.players@
    &&& if block_at(b0.blocks@, ev.pos_start) is Some {
        &&& b1.troups@ == Seq::new(b0.troups@.len(), |k: int| moved_one(b0.troups@[k], ev.pos_start, ev.pos_end))
        &&& b1.tour == flipped(b0.tour, count_at(b0.troups@, ev.pos_start))
    } else {
        &&& b1.troups@ == b0.troups@
        &&& b1.tour == b0.tour
    }
}

/// A move neither creates nor removes troops, and changes nothing of a
/// troop but where it stands: after it, the troops that stood on the
/// starting tile stand on the destination, and the others have not moved.
pub proof fn lemma_move_keeps_troops(b0: Board, b1: Board, ev: DeplacementEvent)
    requires
        deplacement_effect(b0, b1, ev),
    ensures
        b1.troups@.len() == b0.troups@.len(),
        forall|k: int| 0 <= k < b0.troups@.len() ==> {
            let t0 = #[trigger] b0.troups@[k];
            let t1 = b1.troups@[k];
            &&& t1.id == t0.id && t1.troup == t0.troup && t1.owner == t0.owner
            &&& if block_at(b0.blocks@, ev.pos_start) is Some && troup_tile(t0.pos) == ev.pos_start {
                troup_tile(t1.pos) == ev.pos_end
            } else {
                t1.pos == t0.pos
            }
        },
{
}

/// A move is undone by the move back: when no troop stood on the
/// destination, moving the troops from `start` to `end` and then from
/// `end` to `start` puts every troop back where it stood.
pub proof fn lemma_move_back(b0: Board, b1: Board, b2: Board, start: BlockPosition, end: BlockPosition)
    requires
        deplacement_effect(b0, b1, DeplacementEvent { pos_start: start, pos_end: end }),
        deplacement_effect(b1, b2, DeplacementEvent { pos_start: end, pos_end: start }),
        block_at(b0.blocks@, start) is Some,
        block_at(b0.blocks@, end) is Some,
        !occupied(b0.troups@, end),
    ensures
        b2.troups@ == b0.troups@,
        b2.blocks@ == b0.blocks@,
        b2.players@ == b0.players@,
{
    assert forall|k: int| 0 <= k < b0.troups@.len() implies #[trigger] b2.troups@[k] == b0.troups@[k] by {
        let t = b0.troups@[k];
        assert(troup_tile(t.pos) != end);
    }
    assert(b2.troups@ =~= b0.troups@);
}

/// The troops on `event.pos_start` move to `event.pos_end`.
pub fn deplacement_troup(board: &mut Board, event: DeplacementEvent) -> (r: bool)
    requires
        old(board).wf(),
    ensures
        final(board).wf(),
        deplacement_effect(*old(board), *final(board), event),
        r == (block_at(old(board).blocks@, event.pos_start) is Some && count_at(old(board).troups@, event.pos_start) > 0),
{
    let mut moved = false;
    if board.find_block(event.pos_start).is_some() {
        let start = event.pos_start.to_troup_position();
        let end = event.pos_end.to_troup_position();
        let mut k: usize = 0;
        while k < board.troups.len()
            invariant
                k <= board.troups@.len(),
                board.troups@.len() == old(board).troups@.len(),
                board.blocks@ == old(board).blocks@,
                board.players@ == old(board).players@,
                board.wf(),
                old(board).wf(),
                start.x == event.pos_start.x && start.y == event.pos_start.y,
                end.x == event.pos_end.x && end.y == event.pos_end.y,
                board.tour == flipped(old(board).tour, count_at(old(board).troups@.take(k as int), event.pos_start)),
                moved == (count_at(old(board).troups@.take(k as int), event.pos_start) > 0),
                forall|a: int| 0 <= a < k ==> #[trigger] board.troups@[a] == moved_one(old(board).troups@[a], event.pos_start, event.pos_end),
                forall|a: int| k <= a < board.troups@.len() ==> #[trigger] board.troups@[a] == old(board).troups@[a],
            decreases board.troups@.len() - k,
        {
            let t = board.troups[k];
            proof {
                assert(old(board).troups@.take(k + 1).drop_last() == old(board).troups@.take(k as int));
                assert(old(board).troups@.take(k + 1).last() == old(board).troups@[k as int]);
            }
            proof {
                lemma_flip_step(old(board).tour, count_at(old(board).troups@.take(k as int), event.pos_start));
            }
            if t.pos == start {
                board.troups.set(k, TroupUnit { pos: end, ..t });
                board.tour.change_tour();
                moved = true;
            }
            k = k + 1;
        }
        proof {
            assert(old(board).troups@.take(k as int) == old(board).troups@);
            assert(board.troups@ == Seq::new(old(board).troups@.len(), |a: int| moved_one(old(board).troups@[a], event.pos_start, event.pos_end)));
        }
    }
    moved
}

/// Whether conquering around `c` runs without failing: every tile's
/// coordinate differences with `c` fit.
pub open spec fn conquest_defined(b: Board, entity: u64, ev: ConqueteEvent) -> bool {
    current_player_index(b, entity) is Some ==>
        forall|j: int| 0 <= j < b.blocks@.len() ==> pair_fits(#[trigger] b.blocks@[j].pos, ev.0)
}

/// Whether a tile of `me` touches the tile at `c` (or is it).
pub open spec fn supported(bs: Seq<Block>, me: BlockApartenance, c: BlockPosition) -> bool {
    exists|j: int| 0 <= j < bs.len() && neighbour(c, #[trigger] bs[j].pos) && bs[j].owner == me
}

/// The effect of a conquest: nothing unless it comes from the player whose
/// turn it is; then the turn passes, and the tile at the target becomes the
/// player's if a tile of the player's touches it.
pub open spec fn conquest_effect(b0: Board, b1: Board, entity: u64, ev: ConqueteEvent) -> bool {
    match current_player_index(b0, entity) {
        None => unchanged(b0, b1),
        Some(i) => {
            let me = block_owner_of(b0.players@[i].identity);
            &&& b1.tour.current_player == enemy_of(b0.tour.current_player)
            &&& b1.troups@ == b0.troups@
            &&& b1.players@ == b0.players@
            &&& match block_at(b0.blocks@, ev.0) {
                Some(t) => if supported(b0.blocks@, me, ev.0) {
                    b1.blocks@ == b0.blocks@.update(t, Block { owner: me, ..b0.blocks@[t] })
                } else {
                    b1.blocks@ == b0.blocks@
                },
                None => b1.blocks@ == b0.blocks@,
            }
        },
    }
}

/// Whether a conquest request runs without failing on this board (see `conquest_defined`).
pub fn conquest_possible(board: &Board, entity: u64, event: ConqueteEvent) -> (r: bool)
    requires
        board.wf(),
    ensures
        r == conquest_defined(*board, entity, event),
{
    if current_player(board, entity).is_none() {
        return true;
    }
    let mut k: usize = 0;
    while k < board.blocks.len()
        invariant
            k <= board.blocks@.len(),
            current_player_index(*board, entity) is Some,
            forall|j: int| 0 <= j < k ==> pair_fits(#[trigger] board.blocks@[j].pos, event.0),
        decreases board.blocks@.len() - k,
    {
        if !pair_fits_exec(board.blocks[k].pos, event.0) {
            assert(!pair_fits(board.blocks@[k as int].pos, event.0));
            return false;
        }
        k = k + 1;
    }
    true
}

/// A player takes the tile at `event.0` if one of their tiles touches it.
pub fn jedetestetimeoduplusprofonddemonetrejusquaufinfonddemesentrailles(board: &mut Board, entity: u64, event: ConqueteEvent)
    requires
        old(board).wf(),
        conquest_defined(*old(board), entity, event),
    ensures
        final(board).wf(),
        conquest_effect(*old(board), *final(board), entity, event),
{
    let found = board.find_player(entity);
    if let Some(i) = found {
        let player = board.players[i];
        if board.tour.current_player == player.identity {
            assert(current_player_index(*old(board), entity) == Some(i as int));
            let me = player.identity.get_block_apartenance();
            let ghost bs = board.blocks@;
            let mut changement = false;
            let mut option: Option<usize> = None;
            let mut k: usize = 0;
            while k < board.blocks.len()
                invariant
                    bs == old(board).blocks@,
                    k <= board.blocks@.len(),
                    board.blocks@.len() == bs.len(),
                    board.players@ == old(board).players@,
                    board.troups@ == old(board).troups@,
                    board.tour == old(board).tour,
                    old(board).wf(),
                    forall|j: int| 0 <= j < bs.len() ==> pair_fits(#[trigger] bs[j].pos, event.0),
                    changement == exists|j: int| 0 <= j < k && neighbour(event.0, #[trigger] bs[j].pos) && bs[j].owner == me,
                    option is Some <==> exists|j: int| 0 <= j < k && bs[j].pos == event.0,
                    option matches Some(t) ==> t < k && block_at(bs, event.0) == Some(t as int),
                    board.blocks@ == (if option is Some && changement {
                        bs.update(option.unwrap() as int, Block { owner: me, ..bs[option.unwrap() as int] })
                    } else {
                        bs
                    }),
                decreases bs.len() - k,
            {
                let blk = board.blocks[k];
                assert(blk == bs[k as int]);
                assert(pair_fits(bs[k as int].pos, event.0));
                if est_adjacente(event.0, blk.pos) {
                    if me == blk.owner {
                        changement = true;
                    }
                }
                if blk.pos == event.0 {
                    proof {
                        assert(bs[k as int].pos == event.0);
                        let c = choose|j: int| 0 <= j < bs.len() && bs[j].pos == event.0;
                        if c != k {
                            assert(bs[c].pos != bs[k as int].pos);
                        }
                    }
                    option = Some(k);
                }
                if let Some(t) = option {
                    if changement {
                        let cur = board.blocks[t];
                        board.blocks.set(t, Block { owner: me, ..cur });
                    }
                }
                proof {
                    assert forall|j: int| 0 <= j < k + 1 && bs[j].pos == event.0 implies option is Some by {
                        if j < k {
                        } else {
                            assert(blk.pos == event.0);
                        }
                    }
                }
                k = k + 1;
            }
            proof {
                assert(distinct_blocks(board.blocks@)) by {
                    if option is Some && changement {
                        lemma_update_block_keeps_distinct(bs, option.unwrap() as int, Block { owner: me, ..bs[option.unwrap() as int] });
                    }
                }
                if block_at(bs, event.0) is Some {
                    let t = block_at(bs, event.0).unwrap();
                    assert(bs[t].pos == event.0);
                }
            }
            board.tour.change_tour();
        }
    }
}

/// A conquest takes a tile only from a foothold of one's own: when it is
/// player `i`'s turn and no tile that touches the target (or is it) belongs
/// to the player's side, the tiles stay as they were, whoever owns the
/// tiles around it.
pub proof fn lemma_conquest_needs_own_neighbour(b0: Board, b1: Board, entity: u64, ev: ConqueteEvent, i: int)
    requires
        conquest_effect(b0, b1, entity, ev),
        current_player_index(b0, entity) == Some(i),
        forall|j: int| 0 <= j < b0.blocks@.len() && neighbour(ev.0, #[trigger] b0.blocks@[j].pos) ==>
            b0.blocks@[j].owner != block_owner_of(b0.players@[i].identity),
    ensures
        b1.blocks@ == b0.blocks@,
        b1.tour.current_player == enemy_of(b0.tour.current_player),
{
}

/// A conquest next to a tile of one's own takes the target: when it is
/// player `i`'s turn, the tile `t` is the target and the tile `j` of the
/// player's side touches it, the target becomes the player's and every
/// other tile stays as it was.
pub proof fn lemma_conquest_takes_tile_next_to_own(b0: Board, b1: Board, entity: u64, ev: ConqueteEvent, i: int, j: int, t: int)
    requires
        b0.wf(),
        conquest_effect(b0, b1, entity, ev),
        current_player_index(b0, entity) == Some(i),
        0 <= j < b0.blocks@.len(),
        neighbour(ev.0, b0.blocks@[j].pos),
        b0.blocks@[j].owner == block_owner_of(b0.players@[i].identity),
        0 <= t < b0.blocks@.len(),
        b0.blocks@[t].pos == ev.0,
    ensures
        b1.blocks@.len() == b0.blocks@.len(),
        b1.blocks@[t] == (Block { owner: block_owner_of(b0.players@[i].identity), ..b0.blocks@[t] }),
        forall|k: int| 0 <= k < b0.blocks@.len() && k != t ==> b1.blocks@[k] == #[trigger] b0.blocks@[k],
{
    let t2 = block_at(b0.blocks@, ev.0).unwrap();
    assert(b0.blocks@[t2].pos == ev.0);
    assert(t2 == t);
}

/// Whether troop `t` fights over the tile `pos`: `pos` lies within its range.
pub open spec fn in_reach(ps: Seq<BlockPosition>, t: TroupUnit, pos: BlockPosition) -> bool {
    in_zone(ps, troup_tile(t.pos), range_of(t.troup) as nat, pos)
}

/// The troops of owner `o` that fight over the tile `pos`, in order.
pub open spec fn engaged(ps: Seq<BlockPosition>, ts: Seq<TroupUnit>, pos: BlockPosition, o: TroupApartenance) -> Seq<Troup>
    decreases ts.len(),
{
    if ts.len() == 0 {
        seq![]
    } else {
        let rest = engaged(ps, ts.drop_last(), pos, o);
        if ts.last().owner == o && in_reach(ps, ts.last(), pos) {
            rest.push(ts.last().troup)
        } else {
            rest
        }
    }
}

/// The troops that remain after those of owner `o` within reach of `pos` are removed.
pub open spec fn survivors(ps: Seq<BlockPosition>, ts: Seq<TroupUnit>, pos: BlockPosition, o: TroupApartenance) -> Seq<TroupUnit>
    decreases ts.len(),
{
    if ts.len() == 0 {
        seq![]
    } else {
        let rest = survivors(ps, ts.drop_last(), pos, o);
        if ts.last().owner == o && in_reach(ps, ts.last(), pos) {
            rest
        } else {
            rest.push(ts.last())
        }
    }
}

/// Whether the coordinates of every troop fit with those of every tile.
pub open spec fn troops_fit(b: Board) -> bool {
    forall|k: int| 0 <= k < b.troups@.len() ==> coords_fit(block_positions(b.blocks@), troup_tile(#[trigger] b.troups@[k].pos))
}

/// The answer to a fight started by player `i` over `pos`: the winner (the
/// enemy of the loser) takes the tile.
pub open spec fn combat_answer(b: Board, i: int, pos: BlockPosition, entity: u64) -> ReponceCombatEvent {
    let ps = block_positions(b.blocks@);
    let res = score(engaged(ps, b.troups@, pos, TroupApartenance::Joueur1), engaged(ps, b.troups@, pos, TroupApartenance::Joueur2));
    ReponceCombatEvent { id: enemy_of(loser(res, b.players@[i].identity)), pos, entity }
}

/// The effect of a fight: the tiles, the troops and the players stay as
/// they were, the turn passes, and the answer names who takes the tile when
/// the fight was started by a player.
pub open spec fn combat_effect(b0: Board, b1: Board, entity: u64, ev: CombatEvent, r: Option<ReponceCombatEvent>) -> bool {
    &&& b1.blocks@ == b0.blocks@
    &&& b1.troups@ == b0.troups@
    &&& b1.players@ == b0.players@
    &&& b1.tour.current_player == enemy_of(b0.tour.current_player)
    &&& match player_at(b0.players@, entity) {
        None => r is None,
        Some(i) => r == Some(combat_answer(b0, i, ev.pos, entity)),
    }
}

/// Whether a fight on this board runs without failing: when a player
/// starts it, the coordinates of every troop fit with those of the tiles,
/// and the fight is scored within `i32`.
pub open spec fn combat_defined(b: Board, entity: u64, ev: CombatEvent) -> bool {
    player_at(b.players@, entity) is Some ==> {
        &&& troops_fit(b)
        &&& score_fits(
            engaged(block_positions(b.blocks@), b.troups@, ev.pos, TroupApartenance::Joueur1),
            engaged(block_positions(b.blocks@), b.troups@, ev.pos, TroupApartenance::Joueur2))
    }
}

/// Whether the coordinates of every troop fit with those of every tile.
pub fn troops_fit_exec(board: &Board) -> (r: bool)
    ensures
        r == troops_fit(*board),
{
    let positions = board.positions();
    let mut k: usize = 0;
    while k < board.troups.len()
        invariant
            k <= board.troups@.len(),
            positions@ == block_positions(board.blocks@),
            forall|a: int| 0 <= a < k ==> coords_fit(block_positions(board.blocks@), troup_tile(#[trigger] board.troups@[a].pos)),
        decreases board.troups@.len() - k,
    {
        if !coords_fit_exec(positions.as_slice(), board.troups[k].pos.to_troup_position()) {
            return false;
        }
        k = k + 1;
    }
    true
}

/// The troops of each player within range of the tile `pos`, in order.
pub fn troupes_engagees(board: &Board, pos: BlockPosition) -> (r: (Vec<Troup>, Vec<Troup>))
    requires
        troops_fit(*board),
    ensures
        r.0@ == engaged(block_positions(board.blocks@), board.troups@, pos, TroupApartenance::Joueur1),
        r.1@ == engaged(block_positions(board.blocks@), board.troups@, pos, TroupApartenance::Joueur2),
{
    let positions = board.positions();
    let ghost ps = positions@;
    let ghost ts = board.troups@;
    let mut list1: Vec<Troup> = Vec::new();
    let mut list2: Vec<Troup> = Vec::new();
    let mut k: usize = 0;
    while k < board.troups.len()
        invariant
            k <= ts.len(),
            ts == board.troups@,
            ps == positions@,
            ps == block_positions(board.blocks@),
            troops_fit(*board),
            list1@ == engaged(ps, ts.take(k as int), pos, TroupApartenance::Joueur1),
            list2@ == engaged(ps, ts.take(k as int), pos, TroupApartenance::Joueur2),
        decreases ts.len() - k,
    {
        let t = board.troups[k];
        proof {
            assert(ts.take(k + 1).drop_last() == ts.take(k as int));
            assert(ts.take(k + 1).last() == t);
            assert(coords_fit(ps, troup_tile(ts[k as int].pos)));
        }
        let zone = cases_adjacentes_rayon(positions.as_slice(), t.pos.to_troup_position(), t.troup.get_range());
        if contient(&zone, pos) {
            match t.owner {
                TroupApartenance::Joueur1 => list1.push(t.troup),
                TroupApartenance::Joueur2 => list2.push(t.troup),
            }
        }
        k = k + 1;
    }
    proof {
        assert(ts.take(k as int) == ts);
    }
    (list1, list2)
}

/// Whether a fight over `event.pos` started by connection `entity` runs
/// without failing on this board.
pub fn combat_possible(board: &Board, entity: u64, event: CombatEvent) -> (r: bool)
    requires
        board.wf(),
    ensures
        r == combat_defined(*board, entity, event),
{
    if board.find_player(entity).is_none() {
        return true;
    }
    if !troops_fit_exec(board) {
        return false;
    }
    let (list1, list2) = troupes_engagees(board, event.pos);
    score_fits_exec(&list1, &list2)
}

/// A fight over `event.pos` started by connection `entity`: the troops of
/// each player within range of the tile are weighed against each other and
/// the answer names who takes the tile. The turn passes in every case.
pub fn combat(board: &mut Board, entity: u64, event: CombatEvent) -> (r: Option<ReponceCombatEvent>)
    requires
        old(board).wf(),
        combat_defined(*old(board), entity, event),
    ensures
        final(board).wf(),
        combat_effect(*old(board), *final(board), entity, event, r),
{
    let found = board.find_player(entity);
    let mut answer: Option<ReponceCombatEvent> = None;
    if let Some(i) = found {
        let id = board.players[i].identity;
        assert(is_player(board.players@[i as int].identity));
        let (list1, list2) = troupes_engagees(board, event.pos);
        let res = combat_score(&list1, &list2);
        let resu = combat_loser(res, id);
        answer = Some(ReponceCombatEvent { id: resu.get_enemie(), pos: event.pos, entity });
    }
    board.tour.change_tour();
    answer
}

/// The effect of the outcome of a fight: the troops of the loser within
/// range of the tile are removed and the tile goes to the winner.
pub open spec fn reponse_effect(b0: Board, b1: Board, ev: ReponceCombatEvent) -> bool {
    &&& b1.players@ == b0.players@
    &&& b1.tour == b0.tour
    &&& b1.troups@ == survivors(block_positions(b0.blocks@), b0.troups@, ev.pos, troup_owner_of(enemy_of(ev.id)))
    &&& match block_at(b0.blocks@, ev.pos) {
        Some(j) => b1.blocks@ == b0.blocks@.update(j, Block { owner: block_owner_of(ev.id), ..b0.blocks@[j] }),
        None => b1.blocks@ == b0.blocks@,
    }
}

/// Whether the coordinates of every troop fit with those of every tile,
/// and the answer names a player.
pub open spec fn reponse_defined(b: Board, ev: ReponceCombatEvent) -> bool {
    troops_fit(b) && is_player(ev.id)
}

/// The outcome of a fight is applied: the troops of the loser within range
/// of the tile are removed and the tile goes to the winner.
pub fn gestion_reponse(board: &mut Board, event: ReponceCombatEvent)
    requires
        old(board).wf(),
        reponse_defined(*old(board), event),
    ensures
        final(board).wf(),
        reponse_effect(*old(board), *final(board), event),
{
    let positions = board.positions();
    let ghost ps = positions@;
    let ghost ts = board.troups@;
    let loser_owner = event.id.get_enemie().get_troup_apartenance();
    let mut kept: Vec<TroupUnit> = Vec::new();
    let mut k: usize = 0;
    while k < board.troups.len()
        invariant
            k <= ts.len(),
            ts == board.troups@,
            ps == positions@,
            ps == block_positions(board.blocks@),
            troops_fit(*board),
            loser_owner == troup_owner_of(enemy_of(event.id)),
            kept@ == survivors(ps, ts.take(k as int), event.pos, loser_owner),
        decreases ts.len() - k,
    {
        let t = board.troups[k];
        proof {
            assert(ts.take(k + 1).drop_last() == ts.take(k as int));
            assert(ts.take(k + 1).last() == t);
            assert(coords_fit(ps, troup_tile(ts[k as int].pos)));
        }
        let zone = cases_adjacentes_rayon(positions.as_slice(), t.pos.to_troup_position(), t.troup.get_range());
        if !(contient(&zone, event.pos) && t.owner == loser_owner) {
            kept.push(t);
        }
        k = k + 1;
    }
    proof {
        assert(ts.take(k as int) == ts);
    }
    board.troups = kept;
    if let Some(j) = board.find_block(event.pos) {
        let blk = board.blocks[j];
        let nb = Block { owner: event.id.get_block_apartenance(), ..blk };
        proof {
            lemma_update_block_keeps_distinct(board.blocks@, j as int, nb);
        }
        board.blocks.set(j, nb);
    }
}

proof fn lemma_survivors(ps: Seq<BlockPosition>, ts: Seq<TroupUnit>, pos: BlockPosition, o: TroupApartenance)
    ensures
        forall|k: int| 0 <= k < survivors(ps, ts, pos, o).len() ==> {
            let t = #[trigger] survivors(ps, ts, pos, o)[k];
            &&& ts.contains(t)
            &&& !(t.owner == o && in_reach(ps, t, pos))
        },
        forall|k: int| 0 <= k < ts.len() && !(ts[k].owner == o && in_reach(ps, ts[k], pos)) ==>
            survivors(ps, ts, pos, o).contains(#[trigger] ts[k]),
    decreases ts.len(),
{
    if ts.len() > 0 {
        let rest = ts.drop_last();
        lemma_survivors(ps, rest, pos, o);
        let sv = survivors(ps, ts, pos, o);
        let sr = survivors(ps, rest, pos, o);
        assert forall|k: int| 0 <= k < sv.len() implies ts.contains(#[trigger] sv[k]) && !(sv[k].owner == o && in_reach(ps, sv[k], pos)) by {
            if k < sr.len() {
                assert(sv[k] == sr[k]);
                let j = choose|j: int| 0 <= j < rest.len() && rest[j] == sr[k];
                assert(ts[j] == rest[j]);
            } else {
                assert(sv[k] == ts.last());
                assert(ts[ts.len() - 1] == ts.last());
            }
        }
        assert forall|k: int| 0 <= k < ts.len() && !(ts[k].owner == o && in_reach(ps, ts[k], pos)) implies sv.contains(#[trigger] ts[k]) by {
            if k < ts.len() - 1 {
                assert(rest[k] == ts[k]);
                let j = choose|j: int| 0 <= j < sr.len() && sr[j] == rest[k];
                assert(sv[j] == sr[j]);
            } else {
                assert(sv[sv.len() - 1] == ts.last());
            }
        }
    }
}

/// A fight settles the tile: after a fight started by a player and the
/// application of its answer, the tile goes to the winner that the answer
/// names, no troop of the loser within range of the tile is left, every
/// other troop stays, and no troop appears.
pub proof fn lemma_fight_settles(
    b0: Board,
    b1: Board,
    b2: Board,
    entity: u64,
    ev: CombatEvent,
    r: ReponceCombatEvent,
)
    requires
        combat_effect(b0, b1, entity, ev, Some(r)),
        reponse_effect(b1, b2, r),
    ensures
        r.pos == ev.pos,
        match block_at(b0.blocks@, ev.pos) {
            Some(j) => b2.blocks@[j].owner == block_owner_of(r.id) && b2.blocks@.len() == b0.blocks@.len(),
            None => b2.blocks@ == b0.blocks@,
        },
        forall|k: int| 0 <= k < b2.troups@.len() ==> {
            let t = #[trigger] b2.troups@[k];
            &&& b0.troups@.contains(t)
            &&& !(t.owner == troup_owner_of(enemy_of(r.id)) && in_reach(block_positions(b0.blocks@), t, ev.pos))
        },
        forall|k: int| 0 <= k < b0.troups@.len() && !(b0.troups@[k].owner == troup_owner_of(enemy_of(r.id))
            && in_reach(block_positions(b0.blocks@), b0.troups@[k], ev.pos)) ==> b2.troups@.contains(#[trigger] b0.troups@[k]),
{
    lemma_survivors(block_positions(b0.blocks@), b0.troups@, ev.pos, troup_owner_of(enemy_of(r.id)));
}

/// The troops weighed on a side of a fight over `pos` are exactly, in
/// order, those of that side that reach `pos`: one step more than their
/// speed away at most.
pub proof fn lemma_engaged_are_those_in_range(ps: Seq<BlockPosition>, ts: Seq<TroupUnit>, pos: BlockPosition, o: TroupApartenance)
    ensures
        engaged(ps, ts, pos, o) == ts.filter(|t: TroupUnit| t.owner == o && in_zone(ps, troup_tile(t.pos), (speed_of(t.troup) + 1) as nat, pos)).map_values(|t: TroupUnit| t.troup),
    decreases ts.len(),
{
    reveal_with_fuel(Seq::filter, 1);
    if ts.len() > 0 {
        lemma_engaged_are_those_in_range(ps, ts.drop_last(), pos, o);
        let f = |t: TroupUnit| t.owner == o && in_zone(ps, troup_tile(t.pos), (speed_of(t.troup) + 1) as nat, pos);
        let rest = ts.drop_last().filter(f);
        if f(ts.last()) {
            assert(rest.push(ts.last()).map_values(|t: TroupUnit| t.troup)
                =~= rest.map_values(|t: TroupUnit| t.troup).push(ts.last().troup));
        }
    } else {
        assert(ts.filter(|t: TroupUnit| t.owner == o && in_zone(ps, troup_tile(t.pos), (speed_of(t.troup) + 1) as nat, pos)).map_values(|t: TroupUnit| t.troup) =~= seq![]);
    }
}

/// A fight over a tile that only one side reaches is won by that side: when
/// a troop of `winner`'s stands within one step more than its speed of
/// `pos` and no troop of the enemy's does, the answer to the fight that
/// player `i` starts over `pos` gives the tile to `winner`, whoever asked.
pub proof fn lemma_lone_side_wins(b: Board, i: int, pos: BlockPosition, entity: u64, winner: PacketIdentification, k: int)
    requires
        is_player(winner),
        0 <= k < b.troups@.len(),
        b.troups@[k].owner == troup_owner_of(winner),
        in_zone(block_positions(b.blocks@), troup_tile(b.troups@[k].pos), (speed_of(b.troups@[k].troup) + 1) as nat, pos),
        forall|m: int| 0 <= m < b.troups@.len() && (#[trigger] b.troups@[m]).owner == troup_owner_of(enemy_of(winner)) ==>
            !in_zone(block_positions(b.blocks@), troup_tile(b.troups@[m].pos), (speed_of(b.troups@[m].troup) + 1) as nat, pos),
    ensures
        combat_answer(b, i, pos, entity).id == winner,
        combat_answer(b, i, pos, entity).pos == pos,
{
    let ps = block_positions(b.blocks@);
    let ts = b.troups@;
    let mine = troup_owner_of(winner);
    let theirs = troup_owner_of(enemy_of(winner));
    let fw = |t: TroupUnit| t.owner == mine && in_zone(ps, troup_tile(t.pos), (speed_of(t.troup) + 1) as nat, pos);
    let fe = |t: TroupUnit| t.owner == theirs && in_zone(ps, troup_tile(t.pos), (speed_of(t.troup) + 1) as nat, pos);
    lemma_engaged_are_those_in_range(ps, ts, pos, mine);
    lemma_engaged_are_those_in_range(ps, ts, pos, theirs);
    assert(fw(ts[k]));
    ts.lemma_filter_contains(fw, k);
    assert(ts.filter(fw).len() > 0);
    assert(engaged(ps, ts, pos, mine).len() > 0);
    if ts.filter(fe).len() > 0 {
        ts.lemma_filter_pred(fe, 0);
        let t = ts.filter(fe)[0];
        ts.lemma_filter_contains_rev(fe, t);
        let m = choose|m: int| 0 <= m < ts.len() && ts[m] == t;
        assert(fe(ts[m]));
        assert(false);
    }
    assert(engaged(ps, ts, pos, theirs) =~= seq![]);
    lemma_empty_side_loses(engaged(ps, ts, pos, mine));
    if winner == PacketIdentification::Joueur1 {
        assert(mine == TroupApartenance::Joueur1 && theirs == TroupApartenance::Joueur2);
    } else {
        assert(winner == PacketIdentification::Joueur2);
        assert(mine == TroupApartenance::Joueur2 && theirs == TroupApartenance::Joueur1);
    }
}

/// The outcome of a fight removes exactly, in order, the loser's troops
/// that reach the tile (one step more than their speed away at most): the
/// troops that were weighed on the loser's side.
pub proof fn lemma_survivors_are_those_out_of_range(ps: Seq<BlockPosition>, ts: Seq<TroupUnit>, pos: BlockPosition, o: TroupApartenance)
    ensures
        survivors(ps, ts, pos, o) == ts.filter(|t: TroupUnit| !(t.owner == o && in_zone(ps, troup_tile(t.pos), (speed_of(t.troup) + 1) as nat, pos))),
    decreases ts.len(),
{
    reveal_with_fuel(Seq::filter, 1);
    if ts.len() > 0 {
        lemma_survivors_are_those_out_of_range(ps, ts.drop_last(), pos, o);
    }
}

/// Whether a troop stands on the tile `p`.
pub open spec fn occupied(ts: Seq<TroupUnit>, p: BlockPosition) -> bool {
    exists|k: int| 0 <= k < ts.len() && troup_tile(#[trigger] ts[k].pos) == p
}

/// Whether a new troop of owner `me` may appear on tile `b`: a free grass
/// tile of `me` (the "no tile" marker position never qualifies).
pub open spec fn free_for(b: Block, ts: Seq<TroupUnit>, me: BlockApartenance) -> bool {
    &&& b.owner == me
    &&& b.kind == BlockType::Grass
    &&& !occupied(ts, b.pos)
    &&& b.pos != no_position()
}

/// The positions of the tiles on which a new troop of `me` may appear, in map order.
pub open spec fn free_cells(bs: Seq<Block>, ts: Seq<TroupUnit>, me: BlockApartenance) -> Seq<BlockPosition>
    decreases bs.len(),
{
    if bs.len() == 0 {
        seq![]
    } else {
        let rest = free_cells(bs.drop_last(), ts, me);
        if free_for(bs.last(), ts, me) {
            rest.push(bs.last().pos)
        } else {
            rest
        }
    }
}

/// A troop that the server puts on the map.
#[derive(Clone, Copy, Debug, PartialEq, Eq, Structural)]
pub struct Recrue {
    pub troup: Troup,
    pub owner: TroupApartenance,
    pub pos: TroupPosition,
}

/// Whether a troop stands on the tile `p`.
pub fn occupe(troups: &Vec<TroupUnit>, p: BlockPosition) -> (r: bool)
    ensures
        r == occupied(troups@, p),
{
    let mut k: usize = 0;
    while k < troups.len()
        invariant
            k <= troups@.len(),
            forall|a: int| 0 <= a < k ==> troup_tile(#[trigger] troups@[a].pos) != p,
        decreases troups@.len() - k,
    {
        if troups[k].pos.to_troup_position() == p {
            return true;
        }
        k = k + 1;
    }
    false
}

/// The tiles on which a new troop of `me` may appear, in map order.
pub fn cases_libres(board: &Board, me: BlockApartenance) -> (r: Vec<BlockPosition>)
    ensures
        r@ == free_cells(board.blocks@, board.troups@, me),
{
    let mut r: Vec<BlockPosition> = Vec::new();
    let mut k: usize = 0;
    while k < board.blocks.len()
        invariant
            k <= board.blocks@.len(),
            r@ == free_cells(board.blocks@.take(k as int), board.troups@, me),
        decreases board.blocks@.len() - k,
    {
        let b = board.blocks[k];
        proof {
            assert(board.blocks@.take(k + 1).drop_last() == board.blocks@.take(k as int));
            assert(board.blocks@.take(k + 1).last() == b);
        }
        if b.owner == me && b.kind == BlockType::Grass && !occupe(&board.troups, b.pos) && b.pos != (BlockPosition { x: 100, y: 100 }) {
            r.push(b.pos);
        }
        k = k + 1;
    }
    proof {
        assert(board.blocks@.take(k as int) == board.blocks@);
    }
    r
}

/// The troop that training for player `i` puts on tile `p`.
pub open spec fn recruit(b: Board, i: int, ev: TrainEvent, p: BlockPosition) -> Recrue {
    Recrue {
        troup: Troup { race: b.players@[i].race, niveau: ev.niv },
        owner: troup_owner_of(b.players@[i].identity),
        pos: TroupPosition { x: p.x, y: p.y },
    }
}

/// The troop `rec` standing on the board under the identifier `id`.
pub open spec fn enrolled(rec: Recrue, id: u64) -> TroupUnit {
    TroupUnit { id, troup: rec.troup, owner: rec.owner, pos: rec.pos }
}

/// Whether `p` is the position of a grass tile of `me` on which no troop stands.
pub open spec fn free_grass_of(bs: Seq<Block>, ts: Seq<TroupUnit>, me: BlockApartenance, p: BlockPosition) -> bool {
    exists|j: int| {
        &&& 0 <= j < bs.len()
        &&& (#[trigger] bs[j]).pos == p
        &&& bs[j].owner == me
        &&& bs[j].kind == BlockType::Grass
        &&& forall|m: int| 0 <= m < ts.len() ==> troup_tile(#[trigger] ts[m].pos) != p
    }
}

/// A new troop only appears on a free grass tile of its owner's side: each
/// position among the free tiles of `me` is that of a grass tile of `me` on
/// which no troop stands.
pub proof fn lemma_free_cells_are_free(bs: Seq<Block>, ts: Seq<TroupUnit>, me: BlockApartenance)
    ensures
        forall|k: int| 0 <= k < free_cells(bs, ts, me).len() ==> free_grass_of(bs, ts, me, #[trigger] free_cells(bs, ts, me)[k]),
    decreases bs.len(),
{
    if bs.len() > 0 {
        let rest = bs.drop_last();
        lemma_free_cells_are_free(rest, ts, me);
        let fc = free_cells(bs, ts, me);
        let fr = free_cells(rest, ts, me);
        assert forall|k: int| 0 <= k < fc.len() implies free_grass_of(bs, ts, me, #[trigger] fc[k]) by {
            if k < fr.len() {
                assert(fc[k] == fr[k]);
                assert(free_grass_of(rest, ts, me, fr[k]));
                let j = choose|j: int| {
                    &&& 0 <= j < rest.len()
                    &&& (#[trigger] rest[j]).pos == fr[k]
                    &&& rest[j].owner == me
                    &&& rest[j].kind == BlockType::Grass
                    &&& forall|m: int| 0 <= m < ts.len() ==> troup_tile(#[trigger] ts[m].pos) != fr[k]
                };
                assert(bs[j] == rest[j]);
            } else {
                let j = bs.len() - 1;
                assert(bs[j] == bs.last());
                assert(free_for(bs.last(), ts, me));
                assert(fc[k] == bs.last().pos);
                assert forall|m: int| 0 <= m < ts.len() implies troup_tile(#[trigger] ts[m].pos) != fc[k] by {
                    if troup_tile(ts[m].pos) == fc[k] {
                        assert(occupied(ts, bs[j].pos));
                    }
                }
            }
        }
    }
}

/// Training gives the troop that was asked for: the troop that training
/// for player `i` puts on tile `p` has the level named in the request and
/// the player's race, belongs to the player's side and stands on `p`.
pub proof fn lemma_training_gives_asked_troop(b: Board, i: int, ev: TrainEvent, p: BlockPosition)
    ensures
        recruit(b, i, ev, p).troup.niveau == ev.niv,
        recruit(b, i, ev, p).troup.race == b.players@[i].race,
        recruit(b, i, ev, p).owner == troup_owner_of(b.players@[i].identity),
        troup_tile(recruit(b, i, ev, p).pos) == p,
{
}

/// Training a troop, with the free tile chosen by its index `pick` among
/// the free tiles: nothing changes for an unknown connection; for a player
/// the turn passes and, if a grass tile of theirs is free, the troop joins
/// the board under the identifier `id`, on the free tile at index `pick`.
pub fn new_troup_at(board: &mut Board, entity: u64, event: TrainEvent, pick: usize, id: u64) -> (r: Option<Recrue>)
    requires
        old(board).wf(),
        player_at(old(board).players@, entity) matches Some(i) ==>
            free_cells(old(board).blocks@, old(board).troups@, block_owner_of(old(board).players@[i].identity)).len() > 0 ==>
            pick < free_cells(old(board).blocks@, old(board).troups@, block_owner_of(old(board).players@[i].identity)).len(),
    ensures
        final(board).wf(),
        final(board).blocks@ == old(board).blocks@,
        final(board).troups@ == (match r {
            Some(rec) => old(board).troups@.push(enrolled(rec, id)),
            None => old(board).troups@,
        }),
        final(board).players@ == old(board).players@,
        match player_at(old(board).players@, entity) {
            None => r is None && final(board).tour == old(board).tour,
            Some(i) => {
                let cells = free_cells(old(board).blocks@, old(board).troups@, block_owner_of(old(board).players@[i].identity));
                &&& final(board).tour.current_player == enemy_of(old(board).tour.current_player)
                &&& if cells.len() > 0 { r == Some(recruit(*old(board), i, event, cells[pick as int])) } else { r is None }
                &&& r matches Some(rec) ==> rec.troup == (Troup { race: old(board).players@[i].race, niveau: event.niv })
                    && rec.owner == troup_owner_of(old(board).players@[i].identity)
                    && free_grass_of(old(board).blocks@, old(board).troups@, block_owner_of(old(board).players@[i].identity), troup_tile(rec.pos))
            },
        },
{
    let found = board.find_player(entity);
    if let Some(i) = found {
        let player = board.players[i];
        assert(is_player(board.players@[i as int].identity));
        let cells = cases_libres(board, player.identity.get_block_apartenance());
        let mut r: Option<Recrue> = None;
        if cells.len() > 0 {
            let p = cells[pick];
            let rec = Recrue {
                troup: Troup { race: player.race, niveau: event.niv },
                owner: player.identity.get_troup_apartenance(),
                pos: p.to_troup_position(),
            };
            proof {
                lemma_free_cells_are_free(old(board).blocks@, old(board).troups@, block_owner_of(player.identity));
                assert(troup_tile(rec.pos) == cells@[pick as int]);
            }
            board.troups.push(TroupUnit { id, troup: rec.troup, owner: rec.owner, pos: rec.pos });
            r = Some(rec);
        }
        board.tour.change_tour();
        r
    } else {
        None
    }
}

/// A player trains a troop, which joins the board under the identifier
/// `id` on a free grass tile of theirs drawn at random; the turn passes.
/// Nothing happens for an unknown connection.
pub fn new_troup(board: &mut Board, entity: u64, event: TrainEvent, id: u64) -> (r: Option<Recrue>)
    requires
        old(board).wf(),
    ensures
        final(board).wf(),
        final(board).blocks@ == old(board).blocks@,
        final(board).troups@ == (match r {
            Some(rec) => old(board).troups@.push(enrolled(rec, id)),
            None => old(board).troups@,
        }),
        final(board).players@ == old(board).players@,
        match player_at(old(board).players@, entity) {
            None => r is None && final(board).tour == old(board).tour,
            Some(i) => {
                let cells = free_cells(old(board).blocks@, old(board).troups@, block_owner_of(old(board).players@[i].identity));
                &&& final(board).tour.current_player == enemy_of(old(board).tour.current_player)
                &&& r is Some <==> cells.len() > 0
                &&& r matches Some(rec) ==> exists|k: int| 0 <= k < cells.len() && rec == recruit(*old(board), i, event, cells[k])
                &&& r matches Some(rec) ==> rec.troup == (Troup { race: old(board).players@[i].race, niveau: event.niv })
                    && rec.owner == troup_owner_of(old(board).players@[i].identity)
                    && free_grass_of(old(board).blocks@, old(board).troups@, block_owner_of(old(board).players@[i].identity), troup_tile(rec.pos))
            },
        },
{
    let mut pick: usize = 0;
    if let Some(i) = board.find_player(entity) {
        assert(is_player(board.players@[i as int].identity));
        let cells = cases_libres(board, board.players[i].identity.get_block_apartenance());
        if cells.len() > 0 {
            pick = random_below(cells.len());
        }
    }
    let r = new_troup_at(board, entity, event, pick, id);
    proof {
        if let Some(i) = player_at(old(board).players@, entity) {
            let cells = free_cells(old(board).blocks@, old(board).troups@, block_owner_of(old(board).players@[i].identity));
            if cells.len() > 0 {
                assert(r == Some(recruit(*old(board), i, event, cells[pick as int])));
            }
        }
    }
    r
}

/// The role of the `count`-th client to connect: the first two play, the others watch.
pub open spec fn identity_for(count: int) -> PacketIdentification {
    if count == 1 {
        PacketIdentification::Joueur1
    } else if count == 2 {
        PacketIdentification::Joueur2
    } else {
        PacketIdentification::Spectateur
    }
}

/// The races in the order in which the server draws them.
pub open spec fn race_list(k: int) -> Race {
    if k == 0 {
        Race::Arabe
    } else if k == 1 {
        Race::Chevalier
    } else if k == 2 {
        Race::Chauve
    } else if k == 3 {
        Race::Noir
    } else if k == 4 {
        Race::Voleur
    } else {
        Race::Chinoi
    }
}

/// The resources with which a player starts.
pub open spec fn starting_moula() -> Moula {
    Moula { stone: 5000, wood: 5000, food: 0 }
}

/// Welcoming a newly connected client, with its race drawn as index
/// `race_index` of `race_list`: the connection count grows by one, the
/// client gets its role, and a player also gets its race and starting
/// resources and joins the board.
pub fn accueil_client(board: &mut Board, count: &mut u8, entity: u64, race_index: usize) -> (r: (PacketIdentification, Option<Race>))
    requires
        old(board).wf(),
        *old(count) < 255,
        race_index < 6,
        player_at(old(board).players@, entity) is None,
    ensures
        final(board).wf(),
        *final(count) == *old(count) + 1,
        r.0 == identity_for(*final(count) as int),
        final(board).blocks@ == old(board).blocks@,
        final(board).troups@ == old(board).troups@,
        final(board).tour == old(board).tour,
        if is_player(r.0) {
            &&& r.1 == Some(race_list(race_index as int))
            &&& final(board).players@ == old(board).players@.push(Player { entity, identity: r.0, moula: starting_moula(), race: race_list(race_index as int) })
        } else {
            &&& r.1 is None
            &&& final(board).players@ == old(board).players@
        },
{
    let list = [Race::Arabe, Race::Chevalier, Race::Chauve, Race::Noir, Race::Voleur, Race::Chinoi];
    let current_race = list[race_index];
    *count = *count + 1;
    let packet = match *count {
        1 => PacketIdentification::Joueur1,
        2 => PacketIdentification::Joueur2,
        _ => PacketIdentification::Spectateur,
    };
    if packet != PacketIdentification::Spectateur {
        let p = Player { entity, identity: packet, moula: Moula { stone: 5000, wood: 5000, food: 0 }, race: current_race };
        proof {
            let ps = board.players@;
            assert forall|a: int, c: int| 0 <= a < ps.len() + 1 && 0 <= c < ps.len() + 1 && a != c implies
                ps.push(p)[a].entity != ps.push(p)[c].entity by {
                if a < ps.len() && c < ps.len() {
                    assert(ps[a].entity != ps[c].entity);
                } else if a < ps.len() {
                    assert(ps[a].entity != entity);
                } else if c < ps.len() {
                    assert(ps[c].entity != entity);
                }
            }
            assert forall|a: int| 0 <= a < ps.len() + 1 implies is_player(#[trigger] ps.push(p)[a].identity) by {
                if a < ps.len() {
                    assert(is_player(ps[a].identity));
                }
            }
        }
        board.players.push(p);
        (packet, Some(current_race))
    } else {
        (packet, None)
    }
}

/// Welcoming a newly connected client, with its race drawn at random.
pub fn gestion_new_client(board: &mut Board, count: &mut u8, entity: u64) -> (r: (PacketIdentification, Option<Race>))
    requires
        old(board).wf(),
        *old(count) < 255,
        player_at(old(board).players@, entity) is None,
    ensures
        final(board).wf(),
        *final(count) == *old(count) + 1,
        r.0 == identity_for(*final(count) as int),
        final(board).blocks@ == old(board).blocks@,
        final(board).troups@ == old(board).troups@,
        final(board).tour == old(board).tour,
        if is_player(r.0) {
            exists|k: int| 0 <= k < 6 && r.1 == Some(race_list(k))
                && final(board).players@ == old(board).players@.push(Player { entity, identity: r.0, moula: starting_moula(), race: race_list(k) })
        } else {
            &&& r.1 is None
            &&& final(board).players@ == old(board).players@
        },
{
    let k = random_below(6);
    accueil_client(board, count, entity, k)
}

} // verus!
