//! The server's picture of a game: the tiles of the map, the troops on it,
//! the two players and whose turn it is.

use vstd::prelude::*;
use crate::model::{
    BlockApartenance, BlockPosition, BlockType, Moula, PacketIdentification, Race, Tour, Troup,
    TroupApartenance, TroupPosition, is_player,
};

verus! {

/// A tile of the map.
#[derive(Clone, Copy, Debug, PartialEq, Eq, Structural)]
pub struct Block {
    pub pos: BlockPosition,
    pub kind: BlockType,
    pub owner: BlockApartenance,
}

/// A troop standing on the map; `id` names it for the network layer.
#[derive(Clone, Copy, Debug, PartialEq, Eq, Structural)]
pub struct TroupUnit {
    pub id: u64,
    pub troup: Troup,
    pub owner: TroupApartenance,
    pub pos: TroupPosition,
}

/// A connected player: the connection's `entity`, its role, its resources and its race.
#[derive(Clone, Copy, Debug, PartialEq, Eq, Structural)]
pub struct Player {
    pub entity: u64,
    pub identity: PacketIdentification,
    pub moula: Moula,
    pub race: Race,
}

/// The state of a game on the server.
pub struct Board {
    pub blocks: Vec<Block>,
    pub troups: Vec<TroupUnit>,
    pub players: Vec<Player>,
    pub tour: Tour,
}

/// The tile on which a troop stands.
pub open spec fn troup_tile(p: TroupPosition) -> BlockPosition {
    BlockPosition { x: p.x, y: p.y }
}

/// The positions of the tiles, in order.
pub open spec fn block_positions(bs: Seq<Block>) -> Seq<BlockPosition> {
    bs.map_values(|b: Block| b.pos)
}

/// No two tiles share a position.
pub open spec fn distinct_blocks(bs: Seq<Block>) -> bool {
    forall|i: int, j: int| 0 <= i < bs.len() && 0 <= j < bs.len() && i != j ==> bs[i].pos != bs[j].pos
}

/// Every player plays (no spectator) and no two share a connection.
pub open spec fn players_wf(ps: Seq<Player>) -> bool {
    &&& forall|i: int| 0 <= i < ps.len() ==> is_player(#[trigger] ps[i].identity)
    &&& forall|i: int, j: int| 0 <= i < ps.len() && 0 <= j < ps.len() && i != j ==> ps[i].entity != ps[j].entity
}

/// The index of the tile at `p`, if there is one.
pub open spec fn block_at(bs: Seq<Block>, p: BlockPosition) -> Option<int> {
    if exists|i: int| 0 <= i < bs.len() && bs[i].pos == p {
        Some(choose|i: int| 0 <= i < bs.len() && bs[i].pos == p)
    } else {
        None
    }
}

/// The index of the player behind connection `e`, if there is one.
pub open spec fn player_at(ps: Seq<Player>, e: u64) -> Option<int> {
    if exists|i: int| 0 <= i < ps.len() && ps[i].entity == e {
        Some(choose|i: int| 0 <= i < ps.len() && ps[i].entity == e)
    } else {
        None
    }
}

impl Board {
    /// The board's invariant: the turn belongs to a player, tiles have
    /// distinct positions, players are players with distinct connections.
    pub open spec fn wf(&self) -> bool {
        &&& is_player(self.tour.current_player)
        &&& distinct_blocks(self.blocks@)
        &&& players_wf(self.players@)
    }

    /// The index of the tile at `p`.
    pub fn find_block(&self, p: BlockPosition) -> (r: Option<usize>)
        requires
            distinct_blocks(self.blocks@),
        ensures
            r is None <==> block_at(self.blocks@, p) is None,
            r matches Some(j) ==> j < self.blocks@.len() && block_at(self.blocks@, p) == Some(j as int),
    {
        let mut i: usize = 0;
        while i < self.blocks.len()
            invariant
                i <= self.blocks@.len(),
                distinct_blocks(self.blocks@),
                forall|k: int| 0 <= k < i ==> self.blocks@[k].pos != p,
            decreases self.blocks@.len() - i,
        {
            if self.blocks[i].pos == p {
                proof {
                    assert(self.blocks@[i as int].pos == p);
                    let c = choose|k: int| 0 <= k < self.blocks@.len() && self.blocks@[k].pos == p;
                    if c != i {
                        assert(self.blocks@[c].pos != self.blocks@[i as int].pos);
                    }
                }
                return Some(i);
            }
            i = i + 1;
        }
        None
    }

    /// The index of the player behind connection `e`.
    pub fn find_player(&self, e: u64) -> (r: Option<usize>)
        requires
            players_wf(self.players@),
        ensures
            r is None <==> player_at(self.players@, e) is None,
            r matches Some(i) ==> i < self.players@.len() && player_at(self.players@, e) == Some(i as int),
    {
        let mut i: usize = 0;
        while i < self.players.len()
            invariant
                i <= self.players@.len(),
                players_wf(self.players@),
                forall|k: int| 0 <= k < i ==> self.players@[k].entity != e,
            decreases self.players@.len() - i,
        {
            if self.players[i].entity == e {
                proof {
                    assert(self.players@[i as int].entity == e);
                    let c = choose|k: int| 0 <= k < self.players@.len() && self.players@[k].entity == e;
                    if c != i {
                        assert(self.players@[c].entity != self.players@[i as int].entity);
                    }
                }
                return Some(i);
            }
            i = i + 1;
        }
        None
    }

    /// The positions of all tiles, in order.
    pub fn positions(&self) -> (r: Vec<BlockPosition>)
        ensures
            r@ == block_positions(self.blocks@),
    {
        let mut r: Vec<BlockPosition> = Vec::new();
        let mut i: usize = 0;
        while i < self.blocks.len()
            invariant
                i <= self.blocks@.len(),
                r@ == block_positions(self.blocks@.take(i as int)),
            decreases self.blocks@.len() - i,
        {
            r.push(self.blocks[i].pos);
            proof {
                assert(self.blocks@.take(i + 1) == self.blocks@.take(i as int).push(self.blocks@[i as int]));
            }
            i = i + 1;
        }
        proof {
            assert(self.blocks@.take(i as int) == self.blocks@);
        }
        r
    }
}

} // verus!
