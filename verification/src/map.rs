//! The starting map: ten columns by nine rows, each player's castle with
//! five grass tiles around it, and forests and hills scattered at random
//! over the neutral ground.

use vstd::prelude::*;
use crate::model::{BlockApartenance, BlockPosition, BlockType, PacketIdentification, Tour};
use crate::board::{Block, Board, distinct_blocks};
use crate::random::random_bool;

verus! {

/// The number of tiles in a row of the map.
pub open spec fn map_width() -> int {
    10
}

/// The number of rows of the map.
pub open spec fn map_height() -> int {
    9
}

/// The tiles that every map has: kind and owner of the tile at (`x`, `y`).
pub open spec fn fixed_tile(x: u8, y: u8) -> Option<(BlockType, BlockApartenance)> {
    if x == 1 && y == 4 {
        Some((BlockType::Castle, BlockApartenance::Joueur1))
    } else if x == 9 && y == 4 {
        Some((BlockType::Castle, BlockApartenance::Joueur2))
    } else if (x == 0 && y == 5) || (x == 1 && y == 5) || (x == 2 && y == 4) || (x == 1 && y == 3) || (x == 0 && y == 3) {
        Some((BlockType::Grass, BlockApartenance::Joueur1))
    } else if (x == 9 && y == 5) || (x == 8 && y == 5) || (x == 8 && y == 4) || (x == 9 && y == 3) || (x == 8 && y == 3) {
        Some((BlockType::Grass, BlockApartenance::Joueur2))
    } else {
        None
    }
}

/// The kind of a neutral tile for two coin tosses: grass on tails, then a
/// forest or a hill.
pub open spec fn wild_kind(first: bool, second: bool) -> BlockType {
    if first {
        if second { BlockType::GrassForest } else { BlockType::GrassHill }
    } else {
        BlockType::Grass
    }
}

/// The tile at index `k` of a map holds position (`k % 10`, `k / 10`) and
/// the fixed kind and owner there, or a neutral grass, forest or hill.
pub open spec fn valid_tile(k: int, b: Block) -> bool {
    &&& b.pos.x == k % map_width()
    &&& b.pos.y == k / map_width()
    &&& match fixed_tile(b.pos.x, b.pos.y) {
        Some((kind, owner)) => b.kind == kind && b.owner == owner,
        None => b.owner == BlockApartenance::Neutre && (b.kind == BlockType::Grass
            || b.kind == BlockType::GrassForest || b.kind == BlockType::GrassHill),
    }
}

/// The tile at (`x`, `y`) for the given coin tosses (used only off the fixed tiles).
pub fn tile_for(x: u8, y: u8, first: bool, second: bool) -> (r: Block)
    ensures
        r.pos == (BlockPosition { x, y }),
        match fixed_tile(x, y) {
            Some((kind, owner)) => r.kind == kind && r.owner == owner,
            None => r.kind == wild_kind(first, second) && r.owner == BlockApartenance::Neutre,
        },
{
    let mut curent_type = BlockType::Grass;
    let mut curent_apartenance = BlockApartenance::Neutre;
    if x == 1 && y == 4 {
        curent_type = BlockType::Castle;
        curent_apartenance = BlockApartenance::Joueur1;
    } else if x == 9 && y == 4 {
        curent_type = BlockType::Castle;
        curent_apartenance = BlockApartenance::Joueur2;
    } else if (x == 0 && y == 5) || (x == 1 && y == 5) || (x == 2 && y == 4) || (x == 1 && y == 3) || (x == 0 && y == 3) {
        curent_apartenance = BlockApartenance::Joueur1;
    } else if (x == 9 && y == 5) || (x == 8 && y == 5) || (x == 8 && y == 4) || (x == 9 && y == 3) || (x == 8 && y == 3) {
        curent_apartenance = BlockApartenance::Joueur2;
    } else if first {
        if second {
            curent_type = BlockType::GrassForest;
        } else {
            curent_type = BlockType::GrassHill;
        }
    }
    Block { pos: BlockPosition { x, y }, kind: curent_type, owner: curent_apartenance }
}

/// A new map, row by row from the top, with forests and hills drawn at random.
pub fn init_map() -> (r: Vec<Block>)
    ensures
        r@.len() == map_width() * map_height(),
        forall|k: int| 0 <= k < r@.len() ==> valid_tile(k, #[trigger] r@[k]),
        distinct_blocks(r@),
{
    let mut r: Vec<Block> = Vec::new();
    let mut y: u8 = 0;
    while y < 9
        invariant
            y <= 9,
            r@.len() == 10 * y,
            forall|k: int| 0 <= k < r@.len() ==> valid_tile(k, #[trigger] r@[k]),
        decreases 9 - y,
    {
        let mut x: u8 = 0;
        while x < 10
            invariant
                y < 9,
                x <= 10,
                r@.len() == 10 * y + x,
                forall|k: int| 0 <= k < r@.len() ==> valid_tile(k, #[trigger] r@[k]),
            decreases 10 - x,
        {
            let mut first = false;
            let mut second = false;
            if fixed_tile_exec(x, y) {
            } else {
                first = random_bool();
                if first {
                    second = random_bool();
                }
            }
            let b = tile_for(x, y, first, second);
            proof {
                let k = r@.len() as int;
                assert(k % 10 == x && k / 10 == y) by (nonlinear_arith)
                    requires k == 10 * y + x, 0 <= x < 10, 0 <= y;
            }
            r.push(b);
            proof {
                assert forall|k: int| 0 <= k < r@.len() implies valid_tile(k, #[trigger] r@[k]) by {
                    if k < r@.len() - 1 {
                        assert(r@[k] == r@.drop_last()[k]);
                    }
                }
            }
            x = x + 1;
        }
        y = y + 1;
    }
    proof {
        assert forall|a: int, c: int| 0 <= a < r@.len() && 0 <= c < r@.len() && a != c implies r@[a].pos != r@[c].pos by {
            assert(valid_tile(a, r@[a]));
            assert(valid_tile(c, r@[c]));
            assert(a == (a / 10) * 10 + a % 10) by (nonlinear_arith)
                requires 0 <= a;
            assert(c == (c / 10) * 10 + c % 10) by (nonlinear_arith)
                requires 0 <= c;
        }
    }
    r
}

/// Whether the tile at (`x`, `y`) is one of those that every map has.
fn fixed_tile_exec(x: u8, y: u8) -> (r: bool)
    ensures
        r == (fixed_tile(x, y) is Some),
{
    (x == 1 && y == 4) || (x == 9 && y == 4)
        || (x == 0 && y == 5) || (x == 1 && y == 5) || (x == 2 && y == 4) || (x == 1 && y == 3) || (x == 0 && y == 3)
        || (x == 9 && y == 5) || (x == 8 && y == 5) || (x == 8 && y == 4) || (x == 9 && y == 3) || (x == 8 && y == 3)
}

impl Board {
    /// A game about to start on the map `blocks`: no troop, no player yet,
    /// player 1 to play.
    pub fn new(blocks: Vec<Block>) -> (r: Board)
        requires
            distinct_blocks(blocks@),
        ensures
            r.wf(),
            r.blocks@ == blocks@,
            r.troups@.len() == 0,
            r.players@.len() == 0,
            r.tour.current_player == PacketIdentification::Joueur1,
    {
        Board { blocks, troups: Vec::new(), players: Vec::new(), tour: Tour { current_player: PacketIdentification::Joueur1 } }
    }
}

} // verus!
