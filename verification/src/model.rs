//! The game's vocabulary: tiles, owners, players, troops and resources,
//! with the fixed tables that give each of them its numbers.

use vstd::prelude::*;

verus! {

/// What stands on a tile of the map.
#[derive(Clone, Copy, Debug, PartialEq, Eq, Structural)]
pub enum BlockType {
    AvantPost,
    Caserne,
    Castle,
    Farm,
    Grass,
    GrassForest,
    GrassHill,
    Mine,
    Tower,
    Upgradeur,
    Wall,
    Sheep,
}

/// Who owns a tile.
#[derive(Clone, Copy, Debug, PartialEq, Eq, Structural)]
pub enum BlockApartenance {
    Neutre,
    Joueur1,
    Joueur2,
}

/// The role that the server gives to a connected client.
#[derive(Clone, Copy, Debug, PartialEq, Eq, Structural)]
pub enum PacketIdentification {
    Joueur1,
    Joueur2,
    Spectateur,
}

/// Who owns a troop.
#[derive(Clone, Copy, Debug, PartialEq, Eq, Structural)]
pub enum TroupApartenance {
    Joueur1,
    Joueur2,
}

/// The level of a troop.
#[derive(Clone, Copy, Debug, PartialEq, Eq, Structural)]
pub enum NiveauTroup {
    Niveau1,
    Niveau2,
    Niveau3,
}

/// The race of a player's troops.
#[derive(Clone, Copy, Debug, PartialEq, Eq, Structural)]
pub enum Race {
    Chauve,
    Arabe,
    Noir,
    Chevalier,
    Chinoi,
    Voleur,
}

/// The coordinates of a tile: column `x`, row `y`.
#[derive(Clone, Copy, Debug, PartialEq, Eq, Structural)]
pub struct BlockPosition {
    pub x: u8,
    pub y: u8,
}

/// The coordinates of the tile on which a troop stands.
#[derive(Clone, Copy, Debug, PartialEq, Eq, Structural)]
pub struct TroupPosition {
    pub x: u8,
    pub y: u8,
}

/// A troop: its race and its level.
#[derive(Clone, Copy, Debug, PartialEq, Eq, Structural)]
pub struct Troup {
    pub race: Race,
    pub niveau: NiveauTroup,
}

/// The resources of a player.
#[derive(Clone, Copy, Debug, PartialEq, Eq, Structural)]
pub struct Moula {
    pub stone: u32,
    pub wood: u32,
    pub food: u32,
}

/// Whose turn it is.
#[derive(Clone, Copy, Debug, PartialEq, Eq, Structural)]
pub struct Tour {
    pub current_player: PacketIdentification,
}

/// A player asks to build `type_b` on the tile at `pos`.
#[derive(Clone, Copy, Debug, PartialEq, Eq, Structural)]
pub struct EventBuild {
    pub who_are_u: PacketIdentification,
    pub pos: BlockPosition,
    pub type_b: BlockType,
}

/// A player asks to take the tile at the given position.
#[derive(Clone, Copy, Debug, PartialEq, Eq, Structural)]
pub struct ConqueteEvent(pub BlockPosition);

/// A player harvests the forest or the hill at `pos`.
#[derive(Clone, Copy, Debug, PartialEq, Eq, Structural)]
pub struct RecoltEvent {
    pub pos: BlockPosition,
}

/// A player moves the troops at `pos_start` to `pos_end`.
#[derive(Clone, Copy, Debug, PartialEq, Eq, Structural)]
pub struct DeplacementEvent {
    pub pos_start: BlockPosition,
    pub pos_end: BlockPosition,
}

/// A player clears the tile at `pos`.
#[derive(Clone, Copy, Debug, PartialEq, Eq, Structural)]
pub struct DestroyEvent {
    pub pos: BlockPosition,
}

/// A player attacks the tile at `pos`.
#[derive(Clone, Copy, Debug, PartialEq, Eq, Structural)]
pub struct CombatEvent {
    pub pos: BlockPosition,
}

/// The outcome of a fight: `id` won the tile at `pos`; `entity` is the
/// connection that started the fight.
#[derive(Clone, Copy, Debug, PartialEq, Eq, Structural)]
pub struct ReponceCombatEvent {
    pub id: PacketIdentification,
    pub pos: BlockPosition,
    pub entity: u64,
}

/// A player trains a troop of level `niv`.
#[derive(Clone, Copy, Debug, PartialEq, Eq, Structural)]
pub struct TrainEvent {
    pub niv: NiveauTroup,
}

/// The position that stands for "no tile" in lists of tiles.
pub open spec fn no_position() -> BlockPosition {
    BlockPosition { x: 100, y: 100 }
}

/// Stone (index 0) and wood (index 1) that a building costs; `None` for
/// what cannot be built.
pub open spec fn price_of(t: BlockType) -> Option<(u32, u32)> {
    match t {
        BlockType::AvantPost => Some((2300, 3000)),
        BlockType::Caserne => Some((600, 400)),
        BlockType::Farm => Some((200, 300)),
        BlockType::Mine => Some((300, 200)),
        BlockType::Tower => Some((1500, 1500)),
        BlockType::Upgradeur => Some((1000, 1000)),
        BlockType::Wall => Some((4000, 4000)),
        BlockType::Sheep => Some((400, 500)),
        _ => None,
    }
}

/// Whether a building has a price (the castle and the natural tiles have none).
pub open spec fn has_price(t: BlockType) -> bool {
    price_of(t) is Some
}

/// Whether a player may destroy what stands on a tile of this kind.
pub open spec fn breakable(t: BlockType) -> bool {
    match t {
        BlockType::Grass | BlockType::GrassForest | BlockType::GrassHill | BlockType::Wall => false,
        _ => true,
    }
}

/// Whether a troop may stand on a tile of this kind.
pub open spec fn empty_tile(t: BlockType) -> bool {
    t == BlockType::Grass || t == BlockType::GrassForest
}

/// The building that the number keys 1 to 8 select.
pub open spec fn type_with_number(n: u8) -> Option<BlockType> {
    if n == 1 {
        Some(BlockType::Caserne)
    } else if n == 2 {
        Some(BlockType::AvantPost)
    } else if n == 3 {
        Some(BlockType::Mine)
    } else if n == 4 {
        Some(BlockType::Farm)
    } else if n == 5 {
        Some(BlockType::Tower)
    } else if n == 6 {
        Some(BlockType::Upgradeur)
    } else if n == 7 {
        Some(BlockType::Wall)
    } else if n == 8 {
        Some(BlockType::Sheep)
    } else {
        None
    }
}

/// The owner of tiles that belong to a player; spectators own no tile.
pub open spec fn block_owner_of(p: PacketIdentification) -> BlockApartenance {
    match p {
        PacketIdentification::Joueur1 => BlockApartenance::Joueur1,
        PacketIdentification::Joueur2 => BlockApartenance::Joueur2,
        PacketIdentification::Spectateur => BlockApartenance::Neutre,
    }
}

/// The owner of the troops of a player.
pub open spec fn troup_owner_of(p: PacketIdentification) -> TroupApartenance {
    match p {
        PacketIdentification::Joueur2 => TroupApartenance::Joueur2,
        _ => TroupApartenance::Joueur1,
    }
}

/// The other player.
pub open spec fn enemy_of(p: PacketIdentification) -> PacketIdentification {
    match p {
        PacketIdentification::Joueur1 => PacketIdentification::Joueur2,
        _ => PacketIdentification::Joueur1,
    }
}

/// Whether the role is one of the two players'.
pub open spec fn is_player(p: PacketIdentification) -> bool {
    p != PacketIdentification::Spectateur
}

/// The troop level that a number key selects.
pub open spec fn level_of_number(n: u8) -> NiveauTroup {
    if n == 1 {
        NiveauTroup::Niveau1
    } else if n == 2 {
        NiveauTroup::Niveau2
    } else {
        NiveauTroup::Niveau3
    }
}

impl BlockType {
    /// Stone and wood that this building costs.
    pub fn get_price(&self) -> (r: [u32; 2])
        requires
            has_price(*self),
        ensures
            r@.len() == 2,
            r@[0] == price_of(*self).unwrap().0,
            r@[1] == price_of(*self).unwrap().1,
    {
        match self {
            BlockType::AvantPost => [2300, 3000],
            BlockType::Caserne => [600, 400],
            BlockType::Farm => [200, 300],
            BlockType::Mine => [300, 200],
            BlockType::Tower => [1500, 1500],
            BlockType::Upgradeur => [1000, 1000],
            BlockType::Wall => [4000, 4000],
            _ => [400, 500],
        }
    }

    /// Whether a player may destroy what stands on this tile.
    pub fn is_breakable(&self) -> (r: bool)
        ensures
            r == breakable(*self),
    {
        match self {
            BlockType::Grass | BlockType::GrassForest | BlockType::GrassHill | BlockType::Wall => false,
            _ => true,
        }
    }

    /// Whether a troop may stand on this tile.
    pub fn is_empty(&self) -> (r: bool)
        ensures
            r == empty_tile(*self),
    {
        match self {
            BlockType::Grass | BlockType::GrassForest => true,
            _ => false,
        }
    }
}

/// The building that number key `nbr` selects in the build menu.
pub fn get_type_with_number(nbr: u8) -> (r: Option<BlockType>)
    ensures
        r == type_with_number(nbr),
{
    match nbr {
        1 => Some(BlockType::Caserne),
        2 => Some(BlockType::AvantPost),
        3 => Some(BlockType::Mine),
        4 => Some(BlockType::Farm),
        5 => Some(BlockType::Tower),
        6 => Some(BlockType::Upgradeur),
        7 => Some(BlockType::Wall),
        8 => Some(BlockType::Sheep),
        _ => None,
    }
}

impl BlockApartenance {
    /// Whether the sprite of a tile with this owner is drawn mirrored for
    /// the given viewer.
    pub fn get_flip(&self, identity: PacketIdentification) -> (r: bool)
        ensures
            r == (match *self {
                BlockApartenance::Joueur2 => identity != PacketIdentification::Joueur2,
                _ => identity == PacketIdentification::Joueur2,
            }),
    {
        let res = match identity {
            PacketIdentification::Joueur1 => (false, true),
            PacketIdentification::Joueur2 => (true, false),
            PacketIdentification::Spectateur => (false, true),
        };
        match self {
            BlockApartenance::Joueur1 => res.0,
            BlockApartenance::Joueur2 => res.1,
            BlockApartenance::Neutre => res.0,
        }
    }
}

impl BlockPosition {
    /// The position of a troop standing on this tile.
    pub fn to_troup_position(&self) -> (r: TroupPosition)
        ensures
            r.x == self.x,
            r.y == self.y,
    {
        TroupPosition { x: self.x, y: self.y }
    }
}

impl TroupPosition {
    /// The tile on which the troop stands.
    pub fn to_troup_position(&self) -> (r: BlockPosition)
        ensures
            r.x == self.x,
            r.y == self.y,
    {
        BlockPosition { x: self.x, y: self.y }
    }
}

impl PacketIdentification {
    /// The owner of this player's tiles.
    pub fn get_block_apartenance(&self) -> (r: BlockApartenance)
        requires
            is_player(*self),
        ensures
            r == block_owner_of(*self),
    {
        match self {
            PacketIdentification::Joueur1 => BlockApartenance::Joueur1,
            _ => BlockApartenance::Joueur2,
        }
    }

    /// The owner of this player's troops.
    pub fn get_troup_apartenance(&self) -> (r: TroupApartenance)
        requires
            is_player(*self),
        ensures
            r == troup_owner_of(*self),
    {
        match self {
            PacketIdentification::Joueur1 => TroupApartenance::Joueur1,
            _ => TroupApartenance::Joueur2,
        }
    }

    /// The other player.
    pub fn get_enemie(&self) -> (r: PacketIdentification)
        requires
            is_player(*self),
        ensures
            r == enemy_of(*self),
    {
        match self {
            PacketIdentification::Joueur1 => PacketIdentification::Joueur2,
            _ => PacketIdentification::Joueur1,
        }
    }
}

impl Tour {
    /// Hands the turn to the other player.
    pub fn change_tour(&mut self)
        requires
            is_player(old(self).current_player),
        ensures
            final(self).current_player == enemy_of(old(self).current_player),
    {
        self.current_player = match self.current_player {
            PacketIdentification::Joueur1 => PacketIdentification::Joueur2,
            _ => PacketIdentification::Joueur1,
        };
    }
}

/// The turn alternates between the two players: handing it over goes to
/// the other player, who is a player too, and handing it over twice gives
/// it back.
pub proof fn lemma_turn_alternates(p: PacketIdentification)
    requires
        is_player(p),
    ensures
        is_player(enemy_of(p)),
        enemy_of(p) != p,
        enemy_of(enemy_of(p)) == p,
{
}

/// Whether the resources pay for the building.
pub fn can_build(block_t: BlockType, moula: Moula) -> (r: bool)
    requires
        has_price(block_t),
    ensures
        r == (moula.stone >= price_of(block_t).unwrap().0 && moula.wood >= price_of(block_t).unwrap().1),
{
    let price = block_t.get_price();
    moula.stone >= price[0] && moula.wood >= price[1]
}

/// Attack strength of a troop.
pub open spec fn attack_of(t: Troup) -> u8 {
    match t.race {
        Race::Chauve | Race::Chevalier => match t.niveau {
            NiveauTroup::Niveau1 => 15u8,
            NiveauTroup::Niveau2 => 25u8,
            NiveauTroup::Niveau3 => 35u8,
        },
        Race::Arabe => match t.niveau {
            NiveauTroup::Niveau1 => 20u8,
            NiveauTroup::Niveau2 => 30u8,
            NiveauTroup::Niveau3 => 40u8,
        },
        Race::Noir => match t.niveau {
            NiveauTroup::Niveau1 => 10u8,
            NiveauTroup::Niveau2 => 20u8,
            NiveauTroup::Niveau3 => 30u8,
        },
        Race::Chinoi => match t.niveau {
            NiveauTroup::Niveau1 => 5u8,
            NiveauTroup::Niveau2 => 10u8,
            NiveauTroup::Niveau3 => 20u8,
        },
        Race::Voleur => match t.niveau {
            NiveauTroup::Niveau1 => 25u8,
            NiveauTroup::Niveau2 => 35u8,
            NiveauTroup::Niveau3 => 45u8,
        },
    }
}

/// Hit points of a troop.
pub open spec fn hp_of(t: Troup) -> u8 {
    match t.race {
        Race::Chauve | Race::Noir => match t.niveau {
            NiveauTroup::Niveau1 => 100u8,
            NiveauTroup::Niveau2 => 150u8,
            NiveauTroup::Niveau3 => 200u8,
        },
        Race::Arabe | Race::Voleur => match t.niveau {
            NiveauTroup::Niveau1 => 80u8,
            NiveauTroup::Niveau2 => 120u8,
            NiveauTroup::Niveau3 => 160u8,
        },
        Race::Chevalier => match t.niveau {
            NiveauTroup::Niveau1 => 150u8,
            NiveauTroup::Niveau2 => 200u8,
            NiveauTroup::Niveau3 => 250u8,
        },
        Race::Chinoi => match t.niveau {
            NiveauTroup::Niveau1 => 120u8,
            NiveauTroup::Niveau2 => 160u8,
            NiveauTroup::Niveau3 => 200u8,
        },
    }
}

/// Shield of a troop.
pub open spec fn shield_of(t: Troup) -> u8 {
    match t.race {
        Race::Chauve | Race::Noir => match t.niveau {
            NiveauTroup::Niveau1 => 10u8,
            NiveauTroup::Niveau2 => 20u8,
            NiveauTroup::Niveau3 => 30u8,
        },
        Race::Arabe | Race::Voleur => match t.niveau {
            NiveauTroup::Niveau1 => 5u8,
            NiveauTroup::Niveau2 => 10u8,
            NiveauTroup::Niveau3 => 20u8,
        },
        Race::Chevalier => match t.niveau {
            NiveauTroup::Niveau1 => 15u8,
            NiveauTroup::Niveau2 => 25u8,
            NiveauTroup::Niveau3 => 35u8,
        },
        Race::Chinoi => match t.niveau {
            NiveauTroup::Niveau1 => 20u8,
            NiveauTroup::Niveau2 => 30u8,
            NiveauTroup::Niveau3 => 40u8,
        },
    }
}

/// Number of steps a troop may walk in one move.
pub open spec fn speed_of(t: Troup) -> u8 {
    match t.niveau {
        NiveauTroup::Niveau1 => 1u8,
        NiveauTroup::Niveau2 => if t.race == Race::Noir || t.race == Race::Voleur { 2u8 } else { 1u8 },
        NiveauTroup::Niveau3 => 2u8,
    }
}

/// Number of steps over which a troop fights: one more than its speed.
pub open spec fn range_of(t: Troup) -> u8 {
    (speed_of(t) + 1) as u8
}

/// Food that training a troop costs.
pub open spec fn troup_price_of(n: NiveauTroup) -> u32 {
    match n {
        NiveauTroup::Niveau1 => 50u32,
        NiveauTroup::Niveau2 => 75u32,
        NiveauTroup::Niveau3 => 100u32,
    }
}

impl Troup {
    /// Attack strength of this troop.
    pub fn get_attaque(&self) -> (r: u8)
        ensures
            r == attack_of(*self),
    {
        match self.race {
            Race::Chauve | Race::Chevalier => match self.niveau {
                NiveauTroup::Niveau1 => 15,
                NiveauTroup::Niveau2 => 25,
                NiveauTroup::Niveau3 => 35,
            },
            Race::Arabe => match self.niveau {
                NiveauTroup::Niveau1 => 20,
                NiveauTroup::Niveau2 => 30,
                NiveauTroup::Niveau3 => 40,
            },
            Race::Noir => match self.niveau {
                NiveauTroup::Niveau1 => 10,
                NiveauTroup::Niveau2 => 20,
                NiveauTroup::Niveau3 => 30,
            },
            Race::Chinoi => match self.niveau {
                NiveauTroup::Niveau1 => 5,
                NiveauTroup::Niveau2 => 10,
                NiveauTroup::Niveau3 => 20,
            },
            Race::Voleur => match self.niveau {
                NiveauTroup::Niveau1 => 25,
                NiveauTroup::Niveau2 => 35,
                NiveauTroup::Niveau3 => 45,
            },
        }
    }

    /// Hit points of this troop.
    pub fn get_hp(&self) -> (r: u8)
        ensures
            r == hp_of(*self),
    {
        match self.race {
            Race::Chauve | Race::Noir => match self.niveau {
                NiveauTroup::Niveau1 => 100,
                NiveauTroup::Niveau2 => 150,
                NiveauTroup::Niveau3 => 200,
            },
            Race::Arabe | Race::Voleur => match self.niveau {
                NiveauTroup::Niveau1 => 80,
                NiveauTroup::Niveau2 => 120,
                NiveauTroup::Niveau3 => 160,
            },
            Race::Chevalier => match self.niveau {
                NiveauTroup::Niveau1 => 150,
                NiveauTroup::Niveau2 => 200,
                NiveauTroup::Niveau3 => 250,
            },
            Race::Chinoi => match self.niveau {
                NiveauTroup::Niveau1 => 120,
                NiveauTroup::Niveau2 => 160,
                NiveauTroup::Niveau3 => 200,
            },
        }
    }

    /// Shield of this troop.
    pub fn get_sheild(&self) -> (r: u8)
        ensures
            r == shield_of(*self),
    {
        match self.race {
            Race::Chauve | Race::Noir => match self.niveau {
                NiveauTroup::Niveau1 => 10,
                NiveauTroup::Niveau2 => 20,
                NiveauTroup::Niveau3 => 30,
            },
            Race::Arabe | Race::Voleur => match self.niveau {
                NiveauTroup::Niveau1 => 5,
                NiveauTroup::Niveau2 => 10,
                NiveauTroup::Niveau3 => 20,
            },
            Race::Chevalier => match self.niveau {
                NiveauTroup::Niveau1 => 15,
                NiveauTroup::Niveau2 => 25,
                NiveauTroup::Niveau3 => 35,
            },
            Race::Chinoi => match self.niveau {
                NiveauTroup::Niveau1 => 20,
                NiveauTroup::Niveau2 => 30,
                NiveauTroup::Niveau3 => 40,
            },
        }
    }

    /// Number of steps this troop may walk in one move.
    pub fn get_vitesse(&self) -> (r: u8)
        ensures
            r == speed_of(*self),
    {
        match self.niveau {
            NiveauTroup::Niveau1 => 1,
            NiveauTroup::Niveau2 => match self.race {
                Race::Noir | Race::Voleur => 2,
                _ => 1,
            },
            NiveauTroup::Niveau3 => 2,
        }
    }

    /// Number of steps over which this troop fights.
    pub fn get_range(&self) -> (r: u8)
        ensures
            r == range_of(*self),
    {
        let a = self.get_vitesse();
        a + 1
    }

    /// Food that training this troop costs.
    pub fn get_price(&self) -> (r: u32)
        ensures
            r == troup_price_of(self.niveau),
    {
        match self.niveau {
            NiveauTroup::Niveau1 => 50,
            NiveauTroup::Niveau2 => 75,
            NiveauTroup::Niveau3 => 100,
        }
    }
}

/// Whether the food pays for training the troop.
pub fn can_train(troup: Troup, moula: Moula) -> (r: bool)
    ensures
        r == (moula.food >= troup_price_of(troup.niveau)),
{
    moula.food >= troup.get_price()
}

/// Whether the list holds a tile other than the "no tile" marker.
pub fn il_peu(vec: &Vec<BlockPosition>) -> (r: bool)
    ensures
        r == exists|i: int| 0 <= i < vec@.len() && vec@[i] != no_position(),
{
    let mut i: usize = 0;
    while i < vec.len()
        invariant
            i <= vec@.len(),
            forall|j: int| 0 <= j < i ==> vec@[j] == no_position(),
        decreases vec@.len() - i,
    {
        if vec[i] != (BlockPosition { x: 100, y: 100 }) {
            return true;
        }
        i = i + 1;
    }
    false
}

/// The troop level that number key `x` selects.
pub fn get_troup_niveau(x: u8) -> (r: NiveauTroup)
    requires
        1 <= x <= 3,
    ensures
        r == level_of_number(x),
{
    match x {
        1 => NiveauTroup::Niveau1,
        2 => NiveauTroup::Niveau2,
        _ => NiveauTroup::Niveau3,
    }
}

} // verus!
