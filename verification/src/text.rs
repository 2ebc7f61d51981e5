//! The texts that the display shows: descriptions of tiles and troops,
//! prices, resources, and the paths of the pictures.

use vstd::prelude::*;
use vstd::string::StringExecFns;
use crate::model::{
    BlockApartenance, BlockType, Moula, NiveauTroup, PacketIdentification, Race, Troup, attack_of,
    has_price, hp_of, price_of, range_of, shield_of, speed_of, troup_price_of,
};

verus! {

/// The character of a decimal digit.
pub open spec fn digit(d: nat) -> char {
    if d == 0 { '0' } else if d == 1 { '1' } else if d == 2 { '2' } else if d == 3 { '3' } else if d == 4 { '4' }
    else if d == 5 { '5' } else if d == 6 { '6' } else if d == 7 { '7' } else if d == 8 { '8' } else { '9' }
}

/// The decimal writing of `n`, without leading zeros.
pub open spec fn decimal(n: nat) -> Seq<char>
    decreases n,
{
    if n < 10 {
        seq![digit(n)]
    } else {
        decimal(n / 10).push(digit(n % 10))
    }
}

/// The writing of a decimal digit.
fn digit_str(d: u32) -> (r: &'static str)
    requires
        d < 10,
    ensures
        r@ == seq![digit(d as nat)],
{
    match d {
        0 => {
            proof {
                reveal_strlit("0");
            }
            "0"
        },
        1 => {
            proof {
                reveal_strlit("1");
            }
            "1"
        },
        2 => {
            proof {
                reveal_strlit("2");
            }
            "2"
        },
        3 => {
            proof {
                reveal_strlit("3");
            }
            "3"
        },
        4 => {
            proof {
                reveal_strlit("4");
            }
            "4"
        },
        5 => {
            proof {
                reveal_strlit("5");
            }
            "5"
        },
        6 => {
            proof {
                reveal_strlit("6");
            }
            "6"
        },
        7 => {
            proof {
                reveal_strlit("7");
            }
            "7"
        },
        8 => {
            proof {
                reveal_strlit("8");
            }
            "8"
        },
        _ => {
            proof {
                reveal_strlit("9");
            }
            "9"
        },
    }
}

/// Appends the decimal writing of `n` to `s`.
pub fn push_decimal(s: &mut String, n: u32)
    ensures
        final(s)@ == old(s)@ + decimal(n as nat),
    decreases n,
{
    if n >= 10 {
        push_decimal(s, n / 10);
    }
    s.append(digit_str(n % 10));
    proof {
        assert(final(s)@ =~= old(s)@ + decimal(n as nat));
    }
}

/// The name of a building as the game writes it.
pub open spec fn block_name(t: BlockType) -> Seq<char> {
    match t {
        BlockType::AvantPost => "AvantPost"@,
        BlockType::Caserne => "Caserne"@,
        BlockType::Castle => "Castle"@,
        BlockType::Farm => "Farm"@,
        BlockType::Grass => "Grass"@,
        BlockType::GrassForest => "GrassForest"@,
        BlockType::GrassHill => "GrassHill"@,
        BlockType::Mine => "Mine"@,
        BlockType::Tower => "Tower"@,
        BlockType::Upgradeur => "Upgradeur"@,
        BlockType::Wall => "Wall"@,
        BlockType::Sheep => "Sheep"@,
    }
}

/// The name of a building as the game writes it.
pub fn nom_bloc(t: BlockType) -> (r: &'static str)
    ensures
        r@ == block_name(t),
{
    match t {
        BlockType::AvantPost => "AvantPost",
        BlockType::Caserne => "Caserne",
        BlockType::Castle => "Castle",
        BlockType::Farm => "Farm",
        BlockType::Grass => "Grass",
        BlockType::GrassForest => "GrassForest",
        BlockType::GrassHill => "GrassHill",
        BlockType::Mine => "Mine",
        BlockType::Tower => "Tower",
        BlockType::Upgradeur => "Upgradeur",
        BlockType::Wall => "Wall",
        BlockType::Sheep => "Sheep",
    }
}

/// What the information panel says of a tile's kind.
pub open spec fn block_description(t: BlockType) -> Seq<char> {
    match t {
        BlockType::Caserne => "a barracks, it allows you to create troops"@,
        BlockType::Castle => "a castle, it's your base and you must defend it at all costs"@,
        BlockType::Grass => "a block of grass, it's useless"@,
        BlockType::GrassForest => "a forest, if you break it you can collect resources"@,
        BlockType::GrassHill => "a mountain, if you break it you can collect resources"@,
        BlockType::Mine => "a mine, it allows you to collect resources"@,
        BlockType::Farm => "a farm, it allows you to collect resources"@,
        BlockType::AvantPost => "an outpost, it allows you to teleport your troops"@,
        BlockType::Tower => "a defense tower, it allows you to defend your troops"@,
        BlockType::Upgradeur => "an upgrader"@,
        BlockType::Wall => "a wall"@,
        BlockType::Sheep => "a food reseve wich permit create an army"@,
    }
}

/// What the information panel says of a tile's owner, for the viewer `id`.
pub open spec fn owner_description(o: BlockApartenance, id: PacketIdentification) -> Seq<char> {
    match o {
        BlockApartenance::Neutre => "it doesn't belong to anyone"@,
        BlockApartenance::Joueur1 => match id {
            PacketIdentification::Joueur1 => "it belongs to you"@,
            PacketIdentification::Joueur2 => "it belongs to your enemy"@,
            PacketIdentification::Spectateur => "it belongs to Joueur 1"@,
        },
        BlockApartenance::Joueur2 => match id {
            PacketIdentification::Joueur1 => "it belongs to your enemy"@,
            PacketIdentification::Joueur2 => "it belongs to you"@,
            PacketIdentification::Spectateur => "it belongs to Joueur 2"@,
        },
    }
}

/// The picture of a tile's kind.
pub open spec fn block_picture(t: BlockType) -> Seq<char> {
    match t {
        BlockType::Grass => "map/Grass.png"@,
        BlockType::GrassForest => "map/GrassForest.png"@,
        BlockType::Castle => "map/Castle.png"@,
        BlockType::Farm => "map/Farm.png"@,
        BlockType::Mine => "map/Mine.png"@,
        BlockType::Tower => "map/Tower.png"@,
        BlockType::Wall => "map/Wall.png"@,
        BlockType::GrassHill => "map/GrassHill.png"@,
        BlockType::AvantPost => "map/AvantPost.png"@,
        BlockType::Caserne => "map/Caserne.png"@,
        BlockType::Upgradeur => "map/Upgradeur.png"@,
        BlockType::Sheep => "map/Sheep.png"@,
    }
}

impl BlockType {
    /// What the information panel says of this kind of tile.
    pub fn get_text(&self) -> (r: &'static str)
        ensures
            r@ == block_description(*self),
    {
        match self {
            BlockType::Caserne => "a barracks, it allows you to create troops",
            BlockType::Castle => "a castle, it's your base and you must defend it at all costs",
            BlockType::Grass => "a block of grass, it's useless",
            BlockType::GrassForest => "a forest, if you break it you can collect resources",
            BlockType::GrassHill => "a mountain, if you break it you can collect resources",
            BlockType::Mine => "a mine, it allows you to collect resources",
            BlockType::Farm => "a farm, it allows you to collect resources",
            BlockType::AvantPost => "an outpost, it allows you to teleport your troops",
            BlockType::Tower => "a defense tower, it allows you to defend your troops",
            BlockType::Upgradeur => "an upgrader",
            BlockType::Wall => "a wall",
            BlockType::Sheep => "a food reseve wich permit create an army",
        }
    }

    /// The path of the picture of this kind of tile.
    pub fn get_draw(&self) -> (r: &'static str)
        ensures
            r@ == block_picture(*self),
    {
        match self {
            BlockType::Grass => "map/Grass.png",
            BlockType::GrassForest => "map/GrassForest.png",
            BlockType::Castle => "map/Castle.png",
            BlockType::Farm => "map/Farm.png",
            BlockType::Mine => "map/Mine.png",
            BlockType::Tower => "map/Tower.png",
            BlockType::Wall => "map/Wall.png",
            BlockType::GrassHill => "map/GrassHill.png",
            BlockType::AvantPost => "map/AvantPost.png",
            BlockType::Caserne => "map/Caserne.png",
            BlockType::Upgradeur => "map/Upgradeur.png",
            BlockType::Sheep => "map/Sheep.png",
        }
    }

    /// The build menu's label of a building: its name, then its price in
    /// wood and in stone.
    pub fn get_text_with_typeb(&self) -> (r: String)
        requires
            has_price(*self),
        ensures
            r@ == block_name(*self) + "\n\n"@ + decimal(price_of(*self).unwrap().1 as nat) + " Wood,\n"@
                + decimal(price_of(*self).unwrap().0 as nat) + " Stone"@,
    {
        let price = self.get_price();
        let mut s = String::new();
        s.append(nom_bloc(*self));
        s.append("\n\n");
        push_decimal(&mut s, price[1]);
        s.append(" Wood,\n");
        push_decimal(&mut s, price[0]);
        s.append(" Stone");
        s
    }
}

impl BlockApartenance {
    /// What the information panel says of this owner, for the viewer `identity`.
    pub fn get_text(&self, identity: &PacketIdentification) -> (r: &'static str)
        ensures
            r@ == owner_description(*self, *identity),
    {
        match identity {
            PacketIdentification::Joueur1 => match self {
                BlockApartenance::Neutre => "it doesn't belong to anyone",
                BlockApartenance::Joueur1 => "it belongs to you",
                BlockApartenance::Joueur2 => "it belongs to your enemy",
            },
            PacketIdentification::Joueur2 => match self {
                BlockApartenance::Neutre => "it doesn't belong to anyone",
                BlockApartenance::Joueur1 => "it belongs to your enemy",
                BlockApartenance::Joueur2 => "it belongs to you",
            },
            PacketIdentification::Spectateur => match self {
                BlockApartenance::Neutre => "it doesn't belong to anyone",
                BlockApartenance::Joueur1 => "it belongs to Joueur 1",
                BlockApartenance::Joueur2 => "it belongs to Joueur 2",
            },
        }
    }
}

/// The panel's sentence about a selected tile.
pub fn texte_case(kind: BlockType, owner: BlockApartenance, identity: PacketIdentification) -> (r: String)
    ensures
        r@ == "This case is "@ + block_description(kind) + ", "@ + owner_description(owner, identity),
{
    let mut s = String::new();
    s.append("This case is ");
    s.append(kind.get_text());
    s.append(", ");
    s.append(owner.get_text(&identity));
    s
}

/// The line that shows the player's resources.
pub fn texte_ressources(moula: Moula) -> (r: String)
    ensures
        r@ == decimal(moula.wood as nat) + " wood    "@ + decimal(moula.stone as nat) + " stone    "@
            + decimal(moula.food as nat) + " food"@,
{
    let mut s = String::new();
    push_decimal(&mut s, moula.wood);
    s.append(" wood    ");
    push_decimal(&mut s, moula.stone);
    s.append(" stone    ");
    push_decimal(&mut s, moula.food);
    s.append(" food");
    s
}

/// The name of a race as the game writes it.
pub open spec fn race_name(r: Race) -> Seq<char> {
    match r {
        Race::Chauve => "Chauve"@,
        Race::Arabe => "Arabe"@,
        Race::Noir => "Noir"@,
        Race::Chevalier => "Chevalier"@,
        Race::Chinoi => "Chinoi"@,
        Race::Voleur => "Voleur"@,
    }
}

/// The line that shows the player's race.
pub fn texte_race(race: Race) -> (r: String)
    ensures
        r@ == "Your Race is "@ + race_name(race),
{
    let mut s = String::new();
    s.append("Your Race is ");
    let name = match race {
        Race::Chauve => "Chauve",
        Race::Arabe => "Arabe",
        Race::Noir => "Noir",
        Race::Chevalier => "Chevalier",
        Race::Chinoi => "Chinoi",
        Race::Voleur => "Voleur",
    };
    s.append(name);
    s
}

/// The prefix of a race's troop pictures.
pub open spec fn race_picture(r: Race) -> Seq<char> {
    match r {
        Race::Chauve => "chauve"@,
        Race::Arabe => "arabe"@,
        Race::Noir => "noir"@,
        Race::Chevalier => "ch"@,
        Race::Chinoi => "chinois"@,
        Race::Voleur => "voleur"@,
    }
}

/// The digit of a troop level in the names of pictures.
pub open spec fn level_digit(n: NiveauTroup) -> Seq<char> {
    match n {
        NiveauTroup::Niveau1 => "1"@,
        NiveauTroup::Niveau2 => "2"@,
        NiveauTroup::Niveau3 => "3"@,
    }
}

impl Troup {
    /// The path of this troop's picture.
    pub fn get_image(&self) -> (r: String)
        ensures
            r@ == "perso/"@ + race_picture(self.race) + level_digit(self.niveau) + ".png"@,
    {
        let race = match self.race {
            Race::Chauve => "chauve",
            Race::Arabe => "arabe",
            Race::Noir => "noir",
            Race::Chevalier => "ch",
            Race::Chinoi => "chinois",
            Race::Voleur => "voleur",
        };
        let niv = match self.niveau {
            NiveauTroup::Niveau1 => "1",
            NiveauTroup::Niveau2 => "2",
            NiveauTroup::Niveau3 => "3",
        };
        let mut s = String::new();
        s.append("perso/");
        s.append(race);
        s.append(niv);
        s.append(".png");
        s
    }

    /// The training menu's description of this troop.
    pub fn get_text(&self) -> (r: String)
        ensures
            r@ == "Force : "@ + decimal(attack_of(*self) as nat) + "\nHp : "@ + decimal(hp_of(*self) as nat)
                + "\nShield : "@ + decimal(shield_of(*self) as nat) + "\nVitesse : "@ + decimal(speed_of(*self) as nat)
                + "\nRange : "@ + decimal(range_of(*self) as nat) + "\nPrice : "@ + decimal(troup_price_of(self.niveau) as nat),
    {
        let mut s = String::new();
        s.append("Force : ");
        push_decimal(&mut s, self.get_attaque() as u32);
        s.append("\nHp : ");
        push_decimal(&mut s, self.get_hp() as u32);
        s.append("\nShield : ");
        push_decimal(&mut s, self.get_sheild() as u32);
        s.append("\nVitesse : ");
        push_decimal(&mut s, self.get_vitesse() as u32);
        s.append("\nRange : ");
        push_decimal(&mut s, self.get_range() as u32);
        s.append("\nPrice : ");
        push_decimal(&mut s, self.get_price());
        s
    }
}

/// The bar that frames the selected tile.
pub struct SelectBar {}

impl SelectBar {
    /// The path of the bar's picture.
    pub fn get_draw(&self) -> (r: &'static str)
        ensures
            r@ == "map/Select.png"@,
    {
        "map/Select.png"
    }
}

} // verus!
