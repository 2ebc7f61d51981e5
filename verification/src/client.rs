//! The client's side of a game: what a key press does to the screen's
//! state and which requests it sends to the server.

use vstd::prelude::*;
use crate::model::{
    BlockApartenance, BlockPosition, BlockType, DestroyEvent, Moula, PacketIdentification, Race,
    CombatEvent, ConqueteEvent, DeplacementEvent, EventBuild, empty_tile, speed_of, range_of, NiveauTroup, TroupApartenance, troup_owner_of, RecoltEvent, Tour, TrainEvent, Troup, can_train, no_position, troup_price_of, block_owner_of, breakable, enemy_of, is_player, price_of, can_build,
};
use crate::board::{Block, TroupUnit, troup_tile};
use crate::hexgrid::{cases_adjacentes_rayon, contient, coords_fit, coords_fit_exec, zone_fits, zone_fits_exec, distinct, est_adjacente, in_zone, neighbour, pair_fits};
use crate::server::{count_owned, engaged, in_reach, occupe, occupied, with_income, lemma_engaged_are_those_in_range};
use crate::text::{block_description, owner_description, texte_case};

verus! {

/// A tile as the client sees it; `entity` names it for the display.
#[derive(Clone, Copy, Debug, PartialEq, Eq, Structural)]
pub struct Tuile {
    pub entity: u64,
    pub pos: BlockPosition,
    pub kind: BlockType,
    pub owner: BlockApartenance,
}

/// The tile that the player has selected.
#[derive(Clone, Copy, Debug, PartialEq, Eq, Structural)]
pub struct SelectedCase {
    pub blockpos: BlockPosition,
    pub entity: u64,
}

/// The tiles that touch the selected one.
#[derive(Clone, Debug)]
pub struct CaseAdjacente {
    pub entities: Vec<u64>,
}

/// What the player is doing.
#[derive(Clone, Debug)]
pub enum Etat {
    Idle,
    Building,
    Train,
    Move { adjacentes: Vec<BlockPosition>, pos_d: BlockPosition },
}

/// What the information panel shows.
#[derive(Clone, Debug)]
pub enum DataPrint {
    Rien,
    Text { text: String },
    AllBlock,
    Train,
}

/// The keys that the game reads.
#[derive(Clone, Copy, Debug, PartialEq, Eq, Structural)]
pub enum Touche {
    A,
    B,
    C,
    D,
    E,
    N,
    R,
    V,
    W,
    X,
    Z,
    Key1,
    Key2,
    Key3,
    Key7,
    Key8,
    Autre,
}

/// The state of a client.
pub struct Vue {
    pub identity: Option<PacketIdentification>,
    pub race: Option<Race>,
    pub tour: Option<Tour>,
    pub moula: Moula,
    pub etat: Etat,
    pub data_print: DataPrint,
    pub selected: Option<SelectedCase>,
    pub tuiles: Vec<Tuile>,
    pub troups: Vec<TroupUnit>,
}

/// No two tiles share a position.
pub open spec fn distinct_tiles(ts: Seq<Tuile>) -> bool {
    forall|i: int, j: int| 0 <= i < ts.len() && 0 <= j < ts.len() && i != j ==> ts[i].pos != ts[j].pos
}

impl Vue {
    /// The client's invariant: the turn, when known, belongs to a player,
    /// and tiles have distinct positions and distinct entities.
    pub open spec fn wf(&self) -> bool {
        &&& self.tour matches Some(t) ==> is_player(t.current_player)
        &&& distinct_tiles(self.tuiles@)
        &&& distinct_entities(self.tuiles@)
    }
}

/// No two tiles share an entity.
pub open spec fn distinct_entities(ts: Seq<Tuile>) -> bool {
    forall|i: int, j: int| 0 <= i < ts.len() && 0 <= j < ts.len() && i != j ==> ts[i].entity != ts[j].entity
}

/// The index of the tile of entity `e`, if there is one.
pub open spec fn tile_of_entity(ts: Seq<Tuile>, e: u64) -> Option<int> {
    if exists|i: int| 0 <= i < ts.len() && ts[i].entity == e {
        Some(choose|i: int| 0 <= i < ts.len() && ts[i].entity == e)
    } else {
        None
    }
}

/// The index of the tile at `p`, if there is one.
pub open spec fn tile_at(ts: Seq<Tuile>, p: BlockPosition) -> Option<int> {
    if exists|i: int| 0 <= i < ts.len() && ts[i].pos == p {
        Some(choose|i: int| 0 <= i < ts.len() && ts[i].pos == p)
    } else {
        None
    }
}

/// The panel shows the message `m`.
pub open spec fn shows(d: DataPrint, m: Seq<char>) -> bool {
    d matches DataPrint::Text { text } && text@ == m
}

/// Everything but the panel and the activity is left as it was.
pub open spec fn same_game(v0: Vue, v1: Vue) -> bool {
    &&& v1.identity == v0.identity
    &&& v1.race == v0.race
    &&& v1.tour == v0.tour
    &&& v1.moula == v0.moula
    &&& v1.selected == v0.selected
    &&& v1.tuiles@ == v0.tuiles@
    &&& v1.troups@ == v0.troups@
}

/// The panel's message when a key needs a selected tile.
pub open spec fn msg_select() -> Seq<char> {
    "You must select a case"@
}

/// The panel's message when the selected tile is already built on.
pub open spec fn msg_occupied() -> Seq<char> {
    "There is already somethings here !"@
}

/// The panel's message when the selected tile is not the player's.
pub open spec fn msg_not_yours() -> Seq<char> {
    "This case is not your "@
}

/// The panel's message when it is the other player's turn.
pub open spec fn msg_turn() -> Seq<char> {
    "It's not your turn ! Wait for your oppenent"@
}

/// The panel's message when the resources do not pay.
pub open spec fn msg_materials() -> Seq<char> {
    "You haven't all materials needed"@
}

/// The panel's message when what stands on the tile cannot be destroyed.
pub open spec fn msg_unbreakable() -> Seq<char> {
    "You can't destroy this case"@
}

/// The panel's message when a demolition is asked on another's tile.
pub open spec fn msg_not_belong() -> Seq<char> {
    "You can't destroy cases if they aren't belong to you"@
}

/// The panel's message that a demolition leaves for the other tiles.
pub open spec fn msg_no_selection() -> Seq<char> {
    "Any case are selected"@
}

/// The panel's message when the selected tile has no use.
pub open spec fn msg_cant_use() -> Seq<char> {
    "this block can't be used"@
}

/// The panel's message when no tile is free for a new troop.
pub open spec fn msg_no_place() -> Seq<char> {
    "There aren't place to train troup"@
}

/// The panel's message when no troop of the player's reaches the tile.
pub open spec fn msg_no_troups() -> Seq<char> {
    "You don't have troups next to the case !"@
}

/// The panel's message when the tile to take is already the player's.
pub open spec fn msg_already_yours() -> Seq<char> {
    "This case is already belong to you"@
}

/// The panel's message when no tile of the player's touches the target.
pub open spec fn msg_too_far() -> Seq<char> {
    "You are too far from your territory"@
}

/// The panel's message while a move waits for its destination.
pub open spec fn msg_where() -> Seq<char> {
    "Where your soldiers will go ?"@
}

/// The panel's message when the destination lies outside the move's zone.
pub open spec fn msg_cant_go() -> Seq<char> {
    " You can't go here "@
}

/// The panel showing `s`.
fn texte(s: &str) -> (r: DataPrint)
    ensures
        shows(r, s@),
{
    DataPrint::Text { text: s.to_owned() }
}

/// The index of the tile at `p`.
pub fn find_tile(tuiles: &Vec<Tuile>, p: BlockPosition) -> (r: Option<usize>)
    requires
        distinct_tiles(tuiles@),
    ensures
        r is None <==> tile_at(tuiles@, p) is None,
        r matches Some(j) ==> j < tuiles@.len() && tile_at(tuiles@, p) == Some(j as int),
{
    let mut i: usize = 0;
    while i < tuiles.len()
        invariant
            i <= tuiles@.len(),
            distinct_tiles(tuiles@),
            forall|k: int| 0 <= k < i ==> tuiles@[k].pos != p,
        decreases tuiles@.len() - i,
    {
        if tuiles[i].pos == p {
            proof {
                assert(tuiles@[i as int].pos == p);
                let c = choose|k: int| 0 <= k < tuiles@.len() && tuiles@[k].pos == p;
                if c != i {
                    assert(tuiles@[c].pos != tuiles@[i as int].pos);
                }
            }
            return Some(i);
        }
        i = i + 1;
    }
    None
}

/// Whether key A on this state runs without failing: a spectator cannot
/// ask to build on a tile.
pub open spec fn build_defined(v: Vue, a: bool) -> bool {
    (v.identity is Some && a && v.selected is Some && tile_at(v.tuiles@, v.selected.unwrap().blockpos) is Some)
        ==> is_player(v.identity.unwrap())
}

/// Whether key A runs without failing on this state (see `build_defined`).
pub fn build_possible(vue: &Vue, a_pressed: bool) -> (r: bool)
    requires
        vue.wf(),
    ensures
        r == build_defined(*vue, a_pressed),
{
    match (vue.identity, vue.selected) {
        (Some(id), Some(sel)) if a_pressed => {
            find_tile(&vue.tuiles, sel.blockpos).is_none() || id != PacketIdentification::Spectateur
        },
        _ => true,
    }
}

/// Key A opens the build menu on a grass tile of the player's; otherwise
/// the panel says why not.
pub fn build(vue: &mut Vue, a_pressed: bool)
    requires
        old(vue).wf(),
        build_defined(*old(vue), a_pressed),
    ensures
        final(vue).wf(),
        same_game(*old(vue), *final(vue)),
        if old(vue).identity is Some && a_pressed {
            match old(vue).selected {
                None => final(vue).etat == old(vue).etat && shows(final(vue).data_print, msg_select()),
                Some(sel) => match tile_at(old(vue).tuiles@, sel.blockpos) {
                    None => final(vue).etat == old(vue).etat && final(vue).data_print == old(vue).data_print,
                    Some(j) => {
                        let t = old(vue).tuiles@[j];
                        if block_owner_of(old(vue).identity.unwrap()) != t.owner {
                            final(vue).etat == old(vue).etat && shows(final(vue).data_print, msg_not_yours())
                        } else if t.kind == BlockType::Grass {
                            final(vue).etat is Building && final(vue).data_print == old(vue).data_print
                        } else {
                            final(vue).etat == old(vue).etat && shows(final(vue).data_print, msg_occupied())
                        }
                    },
                },
            }
        } else {
            final(vue).etat == old(vue).etat && final(vue).data_print == old(vue).data_print
        },
{
    if let Some(identity) = vue.identity {
        if a_pressed {
            if let Some(selected) = vue.selected {
                if let Some(j) = find_tile(&vue.tuiles, selected.blockpos) {
                    let t = vue.tuiles[j];
                    if identity.get_block_apartenance() == t.owner {
                        if t.kind == BlockType::Grass {
                            vue.etat = Etat::Building;
                        } else {
                            vue.data_print = texte("There is already somethings here !");
                        }
                    } else {
                        vue.data_print = texte("This case is not your ");
                    }
                }
            } else {
                vue.data_print = texte("You must select a case");
            }
        }
    }
}

/// The last message that key D writes while going over the tiles `ts`
/// (the selected tile being at `sel`): a tile at another position says that
/// no tile is selected, the selected tile says why it cannot be destroyed.
pub open spec fn destroy_message(ts: Seq<Tuile>, sel: BlockPosition, me: BlockApartenance) -> Option<Seq<char>>
    decreases ts.len(),
{
    if ts.len() == 0 {
        None
    } else {
        let t = ts.last();
        if t.pos != sel {
            Some(msg_no_selection())
        } else if t.owner != me {
            Some(msg_not_belong())
        } else if !breakable(t.kind) {
            Some(msg_unbreakable())
        } else {
            destroy_message(ts.drop_last(), sel, me)
        }
    }
}

/// The panel shows the message `m`, or is left as it was when there is none.
pub open spec fn panel_after(d0: DataPrint, d1: DataPrint, m: Option<Seq<char>>) -> bool {
    match m {
        Some(text) => shows(d1, text),
        None => d1 == d0,
    }
}

/// Whether the tile at `sel` may be destroyed by `me`.
pub open spec fn destroyable(ts: Seq<Tuile>, sel: BlockPosition, me: BlockApartenance) -> bool {
    exists|j: int| 0 <= j < ts.len() && #[trigger] ts[j].pos == sel && ts[j].owner == me && breakable(ts[j].kind)
}

/// Key D asks the server to clear the selected tile if it is the player's
/// and may be destroyed; otherwise the panel says why not.
pub fn destroy(vue: &mut Vue, d_pressed: bool) -> (r: Option<DestroyEvent>)
    requires
        old(vue).wf(),
    ensures
        final(vue).wf(),
        same_game(*old(vue), *final(vue)),
        final(vue).etat == old(vue).etat,
        if old(vue).identity is Some && old(vue).tour is Some && d_pressed && old(vue).selected is Some {
            let sel = old(vue).selected.unwrap().blockpos;
            if old(vue).tour.unwrap().current_player == old(vue).identity.unwrap() {
                let me = block_owner_of(old(vue).identity.unwrap());
                &&& panel_after(old(vue).data_print, final(vue).data_print, destroy_message(old(vue).tuiles@, sel, me))
                &&& if destroyable(old(vue).tuiles@, sel, me) { r == Some(DestroyEvent { pos: sel }) } else { r is None }
            } else {
                shows(final(vue).data_print, msg_turn()) && r is None
            }
        } else {
            final(vue).data_print == old(vue).data_print && r is None
        },
{
    let mut r: Option<DestroyEvent> = None;
    if let (Some(identity), Some(tour), Some(selected)) = (vue.identity, vue.tour, vue.selected) {
        if d_pressed {
            if tour.current_player == identity {
                let me = identity.get_block_apartenance();
                let sel = selected.blockpos;
                let ghost ts = vue.tuiles@;
                let ghost d0 = vue.data_print;
                let mut k: usize = 0;
                while k < vue.tuiles.len()
                    invariant
                        k <= ts.len(),
                        ts == vue.tuiles@,
                        same_game(*old(vue), *vue),
                        vue.etat == old(vue).etat,
                        d0 == old(vue).data_print,
                        panel_after(d0, vue.data_print, destroy_message(ts.take(k as int), sel, me)),
                        if destroyable(ts.take(k as int), sel, me) { r == Some(DestroyEvent { pos: sel }) } else { r is None },
                    decreases ts.len() - k,
                {
                    let t = vue.tuiles[k];
                    proof {
                        assert(ts.take(k + 1).drop_last() == ts.take(k as int));
                        assert(ts.take(k + 1).last() == t);
                        assert(ts.take(k + 1)[k as int] == t);
                        assert forall|j: int| 0 <= j < k implies ts.take(k + 1)[j] == ts.take(k as int)[j] by {}
                    }
                    if t.pos == sel {
                        if me == t.owner {
                            if t.kind.is_breakable() {
                                r = Some(DestroyEvent { pos: sel });
                            } else {
                                vue.data_print = texte("You can't destroy this case");
                            }
                        } else {
                            vue.data_print = texte("You can't destroy cases if they aren't belong to you");
                        }
                    } else {
                        vue.data_print = texte("Any case are selected");
                    }
                    proof {
                        if destroyable(ts.take(k + 1), sel, me) && !destroyable(ts.take(k as int), sel, me) {
                            let j = choose|j: int| 0 <= j < k + 1 && #[trigger] ts.take(k + 1)[j].pos == sel
                                && ts.take(k + 1)[j].owner == me && breakable(ts.take(k + 1)[j].kind);
                            if j < k {
                                assert(ts.take(k as int)[j] == ts.take(k + 1)[j]);
                            }
                        }
                        if destroyable(ts.take(k as int), sel, me) {
                            let j = choose|j: int| 0 <= j < k && #[trigger] ts.take(k as int)[j].pos == sel
                                && ts.take(k as int)[j].owner == me && breakable(ts.take(k as int)[j].kind);
                            assert(ts.take(k + 1)[j] == ts.take(k as int)[j]);
                        }
                    }
                    k = k + 1;
                }
                proof {
                    assert(ts.take(k as int) == ts);
                }
            } else {
                vue.data_print = texte("It's not your turn ! Wait for your oppenent");
            }
        }
    }
    r
}

/// Whether key R on this state runs without failing: the turn must be
/// known, and a harvest must keep the resources within their range.
pub open spec fn used_defined(v: Vue, r: bool) -> bool {
    (v.identity is Some && r && v.selected is Some) ==> {
        &&& v.tour is Some
        &&& (v.tour.unwrap().current_player == v.identity.unwrap() && tile_at(v.tuiles@, v.selected.unwrap().blockpos) is Some) ==> {
            let t = v.tuiles@[tile_at(v.tuiles@, v.selected.unwrap().blockpos).unwrap()];
            &&& (t.kind == BlockType::GrassForest ==> v.moula.wood + 500 <= u32::MAX)
            &&& (t.kind == BlockType::GrassHill ==> v.moula.stone + 500 <= u32::MAX)
        }
    }
}

/// Whether key R runs without failing on this state (see `used_defined`).
pub fn used_possible(vue: &Vue, r_pressed: bool) -> (r: bool)
    requires
        vue.wf(),
    ensures
        r == used_defined(*vue, r_pressed),
{
    let (id, sel) = match (vue.identity, vue.selected) {
        (Some(id), Some(sel)) if r_pressed => (id, sel),
        _ => return true,
    };
    let tour = match vue.tour {
        Some(t) => t,
        None => return false,
    };
    if tour.current_player != id {
        return true;
    }
    match find_tile(&vue.tuiles, sel.blockpos) {
        None => true,
        Some(j) => match vue.tuiles[j].kind {
            BlockType::GrassForest => vue.moula.wood <= 0xffff_ffff - 500,
            BlockType::GrassHill => vue.moula.stone <= 0xffff_ffff - 500,
            _ => true,
        },
    }
}

/// Key R uses the selected tile of the player's: a barracks opens the
/// training menu, a forest or a hill is harvested (500 wood or stone, a
/// request to the server, the turn passes); anything else cannot be used.
pub fn used(vue: &mut Vue, r_pressed: bool) -> (r: Option<RecoltEvent>)
    requires
        old(vue).wf(),
        used_defined(*old(vue), r_pressed),
    ensures
        final(vue).wf(),
        final(vue).identity == old(vue).identity,
        final(vue).race == old(vue).race,
        final(vue).selected == old(vue).selected,
        final(vue).tuiles@ == old(vue).tuiles@,
        final(vue).troups@ == old(vue).troups@,
        if old(vue).identity is Some && r_pressed && old(vue).selected is Some {
            let sel = old(vue).selected.unwrap().blockpos;
            let id = old(vue).identity.unwrap();
            if old(vue).tour.unwrap().current_player != id {
                &&& shows(final(vue).data_print, msg_select())
                &&& final(vue).etat == old(vue).etat && final(vue).moula == old(vue).moula
                &&& final(vue).tour == old(vue).tour && r is None
            } else {
                match tile_at(old(vue).tuiles@, sel) {
                    Some(j) if old(vue).tuiles@[j].owner == block_owner_of(id) => {
                        let kind = old(vue).tuiles@[j].kind;
                        if kind == BlockType::Caserne {
                            &&& final(vue).etat is Train && final(vue).data_print is Train
                            &&& final(vue).moula == old(vue).moula && final(vue).tour == old(vue).tour && r is None
                        } else if kind == BlockType::GrassForest || kind == BlockType::GrassHill {
                            &&& final(vue).etat == old(vue).etat && final(vue).data_print == old(vue).data_print
                            &&& final(vue).moula == (if kind == BlockType::GrassForest {
                                Moula { wood: (old(vue).moula.wood + 500) as u32, ..old(vue).moula }
                            } else {
                                Moula { stone: (old(vue).moula.stone + 500) as u32, ..old(vue).moula }
                            })
                            &&& final(vue).tour == Some(Tour { current_player: enemy_of(id) })
                            &&& r == Some(RecoltEvent { pos: sel })
                        } else {
                            &&& shows(final(vue).data_print, msg_cant_use())
                            &&& final(vue).etat == old(vue).etat && final(vue).moula == old(vue).moula
                            &&& final(vue).tour == old(vue).tour && r is None
                        }
                    },
                    _ => {
                        &&& final(vue).etat == old(vue).etat && final(vue).data_print == old(vue).data_print
                        &&& final(vue).moula == old(vue).moula && final(vue).tour == old(vue).tour && r is None
                    },
                }
            }
        } else {
            &&& final(vue).etat == old(vue).etat && final(vue).data_print == old(vue).data_print
            &&& final(vue).moula == old(vue).moula && final(vue).tour == old(vue).tour && r is None
        },
{
    let mut r: Option<RecoltEvent> = None;
    if let (Some(identity), Some(selected)) = (vue.identity, vue.selected) {
        if r_pressed {
            let mut tour = vue.tour.unwrap();
            if tour.current_player == identity {
                if let Some(j) = find_tile(&vue.tuiles, selected.blockpos) {
                    let t = vue.tuiles[j];
                    if t.owner == identity.get_block_apartenance() {
                        match t.kind {
                            BlockType::Caserne => {
                                vue.etat = Etat::Train;
                                vue.data_print = DataPrint::Train;
                            },
                            BlockType::GrassForest => {
                                vue.moula.wood = vue.moula.wood + 500;
                                r = Some(RecoltEvent { pos: selected.blockpos });
                                tour.change_tour();
                                vue.tour = Some(tour);
                            },
                            BlockType::GrassHill => {
                                vue.moula.stone = vue.moula.stone + 500;
                                r = Some(RecoltEvent { pos: selected.blockpos });
                                tour.change_tour();
                                vue.tour = Some(tour);
                            },
                            _ => {
                                vue.data_print = texte("this block can't be used");
                            },
                        }
                    }
                }
            } else {
                vue.data_print = texte("You must select a case");
            }
        }
    }
    r
}

/// The building that a key selects in the build menu.
pub open spec fn building_for_key(k: Touche) -> Option<BlockType> {
    match k {
        Touche::W => Some(BlockType::Caserne),
        Touche::X => Some(BlockType::AvantPost),
        Touche::C => Some(BlockType::Mine),
        Touche::V => Some(BlockType::Farm),
        Touche::B => Some(BlockType::Tower),
        Touche::Key8 => Some(BlockType::Upgradeur),
        Touche::Key7 => Some(BlockType::Wall),
        Touche::N => Some(BlockType::Sheep),
        _ => None,
    }
}

/// The building that a key selects in the build menu.
pub fn bloc_touche(k: Touche) -> (r: Option<BlockType>)
    ensures
        r == building_for_key(k),
{
    match k {
        Touche::W => Some(BlockType::Caserne),
        Touche::X => Some(BlockType::AvantPost),
        Touche::C => Some(BlockType::Mine),
        Touche::V => Some(BlockType::Farm),
        Touche::B => Some(BlockType::Tower),
        Touche::Key8 => Some(BlockType::Upgradeur),
        Touche::Key7 => Some(BlockType::Wall),
        Touche::N => Some(BlockType::Sheep),
        _ => None,
    }
}

/// What a menu does to the information panel.
pub enum Panneau {
    Garde,
    Rien,
    Tous,
    Message(Seq<char>),
}

/// The panel after the menu has done `p` to it.
pub open spec fn panel_is(d0: DataPrint, d1: DataPrint, p: Panneau) -> bool {
    match p {
        Panneau::Garde => d1 == d0,
        Panneau::Rien => d1 is Rien,
        Panneau::Tous => d1 is AllBlock,
        Panneau::Message(m) => shows(d1, m),
    }
}

/// Where the build menu stands after some keys: the resources, the turn,
/// the panel, whether the menu has closed, and the buildings asked for.
pub struct EtapeConstruction {
    pub moula: Moula,
    pub tour: Tour,
    pub panel: Panneau,
    pub closed: bool,
    pub sent: Seq<BlockType>,
}

/// The build menu after one more key (`sel` is the selected tile): a
/// building key on a selected tile asks for the building if the resources
/// pay for it (they are spent and the turn passes) and closes the menu; any
/// other key but A closes the menu.
pub open spec fn build_step(s: EtapeConstruction, k: Touche, sel: Option<SelectedCase>) -> EtapeConstruction {
    if k == Touche::A {
        s
    } else {
        match building_for_key(k) {
            Some(bt) => match sel {
                None => s,
                Some(_) => {
                    let price = price_of(bt).unwrap();
                    if s.moula.stone >= price.0 && s.moula.wood >= price.1 {
                        EtapeConstruction {
                            moula: Moula { stone: (s.moula.stone - price.0) as u32, wood: (s.moula.wood - price.1) as u32, food: s.moula.food },
                            tour: Tour { current_player: enemy_of(s.tour.current_player) },
                            panel: Panneau::Rien,
                            closed: true,
                            sent: s.sent.push(bt),
                        }
                    } else {
                        EtapeConstruction { panel: Panneau::Message(msg_materials()), closed: true, ..s }
                    }
                },
            },
            None => EtapeConstruction { panel: Panneau::Rien, closed: true, ..s },
        }
    }
}

/// The build menu after the keys `keys`, in order.
pub open spec fn build_fold(s: EtapeConstruction, keys: Seq<Touche>, sel: Option<SelectedCase>) -> EtapeConstruction
    decreases keys.len(),
{
    if keys.len() == 0 {
        s
    } else {
        build_step(build_fold(s, keys.drop_last(), sel), keys.last(), sel)
    }
}

/// The requests for the buildings `bts` on the tile `pos`.
pub open spec fn build_requests(bts: Seq<BlockType>, who: PacketIdentification, pos: BlockPosition) -> Seq<EventBuild> {
    bts.map_values(|bt: BlockType| EventBuild { who_are_u: who, pos, type_b: bt })
}

proof fn lemma_fold_keeps_player(s: EtapeConstruction, keys: Seq<Touche>, sel: Option<SelectedCase>)
    requires
        is_player(s.tour.current_player),
    ensures
        is_player(build_fold(s, keys, sel).tour.current_player),
    decreases keys.len(),
{
    if keys.len() > 0 {
        lemma_fold_keeps_player(s, keys.drop_last(), sel);
    }
}

/// The build menu: while it is open and the turn is the player's, each key
/// pressed is handled in turn (see `build_step`); out of turn, the menu
/// closes and the panel says so.
pub fn gestion_build(vue: &mut Vue, keys: &Vec<Touche>) -> (r: Vec<EventBuild>)
    requires
        old(vue).wf(),
    ensures
        final(vue).wf(),
        final(vue).identity == old(vue).identity,
        final(vue).race == old(vue).race,
        final(vue).selected == old(vue).selected,
        final(vue).tuiles@ == old(vue).tuiles@,
        final(vue).troups@ == old(vue).troups@,
        if old(vue).etat is Building && old(vue).identity is Some && old(vue).tour is Some {
            let id = old(vue).identity.unwrap();
            if old(vue).tour.unwrap().current_player == id {
                let s0 = EtapeConstruction { moula: old(vue).moula, tour: old(vue).tour.unwrap(), panel: Panneau::Tous, closed: false, sent: Seq::empty() };
                let s = build_fold(s0, keys@, old(vue).selected);
                &&& final(vue).moula == s.moula
                &&& final(vue).tour == Some(s.tour)
                &&& panel_is(old(vue).data_print, final(vue).data_print, s.panel)
                &&& if s.closed { final(vue).etat is Idle } else { final(vue).etat == old(vue).etat }
                &&& r@ == build_requests(s.sent, id, old(vue).selected.unwrap().blockpos)
            } else {
                &&& shows(final(vue).data_print, msg_turn())
                &&& final(vue).etat is Idle
                &&& final(vue).moula == old(vue).moula && final(vue).tour == old(vue).tour
                &&& r@.len() == 0
            }
        } else {
            &&& final(vue).etat == old(vue).etat && final(vue).data_print == old(vue).data_print
            &&& final(vue).moula == old(vue).moula && final(vue).tour == old(vue).tour
            &&& r@.len() == 0
        },
{
    let mut r: Vec<EventBuild> = Vec::new();
    let building = match vue.etat {
        Etat::Building => true,
        _ => false,
    };
    if building {
        if let (Some(identity), Some(tour0)) = (vue.identity, vue.tour) {
            if tour0.current_player == identity {
                vue.data_print = DataPrint::AllBlock;
                let ghost s0 = EtapeConstruction { moula: old(vue).moula, tour: tour0, panel: Panneau::Tous, closed: false, sent: Seq::empty() };
                let ghost d0 = old(vue).data_print;
                let mut tour = tour0;
                let mut closed = false;
                let mut k: usize = 0;
                while k < keys.len()
                    invariant
                        k <= keys@.len(),
                        is_player(tour0.current_player),
                        s0 == (EtapeConstruction { moula: old(vue).moula, tour: tour0, panel: Panneau::Tous, closed: false, sent: Seq::empty() }),
                        vue.identity == old(vue).identity,
                        vue.identity == Some(identity),
                        vue.race == old(vue).race,
                        vue.selected == old(vue).selected,
                        vue.tuiles@ == old(vue).tuiles@,
                        vue.troups@ == old(vue).troups@,
                        vue.tour == old(vue).tour,
                        distinct_tiles(vue.tuiles@),
                        old(vue).etat is Building,
                        vue.moula == build_fold(s0, keys@.take(k as int), old(vue).selected).moula,
                        tour == build_fold(s0, keys@.take(k as int), old(vue).selected).tour,
                        panel_is(d0, vue.data_print, build_fold(s0, keys@.take(k as int), old(vue).selected).panel),
                        closed == build_fold(s0, keys@.take(k as int), old(vue).selected).closed,
                        if closed { vue.etat is Idle } else { vue.etat is Building },
                        old(vue).selected matches Some(sel) ==> r@ == build_requests(build_fold(s0, keys@.take(k as int), old(vue).selected).sent, identity, sel.blockpos),
                        old(vue).selected is None ==> build_fold(s0, keys@.take(k as int), old(vue).selected).sent.len() == 0 && r@.len() == 0,
                    decreases keys@.len() - k,
                {
                    let key = keys[k];
                    proof {
                        assert(keys@.take(k + 1).drop_last() == keys@.take(k as int));
                        assert(keys@.take(k + 1).last() == key);
                        lemma_fold_keeps_player(s0, keys@.take(k as int), old(vue).selected);
                    }
                    let ghost prev = build_fold(s0, keys@.take(k as int), old(vue).selected);
                    if key != Touche::A {
                        match bloc_touche(key) {
                            Some(block_type) => {
                                if let Some(selected) = vue.selected {
                                    if can_build(block_type, vue.moula) {
                                        let price = block_type.get_price();
                                        vue.moula.stone = vue.moula.stone - price[0];
                                        vue.moula.wood = vue.moula.wood - price[1];
                                        r.push(EventBuild { pos: selected.blockpos, type_b: block_type, who_are_u: identity });
                                        proof {
                                            assert(r@ =~= build_requests(prev.sent.push(block_type), identity, selected.blockpos));
                                        }
                                        tour.change_tour();
                                        vue.data_print = DataPrint::Rien;
                                    } else {
                                        vue.data_print = texte("You haven't all materials needed");
                                    }
                                    vue.etat = Etat::Idle;
                                    closed = true;
                                }
                            },
                            None => {
                                vue.data_print = DataPrint::Rien;
                                vue.etat = Etat::Idle;
                                closed = true;
                            },
                        }
                    }
                    k = k + 1;
                }
                proof {
                    assert(keys@.take(k as int) == keys@);
                    lemma_fold_keeps_player(s0, keys@, old(vue).selected);
                    if old(vue).selected is None {
                        assert(r@ =~= build_requests(build_fold(s0, keys@, old(vue).selected).sent, identity, old(vue).selected.unwrap().blockpos));
                    }
                }
                vue.tour = Some(tour);
            } else {
                vue.data_print = texte("It's not your turn ! Wait for your oppenent");
                vue.etat = Etat::Idle;
            }
        }
    }
    r
}

/// The troop level that a key selects in the training menu.
pub open spec fn level_for_key(k: Touche) -> Option<NiveauTroup> {
    match k {
        Touche::Key1 => Some(NiveauTroup::Niveau1),
        Touche::Key2 => Some(NiveauTroup::Niveau2),
        Touche::Key3 => Some(NiveauTroup::Niveau3),
        _ => None,
    }
}

/// The troop level that a key selects in the training menu.
pub fn niveau_touche(k: Touche) -> (r: Option<NiveauTroup>)
    ensures
        r == level_for_key(k),
{
    match k {
        Touche::Key1 => Some(NiveauTroup::Niveau1),
        Touche::Key2 => Some(NiveauTroup::Niveau2),
        Touche::Key3 => Some(NiveauTroup::Niveau3),
        _ => None,
    }
}

/// Whether a grass tile of `me` is free for a new troop (the "no tile"
/// marker position never is).
pub open spec fn has_place(ts: Seq<Tuile>, troups: Seq<TroupUnit>, me: BlockApartenance) -> bool {
    exists|j: int| 0 <= j < ts.len() && #[trigger] ts[j].owner == me && ts[j].kind == BlockType::Grass
        && !occupied(troups, ts[j].pos) && ts[j].pos != no_position()
}

/// Whether a grass tile of `me` is free for a new troop.
pub fn place_libre(tuiles: &Vec<Tuile>, troups: &Vec<TroupUnit>, me: BlockApartenance) -> (r: bool)
    ensures
        r == has_place(tuiles@, troups@, me),
{
    let mut k: usize = 0;
    while k < tuiles.len()
        invariant
            k <= tuiles@.len(),
            forall|j: int| 0 <= j < k ==> !(#[trigger] tuiles@[j].owner == me && tuiles@[j].kind == BlockType::Grass
                && !occupied(troups@, tuiles@[j].pos) && tuiles@[j].pos != no_position()),
        decreases tuiles@.len() - k,
    {
        let t = tuiles[k];
        if t.owner == me && t.kind == BlockType::Grass && !occupe(troups, t.pos) && t.pos != (BlockPosition { x: 100, y: 100 }) {
            return true;
        }
        k = k + 1;
    }
    false
}

/// Where the training menu stands after some keys.
pub struct EtapeEntrainement {
    pub food: u32,
    pub tour: Tour,
    pub panel: Panneau,
    pub closed: bool,
    pub sent: Seq<NiveauTroup>,
}

/// The training menu after one more key: a level key, when a tile is
/// selected and the turn is the player's, spends the food if it pays for
/// the troop and, if a grass tile is free, asks for the troop (the turn
/// passes); either way the menu closes.
pub open spec fn train_step(s: EtapeEntrainement, k: Touche, v: Vue) -> EtapeEntrainement {
    match level_for_key(k) {
        Some(niv) => if v.selected is Some && v.identity is Some && s.tour.current_player == v.identity.unwrap() {
            let price = troup_price_of(niv);
            if s.food >= price {
                if has_place(v.tuiles@, v.troups@, block_owner_of(v.identity.unwrap())) {
                    EtapeEntrainement {
                        food: (s.food - price) as u32,
                        tour: Tour { current_player: enemy_of(s.tour.current_player) },
                        panel: Panneau::Rien,
                        closed: true,
                        sent: s.sent.push(niv),
                    }
                } else {
                    EtapeEntrainement { food: (s.food - price) as u32, panel: Panneau::Message(msg_no_place()), closed: true, ..s }
                }
            } else {
                EtapeEntrainement { panel: Panneau::Message(msg_materials()), closed: true, ..s }
            }
        } else {
            s
        },
        None => s,
    }
}

/// The training menu after the keys `keys`, in order.
pub open spec fn train_fold(s: EtapeEntrainement, keys: Seq<Touche>, v: Vue) -> EtapeEntrainement
    decreases keys.len(),
{
    if keys.len() == 0 {
        s
    } else {
        train_step(train_fold(s, keys.drop_last(), v), keys.last(), v)
    }
}

proof fn lemma_train_fold_keeps_player(s: EtapeEntrainement, keys: Seq<Touche>, v: Vue)
    requires
        is_player(s.tour.current_player),
    ensures
        is_player(train_fold(s, keys, v).tour.current_player),
    decreases keys.len(),
{
    if keys.len() > 0 {
        lemma_train_fold_keeps_player(s, keys.drop_last(), v);
    }
}

/// Whether training on this state runs without failing: the race must be
/// known when a level key is pressed, with a tile selected, on the
/// player's turn (the turn as the keys before it have left it).
pub open spec fn train_defined(v: Vue, keys: Seq<Touche>) -> bool {
    (v.etat is Train && v.tour is Some && v.selected is Some && v.identity is Some
        && exists|i: int| 0 <= i < keys.len() && level_for_key(#[trigger] keys[i]) is Some
            && train_fold(
                EtapeEntrainement { food: v.moula.food, tour: v.tour.unwrap(), panel: Panneau::Garde, closed: false, sent: Seq::empty() },
                keys.take(i), v).tour.current_player == v.identity.unwrap()) ==> v.race is Some
}

proof fn lemma_train_fold_still(s: EtapeEntrainement, keys: Seq<Touche>, v: Vue)
    requires
        forall|j: int| 0 <= j < keys.len() ==> !(level_for_key(#[trigger] keys[j]) is Some
            && v.identity is Some && s.tour.current_player == v.identity.unwrap()),
    ensures
        train_fold(s, keys, v) == s,
    decreases keys.len(),
{
    if keys.len() > 0 {
        let ks = keys.drop_last();
        assert forall|j: int| 0 <= j < ks.len() implies !(level_for_key(#[trigger] ks[j]) is Some
            && v.identity is Some && s.tour.current_player == v.identity.unwrap()) by {
            assert(ks[j] == keys[j]);
        }
        lemma_train_fold_still(s, ks, v);
        assert(keys.last() == keys[keys.len() - 1]);
    }
}

/// Whether training runs without failing on this state with these keys
/// (see `train_defined`).
pub fn train_possible(vue: &Vue, keys: &Vec<Touche>) -> (r: bool)
    ensures
        r == train_defined(*vue, keys@),
{
    let training = match vue.etat {
        Etat::Train => true,
        _ => false,
    };
    let (tour, id) = match (vue.tour, vue.identity) {
        (Some(t), Some(id)) => (t, id),
        _ => return true,
    };
    if !training || vue.selected.is_none() || vue.race.is_some() {
        return true;
    }
    let ghost s0 = EtapeEntrainement { food: vue.moula.food, tour, panel: Panneau::Garde, closed: false, sent: Seq::empty() };
    let mut k: usize = 0;
    while k < keys.len()
        invariant
            k <= keys@.len(),
            forall|j: int| 0 <= j < k ==> level_for_key(#[trigger] keys@[j]) is None,
        ensures
            k <= keys@.len(),
            forall|j: int| 0 <= j < k ==> level_for_key(#[trigger] keys@[j]) is None,
            k < keys@.len() ==> level_for_key(keys@[k as int]) is Some,
        decreases keys@.len() - k,
    {
        if niveau_touche(keys[k]).is_some() {
            break;
        }
        k = k + 1;
    }
    if k == keys.len() || tour.current_player != id {
        proof {
            if tour.current_player != id {
                assert forall|i: int| 0 <= i < keys@.len() implies !(level_for_key(#[trigger] keys@[i]) is Some
                    && train_fold(s0, keys@.take(i), *vue).tour.current_player == id) by {
                    assert forall|j: int| 0 <= j < keys@.take(i).len() implies !(level_for_key(#[trigger] keys@.take(i)[j]) is Some
                        && vue.identity is Some && s0.tour.current_player == vue.identity.unwrap()) by {}
                    lemma_train_fold_still(s0, keys@.take(i), *vue);
                }
            } else {
                assert forall|i: int| 0 <= i < keys@.len() implies !(level_for_key(#[trigger] keys@[i]) is Some
                    && train_fold(s0, keys@.take(i), *vue).tour.current_player == id) by {}
            }
        }
        return true;
    }
    proof {
        assert forall|j: int| 0 <= j < keys@.take(k as int).len() implies !(level_for_key(#[trigger] keys@.take(k as int)[j]) is Some
            && vue.identity is Some && s0.tour.current_player == vue.identity.unwrap()) by {
            assert(keys@.take(k as int)[j] == keys@[j]);
        }
        lemma_train_fold_still(s0, keys@.take(k as int), *vue);
        assert(level_for_key(keys@[k as int]) is Some);
    }
    false
}

/// The training menu: while it is open and the turn is known, each key
/// pressed is handled in turn (see `train_step`).
pub fn creat_troup(vue: &mut Vue, keys: &Vec<Touche>) -> (r: Vec<TrainEvent>)
    requires
        old(vue).wf(),
        train_defined(*old(vue), keys@),
    ensures
        final(vue).wf(),
        final(vue).identity == old(vue).identity,
        final(vue).race == old(vue).race,
        final(vue).selected == old(vue).selected,
        final(vue).tuiles@ == old(vue).tuiles@,
        final(vue).troups@ == old(vue).troups@,
        if old(vue).etat is Train && old(vue).tour is Some {
            let s0 = EtapeEntrainement { food: old(vue).moula.food, tour: old(vue).tour.unwrap(), panel: Panneau::Garde, closed: false, sent: Seq::empty() };
            let s = train_fold(s0, keys@, *old(vue));
            &&& final(vue).moula == (Moula { food: s.food, ..old(vue).moula })
            &&& final(vue).tour == Some(s.tour)
            &&& panel_is(old(vue).data_print, final(vue).data_print, s.panel)
            &&& if s.closed { final(vue).etat is Idle } else { final(vue).etat is Train }
            &&& r@ == s.sent.map_values(|n: NiveauTroup| TrainEvent { niv: n })
        } else {
            &&& final(vue).etat == old(vue).etat && final(vue).data_print == old(vue).data_print
            &&& final(vue).moula == old(vue).moula && final(vue).tour == old(vue).tour
            &&& r@.len() == 0
        },
{
    let mut r: Vec<TrainEvent> = Vec::new();
    let training = match vue.etat {
        Etat::Train => true,
        _ => false,
    };
    if training {
        if let Some(tour0) = vue.tour {
            let ghost v0 = *old(vue);
            let ghost s0 = EtapeEntrainement { food: old(vue).moula.food, tour: tour0, panel: Panneau::Garde, closed: false, sent: Seq::empty() };
            let ghost d0 = old(vue).data_print;
            let mut tour = tour0;
            let mut closed = false;
            let mut k: usize = 0;
            while k < keys.len()
                invariant
                    k <= keys@.len(),
                    v0 == *old(vue),
                    is_player(tour0.current_player),
                    s0 == (EtapeEntrainement { food: old(vue).moula.food, tour: tour0, panel: Panneau::Garde, closed: false, sent: Seq::empty() }),
                    train_defined(v0, keys@),
                    v0.etat is Train,
                    v0.tour == Some(tour0),
                    vue.identity == v0.identity,
                    vue.race == v0.race,
                    vue.selected == v0.selected,
                    vue.tuiles@ == v0.tuiles@,
                    vue.troups@ == v0.troups@,
                    vue.tour == v0.tour,
                    distinct_tiles(vue.tuiles@),
                    vue.moula == (Moula { food: train_fold(s0, keys@.take(k as int), v0).food, ..v0.moula }),
                    tour == train_fold(s0, keys@.take(k as int), v0).tour,
                    panel_is(d0, vue.data_print, train_fold(s0, keys@.take(k as int), v0).panel),
                    closed == train_fold(s0, keys@.take(k as int), v0).closed,
                    if closed { vue.etat is Idle } else { vue.etat is Train },
                    r@ == train_fold(s0, keys@.take(k as int), v0).sent.map_values(|n: NiveauTroup| TrainEvent { niv: n }),
                decreases keys@.len() - k,
            {
                let key = keys[k];
                proof {
                    assert(keys@.take(k + 1).drop_last() == keys@.take(k as int));
                    assert(keys@.take(k + 1).last() == key);
                    lemma_train_fold_keeps_player(s0, keys@.take(k as int), v0);
                }
                let ghost prev = train_fold(s0, keys@.take(k as int), v0);
                if let Some(niveau) = niveau_touche(key) {
                    if let (Some(_selected), Some(identity)) = (vue.selected, vue.identity) {
                        if tour.current_player == identity {
                            proof {
                                assert(level_for_key(keys@[k as int]) is Some);
                            }
                            let troup = Troup { race: vue.race.unwrap(), niveau };
                            if can_train(troup, vue.moula) {
                                vue.moula.food = vue.moula.food - troup.get_price();
                                if place_libre(&vue.tuiles, &vue.troups, identity.get_block_apartenance()) {
                                    r.push(TrainEvent { niv: niveau });
                                    proof {
                                        assert(r@ =~= prev.sent.push(niveau).map_values(|n: NiveauTroup| TrainEvent { niv: n }));
                                    }
                                    tour.change_tour();
                                    vue.data_print = DataPrint::Rien;
                                } else {
                                    vue.data_print = texte("There aren't place to train troup");
                                }
                            } else {
                                vue.data_print = texte("You haven't all materials needed");
                            }
                            vue.etat = Etat::Idle;
                            closed = true;
                        }
                    }
                }
                k = k + 1;
            }
            proof {
                assert(keys@.take(k as int) == keys@);
                lemma_train_fold_keeps_player(s0, keys@, v0);
            }
            vue.tour = Some(tour);
        }
    }
    r
}

/// The index of the tile of entity `e`.
pub fn find_entity(tuiles: &Vec<Tuile>, e: u64) -> (r: Option<usize>)
    requires
        distinct_entities(tuiles@),
    ensures
        r is None <==> tile_of_entity(tuiles@, e) is None,
        r matches Some(j) ==> j < tuiles@.len() && tile_of_entity(tuiles@, e) == Some(j as int),
{
    let mut i: usize = 0;
    while i < tuiles.len()
        invariant
            i <= tuiles@.len(),
            distinct_entities(tuiles@),
            forall|k: int| 0 <= k < i ==> tuiles@[k].entity != e,
        decreases tuiles@.len() - i,
    {
        if tuiles[i].entity == e {
            proof {
                assert(tuiles@[i as int].entity == e);
                let c = choose|k: int| 0 <= k < tuiles@.len() && tuiles@[k].entity == e;
                if c != i {
                    assert(tuiles@[c].entity != tuiles@[i as int].entity);
                }
            }
            return Some(i);
        }
        i = i + 1;
    }
    None
}

/// The positions of the tiles, in order.
pub open spec fn tile_positions(ts: Seq<Tuile>) -> Seq<BlockPosition> {
    ts.map_values(|t: Tuile| t.pos)
}

/// The positions of all tiles, in order.
pub fn positions_tuiles(tuiles: &Vec<Tuile>) -> (r: Vec<BlockPosition>)
    ensures
        r@ == tile_positions(tuiles@),
{
    let mut r: Vec<BlockPosition> = Vec::new();
    let mut i: usize = 0;
    while i < tuiles.len()
        invariant
            i <= tuiles@.len(),
            r@ == tile_positions(tuiles@.take(i as int)),
        decreases tuiles@.len() - i,
    {
        r.push(tuiles[i].pos);
        proof {
            assert(tuiles@.take(i + 1) == tuiles@.take(i as int).push(tuiles@[i as int]));
        }
        i = i + 1;
    }
    proof {
        assert(tuiles@.take(i as int) == tuiles@);
    }
    r
}

/// The number of tiles of kind `k` owned by `o`.
pub open spec fn count_tiles(ts: Seq<Tuile>, o: BlockApartenance, k: BlockType) -> nat
    decreases ts.len(),
{
    if ts.len() == 0 {
        0
    } else {
        count_tiles(ts.drop_last(), o, k) + if ts.last().owner == o && ts.last().kind == k { 1nat } else { 0nat }
    }
}

proof fn lemma_count_tiles_prefix(ts: Seq<Tuile>, n: int, o: BlockApartenance, k: BlockType)
    requires
        0 <= n <= ts.len(),
    ensures
        count_tiles(ts.take(n), o, k) <= count_tiles(ts, o, k),
    decreases ts.len() - n,
{
    if n < ts.len() {
        lemma_count_tiles_prefix(ts, n + 1, o, k);
        assert(ts.take(n + 1).drop_last() == ts.take(n));
    } else {
        assert(ts.take(n) == ts);
    }
}

/// Resources after a turn's income from the tiles `ts` of the owner `o`.
pub open spec fn income_of_tiles(m: Moula, ts: Seq<Tuile>, o: BlockApartenance) -> Moula {
    Moula {
        stone: (m.stone + 100 * count_tiles(ts, o, BlockType::Mine)) as u32,
        wood: (m.wood + 100 * count_tiles(ts, o, BlockType::Farm)) as u32,
        food: (m.food + 25 * count_tiles(ts, o, BlockType::Sheep)) as u32,
    }
}

/// The client's tiles show the server's tiles: the same positions, kinds
/// and owners, in the same order.
pub open spec fn shows_map(ts: Seq<Tuile>, bs: Seq<Block>) -> bool {
    &&& ts.len() == bs.len()
    &&& forall|k: int| 0 <= k < ts.len() ==> {
        &&& (#[trigger] ts[k]).pos == bs[k].pos
        &&& ts[k].kind == bs[k].kind
        &&& ts[k].owner == bs[k].owner
    }
}

proof fn lemma_counts_agree(ts: Seq<Tuile>, bs: Seq<Block>, o: BlockApartenance, k: BlockType)
    requires
        shows_map(ts, bs),
    ensures
        count_tiles(ts, o, k) == count_owned(bs, o, k),
    decreases ts.len(),
{
    if ts.len() > 0 {
        let (ts0, bs0) = (ts.drop_last(), bs.drop_last());
        assert forall|j: int| 0 <= j < ts0.len() implies (#[trigger] ts0[j]).pos == bs0[j].pos && ts0[j].kind == bs0[j].kind
            && ts0[j].owner == bs0[j].owner by {
            assert(ts0[j] == ts[j] && bs0[j] == bs[j]);
        }
        lemma_counts_agree(ts0, bs0, o, k);
        assert(ts.last() == ts[ts.len() - 1]);
    }
}

/// The client and the server count the same income: when the client's
/// tiles show the server's, the income that the client adds to its
/// resources at a new turn is the one that the server adds to the player's.
pub proof fn lemma_income_agrees(m: Moula, ts: Seq<Tuile>, bs: Seq<Block>, o: BlockApartenance)
    requires
        shows_map(ts, bs),
    ensures
        income_of_tiles(m, ts, o) == with_income(m, bs, o),
{
    lemma_counts_agree(ts, bs, o, BlockType::Mine);
    lemma_counts_agree(ts, bs, o, BlockType::Farm);
    lemma_counts_agree(ts, bs, o, BlockType::Sheep);
}

/// Whether the turn has changed since the client last collected its income.
pub open spec fn new_turn(tour: Option<Tour>, seen: Option<Tour>) -> bool {
    tour is Some && (seen is None || tour != seen)
}

/// Whether collecting the income on this state runs without failing: a
/// spectator owns no tile, and the resources stay within their range.
pub open spec fn income_defined(v: Vue, seen: Option<Tour>) -> bool {
    (v.identity is Some && new_turn(v.tour, seen)) ==> {
        &&& (v.tuiles@.len() > 0 ==> is_player(v.identity.unwrap()))
        &&& v.moula.stone + 100 * count_tiles(v.tuiles@, block_owner_of(v.identity.unwrap()), BlockType::Mine) <= u32::MAX
        &&& v.moula.wood + 100 * count_tiles(v.tuiles@, block_owner_of(v.identity.unwrap()), BlockType::Farm) <= u32::MAX
        &&& v.moula.food + 25 * count_tiles(v.tuiles@, block_owner_of(v.identity.unwrap()), BlockType::Sheep) <= u32::MAX
    }
}

/// Whether `start` plus `step` for each tile of kind `k` owned by `o`
/// stays within `u32`.
fn fits_with_tiles(tuiles: &Vec<Tuile>, o: BlockApartenance, k: BlockType, start: u32, step: u64) -> (r: bool)
    requires
        step <= 100,
    ensures
        r == (start + step * count_tiles(tuiles@, o, k) <= u32::MAX),
{
    let ghost ts = tuiles@;
    let mut acc: u64 = start as u64;
    let mut over = false;
    let mut i: usize = 0;
    while i < tuiles.len()
        invariant
            i <= ts.len(),
            ts == tuiles@,
            step <= 100,
            !over ==> acc == start + step * count_tiles(ts.take(i as int), o, k) && acc <= u32::MAX,
            over ==> start + step * count_tiles(ts.take(i as int), o, k) > u32::MAX,
        decreases ts.len() - i,
    {
        let t = tuiles[i];
        let ghost c = count_tiles(ts.take(i as int), o, k);
        proof {
            assert(ts.take(i + 1).drop_last() == ts.take(i as int));
            assert(ts.take(i + 1).last() == t);
            assert(step * (c + 1) == step * c + step) by (nonlinear_arith);
            assert(step * c >= 0) by (nonlinear_arith) requires step >= 0, c >= 0;
        }
        if t.owner == o && t.kind == k && !over {
            if acc + step > 0xffff_ffff {
                over = true;
            } else {
                acc = acc + step;
            }
        }
        i = i + 1;
    }
    proof {
        assert(ts.take(i as int) == ts);
    }
    !over
}

/// Whether collecting the income on this state runs without failing (see
/// `income_defined`).
pub fn income_possible(vue: &Vue, seen: Option<Tour>) -> (r: bool)
    ensures
        r == income_defined(*vue, seen),
{
    let id = match vue.identity {
        Some(id) => id,
        None => return true,
    };
    let nouveau = match (vue.tour, seen) {
        (Some(t), Some(s)) => t != s,
        (Some(_), None) => true,
        _ => false,
    };
    if !nouveau {
        return true;
    }
    if vue.tuiles.len() > 0 && id == PacketIdentification::Spectateur {
        return false;
    }
    let o = match id {
        PacketIdentification::Joueur1 => BlockApartenance::Joueur1,
        PacketIdentification::Joueur2 => BlockApartenance::Joueur2,
        PacketIdentification::Spectateur => BlockApartenance::Neutre,
    };
    fits_with_tiles(&vue.tuiles, o, BlockType::Mine, vue.moula.stone, 100)
        && fits_with_tiles(&vue.tuiles, o, BlockType::Farm, vue.moula.wood, 100)
        && fits_with_tiles(&vue.tuiles, o, BlockType::Sheep, vue.moula.food, 25)
}

/// The effect of collecting the income: only the resources and the turn
/// last collected may change; at a new turn the tiles' income is added
/// and the turn is noted, otherwise nothing changes.
pub open spec fn income_effect(v0: Vue, v1: Vue, seen0: Option<Tour>, seen1: Option<Tour>) -> bool {
    &&& same_game_but_moula(v0, v1)
    &&& if v0.identity is Some && new_turn(v0.tour, seen0) {
        &&& seen1 == v0.tour
        &&& v1.moula == income_of_tiles(v0.moula, v0.tuiles@, block_owner_of(v0.identity.unwrap()))
    } else {
        &&& seen1 == seen0
        &&& v1.moula == v0.moula
    }
}

/// The income is paid once per turn: collecting it a second time, with no
/// new turn in between, adds nothing.
pub proof fn lemma_income_once_per_turn(v0: Vue, v1: Vue, v2: Vue, s0: Option<Tour>, s1: Option<Tour>, s2: Option<Tour>)
    requires
        income_effect(v0, v1, s0, s1),
        income_effect(v1, v2, s1, s2),
    ensures
        v2.moula == v1.moula,
        s2 == s1,
{
}

/// The income of the client's player, once per turn: `seen` is the turn at
/// which it was last collected.
pub fn get_ressource(vue: &mut Vue, seen: &mut Option<Tour>)
    requires
        old(vue).wf(),
        income_defined(*old(vue), *old(seen)),
    ensures
        final(vue).wf(),
        income_effect(*old(vue), *final(vue), *old(seen), *final(seen)),
{
    if let Some(identity) = vue.identity {
        let go = match (vue.tour, *seen) {
            (Some(t), Some(s)) => t != s,
            (Some(_), None) => true,
            _ => false,
        };
        if go {
            *seen = vue.tour;
            if vue.tuiles.len() > 0 {
                let o = identity.get_block_apartenance();
                let ghost m0 = vue.moula;
                let ghost ts = vue.tuiles@;
                let mut k: usize = 0;
                while k < vue.tuiles.len()
                    invariant
                        k <= ts.len(),
                        ts == vue.tuiles@,
                        same_game_but_moula(*old(vue), *vue),
                        m0 == old(vue).moula,
                        o == block_owner_of(identity),
                        old(vue).identity == Some(identity),
                        income_defined(*old(vue), *old(seen)),
                        new_turn(old(vue).tour, *old(seen)),
                        vue.moula == income_of_tiles(m0, ts.take(k as int), o),
                    decreases ts.len() - k,
                {
                    let t = vue.tuiles[k];
                    proof {
                        assert(ts.take(k + 1).drop_last() == ts.take(k as int));
                        assert(ts.take(k + 1).last() == t);
                        lemma_count_tiles_prefix(ts, k + 1, o, BlockType::Mine);
                        lemma_count_tiles_prefix(ts, k + 1, o, BlockType::Farm);
                        lemma_count_tiles_prefix(ts, k + 1, o, BlockType::Sheep);
                    }
                    if t.owner == o {
                        match t.kind {
                            BlockType::Farm => vue.moula.wood = vue.moula.wood + 100,
                            BlockType::Mine => vue.moula.stone = vue.moula.stone + 100,
                            BlockType::Sheep => vue.moula.food = vue.moula.food + 25,
                            _ => {},
                        }
                    }
                    k = k + 1;
                }
                proof {
                    assert(ts.take(k as int) == ts);
                }
            } else {
                proof {
                    assert(vue.moula == income_of_tiles(old(vue).moula, old(vue).tuiles@, block_owner_of(identity)));
                }
            }
        }
    }
}

/// Everything but the resources is left as it was.
pub open spec fn same_game_but_moula(v0: Vue, v1: Vue) -> bool {
    &&& v1.identity == v0.identity
    &&& v1.race == v0.race
    &&& v1.tour == v0.tour
    &&& v1.selected == v0.selected
    &&& v1.tuiles@ == v0.tuiles@
    &&& v1.troups@ == v0.troups@
    &&& v1.etat == v0.etat
    &&& v1.data_print == v0.data_print
}

/// The entities of the tiles that touch the selected one (itself included),
/// in order; none when nothing is selected.
pub fn calcule_cases_adjacentes(tuiles: &Vec<Tuile>, select: Option<SelectedCase>) -> (r: CaseAdjacente)
    requires
        select matches Some(sel) ==> forall|j: int| 0 <= j < tuiles@.len() ==> pair_fits(#[trigger] tuiles@[j].pos, sel.blockpos),
    ensures
        match select {
            None => r.entities@.len() == 0,
            Some(sel) => r.entities@ == tuiles@.filter(|t: Tuile| neighbour(sel.blockpos, t.pos)).map_values(|t: Tuile| t.entity),
        },
{
    let mut entities: Vec<u64> = Vec::new();
    if let Some(sel) = select {
        let ghost f = |t: Tuile| neighbour(sel.blockpos, t.pos);
        let mut k: usize = 0;
        while k < tuiles.len()
            invariant
                k <= tuiles@.len(),
                f == (|t: Tuile| neighbour(sel.blockpos, t.pos)),
                forall|j: int| 0 <= j < tuiles@.len() ==> pair_fits(#[trigger] tuiles@[j].pos, sel.blockpos),
                entities@ == tuiles@.take(k as int).filter(f).map_values(|t: Tuile| t.entity),
            decreases tuiles@.len() - k,
        {
            let t = tuiles[k];
            proof {
                assert(tuiles@.take(k + 1).drop_last() == tuiles@.take(k as int));
                reveal_with_fuel(Seq::filter, 1);
                assert(pair_fits(tuiles@[k as int].pos, sel.blockpos));
            }
            if est_adjacente(sel.blockpos, t.pos) {
                entities.push(t.entity);
                proof {
                    assert(tuiles@.take(k + 1).filter(f) == tuiles@.take(k as int).filter(f).push(t));
                    assert(entities@ =~= tuiles@.take(k + 1).filter(f).map_values(|t: Tuile| t.entity));
                }
            } else {
                proof {
                    assert(tuiles@.take(k + 1).filter(f) == tuiles@.take(k as int).filter(f));
                }
            }
            k = k + 1;
        }
        proof {
            assert(tuiles@.take(k as int) == tuiles@);
        }
    }
    CaseAdjacente { entities }
}

/// A request that key E sends.
#[derive(Clone, Copy, Debug, PartialEq, Eq, Structural)]
pub enum Assaut {
    Conquete(ConqueteEvent),
    Combat(CombatEvent),
}

/// How far the selected tile can be taken: 0 when it is already the
/// player's, 2 when it is the enemy's, 1 otherwise (neutral or unknown).
pub open spec fn conquest_kind(v: Vue, id: PacketIdentification, sel: SelectedCase) -> int {
    match tile_of_entity(v.tuiles@, sel.entity) {
        Some(j) => if v.tuiles@[j].owner == block_owner_of(id) {
            0
        } else if v.tuiles@[j].owner == block_owner_of(enemy_of(id)) {
            2
        } else {
            1
        },
        None => 1,
    }
}

/// Whether one of the tiles `adj` (given by entity) is the player's.
pub open spec fn touches_own(v: Vue, adj: Seq<u64>, me: BlockApartenance) -> bool {
    exists|k: int| 0 <= k < adj.len() && #[trigger] owned_entity(v.tuiles@, adj[k], me)
}

/// Whether the tile of entity `e` is owned by `me`.
pub open spec fn owned_entity(ts: Seq<Tuile>, e: u64, me: BlockApartenance) -> bool {
    match tile_of_entity(ts, e) {
        Some(j) => ts[j].owner == me,
        None => false,
    }
}

/// Whether a troop of `o` can reach the tile `p`.
pub open spec fn can_strike(v: Vue, o: TroupApartenance, p: BlockPosition) -> bool {
    exists|k: int| 0 <= k < v.troups@.len() && (#[trigger] v.troups@[k]).owner == o
        && in_reach(tile_positions(v.tuiles@), v.troups@[k], p)
}

/// Key E finds a troop to strike with exactly where the server weighs one:
/// a troop of `o` can strike the tile `p` on the client's view iff one of
/// them stands within one step more than its speed of `p`, that is iff a
/// fight over `p` on the same tiles and troops weighs a troop of `o`.
pub proof fn lemma_client_strikes_as_server_engages(v: Vue, o: TroupApartenance, p: BlockPosition)
    ensures
        can_strike(v, o, p) <==> exists|k: int| 0 <= k < v.troups@.len() && (#[trigger] v.troups@[k]).owner == o
            && in_zone(tile_positions(v.tuiles@), troup_tile(v.troups@[k].pos), (speed_of(v.troups@[k].troup) + 1) as nat, p),
        can_strike(v, o, p) <==> engaged(tile_positions(v.tuiles@), v.troups@, p, o).len() > 0,
{
    let ps = tile_positions(v.tuiles@);
    let ts = v.troups@;
    let f = |t: TroupUnit| t.owner == o && in_zone(ps, troup_tile(t.pos), (speed_of(t.troup) + 1) as nat, p);
    assert forall|k: int| 0 <= k < ts.len() implies (#[trigger] ts[k].owner == o && in_reach(ps, ts[k], p)) == f(ts[k]) by {
        assert(range_of(ts[k].troup) as nat == (speed_of(ts[k].troup) + 1) as nat);
    }
    lemma_engaged_are_those_in_range(ps, ts, p, o);
    let fl = ts.filter(f);
    assert(engaged(ps, ts, p, o).len() == fl.len());
    if can_strike(v, o, p) {
        let k = choose|k: int| 0 <= k < ts.len() && (#[trigger] ts[k]).owner == o && in_reach(ps, ts[k], p);
        assert(f(ts[k]));
        ts.lemma_filter_contains(f, k);
        assert(fl.contains(ts[k]));
    }
    if fl.len() > 0 {
        ts.lemma_filter_pred(f, 0);
        let t = fl[0];
        ts.lemma_filter_contains_rev(f, t);
        let k = choose|k: int| 0 <= k < ts.len() && ts[k] == t;
        assert(ts[k].owner == o && in_reach(ps, ts[k], p));
    }
    if exists|k: int| 0 <= k < ts.len() && (#[trigger] ts[k]).owner == o && in_zone(ps, troup_tile(ts[k].pos), (speed_of(ts[k].troup) + 1) as nat, p) {
        let k = choose|k: int| 0 <= k < ts.len() && (#[trigger] ts[k]).owner == o && in_zone(ps, troup_tile(ts[k].pos), (speed_of(ts[k].troup) + 1) as nat, p);
        assert(f(ts[k]));
    }
}

/// Whether key E on this state runs without failing: when E is pressed and the player's
/// troops are looked over, their coordinates fit with those of the tiles.
pub open spec fn attaque_defined(v: Vue, e: bool, adj: Seq<u64>) -> bool {
    (e && v.tour is Some && v.identity is Some && v.selected is Some
        && v.tour.unwrap().current_player == v.identity.unwrap()
        && touches_own(v, adj, block_owner_of(v.identity.unwrap()))
        && conquest_kind(v, v.identity.unwrap(), v.selected.unwrap()) == 2) ==>
        forall|k: int| 0 <= k < v.troups@.len() && (#[trigger] v.troups@[k]).owner == troup_owner_of(v.identity.unwrap()) ==>
            coords_fit(tile_positions(v.tuiles@), troup_tile(v.troups@[k].pos))
}

/// Whether key E runs without failing on this state (see `attaque_defined`).
pub fn attaque_possible(vue: &Vue, e_pressed: bool, adjacentes: &CaseAdjacente) -> (r: bool)
    requires
        vue.wf(),
    ensures
        r == attaque_defined(*vue, e_pressed, adjacentes.entities@),
{
    let (tour, identity, select) = match (vue.tour, vue.identity, vue.selected) {
        (Some(t), Some(i), Some(s)) => (t, i, s),
        _ => return true,
    };
    if !e_pressed || tour.current_player != identity {
        return true;
    }
    let me = identity.get_block_apartenance();
    let mut peu_conquerir: u8 = 1;
    if let Some(j) = find_entity(&vue.tuiles, select.entity) {
        let owner = vue.tuiles[j].owner;
        if me == owner {
            peu_conquerir = 0;
        } else if identity.get_enemie().get_block_apartenance() == owner {
            peu_conquerir = 2;
        }
    }
    assert(peu_conquerir == conquest_kind(*vue, identity, select));
    let mut case_a_moi = false;
    let mut k: usize = 0;
    while k < adjacentes.entities.len()
        invariant_except_break
            !case_a_moi,
        invariant
            k <= adjacentes.entities@.len(),
            distinct_entities(vue.tuiles@),
            forall|a: int| 0 <= a < k ==> !#[trigger] owned_entity(vue.tuiles@, adjacentes.entities@[a], me),
        ensures
            case_a_moi ==> k < adjacentes.entities@.len() && owned_entity(vue.tuiles@, adjacentes.entities@[k as int], me),
            !case_a_moi ==> forall|a: int| 0 <= a < adjacentes.entities@.len() ==> !#[trigger] owned_entity(vue.tuiles@, adjacentes.entities@[a], me),
        decreases adjacentes.entities@.len() - k,
    {
        if let Some(j) = find_entity(&vue.tuiles, adjacentes.entities[k]) {
            if vue.tuiles[j].owner == me {
                case_a_moi = true;
                break;
            }
        }
        k = k + 1;
    }
    assert(case_a_moi == touches_own(*vue, adjacentes.entities@, me)) by {
        if case_a_moi {
            assert(owned_entity(vue.tuiles@, adjacentes.entities@[k as int], me));
        }
    }
    if !case_a_moi || peu_conquerir != 2 {
        return true;
    }
    let positions = positions_tuiles(&vue.tuiles);
    let own = identity.get_troup_apartenance();
    let mut t: usize = 0;
    while t < vue.troups.len()
        invariant
            t <= vue.troups@.len(),
            positions@ == tile_positions(vue.tuiles@),
            own == troup_owner_of(identity),
            vue.identity == Some(identity),
            vue.tour == Some(tour),
            vue.selected == Some(select),
            tour.current_player == identity,
            e_pressed,
            touches_own(*vue, adjacentes.entities@, me),
            me == block_owner_of(identity),
            conquest_kind(*vue, identity, select) == 2,
            forall|a: int| 0 <= a < t && (#[trigger] vue.troups@[a]).owner == own ==>
                coords_fit(tile_positions(vue.tuiles@), troup_tile(vue.troups@[a].pos)),
        decreases vue.troups@.len() - t,
    {
        let u = vue.troups[t];
        let tile = u.pos.to_troup_position();
        if u.owner == own && !coords_fit_exec(positions.as_slice(), tile) {
            proof {
                assert(tile == troup_tile(u.pos));
                assert(vue.troups@[t as int].owner == troup_owner_of(vue.identity.unwrap()));
                assert(!coords_fit(tile_positions(vue.tuiles@), troup_tile(vue.troups@[t as int].pos)));
            }
            return false;
        }
        t = t + 1;
    }
    true
}

/// Key E on the selected tile, next to a tile of the player's: a neutral
/// tile is claimed, an enemy tile is attacked if a troop of the player's
/// reaches it (the turn passes); otherwise the panel says why not.
pub fn attaque(vue: &mut Vue, e_pressed: bool, adjacentes: &CaseAdjacente) -> (r: Option<Assaut>)
    requires
        old(vue).wf(),
        attaque_defined(*old(vue), e_pressed, adjacentes.entities@),
    ensures
        final(vue).wf(),
        same_game_but_turn(*old(vue), *final(vue)),
        final(vue).etat == old(vue).etat,
        if old(vue).tour is Some && e_pressed && old(vue).identity is Some {
            let id = old(vue).identity.unwrap();
            match old(vue).selected {
                None => shows(final(vue).data_print, msg_select()) && final(vue).tour == old(vue).tour && r is None,
                Some(sel) => if old(vue).tour.unwrap().current_player != id {
                    shows(final(vue).data_print, msg_turn()) && final(vue).tour == old(vue).tour && r is None
                } else if !touches_own(*old(vue), adjacentes.entities@, block_owner_of(id)) {
                    shows(final(vue).data_print, msg_too_far()) && final(vue).tour == old(vue).tour && r is None
                } else if conquest_kind(*old(vue), id, sel) == 1 {
                    &&& final(vue).data_print == old(vue).data_print && final(vue).tour == old(vue).tour
                    &&& if tile_at(old(vue).tuiles@, sel.blockpos) is Some {
                        r == Some(Assaut::Conquete(ConqueteEvent(sel.blockpos)))
                    } else {
                        r is None
                    }
                } else if conquest_kind(*old(vue), id, sel) == 2 {
                    if can_strike(*old(vue), troup_owner_of(id), sel.blockpos) {
                        &&& final(vue).data_print == old(vue).data_print
                        &&& final(vue).tour == Some(Tour { current_player: enemy_of(id) })
                        &&& r == Some(Assaut::Combat(CombatEvent { pos: sel.blockpos }))
                    } else {
                        shows(final(vue).data_print, msg_no_troups()) && final(vue).tour == old(vue).tour && r is None
                    }
                } else {
                    shows(final(vue).data_print, msg_already_yours()) && final(vue).tour == old(vue).tour && r is None
                },
            }
        } else {
            final(vue).data_print == old(vue).data_print && final(vue).tour == old(vue).tour && r is None
        },
{
    let mut r: Option<Assaut> = None;
    if let Some(mut tour) = vue.tour {
        if e_pressed {
            if let Some(identity) = vue.identity {
                if let Some(select) = vue.selected {
                    if tour.current_player == identity {
                        let me = identity.get_block_apartenance();
                        let mut peu_conquerir: u8 = 1;
                        if let Some(j) = find_entity(&vue.tuiles, select.entity) {
                            let owner = vue.tuiles[j].owner;
                            if me == owner {
                                peu_conquerir = 0;
                            } else if identity.get_enemie().get_block_apartenance() == owner {
                                peu_conquerir = 2;
                            }
                        }
                        assert(peu_conquerir == conquest_kind(*old(vue), identity, select));
                        let mut case_a_moi = false;
                        let mut k: usize = 0;
                        while k < adjacentes.entities.len()
                            invariant_except_break
                                !case_a_moi,
                            invariant
                                k <= adjacentes.entities@.len(),
                                distinct_entities(vue.tuiles@),
                                vue.tuiles@ == old(vue).tuiles@,
                                forall|a: int| 0 <= a < k ==> !#[trigger] owned_entity(old(vue).tuiles@, adjacentes.entities@[a], me),
                            ensures
                                case_a_moi ==> k < adjacentes.entities@.len() && owned_entity(old(vue).tuiles@, adjacentes.entities@[k as int], me),
                                !case_a_moi ==> forall|a: int| 0 <= a < adjacentes.entities@.len() ==> !#[trigger] owned_entity(old(vue).tuiles@, adjacentes.entities@[a], me),
                            decreases adjacentes.entities@.len() - k,
                        {
                            if let Some(j) = find_entity(&vue.tuiles, adjacentes.entities[k]) {
                                if vue.tuiles[j].owner == me {
                                    case_a_moi = true;
                                    break;
                                }
                            }
                            k = k + 1;
                        }
                        assert(case_a_moi == touches_own(*old(vue), adjacentes.entities@, me)) by {
                            if case_a_moi {
                                assert(owned_entity(old(vue).tuiles@, adjacentes.entities@[k as int], me));
                            }
                        }
                        if case_a_moi {
                            if peu_conquerir == 1 {
                                if find_tile(&vue.tuiles, select.blockpos).is_some() {
                                    r = Some(Assaut::Conquete(ConqueteEvent(select.blockpos)));
                                }
                            } else if peu_conquerir == 2 {
                                let positions = positions_tuiles(&vue.tuiles);
                                let own = identity.get_troup_apartenance();
                                let mut attaque = false;
                                let mut t: usize = 0;
                                while t < vue.troups.len()
                                    invariant
                                        t <= vue.troups@.len(),
                                        vue.troups@ == old(vue).troups@,
                                        vue.tuiles@ == old(vue).tuiles@,
                                        positions@ == tile_positions(old(vue).tuiles@),
                                        own == troup_owner_of(identity),
                                        forall|a: int| 0 <= a < vue.troups@.len() && (#[trigger] vue.troups@[a]).owner == own ==>
                                            coords_fit(tile_positions(vue.tuiles@), troup_tile(vue.troups@[a].pos)),
                                        attaque == exists|a: int| 0 <= a < t && (#[trigger] vue.troups@[a]).owner == own
                                            && in_reach(tile_positions(vue.tuiles@), vue.troups@[a], select.blockpos),
                                    decreases vue.troups@.len() - t,
                                {
                                    let u = vue.troups[t];
                                    if u.owner == own {
                                        assert(coords_fit(positions@, troup_tile(vue.troups@[t as int].pos)));
                                        let zone = cases_adjacentes_rayon(positions.as_slice(), u.pos.to_troup_position(), u.troup.get_range());
                                        if contient(&zone, select.blockpos) {
                                            attaque = true;
                                        }
                                    }
                                    t = t + 1;
                                }
                                if attaque {
                                    r = Some(Assaut::Combat(CombatEvent { pos: select.blockpos }));
                                    tour.change_tour();
                                    vue.tour = Some(tour);
                                } else {
                                    vue.data_print = texte("You don't have troups next to the case !");
                                }
                            } else {
                                vue.data_print = texte("This case is already belong to you");
                            }
                        } else {
                            vue.data_print = texte("You are too far from your territory");
                        }
                    } else {
                        vue.data_print = texte("It's not your turn ! Wait for your oppenent");
                    }
                } else {
                    vue.data_print = texte("You must select a case");
                }
            }
        }
    }
    r
}

/// Everything but the turn, the panel and the activity is left as it was.
pub open spec fn same_game_but_turn(v0: Vue, v1: Vue) -> bool {
    &&& v1.identity == v0.identity
    &&& v1.race == v0.race
    &&& v1.moula == v0.moula
    &&& v1.selected == v0.selected
    &&& v1.tuiles@ == v0.tuiles@
    &&& v1.troups@ == v0.troups@
}

/// The tiles to which the troops of `me` may move: the player's grass and
/// forest tiles on which no troop stands, in order.
pub open spec fn movable(ts: Seq<Tuile>, troups: Seq<TroupUnit>, me: BlockApartenance) -> Seq<BlockPosition>
    decreases ts.len(),
{
    if ts.len() == 0 {
        seq![]
    } else {
        let rest = movable(ts.drop_last(), troups, me);
        let t = ts.last();
        if t.owner == me && empty_tile(t.kind) && !occupied(troups, t.pos) {
            rest.push(t.pos)
        } else {
            rest
        }
    }
}

/// The tiles to which the troops of `me` may move.
pub fn cases_mouvement(tuiles: &Vec<Tuile>, troups: &Vec<TroupUnit>, me: BlockApartenance) -> (r: Vec<BlockPosition>)
    ensures
        r@ == movable(tuiles@, troups@, me),
{
    let mut r: Vec<BlockPosition> = Vec::new();
    let mut k: usize = 0;
    while k < tuiles.len()
        invariant
            k <= tuiles@.len(),
            r@ == movable(tuiles@.take(k as int), troups@, me),
        decreases tuiles@.len() - k,
    {
        let t = tuiles[k];
        proof {
            assert(tuiles@.take(k + 1).drop_last() == tuiles@.take(k as int));
            assert(tuiles@.take(k + 1).last() == t);
        }
        if t.owner == me && t.kind.is_empty() && !occupe(troups, t.pos) {
            r.push(t.pos);
        }
        k = k + 1;
    }
    proof {
        assert(tuiles@.take(k as int) == tuiles@);
    }
    r
}

/// The index of the last troop of `o` standing on `p`, if there is one.
pub open spec fn last_mover(ts: Seq<TroupUnit>, p: BlockPosition, o: TroupApartenance) -> Option<int>
    decreases ts.len(),
{
    if ts.len() == 0 {
        None
    } else if troup_tile(ts.last().pos) == p && ts.last().owner == o {
        Some(ts.len() - 1)
    } else {
        last_mover(ts.drop_last(), p, o)
    }
}

proof fn lemma_last_mover_bounds(ts: Seq<TroupUnit>, p: BlockPosition, o: TroupApartenance)
    ensures
        last_mover(ts, p, o) matches Some(q) ==> 0 <= q < ts.len() && troup_tile(ts[q].pos) == p && ts[q].owner == o,
    decreases ts.len(),
{
    if ts.len() > 0 {
        lemma_last_mover_bounds(ts.drop_last(), p, o);
    }
}

/// The move is open from `sel`, with the zone of the tiles within
/// `speed` steps over the tiles `ps`, each once.
pub open spec fn move_opened(e: Etat, sel: BlockPosition, ps: Seq<BlockPosition>, speed: nat) -> bool {
    match e {
        Etat::Move { adjacentes, pos_d } => pos_d == sel && distinct(adjacentes@)
            && forall|p: BlockPosition| #[trigger] adjacentes@.contains(p) <==> in_zone(ps, sel, speed, p),
        _ => false,
    }
}

/// Whether key Z on this state runs without failing: a spectator cannot
/// look at a troop on the selected tile, and for each troop of the
/// player's standing there, the coordinates that its zone compares (over
/// the tiles to which it may move, as far as its speed) fit.
pub open spec fn deplacer_defined(v: Vue, z: bool) -> bool {
    (v.identity is Some && !(v.etat is Move) && z && v.selected is Some
        && occupied(v.troups@, v.selected.unwrap().blockpos)) ==> {
        let id = v.identity.unwrap();
        let sel = v.selected.unwrap().blockpos;
        &&& is_player(id)
        &&& forall|k: int| 0 <= k < v.troups@.len() && troup_tile((#[trigger] v.troups@[k]).pos) == sel
            && v.troups@[k].owner == troup_owner_of(id) ==>
            zone_fits(movable(v.tuiles@, v.troups@, block_owner_of(id)), sel, speed_of(v.troups@[k].troup) as nat)
    }
}

/// Whether key Z runs without failing on this state (see `deplacer_defined`).
pub fn deplacer_possible(vue: &Vue, z_pressed: bool) -> (r: bool)
    requires
        vue.wf(),
    ensures
        r == deplacer_defined(*vue, z_pressed),
{
    let (id, sel) = match (vue.identity, vue.selected) {
        (Some(id), Some(sel)) => (id, sel.blockpos),
        _ => return true,
    };
    let moving = match vue.etat {
        Etat::Move { .. } => true,
        _ => false,
    };
    if moving || !z_pressed || !occupe(&vue.troups, sel) {
        return true;
    }
    if id == PacketIdentification::Spectateur {
        return false;
    }
    let zone = cases_mouvement(&vue.tuiles, &vue.troups, id.get_block_apartenance());
    let own = id.get_troup_apartenance();
    let mut k: usize = 0;
    while k < vue.troups.len()
        invariant
            k <= vue.troups@.len(),
            own == troup_owner_of(id),
            vue.identity == Some(id),
            vue.selected is Some && vue.selected.unwrap().blockpos == sel,
            !(vue.etat is Move),
            z_pressed,
            occupied(vue.troups@, sel),
            is_player(id),
            zone@ == movable(vue.tuiles@, vue.troups@, block_owner_of(id)),
            forall|a: int| 0 <= a < k && troup_tile((#[trigger] vue.troups@[a]).pos) == sel && vue.troups@[a].owner == own ==>
                zone_fits(zone@, sel, speed_of(vue.troups@[a].troup) as nat),
        decreases vue.troups@.len() - k,
    {
        let u = vue.troups[k];
        let tile = u.pos.to_troup_position();
        if tile == sel && u.owner == own && !zone_fits_exec(zone.as_slice(), sel, u.troup.get_vitesse()) {
            proof {
                assert(troup_tile(vue.troups@[k as int].pos) == sel);
            }
            return false;
        }
        k = k + 1;
    }
    true
}

/// Key Z on a tile where a troop of the player's stands opens the move:
/// the troop may go as far as its speed over the player's free grass and
/// forest tiles.
pub fn deplacer(vue: &mut Vue, z_pressed: bool)
    requires
        old(vue).wf(),
        deplacer_defined(*old(vue), z_pressed),
    ensures
        final(vue).wf(),
        same_game(*old(vue), *final(vue)),
        if old(vue).identity is Some && !(old(vue).etat is Move) && z_pressed && old(vue).selected is Some
            && last_mover(old(vue).troups@, old(vue).selected.unwrap().blockpos, troup_owner_of(old(vue).identity.unwrap())) is Some {
            let sel = old(vue).selected.unwrap().blockpos;
            let id = old(vue).identity.unwrap();
            let q = last_mover(old(vue).troups@, sel, troup_owner_of(id)).unwrap();
            let zone_ok = movable(old(vue).tuiles@, old(vue).troups@, block_owner_of(id));
            &&& move_opened(final(vue).etat, sel, zone_ok, speed_of(old(vue).troups@[q].troup) as nat)
            &&& shows(final(vue).data_print, msg_where())
        } else {
            final(vue).etat == old(vue).etat && final(vue).data_print == old(vue).data_print
        },
{
    if let (Some(identity), Some(select)) = (vue.identity, vue.selected) {
        let moving = match vue.etat {
            Etat::Move { .. } => true,
            _ => false,
        };
        if !moving && z_pressed {
            let sel = select.blockpos;
            let ghost ts = vue.troups@;
            let mut k: usize = 0;
            while k < vue.troups.len()
                invariant
                    k <= ts.len(),
                    ts == vue.troups@,
                    same_game(*old(vue), *vue),
                    old(vue).wf(),
                    deplacer_defined(*old(vue), z_pressed),
                    old(vue).identity == Some(identity),
                    old(vue).selected == Some(select),
                    sel == select.blockpos,
                    !(old(vue).etat is Move),
                    z_pressed,
                    is_player(identity) && last_mover(ts.take(k as int), sel, troup_owner_of(identity)) is Some ==> move_opened(vue.etat, sel,
                        movable(old(vue).tuiles@, ts, block_owner_of(identity)),
                        speed_of(ts[last_mover(ts.take(k as int), sel, troup_owner_of(identity)).unwrap()].troup) as nat),
                    is_player(identity) && last_mover(ts.take(k as int), sel, troup_owner_of(identity)) is Some ==> shows(vue.data_print, msg_where()),
                    (!is_player(identity) || last_mover(ts.take(k as int), sel, troup_owner_of(identity)) is None) ==> (
                        vue.etat == old(vue).etat && vue.data_print == old(vue).data_print),
                    forall|a: int| 0 <= a < k ==> troup_tile(#[trigger] ts[a].pos) != sel || is_player(identity),
                decreases ts.len() - k,
            {
                let u = vue.troups[k];
                proof {
                    assert(ts.take(k + 1).drop_last() == ts.take(k as int));
                    assert(ts.take(k + 1).last() == u);
                }
                if u.pos.to_troup_position() == sel {
                    proof {
                        assert(occupied(ts, sel)) by {
                            assert(troup_tile(ts[k as int].pos) == sel);
                        }
                    }
                    if identity.get_troup_apartenance() == u.owner {
                        let positions = cases_mouvement(&vue.tuiles, &vue.troups, identity.get_block_apartenance());
                        proof {
                            assert(troup_tile(ts[k as int].pos) == sel);
                        }
                        let adjacentes = cases_adjacentes_rayon(positions.as_slice(), sel, u.troup.get_vitesse());
                        vue.etat = Etat::Move { adjacentes, pos_d: sel };
                        vue.data_print = texte("Where your soldiers will go ?");
                    }
                }
                k = k + 1;
            }
            proof {
                assert(ts.take(k as int) == ts);
                lemma_last_mover_bounds(ts, sel, troup_owner_of(identity));
                if last_mover(ts, sel, troup_owner_of(identity)) is Some && !is_player(identity) {
                    let q = last_mover(ts, sel, troup_owner_of(identity)).unwrap();
                    assert(troup_tile(ts[q].pos) == sel);
                }
            }
        }
    }
}

/// The effect of choosing the destination of a move.
pub open spec fn move_target(v: Vue, changed: bool) -> bool {
    &&& v.tour is Some && v.selected is Some && v.identity is Some
    &&& v.tour.unwrap().current_player == v.identity.unwrap()
    &&& v.etat matches Etat::Move { adjacentes, pos_d } && changed
        && exists|j: int| 0 <= j < v.tuiles@.len() && adjacentes@.contains(#[trigger] v.tuiles@[j].pos)
}

/// Choosing where the troops go, once the move is open: when the selection
/// changes (and some tile lies in the zone), a tile of the zone sends the troops there (the turn passes) and
/// any other tile is refused; either way the move ends.
pub fn test(vue: &mut Vue, selection_changed: bool) -> (r: Option<DeplacementEvent>)
    requires
        old(vue).wf(),
    ensures
        final(vue).wf(),
        same_game_but_turn(*old(vue), *final(vue)),
        if move_target(*old(vue), selection_changed) {
            let sel = old(vue).selected.unwrap().blockpos;
            let adjacentes = old(vue).etat->adjacentes;
            let pos_d = old(vue).etat->pos_d;
            &&& final(vue).etat is Idle
            &&& if adjacentes@.contains(sel) && pos_d != no_position() {
                &&& r == Some(DeplacementEvent { pos_start: pos_d, pos_end: sel })
                &&& final(vue).tour == Some(Tour { current_player: enemy_of(old(vue).tour.unwrap().current_player) })
                &&& final(vue).data_print is Rien
            } else {
                &&& r is None
                &&& final(vue).tour == old(vue).tour
                &&& if adjacentes@.contains(sel) { final(vue).data_print == old(vue).data_print } else { shows(final(vue).data_print, msg_cant_go()) }
            }
        } else {
            &&& r is None && final(vue).tour == old(vue).tour
            &&& final(vue).etat == old(vue).etat && final(vue).data_print == old(vue).data_print
        },
{
    let mut r: Option<DeplacementEvent> = None;
    if let (Some(mut tour), Some(select), Some(identity)) = (vue.tour, vue.selected, vue.identity) {
        if tour.current_player == identity && selection_changed {
            let target = match &vue.etat {
                Etat::Move { adjacentes, pos_d } => {
                    let mut hit = false;
                    let mut k: usize = 0;
                    while k < vue.tuiles.len()
                        invariant
                            k <= vue.tuiles@.len(),
                            hit == exists|j: int| 0 <= j < k && adjacentes@.contains(#[trigger] vue.tuiles@[j].pos),
                        decreases vue.tuiles@.len() - k,
                    {
                        if contient(adjacentes, vue.tuiles[k].pos) {
                            hit = true;
                        }
                        k = k + 1;
                    }
                    if hit {
                        Some((contient(adjacentes, select.blockpos), *pos_d))
                    } else {
                        None
                    }
                },
                _ => None,
            };
            if let Some((inside, pos_d)) = target {
                if inside {
                    if pos_d != (BlockPosition { x: 100, y: 100 }) {
                        r = Some(DeplacementEvent { pos_start: pos_d, pos_end: select.blockpos });
                        tour.change_tour();
                        vue.tour = Some(tour);
                        vue.data_print = DataPrint::Rien;
                    }
                } else {
                    vue.data_print = texte(" You can't go here ");
                }
                vue.etat = Etat::Idle;
            }
        }
    }
    r
}

/// How the display shows a troop that stands on the tile `p`, for the
/// viewer `id`: hidden in a forest when it is the enemy's, shown on any
/// other kind of tile; left as it was in a forest when it is the viewer's.
pub open spec fn forest_visibility(ts: Seq<Tuile>, u: TroupUnit, id: PacketIdentification) -> Option<bool> {
    match tile_at(ts, troup_tile(u.pos)) {
        Some(j) => if ts[j].kind == BlockType::GrassForest {
            if u.owner == troup_owner_of(enemy_of(id)) { Some(false) } else { None }
        } else {
            Some(true)
        },
        None => None,
    }
}

/// Whether the forest rule runs without failing: a spectator cannot have a
/// troop in a forest.
pub open spec fn forest_defined(v: Vue) -> bool {
    v.identity is Some ==> (is_player(v.identity.unwrap()) || forall|k: int| 0 <= k < v.troups@.len() ==>
        !(#[trigger] tile_at(v.tuiles@, troup_tile(v.troups@[k].pos)) matches Some(j) && v.tuiles@[j].kind == BlockType::GrassForest))
}

/// For each troop, whether the display shows it (`Some(true)`), hides it
/// (`Some(false)`) or leaves it as it was (`None`): enemy troops hide in forests.
pub fn forest(vue: &Vue) -> (r: Vec<Option<bool>>)
    requires
        vue.wf(),
        forest_defined(*vue),
    ensures
        r@.len() == vue.troups@.len(),
        forall|k: int| 0 <= k < r@.len() ==> #[trigger] r@[k] == (match vue.identity {
            Some(id) => forest_visibility(vue.tuiles@, vue.troups@[k], id),
            None => None,
        }),
{
    let mut r: Vec<Option<bool>> = Vec::new();
    let mut k: usize = 0;
    while k < vue.troups.len()
        invariant
            k <= vue.troups@.len(),
            vue.wf(),
            forest_defined(*vue),
            r@.len() == k,
            forall|a: int| 0 <= a < k ==> #[trigger] r@[a] == (match vue.identity {
                Some(id) => forest_visibility(vue.tuiles@, vue.troups@[a], id),
                None => None,
            }),
        decreases vue.troups@.len() - k,
    {
        let u = vue.troups[k];
        let mut v: Option<bool> = None;
        if let Some(identity) = vue.identity {
            if let Some(j) = find_tile(&vue.tuiles, u.pos.to_troup_position()) {
                let t = vue.tuiles[j];
                if t.kind == BlockType::GrassForest {
                    proof {
                        if !is_player(identity) {
                            assert(tile_at(vue.tuiles@, troup_tile(vue.troups@[k as int].pos)) matches Some(j) && vue.tuiles@[j].kind == BlockType::GrassForest);
                        }
                    }
                    if u.owner == identity.get_enemie().get_troup_apartenance() {
                        v = Some(false);
                    }
                } else {
                    v = Some(true);
                }
            }
        }
        r.push(v);
        k = k + 1;
    }
    r
}

/// What the information panel does on a frame: whether the build menu's
/// tiles are shown (`None`: left as they are) and the text it prints
/// (`None`: left as it is).
pub fn print_info_interface(d: &DataPrint) -> (r: (Option<bool>, Option<String>))
    ensures
        *d is Rien ==> r.0 == Some(false) && r.1 is None,
        *d is AllBlock ==> r.0 == Some(true) && (r.1 matches Some(t) && t@ == Seq::<char>::empty()),
        *d matches DataPrint::Text { text } ==> r.0 == Some(false) && (r.1 matches Some(t) && t@ == text@),
        *d is Train ==> r.0 is None && (r.1 matches Some(t) && t@ == Seq::<char>::empty()),
{
    match d {
        DataPrint::Rien => (Some(false), None),
        DataPrint::AllBlock => (Some(true), Some(String::new())),
        DataPrint::Text { text } => (Some(false), Some(text.clone())),
        DataPrint::Train => (None, Some(String::new())),
    }
}

/// What the build menu's price labels do on a frame: whether the menu's
/// tiles are shown (`None`: left as they are), and whether each label
/// shows its building's name and price (`Some(true)`), is blanked
/// (`Some(false)`) or is left as it is (`None`).
pub fn print_info_interface_prix(d: &DataPrint) -> (r: (Option<bool>, Option<bool>))
    ensures
        r == match *d {
            DataPrint::Rien => (None, Some(false)),
            DataPrint::Text { .. } => (None, Some(false)),
            DataPrint::AllBlock => (Some(true), Some(true)),
            DataPrint::Train => (None::<bool>, None::<bool>),
        },
{
    match d {
        DataPrint::Rien => (None, Some(false)),
        DataPrint::Text { .. } => (None, Some(false)),
        DataPrint::AllBlock => (Some(true), Some(true)),
        DataPrint::Train => (None, None),
    }
}

/// Whether the training menu is shown, each troop's label giving its
/// description; otherwise it is hidden and its labels blanked.
pub fn print_troup(d: &DataPrint) -> (r: bool)
    ensures
        r == (*d is Train),
{
    match d {
        DataPrint::Train => true,
        _ => false,
    }
}

/// The information panel's sentence: the selected tile's kind and owner,
/// or that nothing is selected; `None` (the panel is left as it is) for a
/// client without a role or a selection that is on no tile.
pub fn gestion_texte_info(vue: &Vue) -> (r: Option<String>)
    requires
        vue.wf(),
    ensures
        match (vue.identity, vue.selected) {
            (None, _) => r is None,
            (Some(_), None) => r matches Some(t) && t@ == "Any blocks are selected"@,
            (Some(id), Some(sel)) => match tile_at(vue.tuiles@, sel.blockpos) {
                None => r is None,
                Some(j) => r matches Some(t) && t@ == "This case is "@ + block_description(vue.tuiles@[j].kind) + ", "@
                    + owner_description(vue.tuiles@[j].owner, id),
            },
        },
{
    match (vue.identity, vue.selected) {
        (None, _) => None,
        (Some(_), None) => Some("Any blocks are selected".to_owned()),
        (Some(identity), Some(sel)) => match find_tile(&vue.tuiles, sel.blockpos) {
            None => None,
            Some(j) => Some(texte_case(vue.tuiles[j].kind, vue.tuiles[j].owner, identity)),
        },
    }
}

/// The tints that the display gives to tiles.
#[derive(Clone, Copy, Debug, PartialEq, Eq, Structural)]
pub enum Teinte {
    Bleu,
    Orange,
    Blanc,
}

/// The tint of a tile of `owner` for the viewer `identity`: the viewer's
/// own tiles are blue and the enemy's orange (a spectator sees the first
/// player's in blue); neutral tiles are white.
pub fn color_system(identity: PacketIdentification, owner: BlockApartenance) -> (r: Teinte)
    ensures
        r == match owner {
            BlockApartenance::Neutre => Teinte::Blanc,
            BlockApartenance::Joueur1 => if identity == PacketIdentification::Joueur2 { Teinte::Orange } else { Teinte::Bleu },
            BlockApartenance::Joueur2 => if identity == PacketIdentification::Joueur2 { Teinte::Bleu } else { Teinte::Orange },
        },
        is_player(identity) && owner != BlockApartenance::Neutre ==> (r == Teinte::Bleu <==> owner == block_owner_of(identity)),
{
    let colors = match identity {
        PacketIdentification::Joueur1 => (Teinte::Bleu, Teinte::Orange),
        PacketIdentification::Joueur2 => (Teinte::Orange, Teinte::Bleu),
        PacketIdentification::Spectateur => (Teinte::Bleu, Teinte::Orange),
    };
    match owner {
        BlockApartenance::Joueur1 => colors.0,
        BlockApartenance::Joueur2 => colors.1,
        BlockApartenance::Neutre => Teinte::Blanc,
    }
}

} // verus!
