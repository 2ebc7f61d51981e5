use border_wars::server::{build_possible, conquest_possible, income_possible, recolt_possible};
use border_wars::board::{Block, Board, Player, TroupUnit};
use border_wars::client::{get_ressource as client_income, DataPrint, Etat, Tuile, Vue};
use border_wars::map::{init_map, tile_for};
use border_wars::model::{
    BlockApartenance, BlockPosition, BlockType, CombatEvent, ConqueteEvent, DeplacementEvent,
    DestroyEvent, EventBuild, Moula, NiveauTroup, PacketIdentification, Race, RecoltEvent,
    ReponceCombatEvent, TrainEvent, Troup, TroupApartenance, TroupPosition,
};
use border_wars::server::{
    accueil_client, cases_libres, combat, deplacement_troup, destroy_server_side, gestion_build,
    gestion_new_client, gestion_reponse, gestion_use_resource, get_ressource,
    jedetestetimeoduplusprofonddemonetrejusquaufinfonddemesentrailles, new_troup, new_troup_at,
};

fn p(x: u8, y: u8) -> BlockPosition {
    BlockPosition { x, y }
}

fn plateau() -> Board {
    let mut b = Board::new(init_map());
    // Make the map predictable: no forest or hill except where a test puts one.
    for blk in b.blocks.iter_mut() {
        if blk.owner == BlockApartenance::Neutre {
            blk.kind = BlockType::Grass;
        }
    }
    b.players.push(Player {
        entity: 11,
        identity: PacketIdentification::Joueur1,
        moula: Moula { stone: 5000, wood: 5000, food: 0 },
        race: Race::Chevalier,
    });
    b.players.push(Player {
        entity: 22,
        identity: PacketIdentification::Joueur2,
        moula: Moula { stone: 5000, wood: 5000, food: 0 },
        race: Race::Arabe,
    });
    b
}

fn bloc(b: &Board, x: u8, y: u8) -> Block {
    *b.blocks.iter().find(|k| k.pos == p(x, y)).unwrap()
}

#[test]
fn carte_initiale() {
    let m = init_map();
    assert_eq!(m.len(), 90);
    for (k, blk) in m.iter().enumerate() {
        assert_eq!(blk.pos, p((k % 10) as u8, (k / 10) as u8));
    }
    assert_eq!(m[41].kind, BlockType::Castle);
    assert_eq!(m[41].owner, BlockApartenance::Joueur1);
    assert_eq!(m[49].kind, BlockType::Castle);
    assert_eq!(m[49].owner, BlockApartenance::Joueur2);
    assert_eq!(m[50].owner, BlockApartenance::Joueur1);
    assert_eq!(m[48].owner, BlockApartenance::Joueur2);
    let neutres = m.iter().filter(|b| b.owner == BlockApartenance::Neutre).count();
    assert_eq!(neutres, 78);
    for blk in m.iter().filter(|b| b.owner == BlockApartenance::Neutre) {
        assert!(matches!(blk.kind, BlockType::Grass | BlockType::GrassForest | BlockType::GrassHill));
    }
}

#[test]
fn tuiles_aleatoires() {
    assert_eq!(tile_for(5, 5, true, true).kind, BlockType::GrassForest);
    assert_eq!(tile_for(5, 5, true, false).kind, BlockType::GrassHill);
    assert_eq!(tile_for(5, 5, false, true).kind, BlockType::Grass);
    assert_eq!(tile_for(1, 4, true, true).kind, BlockType::Castle);
    assert_eq!(tile_for(8, 3, true, true).owner, BlockApartenance::Joueur2);
}

#[test]
fn construction_payee_et_tour_passe() {
    let mut b = plateau();
    gestion_build(&mut b, 11, EventBuild { who_are_u: PacketIdentification::Joueur1, pos: p(2, 4), type_b: BlockType::Mine });
    assert_eq!(bloc(&b, 2, 4).kind, BlockType::Mine);
    assert_eq!(b.players[0].moula, Moula { stone: 4700, wood: 4800, food: 0 });
    assert_eq!(b.tour.current_player, PacketIdentification::Joueur2);
}

#[test]
fn construction_hors_tour_ignoree() {
    let mut b = plateau();
    gestion_build(&mut b, 22, EventBuild { who_are_u: PacketIdentification::Joueur2, pos: p(8, 4), type_b: BlockType::Mine });
    assert_eq!(bloc(&b, 8, 4).kind, BlockType::Grass);
    assert_eq!(b.tour.current_player, PacketIdentification::Joueur1);
    gestion_build(&mut b, 99, EventBuild { who_are_u: PacketIdentification::Joueur1, pos: p(2, 4), type_b: BlockType::Mine });
    assert_eq!(bloc(&b, 2, 4).kind, BlockType::Grass);
    assert_eq!(b.tour.current_player, PacketIdentification::Joueur1);
}

#[test]
fn construction_trop_chere() {
    let mut b = plateau();
    b.players[0].moula = Moula { stone: 100, wood: 100, food: 0 };
    gestion_build(&mut b, 11, EventBuild { who_are_u: PacketIdentification::Joueur1, pos: p(2, 4), type_b: BlockType::Mine });
    assert_eq!(bloc(&b, 2, 4).kind, BlockType::Grass);
    assert_eq!(b.players[0].moula.stone, 100);
    assert_eq!(b.tour.current_player, PacketIdentification::Joueur2);
}

#[test]
fn recolte_de_foret() {
    let mut b = plateau();
    let k = b.blocks.iter().position(|k| k.pos == p(2, 4)).unwrap();
    b.blocks[k].kind = BlockType::GrassForest;
    gestion_use_resource(&mut b, 11, RecoltEvent { pos: p(2, 4) });
    assert_eq!(bloc(&b, 2, 4).kind, BlockType::Grass);
    assert_eq!(b.players[0].moula.wood, 5500);
    assert_eq!(b.tour.current_player, PacketIdentification::Joueur2);
}

#[test]
fn recolte_de_colline_ennemie_refusee() {
    let mut b = plateau();
    let k = b.blocks.iter().position(|k| k.pos == p(8, 4)).unwrap();
    b.blocks[k].kind = BlockType::GrassHill;
    gestion_use_resource(&mut b, 11, RecoltEvent { pos: p(8, 4) });
    assert_eq!(bloc(&b, 8, 4).kind, BlockType::GrassHill);
    assert_eq!(b.players[0].moula.stone, 5000);
    assert_eq!(b.tour.current_player, PacketIdentification::Joueur2);
}

#[test]
fn destruction_de_sa_case() {
    let mut b = plateau();
    destroy_server_side(&mut b, 11, DestroyEvent { pos: p(1, 4) });
    assert_eq!(bloc(&b, 1, 4).kind, BlockType::Grass);
    assert_eq!(b.tour.current_player, PacketIdentification::Joueur2);
    destroy_server_side(&mut b, 22, DestroyEvent { pos: p(2, 4) });
    assert_eq!(bloc(&b, 2, 4).owner, BlockApartenance::Joueur1);
    assert_eq!(b.tour.current_player, PacketIdentification::Joueur1);
}

#[test]
fn revenus_du_tour() {
    let mut b = plateau();
    for (x, y, k) in [(2, 4, BlockType::Farm), (1, 3, BlockType::Mine), (0, 3, BlockType::Sheep), (8, 4, BlockType::Farm)] {
        let i = b.blocks.iter().position(|blk| blk.pos == p(x, y)).unwrap();
        b.blocks[i].kind = k;
    }
    get_ressource(&mut b);
    assert_eq!(b.players[0].moula, Moula { stone: 5100, wood: 5100, food: 25 });
    assert_eq!(b.players[1].moula, Moula { stone: 5000, wood: 5100, food: 0 });
}

#[test]
fn deplacement_des_troupes() {
    let mut b = plateau();
    let t = Troup { race: Race::Chevalier, niveau: NiveauTroup::Niveau1 };
    b.troups.push(TroupUnit { id: 1, troup: t, owner: TroupApartenance::Joueur1, pos: TroupPosition { x: 2, y: 4 } });
    b.troups.push(TroupUnit { id: 2, troup: t, owner: TroupApartenance::Joueur1, pos: TroupPosition { x: 0, y: 5 } });
    deplacement_troup(&mut b, DeplacementEvent { pos_start: p(2, 4), pos_end: p(3, 4) });
    assert_eq!(b.troups[0].pos, TroupPosition { x: 3, y: 4 });
    assert_eq!(b.troups[1].pos, TroupPosition { x: 0, y: 5 });
    assert_eq!(b.tour.current_player, PacketIdentification::Joueur2);
    // No tile at the start: nothing moves.
    deplacement_troup(&mut b, DeplacementEvent { pos_start: p(50, 50), pos_end: p(3, 4) });
    assert_eq!(b.tour.current_player, PacketIdentification::Joueur2);
}

#[test]
fn conquete_d_une_case_voisine() {
    let mut b = plateau();
    jedetestetimeoduplusprofonddemonetrejusquaufinfonddemesentrailles(&mut b, 11, ConqueteEvent(p(3, 4)));
    assert_eq!(bloc(&b, 3, 4).owner, BlockApartenance::Joueur1);
    assert_eq!(b.tour.current_player, PacketIdentification::Joueur2);
    // Too far from the player's land: the turn passes, the tile stays neutral.
    jedetestetimeoduplusprofonddemonetrejusquaufinfonddemesentrailles(&mut b, 22, ConqueteEvent(p(4, 0)));
    assert_eq!(bloc(&b, 4, 0).owner, BlockApartenance::Neutre);
    assert_eq!(b.tour.current_player, PacketIdentification::Joueur1);
}

#[test]
fn combat_et_reponse() {
    let mut b = plateau();
    let fort = Troup { race: Race::Chevalier, niveau: NiveauTroup::Niveau3 };
    let faible = Troup { race: Race::Chinoi, niveau: NiveauTroup::Niveau1 };
    b.troups.push(TroupUnit { id: 1, troup: fort, owner: TroupApartenance::Joueur1, pos: TroupPosition { x: 6, y: 4 } });
    b.troups.push(TroupUnit { id: 2, troup: faible, owner: TroupApartenance::Joueur2, pos: TroupPosition { x: 8, y: 4 } });
    let rep = combat(&mut b, 11, CombatEvent { pos: p(7, 4) }).unwrap();
    assert_eq!(rep, ReponceCombatEvent { id: PacketIdentification::Joueur1, pos: p(7, 4), entity: 11 });
    assert_eq!(b.tour.current_player, PacketIdentification::Joueur2);
    gestion_reponse(&mut b, rep);
    assert_eq!(b.troups.len(), 1);
    assert_eq!(b.troups[0].id, 1);
    assert_eq!(bloc(&b, 7, 4).owner, BlockApartenance::Joueur1);
}

#[test]
fn combat_d_un_inconnu() {
    let mut b = plateau();
    assert_eq!(combat(&mut b, 77, CombatEvent { pos: p(7, 4) }), None);
    assert_eq!(b.tour.current_player, PacketIdentification::Joueur2);
}

#[test]
fn nouvelle_troupe_sur_case_libre() {
    let mut b = plateau();
    let libres = cases_libres(&b, BlockApartenance::Joueur1);
    assert_eq!(libres, vec![p(0, 3), p(1, 3), p(2, 4), p(0, 5), p(1, 5)]);
    let r = new_troup_at(&mut b, 11, TrainEvent { niv: NiveauTroup::Niveau2 }, 2, 77).unwrap();
    assert_eq!(r.pos, TroupPosition { x: 2, y: 4 });
    assert_eq!(r.troup, Troup { race: Race::Chevalier, niveau: NiveauTroup::Niveau2 });
    assert_eq!(r.owner, TroupApartenance::Joueur1);
    assert_eq!(b.tour.current_player, PacketIdentification::Joueur2);
    assert_eq!(b.troups, vec![TroupUnit { id: 77, troup: r.troup, owner: r.owner, pos: r.pos }]);
    assert_eq!(cases_libres(&b, BlockApartenance::Joueur1), vec![p(0, 3), p(1, 3), p(0, 5), p(1, 5)]);
}

#[test]
fn nouvelle_troupe_au_hasard() {
    let mut b = plateau();
    let libres = cases_libres(&b, BlockApartenance::Joueur2);
    for k in 0..5u64 {
        let r = new_troup(&mut b, 22, TrainEvent { niv: NiveauTroup::Niveau1 }, 100 + k).unwrap();
        assert!(libres.contains(&r.pos.to_troup_position()));
        assert_eq!(r.owner, TroupApartenance::Joueur2);
        assert_eq!(b.troups.len() as u64, k + 1);
        assert_eq!(b.troups[k as usize].id, 100 + k);
    }
    // Every free tile now holds a troop.
    assert!(cases_libres(&b, BlockApartenance::Joueur2).is_empty());
    assert_eq!(new_troup(&mut b, 22, TrainEvent { niv: NiveauTroup::Niveau1 }, 200), None);
    assert_eq!(b.troups.len(), 5);
    assert_eq!(b.tour.current_player, PacketIdentification::Joueur1);
}

#[test]
fn pas_de_place_pour_une_troupe() {
    let mut b = plateau();
    let t = Troup { race: Race::Chevalier, niveau: NiveauTroup::Niveau1 };
    for (i, q) in [p(1, 3), p(0, 3), p(2, 4), p(0, 5), p(1, 5)].iter().enumerate() {
        b.troups.push(TroupUnit { id: i as u64, troup: t, owner: TroupApartenance::Joueur1, pos: q.to_troup_position() });
    }
    assert_eq!(new_troup(&mut b, 11, TrainEvent { niv: NiveauTroup::Niveau1 }, 9), None);
    assert_eq!(b.troups.len(), 5);
    assert_eq!(b.tour.current_player, PacketIdentification::Joueur2);
}

#[test]
fn accueil_des_clients() {
    let mut b = Board::new(init_map());
    let mut count: u8 = 0;
    let (id1, race1) = accueil_client(&mut b, &mut count, 5, 3);
    assert_eq!(id1, PacketIdentification::Joueur1);
    assert_eq!(race1, Some(Race::Noir));
    assert_eq!(b.players[0].moula, Moula { stone: 5000, wood: 5000, food: 0 });
    let (id2, race2) = gestion_new_client(&mut b, &mut count, 6);
    assert_eq!(id2, PacketIdentification::Joueur2);
    assert!(race2.is_some());
    let (id3, race3) = gestion_new_client(&mut b, &mut count, 7);
    assert_eq!(id3, PacketIdentification::Spectateur);
    assert_eq!(race3, None);
    assert_eq!(b.players.len(), 2);
    assert_eq!(count, 3);
}

#[test]
fn detruire_ce_qu_on_a_construit() {
    let mut b = plateau();
    let avant: Vec<Block> = b.blocks.clone();
    gestion_build(&mut b, 11, EventBuild { who_are_u: PacketIdentification::Joueur1, pos: p(2, 4), type_b: BlockType::Farm });
    assert_eq!(bloc(&b, 2, 4).kind, BlockType::Farm);
    // The other player passes their turn by building out of their means.
    b.players[1].moula = Moula { stone: 0, wood: 0, food: 0 };
    gestion_build(&mut b, 22, EventBuild { who_are_u: PacketIdentification::Joueur2, pos: p(8, 4), type_b: BlockType::Farm });
    assert_eq!(b.tour.current_player, PacketIdentification::Joueur1);
    destroy_server_side(&mut b, 11, DestroyEvent { pos: p(2, 4) });
    assert_eq!(b.blocks, avant);
}

#[test]
fn un_deplacement_garde_les_troupes() {
    let mut b = plateau();
    b.troups.push(TroupUnit { id: 1, troup: Troup { race: Race::Arabe, niveau: NiveauTroup::Niveau2 }, owner: TroupApartenance::Joueur1, pos: TroupPosition { x: 2, y: 4 } });
    b.troups.push(TroupUnit { id: 2, troup: Troup { race: Race::Noir, niveau: NiveauTroup::Niveau1 }, owner: TroupApartenance::Joueur2, pos: TroupPosition { x: 7, y: 4 } });
    deplacement_troup(&mut b, DeplacementEvent { pos_start: p(2, 4), pos_end: p(3, 4) });
    assert_eq!(b.troups.len(), 2);
    assert_eq!(b.troups[0].id, 1);
    assert_eq!(b.troups[0].troup, Troup { race: Race::Arabe, niveau: NiveauTroup::Niveau2 });
    assert_eq!(b.troups[0].pos, TroupPosition { x: 3, y: 4 });
    assert_eq!(b.troups[1].pos, TroupPosition { x: 7, y: 4 });
}

#[test]
fn aller_retour_des_troupes() {
    let mut b = plateau();
    b.troups.push(TroupUnit { id: 1, troup: Troup { race: Race::Arabe, niveau: NiveauTroup::Niveau2 }, owner: TroupApartenance::Joueur1, pos: TroupPosition { x: 2, y: 4 } });
    b.troups.push(TroupUnit { id: 2, troup: Troup { race: Race::Noir, niveau: NiveauTroup::Niveau1 }, owner: TroupApartenance::Joueur2, pos: TroupPosition { x: 7, y: 4 } });
    let avant = b.troups.clone();
    deplacement_troup(&mut b, DeplacementEvent { pos_start: p(2, 4), pos_end: p(3, 4) });
    assert_ne!(b.troups, avant);
    deplacement_troup(&mut b, DeplacementEvent { pos_start: p(3, 4), pos_end: p(2, 4) });
    assert_eq!(b.troups, avant);
}

#[test]
fn client_et_serveur_comptent_les_memes_revenus() {
    let mut b = plateau();
    for (x, y, k) in [(2, 4, BlockType::Farm), (1, 3, BlockType::Mine), (0, 3, BlockType::Sheep), (8, 4, BlockType::Farm), (0, 5, BlockType::Farm)] {
        let i = b.blocks.iter().position(|blk| blk.pos == p(x, y)).unwrap();
        b.blocks[i].kind = k;
    }
    let tuiles: Vec<Tuile> = b
        .blocks
        .iter()
        .enumerate()
        .map(|(k, blk)| Tuile { entity: k as u64, pos: blk.pos, kind: blk.kind, owner: blk.owner })
        .collect();
    let mut v = Vue {
        identity: Some(PacketIdentification::Joueur1),
        race: Some(Race::Chevalier),
        tour: Some(b.tour),
        moula: b.players[0].moula,
        etat: Etat::Idle,
        data_print: DataPrint::Rien,
        selected: None,
        tuiles,
        troups: Vec::new(),
    };
    let mut vu = None;
    client_income(&mut v, &mut vu);
    get_ressource(&mut b);
    assert_eq!(v.moula, b.players[0].moula);
    assert_eq!(v.moula, Moula { stone: 5100, wood: 5200, food: 25 });
}

#[test]
fn combat_calculable() {
    let mut b = plateau();
    b.troups.push(TroupUnit { id: 1, troup: Troup { race: Race::Chevalier, niveau: NiveauTroup::Niveau1 }, owner: TroupApartenance::Joueur1, pos: TroupPosition { x: 6, y: 4 } });
    assert!(border_wars::server::combat_possible(&b, 11, CombatEvent { pos: p(7, 4) }));
    assert!(border_wars::server::combat_possible(&b, 99, CombatEvent { pos: p(7, 4) }));
    assert!(border_wars::server::troops_fit_exec(&b));
    b.troups.push(TroupUnit { id: 2, troup: Troup { race: Race::Chevalier, niveau: NiveauTroup::Niveau1 }, owner: TroupApartenance::Joueur2, pos: TroupPosition { x: 130, y: 4 } });
    assert!(!border_wars::server::troops_fit_exec(&b));
    assert!(!border_wars::server::combat_possible(&b, 11, CombatEvent { pos: p(7, 4) }));
    // A connection that is not a player starts no fight, so nothing is computed.
    assert!(border_wars::server::combat_possible(&b, 99, CombatEvent { pos: p(7, 4) }));
}

#[test]
fn deplacement_dit_si_le_tour_passe() {
    let mut b = plateau();
    b.troups.push(TroupUnit { id: 1, troup: Troup { race: Race::Arabe, niveau: NiveauTroup::Niveau2 }, owner: TroupApartenance::Joueur1, pos: TroupPosition { x: 2, y: 4 } });
    assert!(!deplacement_troup(&mut b, DeplacementEvent { pos_start: p(5, 5), pos_end: p(3, 4) }));
    assert!(deplacement_troup(&mut b, DeplacementEvent { pos_start: p(2, 4), pos_end: p(3, 4) }));
    assert_eq!(b.tour.current_player, PacketIdentification::Joueur2);
}

#[test]
fn verifications_du_serveur() {
    let mut b = plateau();
    let ok = EventBuild { who_are_u: PacketIdentification::Joueur1, pos: p(2, 4), type_b: BlockType::Mine };
    assert!(build_possible(&b, 11, ok));
    let sans_prix = EventBuild { who_are_u: PacketIdentification::Joueur1, pos: p(2, 4), type_b: BlockType::Castle };
    assert!(!build_possible(&b, 11, sans_prix));
    // Out of turn nothing is computed.
    assert!(build_possible(&b, 22, sans_prix));

    let k = b.blocks.iter().position(|k| k.pos == p(2, 4)).unwrap();
    b.blocks[k].kind = BlockType::GrassHill;
    assert!(recolt_possible(&b, 11, RecoltEvent { pos: p(2, 4) }));
    b.players[0].moula.stone = u32::MAX - 10;
    assert!(!recolt_possible(&b, 11, RecoltEvent { pos: p(2, 4) }));

    assert!(conquest_possible(&b, 11, ConqueteEvent(p(3, 4))));
    assert!(!conquest_possible(&b, 11, ConqueteEvent(p(130, 4))));
    assert!(conquest_possible(&b, 22, ConqueteEvent(p(130, 4))));

    assert!(income_possible(&b));
    b.blocks[k].kind = BlockType::Mine;
    assert!(!income_possible(&b));
}
