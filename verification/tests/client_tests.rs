use border_wars::client::{build_possible, deplacer_possible, income_possible, train_possible, used_possible};
use border_wars::board::TroupUnit;
use border_wars::client::{
    attaque, bloc_touche, build, calcule_cases_adjacentes, cases_mouvement, color_system,
    creat_troup, deplacer, destroy, find_entity, find_tile, forest, gestion_build,
    gestion_texte_info, get_ressource, niveau_touche, place_libre, print_info_interface,
    print_info_interface_prix, print_troup, used, Assaut, CaseAdjacente, DataPrint, Etat,
    SelectedCase, Teinte, Touche, Tuile, Vue,
};
use border_wars::model::{
    BlockApartenance, BlockPosition, BlockType, CombatEvent, ConqueteEvent, DeplacementEvent,
    DestroyEvent, EventBuild, Moula, NiveauTroup, PacketIdentification, Race, RecoltEvent,
    TrainEvent, Tour, Troup, TroupApartenance, TroupPosition,
};

fn p(x: u8, y: u8) -> BlockPosition {
    BlockPosition { x, y }
}

/// A 4 x 3 map: row 0 belongs to player 1, row 2 to player 2, row 1 is neutral.
fn tuiles() -> Vec<Tuile> {
    let mut v = Vec::new();
    for y in 0..3u8 {
        for x in 0..4u8 {
            let owner = match y {
                0 => BlockApartenance::Joueur1,
                2 => BlockApartenance::Joueur2,
                _ => BlockApartenance::Neutre,
            };
            v.push(Tuile { entity: 1000 + (y as u64) * 4 + x as u64, pos: p(x, y), kind: BlockType::Grass, owner });
        }
    }
    v
}

fn entite(x: u8, y: u8) -> u64 {
    1000 + (y as u64) * 4 + x as u64
}

fn poser(v: &mut Vue, x: u8, y: u8, kind: BlockType) {
    for t in v.tuiles.iter_mut() {
        if t.pos == p(x, y) {
            t.kind = kind;
        }
    }
}

fn vue() -> Vue {
    Vue {
        identity: Some(PacketIdentification::Joueur1),
        race: Some(Race::Chevalier),
        tour: Some(Tour { current_player: PacketIdentification::Joueur1 }),
        moula: Moula { stone: 0, wood: 0, food: 0 },
        etat: Etat::Idle,
        data_print: DataPrint::Rien,
        selected: None,
        tuiles: tuiles(),
        troups: Vec::new(),
    }
}

fn choisir(v: &mut Vue, x: u8, y: u8) {
    v.selected = Some(SelectedCase { blockpos: p(x, y), entity: entite(x, y) });
}

fn texte_affiche(v: &Vue) -> String {
    match &v.data_print {
        DataPrint::Text { text } => text.clone(),
        _ => String::new(),
    }
}

fn soldat(id: u64, owner: TroupApartenance, x: u8, y: u8, niveau: NiveauTroup) -> TroupUnit {
    TroupUnit { id, troup: Troup { race: Race::Chevalier, niveau }, owner, pos: TroupPosition { x, y } }
}

#[test]
fn recherche_de_tuiles() {
    let ts = tuiles();
    assert_eq!(find_tile(&ts, p(2, 1)), Some(6));
    assert_eq!(find_tile(&ts, p(9, 9)), None);
    assert_eq!(find_entity(&ts, entite(3, 2)), Some(11));
    assert_eq!(find_entity(&ts, 5), None);
}

#[test]
fn touches_des_menus() {
    assert_eq!(bloc_touche(Touche::W), Some(BlockType::Caserne));
    assert_eq!(bloc_touche(Touche::X), Some(BlockType::AvantPost));
    assert_eq!(bloc_touche(Touche::C), Some(BlockType::Mine));
    assert_eq!(bloc_touche(Touche::V), Some(BlockType::Farm));
    assert_eq!(bloc_touche(Touche::B), Some(BlockType::Tower));
    assert_eq!(bloc_touche(Touche::Key8), Some(BlockType::Upgradeur));
    assert_eq!(bloc_touche(Touche::Key7), Some(BlockType::Wall));
    assert_eq!(bloc_touche(Touche::N), Some(BlockType::Sheep));
    assert_eq!(bloc_touche(Touche::A), None);
    assert_eq!(niveau_touche(Touche::Key1), Some(NiveauTroup::Niveau1));
    assert_eq!(niveau_touche(Touche::Key2), Some(NiveauTroup::Niveau2));
    assert_eq!(niveau_touche(Touche::Key3), Some(NiveauTroup::Niveau3));
    assert_eq!(niveau_touche(Touche::E), None);
}

#[test]
fn construire_ouvre_le_menu() {
    let mut v = vue();
    choisir(&mut v, 1, 0);
    build(&mut v, true);
    assert!(matches!(v.etat, Etat::Building));
}

#[test]
fn construire_sans_selection() {
    let mut v = vue();
    build(&mut v, true);
    assert!(matches!(v.etat, Etat::Idle));
    assert_eq!(texte_affiche(&v), "You must select a case");
}

#[test]
fn construire_chez_l_autre() {
    let mut v = vue();
    choisir(&mut v, 1, 2);
    build(&mut v, true);
    assert!(matches!(v.etat, Etat::Idle));
    assert_eq!(texte_affiche(&v), "This case is not your ");
}

#[test]
fn construire_sur_un_batiment() {
    let mut v = vue();
    poser(&mut v, 1, 0, BlockType::Farm);
    choisir(&mut v, 1, 0);
    build(&mut v, true);
    assert!(matches!(v.etat, Etat::Idle));
    assert_eq!(texte_affiche(&v), "There is already somethings here !");
}

#[test]
fn construire_sans_touche() {
    let mut v = vue();
    choisir(&mut v, 1, 0);
    build(&mut v, false);
    assert!(matches!(v.etat, Etat::Idle));
    assert!(matches!(v.data_print, DataPrint::Rien));
}

#[test]
fn detruire_une_ferme() {
    let mut v = vue();
    poser(&mut v, 3, 2, BlockType::Farm);
    v.tuiles[11].owner = BlockApartenance::Joueur1;
    choisir(&mut v, 3, 2);
    let r = destroy(&mut v, true);
    assert_eq!(r, Some(DestroyEvent { pos: p(3, 2) }));
}

#[test]
fn detruire_passe_sur_toutes_les_tuiles() {
    // The selected tile is not the last one: the tiles after it overwrite the panel.
    let mut v = vue();
    poser(&mut v, 1, 0, BlockType::Farm);
    choisir(&mut v, 1, 0);
    let r = destroy(&mut v, true);
    assert_eq!(r, Some(DestroyEvent { pos: p(1, 0) }));
    assert_eq!(texte_affiche(&v), "Any case are selected");
}

#[test]
fn detruire_refus() {
    let mut v = vue();
    v.tuiles[11].owner = BlockApartenance::Joueur1;
    choisir(&mut v, 3, 2);
    assert_eq!(destroy(&mut v, true), None);
    assert_eq!(texte_affiche(&v), "You can't destroy this case");

    let mut v = vue();
    poser(&mut v, 3, 2, BlockType::Farm);
    choisir(&mut v, 3, 2);
    assert_eq!(destroy(&mut v, true), None);
    assert_eq!(texte_affiche(&v), "You can't destroy cases if they aren't belong to you");

    let mut v = vue();
    v.tour = Some(Tour { current_player: PacketIdentification::Joueur2 });
    choisir(&mut v, 3, 2);
    assert_eq!(destroy(&mut v, true), None);
    assert_eq!(texte_affiche(&v), "It's not your turn ! Wait for your oppenent");
}

#[test]
fn recolter_une_foret() {
    let mut v = vue();
    poser(&mut v, 2, 0, BlockType::GrassForest);
    choisir(&mut v, 2, 0);
    let r = used(&mut v, true);
    assert_eq!(r, Some(RecoltEvent { pos: p(2, 0) }));
    assert_eq!(v.moula, Moula { stone: 0, wood: 500, food: 0 });
    assert_eq!(v.tour, Some(Tour { current_player: PacketIdentification::Joueur2 }));
}

#[test]
fn recolter_une_colline() {
    let mut v = vue();
    poser(&mut v, 2, 0, BlockType::GrassHill);
    choisir(&mut v, 2, 0);
    let r = used(&mut v, true);
    assert_eq!(r, Some(RecoltEvent { pos: p(2, 0) }));
    assert_eq!(v.moula, Moula { stone: 500, wood: 0, food: 0 });
}

#[test]
fn utiliser_une_caserne() {
    let mut v = vue();
    poser(&mut v, 2, 0, BlockType::Caserne);
    choisir(&mut v, 2, 0);
    assert_eq!(used(&mut v, true), None);
    assert!(matches!(v.etat, Etat::Train));
    assert!(matches!(v.data_print, DataPrint::Train));
}

#[test]
fn utiliser_l_herbe() {
    let mut v = vue();
    choisir(&mut v, 2, 0);
    assert_eq!(used(&mut v, true), None);
    assert_eq!(texte_affiche(&v), "this block can't be used");
    let mut v = vue();
    v.tour = Some(Tour { current_player: PacketIdentification::Joueur2 });
    choisir(&mut v, 2, 0);
    assert_eq!(used(&mut v, true), None);
    assert_eq!(texte_affiche(&v), "You must select a case");
}

#[test]
fn menu_de_construction() {
    let mut v = vue();
    v.moula = Moula { stone: 1000, wood: 1000, food: 7 };
    v.etat = Etat::Building;
    choisir(&mut v, 1, 0);
    let r = gestion_build(&mut v, &vec![Touche::A, Touche::W]);
    assert_eq!(
        r,
        vec![EventBuild { who_are_u: PacketIdentification::Joueur1, pos: p(1, 0), type_b: BlockType::Caserne }]
    );
    assert_eq!(v.moula, Moula { stone: 400, wood: 600, food: 7 });
    assert_eq!(v.tour, Some(Tour { current_player: PacketIdentification::Joueur2 }));
    assert!(matches!(v.etat, Etat::Idle));
    assert!(matches!(v.data_print, DataPrint::Rien));
}

#[test]
fn menu_de_construction_trop_cher() {
    let mut v = vue();
    v.moula = Moula { stone: 100, wood: 100, food: 0 };
    v.etat = Etat::Building;
    choisir(&mut v, 1, 0);
    let r = gestion_build(&mut v, &vec![Touche::B]);
    assert!(r.is_empty());
    assert_eq!(v.moula, Moula { stone: 100, wood: 100, food: 0 });
    assert_eq!(texte_affiche(&v), "You haven't all materials needed");
    assert!(matches!(v.etat, Etat::Idle));
}

#[test]
fn menu_de_construction_ouvert() {
    let mut v = vue();
    v.etat = Etat::Building;
    choisir(&mut v, 1, 0);
    let r = gestion_build(&mut v, &vec![Touche::A]);
    assert!(r.is_empty());
    assert!(matches!(v.etat, Etat::Building));
    assert!(matches!(v.data_print, DataPrint::AllBlock));
    let r = gestion_build(&mut v, &vec![Touche::E]);
    assert!(r.is_empty());
    assert!(matches!(v.etat, Etat::Idle));
    assert!(matches!(v.data_print, DataPrint::Rien));
}

#[test]
fn menu_de_construction_hors_tour() {
    let mut v = vue();
    v.etat = Etat::Building;
    v.tour = Some(Tour { current_player: PacketIdentification::Joueur2 });
    choisir(&mut v, 1, 0);
    let r = gestion_build(&mut v, &vec![Touche::W]);
    assert!(r.is_empty());
    assert!(matches!(v.etat, Etat::Idle));
    assert_eq!(texte_affiche(&v), "It's not your turn ! Wait for your oppenent");
}

#[test]
fn place_pour_une_troupe() {
    let ts = tuiles();
    assert!(place_libre(&ts, &Vec::new(), BlockApartenance::Joueur1));
    let mut pleines = Vec::new();
    for x in 0..4u8 {
        pleines.push(soldat(x as u64, TroupApartenance::Joueur1, x, 0, NiveauTroup::Niveau1));
    }
    assert!(!place_libre(&ts, &pleines, BlockApartenance::Joueur1));
    assert!(place_libre(&ts, &pleines, BlockApartenance::Joueur2));
}

#[test]
fn entrainer_une_troupe() {
    let mut v = vue();
    v.moula = Moula { stone: 0, wood: 0, food: 120 };
    v.etat = Etat::Train;
    choisir(&mut v, 2, 0);
    let r = creat_troup(&mut v, &vec![Touche::Key2]);
    assert_eq!(r, vec![TrainEvent { niv: NiveauTroup::Niveau2 }]);
    assert_eq!(v.moula.food, 45);
    assert_eq!(v.tour, Some(Tour { current_player: PacketIdentification::Joueur2 }));
    assert!(matches!(v.etat, Etat::Idle));
}

#[test]
fn entrainer_sans_nourriture() {
    let mut v = vue();
    v.moula = Moula { stone: 0, wood: 0, food: 60 };
    v.etat = Etat::Train;
    choisir(&mut v, 2, 0);
    let r = creat_troup(&mut v, &vec![Touche::Key3]);
    assert!(r.is_empty());
    assert_eq!(v.moula.food, 60);
    assert_eq!(texte_affiche(&v), "You haven't all materials needed");
}

#[test]
fn entrainer_sans_place() {
    let mut v = vue();
    v.moula = Moula { stone: 0, wood: 0, food: 60 };
    v.etat = Etat::Train;
    for x in 0..4u8 {
        v.troups.push(soldat(x as u64, TroupApartenance::Joueur1, x, 0, NiveauTroup::Niveau1));
    }
    choisir(&mut v, 2, 0);
    let r = creat_troup(&mut v, &vec![Touche::Key1]);
    assert!(r.is_empty());
    // The food is spent even though no troop can be placed.
    assert_eq!(v.moula.food, 10);
    assert_eq!(texte_affiche(&v), "There aren't place to train troup");
    assert_eq!(v.tour, Some(Tour { current_player: PacketIdentification::Joueur1 }));
}

#[test]
fn revenus_une_fois_par_tour() {
    let mut v = vue();
    poser(&mut v, 0, 0, BlockType::Mine);
    poser(&mut v, 1, 0, BlockType::Farm);
    poser(&mut v, 2, 0, BlockType::Sheep);
    poser(&mut v, 3, 0, BlockType::Farm);
    poser(&mut v, 0, 2, BlockType::Mine);
    let mut vu = None;
    get_ressource(&mut v, &mut vu);
    assert_eq!(v.moula, Moula { stone: 100, wood: 200, food: 25 });
    assert_eq!(vu, Some(Tour { current_player: PacketIdentification::Joueur1 }));
    get_ressource(&mut v, &mut vu);
    assert_eq!(v.moula, Moula { stone: 100, wood: 200, food: 25 });
    v.tour = Some(Tour { current_player: PacketIdentification::Joueur2 });
    get_ressource(&mut v, &mut vu);
    assert_eq!(v.moula, Moula { stone: 200, wood: 400, food: 50 });
}

#[test]
fn cases_autour_de_la_selection() {
    let ts = tuiles();
    let sel = Some(SelectedCase { blockpos: p(1, 1), entity: entite(1, 1) });
    let adj = calcule_cases_adjacentes(&ts, sel);
    let mut attendu = vec![entite(1, 0), entite(2, 0), entite(0, 1), entite(1, 1), entite(2, 1), entite(1, 2), entite(2, 2)];
    attendu.sort();
    assert_eq!(adj.entities, attendu);
    assert!(calcule_cases_adjacentes(&ts, None).entities.is_empty());
}

#[test]
fn conquerir_une_case_neutre() {
    let mut v = vue();
    choisir(&mut v, 1, 1);
    let adj = calcule_cases_adjacentes(&v.tuiles, v.selected);
    let r = attaque(&mut v, true, &adj);
    assert_eq!(r, Some(Assaut::Conquete(ConqueteEvent(p(1, 1)))));
    assert_eq!(v.tour, Some(Tour { current_player: PacketIdentification::Joueur1 }));
}

#[test]
fn conquerir_trop_loin() {
    let mut v = vue();
    choisir(&mut v, 1, 2);
    let adj = calcule_cases_adjacentes(&v.tuiles, v.selected);
    assert_eq!(attaque(&mut v, true, &adj), None);
    assert_eq!(texte_affiche(&v), "You are too far from your territory");
}

#[test]
fn conquerir_sa_propre_case() {
    let mut v = vue();
    choisir(&mut v, 1, 0);
    let adj = calcule_cases_adjacentes(&v.tuiles, v.selected);
    assert_eq!(attaque(&mut v, true, &adj), None);
    assert_eq!(texte_affiche(&v), "This case is already belong to you");
}

#[test]
fn attaquer_une_case_ennemie() {
    let mut v = vue();
    v.tuiles[5].owner = BlockApartenance::Joueur1;
    v.troups.push(soldat(1, TroupApartenance::Joueur1, 1, 1, NiveauTroup::Niveau1));
    choisir(&mut v, 1, 2);
    let adj = calcule_cases_adjacentes(&v.tuiles, v.selected);
    let r = attaque(&mut v, true, &adj);
    assert_eq!(r, Some(Assaut::Combat(CombatEvent { pos: p(1, 2) })));
    assert_eq!(v.tour, Some(Tour { current_player: PacketIdentification::Joueur2 }));
}

#[test]
fn attaquer_sans_troupe() {
    let mut v = vue();
    v.tuiles[5].owner = BlockApartenance::Joueur1;
    choisir(&mut v, 1, 2);
    let adj = CaseAdjacente { entities: vec![entite(1, 1), entite(1, 2)] };
    assert_eq!(attaque(&mut v, true, &adj), None);
    assert_eq!(texte_affiche(&v), "You don't have troups next to the case !");
    assert_eq!(v.tour, Some(Tour { current_player: PacketIdentification::Joueur1 }));
}

#[test]
fn cases_ou_aller() {
    let mut v = vue();
    poser(&mut v, 2, 0, BlockType::GrassForest);
    poser(&mut v, 3, 0, BlockType::Farm);
    let troups = vec![soldat(1, TroupApartenance::Joueur1, 0, 0, NiveauTroup::Niveau1)];
    let r = cases_mouvement(&v.tuiles, &troups, BlockApartenance::Joueur1);
    assert_eq!(r, vec![p(1, 0), p(2, 0)]);
    // The first tile of an even row counts like any other.
    let ailleurs = vec![soldat(1, TroupApartenance::Joueur1, 1, 0, NiveauTroup::Niveau1)];
    assert_eq!(cases_mouvement(&v.tuiles, &ailleurs, BlockApartenance::Joueur1), vec![p(0, 0), p(2, 0)]);
}

#[test]
fn deplacer_puis_choisir_la_destination() {
    let mut v = vue();
    v.troups.push(soldat(1, TroupApartenance::Joueur1, 1, 0, NiveauTroup::Niveau1));
    choisir(&mut v, 1, 0);
    deplacer(&mut v, true);
    assert_eq!(texte_affiche(&v), "Where your soldiers will go ?");
    match &v.etat {
        Etat::Move { adjacentes, pos_d } => {
            assert_eq!(*pos_d, p(1, 0));
            let mut a: Vec<(u8, u8)> = adjacentes.iter().map(|b| (b.x, b.y)).collect();
            a.sort();
            assert_eq!(a, vec![(0, 0), (2, 0)]);
        },
        _ => panic!("the move is not open"),
    }
    choisir(&mut v, 2, 0);
    let r = border_wars::client::test(&mut v, true);
    assert_eq!(r, Some(DeplacementEvent { pos_start: p(1, 0), pos_end: p(2, 0) }));
    assert!(matches!(v.etat, Etat::Idle));
    assert!(matches!(v.data_print, DataPrint::Rien));
    assert_eq!(v.tour, Some(Tour { current_player: PacketIdentification::Joueur2 }));
}

#[test]
fn choisir_une_destination_hors_zone() {
    let mut v = vue();
    v.etat = Etat::Move { adjacentes: vec![p(2, 0), p(1, 0)], pos_d: p(1, 0) };
    choisir(&mut v, 3, 2);
    assert_eq!(border_wars::client::test(&mut v, true), None);
    assert!(matches!(v.etat, Etat::Idle));
    assert_eq!(texte_affiche(&v), " You can't go here ");
    assert_eq!(v.tour, Some(Tour { current_player: PacketIdentification::Joueur1 }));
}

#[test]
fn deplacer_sans_troupe() {
    let mut v = vue();
    choisir(&mut v, 1, 0);
    deplacer(&mut v, true);
    assert!(matches!(v.etat, Etat::Idle));
    assert!(matches!(v.data_print, DataPrint::Rien));
}

#[test]
fn troupes_dans_la_foret() {
    let mut v = vue();
    poser(&mut v, 1, 1, BlockType::GrassForest);
    v.troups.push(soldat(1, TroupApartenance::Joueur2, 1, 1, NiveauTroup::Niveau1));
    v.troups.push(soldat(2, TroupApartenance::Joueur1, 1, 1, NiveauTroup::Niveau1));
    v.troups.push(soldat(3, TroupApartenance::Joueur2, 2, 1, NiveauTroup::Niveau1));
    assert_eq!(forest(&v), vec![Some(false), None, Some(true)]);
}

#[test]
fn panneau_d_information() {
    assert_eq!(print_info_interface(&DataPrint::Rien), (Some(false), None));
    assert_eq!(print_info_interface(&DataPrint::AllBlock), (Some(true), Some(String::new())));
    assert_eq!(
        print_info_interface(&DataPrint::Text { text: "bonjour".to_string() }),
        (Some(false), Some("bonjour".to_string()))
    );
    assert_eq!(print_info_interface(&DataPrint::Train), (None, Some(String::new())));
    assert_eq!(print_info_interface_prix(&DataPrint::Rien), (None, Some(false)));
    assert_eq!(print_info_interface_prix(&DataPrint::Text { text: String::new() }), (None, Some(false)));
    assert_eq!(print_info_interface_prix(&DataPrint::AllBlock), (Some(true), Some(true)));
    assert_eq!(print_info_interface_prix(&DataPrint::Train), (None, None));
    assert!(print_troup(&DataPrint::Train));
    assert!(!print_troup(&DataPrint::AllBlock));
}

#[test]
fn texte_de_la_case_choisie() {
    let mut v = vue();
    assert_eq!(gestion_texte_info(&v), Some("Any blocks are selected".to_string()));
    choisir(&mut v, 1, 2);
    assert_eq!(
        gestion_texte_info(&v),
        Some("This case is a block of grass, it's useless, it belongs to your enemy".to_string())
    );
    v.selected = Some(SelectedCase { blockpos: p(9, 9), entity: 0 });
    assert_eq!(gestion_texte_info(&v), None);
    v.identity = None;
    assert_eq!(gestion_texte_info(&v), None);
}

#[test]
fn couleurs_des_cases() {
    assert_eq!(color_system(PacketIdentification::Joueur1, BlockApartenance::Joueur1), Teinte::Bleu);
    assert_eq!(color_system(PacketIdentification::Joueur1, BlockApartenance::Joueur2), Teinte::Orange);
    assert_eq!(color_system(PacketIdentification::Joueur2, BlockApartenance::Joueur1), Teinte::Orange);
    assert_eq!(color_system(PacketIdentification::Joueur2, BlockApartenance::Joueur2), Teinte::Bleu);
    assert_eq!(color_system(PacketIdentification::Spectateur, BlockApartenance::Joueur1), Teinte::Bleu);
    assert_eq!(color_system(PacketIdentification::Joueur2, BlockApartenance::Neutre), Teinte::Blanc);
}

#[test]
fn attaque_calculable() {
    let mut v = vue();
    v.tuiles[5].owner = BlockApartenance::Joueur1;
    choisir(&mut v, 1, 2);
    let adj = calcule_cases_adjacentes(&v.tuiles, v.selected);
    v.troups.push(soldat(1, TroupApartenance::Joueur1, 1, 1, NiveauTroup::Niveau1));
    assert!(border_wars::client::attaque_possible(&v, true, &adj));
    // An enemy troop far off the map is not looked at.
    v.troups.push(soldat(2, TroupApartenance::Joueur2, 130, 1, NiveauTroup::Niveau1));
    assert!(border_wars::client::attaque_possible(&v, true, &adj));
    // One of the player's is, when E is pressed.
    v.troups.push(soldat(3, TroupApartenance::Joueur1, 130, 1, NiveauTroup::Niveau1));
    assert!(!border_wars::client::attaque_possible(&v, true, &adj));
    assert!(border_wars::client::attaque_possible(&v, false, &adj));
}

#[test]
fn verifications_du_client() {
    let mut v = vue();
    choisir(&mut v, 1, 0);
    assert!(build_possible(&v, true));
    v.identity = Some(PacketIdentification::Spectateur);
    v.tour = Some(Tour { current_player: PacketIdentification::Joueur1 });
    assert!(!build_possible(&v, true));
    assert!(build_possible(&v, false));

    let mut v = vue();
    choisir(&mut v, 2, 0);
    poser(&mut v, 2, 0, BlockType::GrassForest);
    assert!(used_possible(&v, true));
    v.moula.wood = u32::MAX - 100;
    assert!(!used_possible(&v, true));
    v.tour = None;
    assert!(!used_possible(&v, true));
    assert!(used_possible(&v, false));

    let mut v = vue();
    v.etat = Etat::Train;
    v.race = None;
    choisir(&mut v, 2, 0);
    assert!(train_possible(&v, &vec![Touche::A]));
    assert!(!train_possible(&v, &vec![Touche::A, Touche::Key2]));
    v.tour = Some(Tour { current_player: PacketIdentification::Joueur2 });
    assert!(train_possible(&v, &vec![Touche::Key2]));

    let mut v = vue();
    poser(&mut v, 0, 0, BlockType::Mine);
    assert!(income_possible(&v, None));
    v.moula.stone = u32::MAX - 50;
    assert!(!income_possible(&v, None));
    assert!(income_possible(&v, v.tour));

    let mut v = vue();
    v.troups.push(soldat(1, TroupApartenance::Joueur1, 1, 0, NiveauTroup::Niveau1));
    choisir(&mut v, 1, 0);
    assert!(deplacer_possible(&v, true));
    v.identity = Some(PacketIdentification::Spectateur);
    v.tour = None;
    assert!(!deplacer_possible(&v, true));
}
