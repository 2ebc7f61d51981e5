use border_wars::model::{
    can_build, can_train, get_troup_niveau, get_type_with_number, il_peu, BlockApartenance,
    BlockPosition, BlockType, Moula, NiveauTroup, PacketIdentification, Race, Tour, Troup,
    TroupApartenance, TroupPosition,
};

#[test]
fn prix_de_la_mine() {
    assert_eq!(BlockType::Mine.get_price(), [300, 200]);
    assert!(can_build(BlockType::Mine, Moula { stone: 300, wood: 200, food: 0 }));
    assert!(!can_build(BlockType::Mine, Moula { stone: 299, wood: 200, food: 0 }));
    assert!(!can_build(BlockType::Mine, Moula { stone: 300, wood: 199, food: 0 }));
}

#[test]
fn tous_les_prix() {
    assert_eq!(BlockType::AvantPost.get_price(), [2300, 3000]);
    assert_eq!(BlockType::Caserne.get_price(), [600, 400]);
    assert_eq!(BlockType::Farm.get_price(), [200, 300]);
    assert_eq!(BlockType::Tower.get_price(), [1500, 1500]);
    assert_eq!(BlockType::Upgradeur.get_price(), [1000, 1000]);
    assert_eq!(BlockType::Wall.get_price(), [4000, 4000]);
    assert_eq!(BlockType::Sheep.get_price(), [400, 500]);
}

#[test]
fn touches_de_construction() {
    assert_eq!(get_type_with_number(1), Some(BlockType::Caserne));
    assert_eq!(get_type_with_number(2), Some(BlockType::AvantPost));
    assert_eq!(get_type_with_number(3), Some(BlockType::Mine));
    assert_eq!(get_type_with_number(4), Some(BlockType::Farm));
    assert_eq!(get_type_with_number(5), Some(BlockType::Tower));
    assert_eq!(get_type_with_number(6), Some(BlockType::Upgradeur));
    assert_eq!(get_type_with_number(7), Some(BlockType::Wall));
    assert_eq!(get_type_with_number(8), Some(BlockType::Sheep));
    assert_eq!(get_type_with_number(0), None);
    assert_eq!(get_type_with_number(9), None);
}

#[test]
fn cassable_et_vide() {
    assert!(BlockType::Farm.is_breakable());
    assert!(BlockType::Castle.is_breakable());
    assert!(!BlockType::Wall.is_breakable());
    assert!(!BlockType::GrassHill.is_breakable());
    assert!(BlockType::Grass.is_empty());
    assert!(BlockType::GrassForest.is_empty());
    assert!(!BlockType::GrassHill.is_empty());
    assert!(!BlockType::Mine.is_empty());
}

#[test]
fn statistiques_des_troupes() {
    let t = Troup { race: Race::Chevalier, niveau: NiveauTroup::Niveau3 };
    assert_eq!(t.get_attaque(), 35);
    assert_eq!(t.get_hp(), 250);
    assert_eq!(t.get_sheild(), 35);
    assert_eq!(t.get_vitesse(), 2);
    assert_eq!(t.get_range(), 3);
    assert_eq!(t.get_price(), 100);
    let v = Troup { race: Race::Voleur, niveau: NiveauTroup::Niveau2 };
    assert_eq!(v.get_attaque(), 35);
    assert_eq!(v.get_hp(), 120);
    assert_eq!(v.get_sheild(), 10);
    assert_eq!(v.get_vitesse(), 2);
    assert_eq!(v.get_range(), 3);
    assert_eq!(v.get_price(), 75);
    let c = Troup { race: Race::Chinoi, niveau: NiveauTroup::Niveau1 };
    assert_eq!(c.get_attaque(), 5);
    assert_eq!(c.get_hp(), 120);
    assert_eq!(c.get_sheild(), 20);
    assert_eq!(c.get_vitesse(), 1);
    assert_eq!(c.get_range(), 2);
    assert_eq!(c.get_price(), 50);
}

#[test]
fn entrainement_selon_la_nourriture() {
    let t = Troup { race: Race::Noir, niveau: NiveauTroup::Niveau2 };
    assert!(can_train(t, Moula { stone: 0, wood: 0, food: 75 }));
    assert!(!can_train(t, Moula { stone: 0, wood: 0, food: 74 }));
}

#[test]
fn le_tour_alterne() {
    let mut tour = Tour { current_player: PacketIdentification::Joueur1 };
    tour.change_tour();
    assert_eq!(tour.current_player, PacketIdentification::Joueur2);
    tour.change_tour();
    assert_eq!(tour.current_player, PacketIdentification::Joueur1);
}

#[test]
fn appartenances() {
    assert_eq!(PacketIdentification::Joueur1.get_block_apartenance(), BlockApartenance::Joueur1);
    assert_eq!(PacketIdentification::Joueur2.get_block_apartenance(), BlockApartenance::Joueur2);
    assert_eq!(PacketIdentification::Joueur1.get_troup_apartenance(), TroupApartenance::Joueur1);
    assert_eq!(PacketIdentification::Joueur2.get_troup_apartenance(), TroupApartenance::Joueur2);
    assert_eq!(PacketIdentification::Joueur1.get_enemie(), PacketIdentification::Joueur2);
    assert_eq!(PacketIdentification::Joueur2.get_enemie(), PacketIdentification::Joueur1);
}

#[test]
fn retournement_des_images() {
    assert!(!BlockApartenance::Joueur1.get_flip(PacketIdentification::Joueur1));
    assert!(BlockApartenance::Joueur2.get_flip(PacketIdentification::Joueur1));
    assert!(BlockApartenance::Joueur1.get_flip(PacketIdentification::Joueur2));
    assert!(!BlockApartenance::Joueur2.get_flip(PacketIdentification::Joueur2));
    assert!(BlockApartenance::Neutre.get_flip(PacketIdentification::Joueur2));
    assert!(!BlockApartenance::Neutre.get_flip(PacketIdentification::Spectateur));
    assert!(BlockApartenance::Joueur2.get_flip(PacketIdentification::Spectateur));
}

#[test]
fn marqueur_de_case_vide() {
    let none = BlockPosition { x: 100, y: 100 };
    assert!(!il_peu(&vec![]));
    assert!(!il_peu(&vec![none, none]));
    assert!(il_peu(&vec![none, BlockPosition { x: 1, y: 2 }]));
}

#[test]
fn niveaux_par_touche() {
    assert_eq!(get_troup_niveau(1), NiveauTroup::Niveau1);
    assert_eq!(get_troup_niveau(2), NiveauTroup::Niveau2);
    assert_eq!(get_troup_niveau(3), NiveauTroup::Niveau3);
}

#[test]
fn positions_de_troupe() {
    let p = BlockPosition { x: 3, y: 7 };
    assert_eq!(p.to_troup_position(), TroupPosition { x: 3, y: 7 });
    assert_eq!(TroupPosition { x: 3, y: 7 }.to_troup_position(), p);
}
