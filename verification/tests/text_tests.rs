use border_wars::model::{BlockApartenance, BlockType, Moula, NiveauTroup, PacketIdentification, Race, Troup};
use border_wars::text::{push_decimal, texte_case, texte_race, texte_ressources};

#[test]
fn nombres_en_decimal() {
    let mut s = String::new();
    push_decimal(&mut s, 0);
    s.push(' ');
    push_decimal(&mut s, 4000);
    s.push(' ');
    push_decimal(&mut s, u32::MAX);
    assert_eq!(s, "0 4000 4294967295");
}

#[test]
fn etiquette_de_prix() {
    assert_eq!(BlockType::Mine.get_text_with_typeb(), "Mine\n\n200 Wood,\n300 Stone");
    assert_eq!(BlockType::AvantPost.get_text_with_typeb(), "AvantPost\n\n3000 Wood,\n2300 Stone");
}

#[test]
fn description_des_troupes() {
    let t = Troup { race: Race::Arabe, niveau: NiveauTroup::Niveau2 };
    assert_eq!(t.get_text(), "Force : 30\nHp : 120\nShield : 10\nVitesse : 1\nRange : 2\nPrice : 75");
    assert_eq!(t.get_image(), "perso/arabe2.png");
    assert_eq!(Troup { race: Race::Chevalier, niveau: NiveauTroup::Niveau1 }.get_image(), "perso/ch1.png");
}

#[test]
fn textes_des_cases() {
    assert_eq!(BlockType::Wall.get_text(), "a wall");
    assert_eq!(BlockType::Castle.get_draw(), "map/Castle.png");
    assert_eq!(BlockApartenance::Joueur2.get_text(&PacketIdentification::Joueur1), "it belongs to your enemy");
    assert_eq!(BlockApartenance::Joueur2.get_text(&PacketIdentification::Spectateur), "it belongs to Joueur 2");
    assert_eq!(
        texte_case(BlockType::Farm, BlockApartenance::Neutre, PacketIdentification::Joueur2),
        "This case is a farm, it allows you to collect resources, it doesn't belong to anyone"
    );
}

#[test]
fn ressources_et_race() {
    assert_eq!(texte_ressources(Moula { stone: 5, wood: 500, food: 25 }), "500 wood    5 stone    25 food");
    assert_eq!(texte_race(Race::Chinoi), "Your Race is Chinoi");
}

#[test]
fn barre_de_selection() {
    assert_eq!(border_wars::text::SelectBar {}.get_draw(), "map/Select.png");
}
