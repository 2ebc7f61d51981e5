use border_wars::combat::{combat_loser, combat_score};
use border_wars::model::{NiveauTroup, PacketIdentification, Race, Troup};

fn t(race: Race, niveau: NiveauTroup) -> Troup {
    Troup { race, niveau }
}

#[test]
fn score_exact() {
    // Side 1: one level-1 Chauve (hp 100, force 15, shield 10).
    // Side 2: one level-1 Arabe (hp 80, force 20, shield 5).
    // (100 - 20/11) - (80 - 15/6) = 99 - 78 = 21.
    let a = vec![t(Race::Chauve, NiveauTroup::Niveau1)];
    let b = vec![t(Race::Arabe, NiveauTroup::Niveau1)];
    assert_eq!(combat_score(&a, &b), 21);
    assert_eq!(combat_score(&b, &a), -21);
}

#[test]
fn score_plusieurs_troupes() {
    // Side 1: Chevalier 3 (250/35/35) + Noir 1 (100/10/10): hp 350, force 45, shield 45.
    // Side 2: Voleur 3 (160/45/20): hp 160, force 45, shield 20.
    // (350 - 45/46) - (160 - 45/21) = 350 - 158 = 192.
    let a = vec![t(Race::Chevalier, NiveauTroup::Niveau3), t(Race::Noir, NiveauTroup::Niveau1)];
    let b = vec![t(Race::Voleur, NiveauTroup::Niveau3)];
    assert_eq!(combat_score(&a, &b), 192);
}

#[test]
fn cote_vide_perd() {
    let b = vec![t(Race::Chinoi, NiveauTroup::Niveau1)];
    assert!(combat_score(&vec![], &b) < 0);
    assert!(combat_score(&b, &vec![]) > 0);
    assert_eq!(combat_score(&vec![], &vec![]), 0);
}

#[test]
fn perdant_du_combat() {
    assert_eq!(combat_loser(-1, PacketIdentification::Joueur2), PacketIdentification::Joueur1);
    assert_eq!(combat_loser(5, PacketIdentification::Joueur1), PacketIdentification::Joueur2);
    assert_eq!(combat_loser(0, PacketIdentification::Joueur1), PacketIdentification::Joueur2);
    assert_eq!(combat_loser(0, PacketIdentification::Joueur2), PacketIdentification::Joueur1);
}

#[test]
fn score_dans_les_bornes_i32() {
    let petit = vec![t(Race::Chevalier, NiveauTroup::Niveau3)];
    assert!(border_wars::combat::score_fits_exec(&petit, &vec![]));
    // 8,600,000 troops of 250 hit points: the sum of hit points leaves i32.
    let enorme = vec![t(Race::Chevalier, NiveauTroup::Niveau3); 8_600_000];
    assert!(!border_wars::combat::score_fits_exec(&enorme, &petit));
    // 5,000,000 weak troops stay within i32.
    let grand = vec![t(Race::Chinoi, NiveauTroup::Niveau1); 5_000_000];
    assert!(border_wars::combat::score_fits_exec(&grand, &petit));
}
