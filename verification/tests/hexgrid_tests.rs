use border_wars::hexgrid::{cases_adjacentes_rayon, contient, est_adjacente};
use border_wars::model::BlockPosition;

fn p(x: u8, y: u8) -> BlockPosition {
    BlockPosition { x, y }
}

fn grille(w: u8, h: u8) -> Vec<BlockPosition> {
    let mut v = Vec::new();
    for y in 0..h {
        for x in 0..w {
            v.push(p(x, y));
        }
    }
    v
}

fn trie(mut v: Vec<BlockPosition>) -> Vec<(u8, u8)> {
    let mut r: Vec<(u8, u8)> = v.drain(..).map(|b| (b.x, b.y)).collect();
    r.sort();
    r
}

#[test]
fn voisins_rangee_paire() {
    let c = p(3, 2);
    assert!(est_adjacente(c, p(3, 2)));
    assert!(est_adjacente(c, p(2, 2)));
    assert!(est_adjacente(c, p(4, 2)));
    assert!(est_adjacente(c, p(2, 1)));
    assert!(est_adjacente(c, p(3, 1)));
    assert!(est_adjacente(c, p(2, 3)));
    assert!(est_adjacente(c, p(3, 3)));
    assert!(!est_adjacente(c, p(4, 1)));
    assert!(!est_adjacente(c, p(4, 3)));
    assert!(!est_adjacente(c, p(5, 2)));
}

#[test]
fn voisins_rangee_impaire() {
    let c = p(3, 3);
    assert!(est_adjacente(c, p(3, 2)));
    assert!(est_adjacente(c, p(4, 2)));
    assert!(est_adjacente(c, p(3, 4)));
    assert!(est_adjacente(c, p(4, 4)));
    assert!(!est_adjacente(c, p(2, 2)));
    assert!(!est_adjacente(c, p(2, 4)));
}

#[test]
fn voisinage_symetrique() {
    let g = grille(10, 9);
    for a in &g {
        for b in &g {
            assert_eq!(est_adjacente(*a, *b), est_adjacente(*b, *a));
        }
    }
}

#[test]
fn rayon_zero_donne_le_centre() {
    let g = grille(4, 4);
    assert_eq!(cases_adjacentes_rayon(&g, p(9, 9), 0), vec![p(9, 9)]);
}

#[test]
fn rayon_un_donne_les_voisins() {
    let g = grille(10, 9);
    let r = trie(cases_adjacentes_rayon(&g, p(3, 2), 1));
    assert_eq!(r, vec![(2, 1), (2, 2), (2, 3), (3, 1), (3, 2), (3, 3), (4, 2)]);
}

#[test]
fn rayon_un_au_bord() {
    let g = grille(10, 9);
    let r = trie(cases_adjacentes_rayon(&g, p(0, 0), 1));
    assert_eq!(r, vec![(0, 0), (0, 1), (1, 0)]);
}

#[test]
fn rayon_deux_sans_doublon_et_croissant() {
    let g = grille(10, 9);
    let r1 = cases_adjacentes_rayon(&g, p(4, 4), 1);
    let r2 = cases_adjacentes_rayon(&g, p(4, 4), 2);
    assert_eq!(r2.len(), 19);
    let mut s = trie(r2.clone());
    s.dedup();
    assert_eq!(s.len(), r2.len());
    for q in &r1 {
        assert!(contient(&r2, *q));
    }
}

#[test]
fn le_chemin_reste_dans_la_liste() {
    // Only tiles of the list are crossed: a gap blocks the way.
    let g = vec![p(0, 0), p(1, 0), p(3, 0)];
    let r = trie(cases_adjacentes_rayon(&g, p(0, 0), 3));
    assert_eq!(r, vec![(0, 0), (1, 0)]);
}

#[test]
fn contient_cherche() {
    let v = vec![p(1, 1), p(2, 2)];
    assert!(contient(&v, p(2, 2)));
    assert!(!contient(&v, p(2, 1)));
}

#[test]
fn ecarts_des_coordonnees() {
    use_fit();
}

fn use_fit() {
    let ps = vec![p(0, 0), p(3, 4)];
    assert!(border_wars::hexgrid::coords_fit_exec(&ps, p(9, 9)));
    assert!(border_wars::hexgrid::pair_fits_exec(p(0, 0), p(127, 0)));
    assert!(!border_wars::hexgrid::pair_fits_exec(p(0, 0), p(128, 0)));
    assert!(!border_wars::hexgrid::coords_fit_exec(&vec![p(127, 0), p(128, 0)], p(127, 0)));
    // With a radius of 0 the center alone comes back, whatever the coordinates.
    assert_eq!(cases_adjacentes_rayon(&[p(127, 0), p(128, 0)], p(5, 5), 0), vec![p(5, 5)]);
}

#[test]
fn un_pas_ne_compare_qu_au_centre() {
    // The two positions do not fit with each other, but each fits with the center.
    let ps = [p(100, 0), p(156, 0), p(1, 0)];
    assert!(border_wars::hexgrid::zone_fits_exec(&ps, p(0, 0), 1));
    assert!(!border_wars::hexgrid::zone_fits_exec(&ps, p(0, 0), 2));
    assert_eq!(cases_adjacentes_rayon(&ps, p(0, 0), 1), vec![p(1, 0)]);
}
