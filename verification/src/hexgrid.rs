//! Geometry of the hexagonal map.
//!
//! Rows are offset: on an even row a tile touches the tiles to its left and
//! right, and the two tiles above and the two below in columns `x - 1` and
//! `x`; on an odd row those are in columns `x` and `x + 1`. A tile counts as
//! its own neighbour. Differences of coordinates are taken on the bytes read
//! as signed 8-bit numbers, and must themselves be signed 8-bit numbers.

use vstd::prelude::*;
use crate::model::BlockPosition;

verus! {

/// A coordinate byte read as a signed 8-bit number.
pub open spec fn as_i8(a: u8) -> int {
    if a < 128 {
        a as int
    } else {
        a - 256
    }
}

/// `a - b`, both read as signed 8-bit numbers.
pub open spec fn delta(a: u8, b: u8) -> int {
    as_i8(a) - as_i8(b)
}

/// Whether `a - b` (as signed 8-bit numbers) is itself a signed 8-bit number.
pub open spec fn delta_fits(a: u8, b: u8) -> bool {
    -128 <= delta(a, b) <= 127
}

/// Whether both coordinate differences between `p` and `c` fit.
pub open spec fn pair_fits(p: BlockPosition, c: BlockPosition) -> bool {
    delta_fits(p.x, c.x) && delta_fits(p.y, c.y) && delta_fits(c.x, p.x) && delta_fits(c.y, p.y)
}

/// Whether every pair of positions in `ps`, and every position of `ps` with `c`, fits.
pub open spec fn coords_fit(ps: Seq<BlockPosition>, c: BlockPosition) -> bool {
    &&& forall|i: int, j: int| 0 <= i < ps.len() && 0 <= j < ps.len() ==> pair_fits(#[trigger] ps[i], #[trigger] ps[j])
    &&& forall|i: int| 0 <= i < ps.len() ==> pair_fits(#[trigger] ps[i], c)
}

/// Whether the coordinates that the zone of radius `r` around `c` over
/// `ps` compares fit: with one step, each position of `ps` with `c`; with
/// more, also every pair of positions of `ps`.
pub open spec fn zone_fits(ps: Seq<BlockPosition>, c: BlockPosition, r: nat) -> bool {
    &&& r == 1 ==> forall|i: int| 0 <= i < ps.len() ==> pair_fits(#[trigger] ps[i], c)
    &&& r >= 2 ==> coords_fit(ps, c)
}

/// Whether tile `p` touches tile `c` (or is `c`).
pub open spec fn neighbour(c: BlockPosition, p: BlockPosition) -> bool {
    let dx = delta(p.x, c.x);
    let dy = delta(p.y, c.y);
    &&& -1 <= dx <= 1
    &&& -1 <= dy <= 1
    &&& dy != 0 ==> (if c.y % 2 == 0 { dx != 1 } else { dx != -1 })
}

/// Whether `q` can be reached from `c` in exactly `r` steps from a tile to a
/// neighbouring tile of `ps` (a step may stay in place).
pub open spec fn in_zone(ps: Seq<BlockPosition>, c: BlockPosition, r: nat, q: BlockPosition) -> bool
    decreases r,
{
    if r == 0 {
        q == c
    } else {
        exists|p: BlockPosition| #[trigger] ps.contains(p) && neighbour(c, p) && in_zone(ps, p, (r - 1) as nat, q)
    }
}

/// The tiles that `in_zone` admits.
pub open spec fn zone(ps: Seq<BlockPosition>, c: BlockPosition, r: nat) -> Set<BlockPosition> {
    Set::new(|q: BlockPosition| in_zone(ps, c, r, q))
}

/// No position occurs twice.
pub open spec fn distinct(s: Seq<BlockPosition>) -> bool {
    forall|i: int, j: int| 0 <= i < j < s.len() ==> s[i] != s[j]
}

/// Every tile is its own neighbour.
pub proof fn lemma_neighbour_reflexive(c: BlockPosition)
    ensures
        neighbour(c, c),
{
}

/// The neighbour relation is symmetric: if `p` touches `c` then `c` touches `p`.
pub proof fn lemma_neighbour_symmetric(c: BlockPosition, p: BlockPosition)
    ensures
        neighbour(c, p) <==> neighbour(p, c),
{
    if delta(p.y, c.y) == 1 || delta(p.y, c.y) == -1 {
        assert(p.y % 2 != c.y % 2);
    }
}

/// With a radius of at least one step, only tiles of the list are reached.
pub proof fn lemma_zone_within_positions(ps: Seq<BlockPosition>, c: BlockPosition, r: nat, q: BlockPosition)
    requires
        r >= 1,
        in_zone(ps, c, r, q),
    ensures
        ps.contains(q),
    decreases r,
{
    let p = choose|p: BlockPosition| #[trigger] ps.contains(p) && neighbour(c, p) && in_zone(ps, p, (r - 1) as nat, q);
    if r > 1 {
        lemma_zone_within_positions(ps, p, (r - 1) as nat, q);
    }
}

/// From a tile of the list, a larger radius reaches every tile that a smaller one reaches.
pub proof fn lemma_zone_grows(ps: Seq<BlockPosition>, c: BlockPosition, r: nat, q: BlockPosition)
    requires
        ps.contains(c),
        in_zone(ps, c, r, q),
    ensures
        in_zone(ps, c, r + 1, q),
    decreases r,
{
    lemma_neighbour_reflexive(c);
    if r == 0 {
        assert(in_zone(ps, c, 0, q));
    } else {
        let p = choose|p: BlockPosition| #[trigger] ps.contains(p) && neighbour(c, p) && in_zone(ps, p, (r - 1) as nat, q);
        lemma_zone_grows(ps, p, (r - 1) as nat, q);
        assert(in_zone(ps, p, r, q));
    }
}

/// One step from `c` reaches exactly the tiles of the list that touch `c`.
pub proof fn lemma_zone_one_step(ps: Seq<BlockPosition>, c: BlockPosition, q: BlockPosition)
    ensures
        in_zone(ps, c, 1, q) <==> (ps.contains(q) && neighbour(c, q)),
{
    reveal_with_fuel(in_zone, 2);
    if ps.contains(q) && neighbour(c, q) {
        assert(in_zone(ps, q, 0, q));
    }
    if in_zone(ps, c, 1, q) {
        let p = choose|p: BlockPosition| #[trigger] ps.contains(p) && neighbour(c, p) && in_zone(ps, p, 0, q);
        assert(p == q);
    }
}

/// A coordinate byte read as a signed 8-bit number, held in 16 bits.
fn signed_coord(a: u8) -> (r: i16)
    ensures
        r == as_i8(a),
{
    if a < 128 {
        a as i16
    } else {
        a as i16 - 256
    }
}

/// Whether `a - b`, both read as signed 8-bit numbers, is itself one.
fn delta_fits_exec(a: u8, b: u8) -> (r: bool)
    ensures
        r == delta_fits(a, b),
{
    let d = signed_coord(a) - signed_coord(b);
    -128 <= d && d <= 127
}

/// Whether both coordinate differences between `p` and `c` fit.
pub fn pair_fits_exec(p: BlockPosition, c: BlockPosition) -> (r: bool)
    ensures
        r == pair_fits(p, c),
{
    delta_fits_exec(p.x, c.x) && delta_fits_exec(p.y, c.y) && delta_fits_exec(c.x, p.x) && delta_fits_exec(c.y, p.y)
}

/// Whether every pair of positions in `ps`, and every position of `ps`
/// with `c`, fits.
pub fn coords_fit_exec(ps: &[BlockPosition], c: BlockPosition) -> (r: bool)
    ensures
        r == coords_fit(ps@, c),
{
    let mut i: usize = 0;
    while i < ps.len()
        invariant
            i <= ps@.len(),
            forall|a: int, b: int| 0 <= a < i && 0 <= b < ps@.len() ==> pair_fits(#[trigger] ps@[a], #[trigger] ps@[b]),
            forall|a: int| 0 <= a < i ==> pair_fits(#[trigger] ps@[a], c),
        decreases ps@.len() - i,
    {
        if !pair_fits_exec(ps[i], c) {
            return false;
        }
        let mut j: usize = 0;
        while j < ps.len()
            invariant
                i < ps@.len(),
                j <= ps@.len(),
                forall|b: int| 0 <= b < j ==> pair_fits(ps@[i as int], #[trigger] ps@[b]),
            decreases ps@.len() - j,
        {
            if !pair_fits_exec(ps[i], ps[j]) {
                return false;
            }
            j = j + 1;
        }
        i = i + 1;
    }
    true
}

/// Whether the coordinates that the zone of radius `r` around `c` over
/// `ps` compares fit.
pub fn zone_fits_exec(ps: &[BlockPosition], c: BlockPosition, r: u8) -> (b: bool)
    ensures
        b == zone_fits(ps@, c, r as nat),
{
    if r == 0 {
        true
    } else if r == 1 {
        let mut i: usize = 0;
        while i < ps.len()
            invariant
                i <= ps@.len(),
                r == 1,
                forall|a: int| 0 <= a < i ==> pair_fits(#[trigger] ps@[a], c),
            decreases ps@.len() - i,
        {
            if !pair_fits_exec(ps[i], c) {
                assert(!pair_fits(ps@[i as int], c));
                return false;
            }
            i = i + 1;
        }
        true
    } else {
        coords_fit_exec(ps, c)
    }
}

/// Whether `position` touches `center` (or is `center`).
pub fn est_adjacente(center: BlockPosition, position: BlockPosition) -> (r: bool)
    requires
        pair_fits(position, center),
    ensures
        r == neighbour(center, position),
{
    let x = signed_coord(position.x) - signed_coord(center.x);
    let y = signed_coord(position.y) - signed_coord(center.y);
    if x < -1 || x > 1 || y < -1 || y > 1 {
        false
    } else if y == 0 {
        true
    } else if center.y % 2 == 0 {
        x != 1
    } else {
        x != -1
    }
}

/// Whether `v` holds `p`.
pub fn contient(v: &Vec<BlockPosition>, p: BlockPosition) -> (r: bool)
    ensures
        r == v@.contains(p),
{
    let mut i: usize = 0;
    while i < v.len()
        invariant
            i <= v@.len(),
            forall|j: int| 0 <= j < i ==> v@[j] != p,
        decreases v@.len() - i,
    {
        if v[i] == p {
            return true;
        }
        i = i + 1;
    }
    false
}

/// Adds to `acc` the items of `items` that it does not hold yet.
fn add_all(acc: &mut Vec<BlockPosition>, items: &Vec<BlockPosition>)
    requires
        distinct(old(acc)@),
    ensures
        distinct(final(acc)@),
        forall|q: BlockPosition| #[trigger] final(acc)@.contains(q) <==> (old(acc)@.contains(q) || items@.contains(q)),
{
    let mut k: usize = 0;
    while k < items.len()
        invariant
            k <= items@.len(),
            distinct(acc@),
            forall|q: BlockPosition| #[trigger] acc@.contains(q) <==> (old(acc)@.contains(q) || exists|j: int| 0 <= j < k && items@[j] == q),
        decreases items@.len() - k,
    {
        let item = items[k];
        let ghost prev = acc@;
        if !contient(acc, item) {
            acc.push(item);
            assert(acc@ == prev.push(item));
            assert(acc@[prev.len() as int] == item);
        }
        assert forall|q: BlockPosition| #[trigger] acc@.contains(q) <==> (old(acc)@.contains(q) || exists|j: int| 0 <= j < k + 1 && items@[j] == q) by {
            if acc@.contains(q) && q != item {
                let t = choose|t: int| 0 <= t < acc@.len() && acc@[t] == q;
                assert(prev[t] == q);
            }
            if prev.contains(q) {
                let t = choose|t: int| 0 <= t < prev.len() && prev[t] == q;
                assert(acc@[t] == q);
            }
            if q == item {
                assert(items@[k as int] == q);
            }
            if exists|j: int| 0 <= j < k + 1 && items@[j] == q {
                let j = choose|j: int| 0 <= j < k + 1 && items@[j] == q;
                if j < k {
                } else {
                    assert(q == item);
                }
            }
        }
        k = k + 1;
    }
    assert forall|q: BlockPosition| #[trigger] acc@.contains(q) <==> (old(acc)@.contains(q) || items@.contains(q)) by {
        if items@.contains(q) {
            let j = choose|j: int| 0 <= j < items@.len() && items@[j] == q;
        }
    }
}

/// The tiles of `positions` that lie within `rayon` steps of `center`,
/// each step going to a neighbouring tile of `positions`; with a radius of
/// 0, the center alone. Each tile appears once.
pub fn cases_adjacentes_rayon(positions: &[BlockPosition], center: BlockPosition, rayon: u8) -> (r: Vec<BlockPosition>)
    requires
        zone_fits(positions@, center, rayon as nat),
    ensures
        distinct(r@),
        forall|q: BlockPosition| #[trigger] r@.contains(q) <==> in_zone(positions@, center, rayon as nat, q),
    decreases rayon,
{
    if rayon == 0 {
        let mut single: Vec<BlockPosition> = Vec::new();
        single.push(center);
        assert(single@[0] == center);
        return single;
    }
    let ghost ps = positions@;
    let mut moui: Vec<BlockPosition> = Vec::new();
    let mut i: usize = 0;
    while i < positions.len()
        invariant
            ps == positions@,
            i <= ps.len(),
            1 <= rayon,
            zone_fits(ps, center, rayon as nat),
            distinct(moui@),
            forall|q: BlockPosition| #[trigger] moui@.contains(q) <==>
                exists|j: int| 0 <= j < i && neighbour(center, #[trigger] ps[j]) && in_zone(ps, ps[j], (rayon - 1) as nat, q),
        decreases ps.len() - i,
    {
        let position = positions[i];
        assert(pair_fits(ps[i as int], center));
        if est_adjacente(center, position) {
            assert(zone_fits(ps, position, (rayon - 1) as nat)) by {
                if rayon >= 2 {
                    assert forall|k: int| 0 <= k < ps.len() implies pair_fits(#[trigger] ps[k], position) by {
                        assert(pair_fits(ps[k], ps[i as int]));
                    }
                }
            }
            let sub = cases_adjacentes_rayon(positions, position, rayon - 1);
            add_all(&mut moui, &sub);
        }
        assert forall|q: BlockPosition| #[trigger] moui@.contains(q) <==>
            exists|j: int| 0 <= j < i + 1 && neighbour(center, #[trigger] ps[j]) && in_zone(ps, ps[j], (rayon - 1) as nat, q) by {
            if exists|j: int| 0 <= j < i + 1 && neighbour(center, #[trigger] ps[j]) && in_zone(ps, ps[j], (rayon - 1) as nat, q) {
                let j = choose|j: int| 0 <= j < i + 1 && neighbour(center, #[trigger] ps[j]) && in_zone(ps, ps[j], (rayon - 1) as nat, q);
                if j < i {
                } else {
                    assert(ps[j] == position);
                }
            }
        }
        i = i + 1;
    }
    assert forall|q: BlockPosition| #[trigger] moui@.contains(q) <==> in_zone(ps, center, rayon as nat, q) by {
        if in_zone(ps, center, rayon as nat, q) {
            let p = choose|p: BlockPosition| #[trigger] ps.contains(p) && neighbour(center, p) && in_zone(ps, p, (rayon - 1) as nat, q);
            let j = choose|j: int| 0 <= j < ps.len() && ps[j] == p;
            assert(neighbour(center, ps[j]));
        }
        if moui@.contains(q) {
            let j = choose|j: int| 0 <= j < ps.len() && neighbour(center, #[trigger] ps[j]) && in_zone(ps, ps[j], (rayon - 1) as nat, q);
            assert(ps.contains(ps[j]));
        }
    }
    moui
}

} // verus!
