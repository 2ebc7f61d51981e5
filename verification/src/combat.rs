//! Resolution of a fight over a tile between the troops of the two players.
//!
//! Each side's hit points are reduced by the other side's attack divided by
//! one plus its own shields; the side left with more wins.

use vstd::prelude::*;
use crate::model::{PacketIdentification, Troup, attack_of, enemy_of, hp_of, is_player, shield_of};

verus! {

/// The hit points of the troops, added up.
pub open spec fn hp_sum(ts: Seq<Troup>) -> int
    decreases ts.len(),
{
    if ts.len() == 0 {
        0
    } else {
        hp_sum(ts.drop_last()) + hp_of(ts.last())
    }
}

/// The attack strengths of the troops, added up.
pub open spec fn force_sum(ts: Seq<Troup>) -> int
    decreases ts.len(),
{
    if ts.len() == 0 {
        0
    } else {
        force_sum(ts.drop_last()) + attack_of(ts.last())
    }
}

/// The shields of the troops, added up.
pub open spec fn shield_sum(ts: Seq<Troup>) -> int
    decreases ts.len(),
{
    if ts.len() == 0 {
        0
    } else {
        shield_sum(ts.drop_last()) + shield_of(ts.last())
    }
}

/// What remains of side `a` after side `b` strikes it.
pub open spec fn remaining(a: Seq<Troup>, b: Seq<Troup>) -> int {
    hp_sum(a) - force_sum(b) / (1 + shield_sum(a))
}

/// The outcome of a fight between the troops of player 1 (`a`) and of
/// player 2 (`b`): negative when player 1 keeps less, positive when player 2 does.
pub open spec fn score(a: Seq<Troup>, b: Seq<Troup>) -> int {
    remaining(a, b) - remaining(b, a)
}

/// The player who loses a fight with outcome `res` that `asker` started;
/// on a tie, the asker's enemy.
pub open spec fn loser(res: int, asker: PacketIdentification) -> PacketIdentification {
    if res < 0 {
        PacketIdentification::Joueur1
    } else if res > 0 {
        PacketIdentification::Joueur2
    } else {
        enemy_of(asker)
    }
}

/// Whether `x` is a value of `i32`.
pub open spec fn fits_i32(x: int) -> bool {
    i32::MIN <= x <= i32::MAX
}

/// Whether the fight between `a` and `b` is scored without leaving `i32`:
/// each side's sums of hit points, attack and (one plus) shields, and the
/// outcome.
pub open spec fn score_fits(a: Seq<Troup>, b: Seq<Troup>) -> bool {
    &&& hp_sum(a) <= i32::MAX && force_sum(a) <= i32::MAX && 1 + shield_sum(a) <= i32::MAX
    &&& hp_sum(b) <= i32::MAX && force_sum(b) <= i32::MAX && 1 + shield_sum(b) <= i32::MAX
    &&& fits_i32(score(a, b))
}

proof fn lemma_sums_nonneg(ts: Seq<Troup>)
    ensures
        0 <= hp_sum(ts),
        0 <= force_sum(ts),
        0 <= shield_sum(ts),
    decreases ts.len(),
{
    if ts.len() > 0 {
        lemma_sums_nonneg(ts.drop_last());
    }
}

/// Hit points, attack and shields summed over a side, each as it is while
/// it stays within `i32`, and above `i32::MAX` once it leaves it.
fn side_sums(ts: &Vec<Troup>) -> (r: (u64, u64, u64))
    ensures
        hp_sum(ts@) <= i32::MAX ==> r.0 == hp_sum(ts@),
        force_sum(ts@) <= i32::MAX ==> r.1 == force_sum(ts@),
        shield_sum(ts@) <= i32::MAX ==> r.2 == shield_sum(ts@),
        hp_sum(ts@) > i32::MAX ==> r.0 > i32::MAX,
        force_sum(ts@) > i32::MAX ==> r.1 > i32::MAX,
        shield_sum(ts@) > i32::MAX ==> r.2 > i32::MAX,
        r.0 <= i32::MAX + 255 && r.1 <= i32::MAX + 255 && r.2 <= i32::MAX + 255,
{
    let mut hp: u64 = 0;
    let mut force: u64 = 0;
    let mut shield: u64 = 0;
    let mut i: usize = 0;
    while i < ts.len()
        invariant
            i <= ts@.len(),
            hp_sum(ts@.take(i as int)) <= i32::MAX ==> hp == hp_sum(ts@.take(i as int)),
            force_sum(ts@.take(i as int)) <= i32::MAX ==> force == force_sum(ts@.take(i as int)),
            shield_sum(ts@.take(i as int)) <= i32::MAX ==> shield == shield_sum(ts@.take(i as int)),
            hp_sum(ts@.take(i as int)) > i32::MAX ==> hp > i32::MAX,
            force_sum(ts@.take(i as int)) > i32::MAX ==> force > i32::MAX,
            shield_sum(ts@.take(i as int)) > i32::MAX ==> shield > i32::MAX,
            hp <= i32::MAX + 255 && force <= i32::MAX + 255 && shield <= i32::MAX + 255,
        decreases ts@.len() - i,
    {
        let t = ts[i];
        proof {
            assert(ts@.take(i + 1).drop_last() == ts@.take(i as int));
            assert(ts@.take(i + 1).last() == t);
        }
        if hp <= 0x7fff_ffff {
            hp = hp + t.get_hp() as u64;
        }
        if force <= 0x7fff_ffff {
            force = force + t.get_attaque() as u64;
        }
        if shield <= 0x7fff_ffff {
            shield = shield + t.get_sheild() as u64;
        }
        i = i + 1;
    }
    proof {
        assert(ts@.take(i as int) == ts@);
    }
    (hp, force, shield)
}

/// Whether the fight between `list1` and `list2` is scored within `i32`.
pub fn score_fits_exec(list1: &Vec<Troup>, list2: &Vec<Troup>) -> (r: bool)
    ensures
        r == score_fits(list1@, list2@),
{
    proof {
        lemma_sums_nonneg(list1@);
        lemma_sums_nonneg(list2@);
    }
    let (hp1, force1, sheild1) = side_sums(list1);
    let (hp2, force2, sheild2) = side_sums(list2);
    if hp1 > 0x7fff_ffff || force1 > 0x7fff_ffff || sheild1 >= 0x7fff_ffff
        || hp2 > 0x7fff_ffff || force2 > 0x7fff_ffff || sheild2 >= 0x7fff_ffff {
        return false;
    }
    let res = outcome(hp1, force1, sheild1, hp2, force2, sheild2);
    proof {
        assert(res == score(list1@, list2@));
    }
    -0x8000_0000 <= res && res <= 0x7fff_ffff
}

/// The outcome from the two sides' sums.
fn outcome(hp1: u64, force1: u64, sheild1: u64, hp2: u64, force2: u64, sheild2: u64) -> (r: i64)
    requires
        hp1 <= i32::MAX && force1 <= i32::MAX && sheild1 < i32::MAX,
        hp2 <= i32::MAX && force2 <= i32::MAX && sheild2 < i32::MAX,
    ensures
        r == (hp1 - (force2 as int) / (1 + sheild1 as int)) - (hp2 - (force1 as int) / (1 + sheild2 as int)),
{
    proof {
        let f2 = force2 as int;
        let s1 = sheild1 as int + 1;
        let f1 = force1 as int;
        let s2 = sheild2 as int + 1;
        assert(0 <= f2 / s1 <= f2) by (nonlinear_arith)
            requires s1 >= 1, f2 >= 0;
        assert(0 <= f1 / s2 <= f1) by (nonlinear_arith)
            requires s2 >= 1, f1 >= 0;
    }
    let left: i64 = hp1 as i64 - (force2 / (sheild1 + 1)) as i64;
    let right: i64 = hp2 as i64 - (force1 / (sheild2 + 1)) as i64;
    left - right
}

/// The outcome of a fight between the troops `list1` of player 1 and
/// `list2` of player 2.
pub fn combat_score(list1: &Vec<Troup>, list2: &Vec<Troup>) -> (r: i32)
    requires
        score_fits(list1@, list2@),
    ensures
        r == score(list1@, list2@),
{
    proof {
        lemma_sums_nonneg(list1@);
        lemma_sums_nonneg(list2@);
    }
    let (hp1, force1, sheild1) = side_sums(list1);
    let (hp2, force2, sheild2) = side_sums(list2);
    let res = outcome(hp1, force1, sheild1, hp2, force2, sheild2);
    res as i32
}

/// Who loses a fight with outcome `res` that `asker` started.
pub fn combat_loser(res: i32, asker: PacketIdentification) -> (r: PacketIdentification)
    requires
        is_player(asker),
    ensures
        r == loser(res as int, asker),
{
    if res < 0 {
        PacketIdentification::Joueur1
    } else if res > 0 {
        PacketIdentification::Joueur2
    } else {
        asker.get_enemie()
    }
}

/// Exchanging the two sides negates the outcome of a fight.
pub proof fn lemma_score_antisymmetric(a: Seq<Troup>, b: Seq<Troup>)
    ensures
        score(a, b) == -score(b, a),
{
}

/// The winner of a fight (the enemy of its loser) is the side that keeps
/// more; on a tie, the player who started it.
pub proof fn lemma_winner(res: int, asker: PacketIdentification)
    requires
        is_player(asker),
    ensures
        enemy_of(loser(res, asker)) == (if res < 0 {
            PacketIdentification::Joueur2
        } else if res > 0 {
            PacketIdentification::Joueur1
        } else {
            asker
        }),
{
}

/// A side with no troops loses against a side with any troop.
pub proof fn lemma_empty_side_loses(b: Seq<Troup>)
    requires
        b.len() > 0,
    ensures
        score(seq![], b) < 0,
        score(b, seq![]) > 0,
{
    lemma_sums_nonneg(b);
    lemma_hp_positive(b);
    let e: Seq<Troup> = seq![];
    assert(hp_sum(e) == 0 && force_sum(e) == 0 && shield_sum(e) == 0);
    assert(force_sum(b) / 1 == force_sum(b));
    assert(hp_sum(b) - force_sum(e) / (1 + shield_sum(b)) == hp_sum(b)) by {
        assert(0int / (1 + shield_sum(b)) == 0) by (nonlinear_arith)
            requires 1 + shield_sum(b) > 0;
    }
    assert(force_sum(b) <= 45 * b.len()) by {
        lemma_force_le_45(b);
    }
    assert(hp_sum(b) >= 80 * b.len());
}

proof fn lemma_hp_positive(ts: Seq<Troup>)
    ensures
        hp_sum(ts) >= 80 * ts.len(),
    decreases ts.len(),
{
    if ts.len() > 0 {
        lemma_hp_positive(ts.drop_last());
    }
}

proof fn lemma_force_le_45(ts: Seq<Troup>)
    ensures
        force_sum(ts) <= 45 * ts.len(),
    decreases ts.len(),
{
    if ts.len() > 0 {
        lemma_force_le_45(ts.drop_last());
    }
}

} // verus!
