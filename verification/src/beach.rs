//! Beaches: crabs in the order in which they arrived, and their clans.

use vstd::prelude::*;
use vstd::std_specs::iter::IteratorSpec;
use std::slice::Iter;
use crate::clans::{clan_members, roster_with, ClanSystem, ClanView};
use crate::color::Color;
use crate::crab::{Crab, CrabView};
use crate::names::{contains_name, texts};

verus! {

/// The property of a crab of bearing the given name.
pub open spec fn named(name: Seq<char>) -> spec_fn(Crab) -> bool {
    |crab: Crab| crab@.name == name
}

/// Whether the crab at position `at` is the fastest: it is faster than
/// standing still, no crab is faster, and every crab before it is slower.
pub open spec fn fastest_at(crabs: Seq<Crab>, at: int) -> bool {
    &&& 0 <= at < crabs.len()
    &&& crabs[at]@.speed > 0
    &&& forall|j: int| 0 <= j < crabs.len() ==> (#[trigger] crabs[j])@.speed <= crabs[at]@.speed
    &&& forall|j: int| 0 <= j < at ==> (#[trigger] crabs[j])@.speed < crabs[at]@.speed
}

/// The crabs after `added` have arrived one by one on a beach that held
/// `before`: what [`Beach::add_crab`] makes of the beach, for each of
/// `added` in turn.
pub open spec fn after_arrivals(before: Seq<Crab>, added: Seq<Crab>) -> Seq<Crab>
    decreases added.len(),
{
    if added.len() == 0 {
        before
    } else {
        after_arrivals(before, added.drop_last()).push(added.last())
    }
}

/// Whether a crab counts for a clan with the members `members`: its name is
/// among `members` and not among `claimed`.
pub open spec fn counts_for(crab: Crab, members: Seq<Seq<char>>, claimed: Seq<Seq<char>>) -> bool {
    members.contains(crab@.name) && !claimed.contains(crab@.name)
}

/// The number of crabs that count for a clan with the members `members`.
pub open spec fn crab_count(
    crabs: Seq<Crab>,
    members: Seq<Seq<char>>,
    claimed: Seq<Seq<char>>,
) -> nat
    decreases crabs.len(),
{
    if crabs.len() == 0 {
        0
    } else {
        let counted: nat = if counts_for(crabs.last(), members, claimed) {
            1
        } else {
            0
        };
        crab_count(crabs.drop_last(), members, claimed) + counted
    }
}

/// The summed speed of the crabs that count for a clan with the members
/// `members`.
pub open spec fn speed_total(
    crabs: Seq<Crab>,
    members: Seq<Seq<char>>,
    claimed: Seq<Seq<char>>,
) -> nat
    decreases crabs.len(),
{
    if crabs.len() == 0 {
        0
    } else {
        let counted: nat = if counts_for(crabs.last(), members, claimed) {
            crabs.last()@.speed as nat
        } else {
            0
        };
        speed_total(crabs.drop_last(), members, claimed) + counted
    }
}

/// What the summed speed of `count` crabs is divided by to give their mean:
/// their number, and 1 where there is no crab, so that the mean is 0 then.
pub open spec fn mean_divisor(count: nat) -> nat {
    if count == 0 {
        1
    } else {
        count
    }
}

/// Whether the mean of `count1` values that sum to `total1` is higher than
/// the mean of `count2` values that sum to `total2`.
pub open spec fn mean_is_higher(total1: nat, count1: nat, total2: nat, count2: nat) -> bool {
    total1 * count2 > total2 * count1
}

/// The winner of the contest between two clans that both have members: the
/// clan with the higher mean speed, if there is one.
///
/// A clan's mean speed is the mean of the speeds of the crabs on the beach
/// that count for it; it is 0 where no crab does. A crab counts for the first
/// clan if its name is among that clan's members, and for the second clan if
/// its name is among the members of the second and not of the first. A
/// member's name that no crab on the beach bears adds nothing, and every crab
/// that bears a member's name counts. The two means are compared exactly.
pub open spec fn winner(
    crabs: Seq<Crab>,
    roster: Seq<ClanView>,
    id1: Seq<char>,
    id2: Seq<char>,
) -> Option<Seq<char>> {
    let first = clan_members(roster, id1);
    let second = clan_members(roster, id2);
    let total1 = speed_total(crabs, first, Seq::empty());
    let total2 = speed_total(crabs, second, first);
    let by1 = mean_divisor(crab_count(crabs, first, Seq::empty()));
    let by2 = mean_divisor(crab_count(crabs, second, first));
    if mean_is_higher(total1, by1, total2, by2) {
        Some(id1)
    } else if mean_is_higher(total2, by2, total1, by1) {
        Some(id2)
    } else {
        None
    }
}

/// A beach.
#[derive(Debug)]
pub struct Beach {
    crabs: Vec<Crab>,
    clans: ClanSystem,
}

impl View for Beach {
    type V = Seq<Crab>;

    /// The crabs on the beach, in the order in which they arrived.
    closed spec fn view(&self) -> Seq<Crab> {
        self.crabs@
    }
}

impl Beach {
    /// The clans of the beach.
    pub closed spec fn roster(&self) -> Seq<ClanView> {
        self.clans@
    }

    /// A beach without crabs or clans.
    pub fn new() -> (beach: Beach)
        ensures
            beach@ == Seq::<Crab>::empty(),
            beach.roster() == Seq::<ClanView>::empty(),
    {
        Beach { crabs: Vec::new(), clans: ClanSystem::new() }
    }

    /// The number of crabs on the beach.
    pub fn size(&self) -> (size: usize)
        ensures
            size == self@.len(),
    {
        self.crabs.len()
    }

    /// Lets a crab arrive on the beach, behind all that are there.
    pub fn add_crab(&mut self, crab: Crab)
        ensures
            final(self)@ == old(self)@.push(crab),
            final(self).roster() == old(self).roster(),
    {
        self.crabs.push(crab);
    }

    /// The crab at position `index`.
    pub fn get_crab(&self, index: usize) -> (crab: &Crab)
        requires
            index < self@.len(),
        ensures
            *crab == self@[index as int],
    {
        &self.crabs[index]
    }

    /// The crabs, in the order in which they arrived.
    pub fn crabs(&self) -> (crabs: Iter<'_, Crab>)
        ensures
            crabs.remaining().unref() == self@,
    {
        self.crabs.iter()
    }

    /// The fastest crab; of several that are equally fast, the one that
    /// arrived first. A crab of speed 0 is never the fastest, so there is no
    /// fastest crab on a beach where no crab moves, nor on an empty one.
    pub fn get_fastest_crab(&self) -> (fastest: Option<&Crab>)
        ensures
            match fastest {
                Some(crab) => exists|at: int| fastest_at(self@, at) && *crab == self@[at],
                None => forall|j: int| 0 <= j < self@.len() ==> (#[trigger] self@[j])@.speed == 0,
            },
    {
        let mut max_speed: u32 = 0;
        let mut fastest: Option<&Crab> = None;
        let ghost mut at: int = 0;
        let mut i: usize = 0;
        while i < self.crabs.len()
            invariant
                i <= self.crabs.len(),
                forall|j: int| 0 <= j < i ==> (#[trigger] self@[j])@.speed <= max_speed,
                match fastest {
                    Some(crab) => {
                        &&& 0 <= at < i
                        &&& *crab == self@[at]
                        &&& crab@.speed == max_speed
                        &&& max_speed > 0
                        &&& forall|j: int| 0 <= j < at ==> (#[trigger] self@[j])@.speed < max_speed
                    },
                    None => max_speed == 0,
                },
            decreases self.crabs.len() - i,
        {
            let crab = &self.crabs[i];
            if crab.speed() > max_speed {
                max_speed = crab.speed();
                fastest = Some(crab);
                proof {
                    at = i as int;
                }
            }
            i += 1;
        }
        fastest
    }

    /// The crabs that bear the given name, in the order in which they
    /// arrived.
    pub fn find_crabs_by_name(&self, name: &str) -> (found: Vec<&Crab>)
        ensures
            found@.unref() == self@.filter(named(name@)),
    {
        let wanted = name.to_owned();
        let mut found: Vec<&Crab> = Vec::new();
        let mut i: usize = 0;
        proof {
            reveal(Seq::filter);
        }
        while i < self.crabs.len()
            invariant
                i <= self.crabs.len(),
                wanted@ == name@,
                found@.unref() == self@.subrange(0, i as int).filter(named(name@)),
            decreases self.crabs.len() - i,
        {
            let crab = &self.crabs[i];
            proof {
                reveal(Seq::filter);
                assert(self@.subrange(0, i + 1).drop_last() =~= self@.subrange(0, i as int));
            }
            if crab.is_named(&wanted) {
                found.push(crab);
            }
            i += 1;
        }
        assert(self@.subrange(0, i as int) =~= self@);
        found
    }

    /// Breeds the crabs at positions `i` and `j` and lets the child arrive
    /// on the beach. The child is what [`Crab::breed`] makes of the two;
    /// they, and all other crabs, stay as they are.
    pub fn breed_crabs(&mut self, i: usize, j: usize, name: String)
        requires
            i < old(self)@.len(),
            j < old(self)@.len(),
        ensures
            final(self)@ == old(self)@.push(final(self)@.last()),
            final(self)@.last()@ == (CrabView {
                name: name@,
                speed: 1,
                color: Color::spec_cross(old(self)@[i as int]@.color, old(self)@[j as int]@.color),
                diet: final(self)@.last()@.diet,
                reefs: Seq::empty(),
            }),
            final(self).roster() == old(self).roster(),
    {
        let baby = Crab::breed(&self.crabs[i], &self.crabs[j], name);
        self.add_crab(baby);
    }

    /// The clans of the beach.
    pub fn get_clan_system(&self) -> (clans: &ClanSystem)
        ensures
            clans@ == self.roster(),
    {
        &self.clans
    }

    /// Lets the name join the clan, as [`ClanSystem::add_to_clan`] does.
    /// Whether a crab of that name lives on the beach, or the name is in
    /// another clan already, is the caller's concern.
    pub fn add_member_to_clan(&mut self, clan_id: &str, crab_name: &str)
        ensures
            final(self).roster() == roster_with(old(self).roster(), clan_id@, crab_name@),
            final(self)@ == old(self)@,
    {
        let c: String = clan_id.to_owned();
        let n: String = crab_name.to_owned();
        self.clans.add_to_clan(&c, &n);
    }

    /// The contest between two clans. A clan without members cannot compete:
    /// the contest fails with the message "Invalid ids". Otherwise the result
    /// is the identifier of the [`winner`], the clan whose crabs on this beach
    /// have the higher mean speed, or `None` where the two means are the same.
    pub fn get_winner_clan(&self, id1: &str, id2: &str) -> (result: Result<Option<String>, String>)
        ensures
            result.is_err() <==> clan_members(self.roster(), id1@).len() == 0 || clan_members(
                self.roster(),
                id2@,
            ).len() == 0,
            match result {
                Ok(Some(id)) => winner(self@, self.roster(), id1@, id2@) == Some(id@),
                Ok(None) => winner(self@, self.roster(), id1@, id2@).is_none(),
                Err(message) => message@ == "Invalid ids"@,
            },
    {
        let c1 = self.clans.get_clan_member_names(id1);
        let c2 = self.clans.get_clan_member_names(id2);
        if c1.len() == 0 || c2.len() == 0 {
            return Err("Invalid ids".to_owned());
        }
        let ghost first = texts(c1@);
        let ghost second = texts(c2@);
        let mut total1: u128 = 0;
        let mut total2: u128 = 0;
        let mut count1: usize = 0;
        let mut count2: usize = 0;
        let mut i: usize = 0;
        while i < self.crabs.len()
            invariant
                i <= self.crabs.len(),
                first == texts(c1@),
                second == texts(c2@),
                total1 == speed_total(self@.subrange(0, i as int), first, Seq::empty()),
                total2 == speed_total(self@.subrange(0, i as int), second, first),
                count1 == crab_count(self@.subrange(0, i as int), first, Seq::empty()),
                count2 == crab_count(self@.subrange(0, i as int), second, first),
                total1 <= i * u32::MAX,
                total2 <= i * u32::MAX,
                count1 <= i,
                count2 <= i,
            decreases self.crabs.len() - i,
        {
            let crab = &self.crabs[i];
            let name = crab.name().to_owned();
            proof {
                assert(self@.subrange(0, i + 1).drop_last() =~= self@.subrange(0, i as int));
            }
            if contains_name(&c1, &name) {
                total1 += crab.speed() as u128;
                count1 += 1;
            } else if contains_name(&c2, &name) {
                total2 += crab.speed() as u128;
                count2 += 1;
            }
            i += 1;
        }
        assert(self@.subrange(0, i as int) =~= self@);
        let by1 = divisor_of(count1);
        let by2 = divisor_of(count2);
        if fraction_is_higher(total1, by1, total2, by2) {
            Ok(Some(id1.to_owned()))
        } else if fraction_is_higher(total2, by2, total1, by1) {
            Ok(Some(id2.to_owned()))
        } else {
            Ok(None)
        }
    }
}

/// Executable form of [`mean_divisor`].
fn divisor_of(count: usize) -> (by: u64)
    ensures
        by == mean_divisor(count as nat),
        by > 0,
{
    if count == 0 {
        1
    } else {
        count as u64
    }
}

/// Compares two means without rounding: whole parts first, and where they
/// agree, the remainders, each weighed by the other's count.
fn fraction_is_higher(total1: u128, count1: u64, total2: u128, count2: u64) -> (higher: bool)
    requires
        count1 > 0,
        count2 > 0,
    ensures
        higher == mean_is_higher(total1 as nat, count1 as nat, total2 as nat, count2 as nat),
{
    let whole1 = total1 / (count1 as u128);
    let rest1 = total1 % (count1 as u128);
    let whole2 = total2 / (count2 as u128);
    let rest2 = total2 % (count2 as u128);
    proof {
        lemma_compare_by_parts(
            total1 as int,
            count1 as int,
            total2 as int,
            count2 as int,
        );
        assert(rest1 * count2 <= u64::MAX * u64::MAX) by (nonlinear_arith)
            requires
                0 <= rest1 <= u64::MAX,
                0 <= count2 <= u64::MAX,
        ;
        assert(rest2 * count1 <= u64::MAX * u64::MAX) by (nonlinear_arith)
            requires
                0 <= rest2 <= u64::MAX,
                0 <= count1 <= u64::MAX,
        ;
    }
    if whole1 != whole2 {
        whole1 > whole2
    } else {
        rest1 * (count2 as u128) > rest2 * (count1 as u128)
    }
}

/// Two fractions compare as their whole parts do, and where these agree, as
/// their remainders do, each multiplied by the other's denominator.
proof fn lemma_compare_by_parts(a: int, b: int, c: int, d: int)
    requires
        a >= 0,
        c >= 0,
        b > 0,
        d > 0,
    ensures
        a / b > c / d ==> a * d > c * b,
        a / b == c / d ==> (a * d > c * b <==> (a % b) * d > (c % d) * b),
        a / b < c / d ==> a * d < c * b,
{
    let q1 = a / b;
    let r1 = a % b;
    let q2 = c / d;
    let r2 = c % d;
    assert(a == q1 * b + r1 && 0 <= r1 < b) by (nonlinear_arith)
        requires
            b > 0,
            q1 == a / b,
            r1 == a % b,
    ;
    assert(c == q2 * d + r2 && 0 <= r2 < d) by (nonlinear_arith)
        requires
            d > 0,
            q2 == c / d,
            r2 == c % d,
    ;
    assert(a * d == q1 * (b * d) + r1 * d) by (nonlinear_arith)
        requires
            a == q1 * b + r1,
    ;
    assert(c * b == q2 * (b * d) + r2 * b) by (nonlinear_arith)
        requires
            c == q2 * d + r2,
    ;
    assert(0 <= r1 * d < b * d) by (nonlinear_arith)
        requires
            0 <= r1 < b,
            d > 0,
    ;
    assert(0 <= r2 * b < b * d) by (nonlinear_arith)
        requires
            0 <= r2 < d,
            b > 0,
    ;
    if q1 > q2 {
        assert(q1 * (b * d) >= q2 * (b * d) + b * d) by (nonlinear_arith)
            requires
                q1 >= q2 + 1,
                b * d > 0,
        ;
    } else if q1 < q2 {
        assert(q2 * (b * d) >= q1 * (b * d) + b * d) by (nonlinear_arith)
            requires
                q2 >= q1 + 1,
                b * d > 0,
        ;
    }
}

/// Where no crab counts for a clan, the summed speed of its crabs is 0, and
/// so is its mean speed in the contest.
pub proof fn lemma_no_crab_no_speed(
    crabs: Seq<Crab>,
    members: Seq<Seq<char>>,
    claimed: Seq<Seq<char>>,
)
    requires
        crab_count(crabs, members, claimed) == 0,
    ensures
        speed_total(crabs, members, claimed) == 0,
    decreases crabs.len(),
{
    if crabs.len() > 0 {
        lemma_no_crab_no_speed(crabs.drop_last(), members, claimed);
    }
}

/// Crabs that arrive one by one on an empty beach stand on it in the order
/// of their arrival: the beach holds as many crabs as have arrived, and the
/// crab at each position is the one that arrived at that turn.
pub proof fn lemma_arrivals_in_order(added: Seq<Crab>)
    ensures
        after_arrivals(Seq::empty(), added) == added,
        after_arrivals(Seq::empty(), added).len() == added.len(),
        forall|k: int| 0 <= k < added.len() ==> after_arrivals(Seq::empty(), added)[k] == added[k],
    decreases added.len(),
{
    if added.len() > 0 {
        lemma_arrivals_in_order(added.drop_last());
    } else {
    }
}

/// At most one crab of a beach is the fastest.
pub proof fn lemma_fastest_is_unique(crabs: Seq<Crab>, a: int, b: int)
    requires
        fastest_at(crabs, a),
        fastest_at(crabs, b),
    ensures
        a == b,
{
}

} // verus!
