//! What a hunt does to the reefs, stated over plain sequences.
//!
//! A table of reefs is a sequence of reefs, each the sequence of its prey
//! with the next one to be taken first. A hunter knows reefs by their
//! position in the table.

use vstd::prelude::*;
use crate::crab::CrabView;
use crate::prey::Prey;
use crate::reef::Reef;
use crate::search::{first_where, lemma_first_where};

verus! {

/// The table that a list of reefs stands for.
pub open spec fn reef_views(reefs: Seq<Reef>) -> Seq<Seq<Prey>> {
    reefs.map_values(|reef: Reef| reef@)
}

/// Whether a piece of prey is lost to the hunter: it gets away, or it is not
/// what the hunter eats.
pub open spec fn resists(prey: Prey, hunter: CrabView) -> bool {
    prey.escapes(hunter.speed) || prey.spec_diet() != hunter.diet
}

/// The property of being prey that the hunter catches and keeps.
pub open spec fn catchable_by(hunter: CrabView) -> spec_fn(Prey) -> bool {
    |prey: Prey| !resists(prey, hunter)
}

/// The position on the reef of the first prey that the hunter catches and
/// keeps; the reef's population if there is none.
pub open spec fn first_catch(reef: Seq<Prey>, hunter: CrabView) -> int {
    first_where(reef, catchable_by(hunter))
}

/// The property of a position of naming a reef of the table that has prey.
pub open spec fn stocked_in(table: Seq<Seq<Prey>>) -> spec_fn(usize) -> bool {
    |reef: usize| reef < table.len() && table[reef as int].len() > 0
}

/// The property of a position of naming a reef of the table with prey that
/// the hunter catches and keeps.
pub open spec fn fruitful_in(table: Seq<Seq<Prey>>, hunter: CrabView) -> spec_fn(usize) -> bool {
    |reef: usize|
        reef < table.len() && first_catch(table[reef as int], hunter) < table[reef as int].len()
}

/// Each piece of prey as one escape attempt leaves it.
pub open spec fn attempted(prey: Seq<Prey>) -> Seq<Prey> {
    prey.map_values(|p: Prey| p.after_attempt())
}

/// Whether one of the first `end` entries of the list names the reef.
pub open spec fn named_before(reefs: Seq<usize>, end: int, reef: int) -> bool {
    exists|j: int| 0 <= j < end && j < reefs.len() && #[trigger] reefs[j] == reef
}

/// Where in the hunter's list of reefs the hunt ends with a catch: the first
/// entry that names a reef with prey that the hunter catches and keeps. The
/// length of the list if there is no such entry.
pub open spec fn catch_site(hunter: CrabView, table: Seq<Seq<Prey>>) -> int {
    first_where(hunter.reefs, fruitful_in(table, hunter))
}

/// Whether the hunter's hunt on the table ends with a catch.
pub open spec fn hunt_succeeds(hunter: CrabView, table: Seq<Seq<Prey>>) -> bool {
    catch_site(hunter, table) < hunter.reefs.len()
}

/// One reef of the table after the hunter's hunt.
///
/// On the reef where the catch is made, the prey behind the caught one moves
/// up, and the prey that was tried before it stands at the end, in the order
/// in which it was tried. A reef that the hunter's list names before the
/// catch, or anywhere in a hunt without a catch, holds what it held, each
/// piece after its escape attempt. Every other reef is untouched.
pub open spec fn reef_after_hunt(hunter: CrabView, table: Seq<Seq<Prey>>, reef: int) -> Seq<
    Prey,
> {
    let site = catch_site(hunter, table);
    let prey = table[reef];
    if site < hunter.reefs.len() && hunter.reefs[site] == reef {
        let caught = first_catch(prey, hunter);
        prey.subrange(caught + 1, prey.len() as int) + attempted(prey.subrange(0, caught))
    } else if named_before(hunter.reefs, site, reef) {
        attempted(prey)
    } else {
        prey
    }
}

/// The table after the hunter's hunt.
pub open spec fn table_after_hunt(hunter: CrabView, table: Seq<Seq<Prey>>) -> Seq<Seq<Prey>> {
    Seq::new(table.len(), |reef: int| reef_after_hunt(hunter, table, reef))
}

/// The number of prey on all reefs of the table together.
pub open spec fn total_prey(table: Seq<Seq<Prey>>) -> nat
    decreases table.len(),
{
    if table.len() == 0 {
        0
    } else {
        total_prey(table.drop_last()) + table.last().len()
    }
}

/// Replacing one reef changes the total by the difference of the two
/// populations.
pub proof fn lemma_total_prey_update(table: Seq<Seq<Prey>>, reef: int, prey: Seq<Prey>)
    requires
        0 <= reef < table.len(),
    ensures
        total_prey(table.update(reef, prey)) == total_prey(table) - table[reef].len() + prey.len(),
    decreases table.len(),
{
    let updated = table.update(reef, prey);
    if reef == table.len() - 1 {
        assert(updated.drop_last() =~= table.drop_last());
    } else {
        lemma_total_prey_update(table.drop_last(), reef, prey);
        assert(updated.drop_last() =~= table.drop_last().update(reef, prey));
    }
}

/// Tables whose reefs have the same populations have the same total.
pub proof fn lemma_total_prey_by_population(a: Seq<Seq<Prey>>, b: Seq<Seq<Prey>>)
    requires
        a.len() == b.len(),
        forall|reef: int| 0 <= reef < a.len() ==> (#[trigger] a[reef]).len() == b[reef].len(),
    ensures
        total_prey(a) == total_prey(b),
    decreases a.len(),
{
    if a.len() > 0 {
        lemma_total_prey_by_population(a.drop_last(), b.drop_last());
    }
}

/// A hunt neither makes prey nor loses any: every reef keeps its population,
/// except that a hunt with a catch takes exactly one piece from the reef
/// where the catch is made. So a hunt without a catch leaves the total as it
/// was, and a hunt with a catch lowers it by one.
pub proof fn lemma_hunt_conserves_prey(hunter: CrabView, table: Seq<Seq<Prey>>)
    ensures
        table_after_hunt(hunter, table).len() == table.len(),
        forall|reef: int|
            0 <= reef < table.len() ==> (#[trigger] table_after_hunt(hunter, table)[reef]).len()
                == (if hunt_succeeds(hunter, table) && hunter.reefs[catch_site(hunter, table)]
                == reef {
                table[reef].len() - 1
            } else {
                table[reef].len() as int
            }),
        total_prey(table_after_hunt(hunter, table)) == (if hunt_succeeds(hunter, table) {
            total_prey(table) - 1
        } else {
            total_prey(table) as int
        }),
{
    let after = table_after_hunt(hunter, table);
    let site = catch_site(hunter, table);
    lemma_first_where(hunter.reefs, fruitful_in(table, hunter));
    if hunt_succeeds(hunter, table) {
        let at = hunter.reefs[site] as int;
        lemma_first_where(table[at], catchable_by(hunter));
        let less = table.update(at, table[at].drop_first());
        lemma_total_prey_update(table, at, table[at].drop_first());
        lemma_total_prey_by_population(after, less);
    } else {
        lemma_total_prey_by_population(after, table);
    }
}

/// A hunt without a catch, on a table where no piece of prey is changed by
/// an escape attempt, leaves the table as it found it.
pub proof fn lemma_failed_hunt_restores(hunter: CrabView, table: Seq<Seq<Prey>>)
    requires
        !hunt_succeeds(hunter, table),
        forall|reef: int, at: int|
            0 <= reef < table.len() && 0 <= at < table[reef].len()
                ==> (#[trigger] table[reef][at]).after_attempt() == table[reef][at],
    ensures
        table_after_hunt(hunter, table) == table,
{
    let after = table_after_hunt(hunter, table);
    assert forall|reef: int| 0 <= reef < table.len() implies after[reef] == table[reef] by {}
}

/// A hunt ends with a catch exactly if some reef of the hunter's list holds
/// a piece of prey that neither gets away from the hunter nor is of the
/// wrong diet.
pub proof fn lemma_hunt_succeeds_iff_prey_in_reach(hunter: CrabView, table: Seq<Seq<Prey>>)
    ensures
        hunt_succeeds(hunter, table) <==> exists|entry: int, at: int|
            0 <= entry < hunter.reefs.len() && hunter.reefs[entry] < table.len() && 0 <= at
                < table[hunter.reefs[entry] as int].len() && !resists(
                #[trigger] table[hunter.reefs[entry] as int][at],
                hunter,
            ),
{
    let site = catch_site(hunter, table);
    lemma_first_where(hunter.reefs, fruitful_in(table, hunter));
    if hunt_succeeds(hunter, table) {
        lemma_first_where(table[hunter.reefs[site] as int], catchable_by(hunter));
    }
    if exists|entry: int, at: int|
        0 <= entry < hunter.reefs.len() && hunter.reefs[entry] < table.len() && 0 <= at
            < table[hunter.reefs[entry] as int].len() && !resists(
            #[trigger] table[hunter.reefs[entry] as int][at],
            hunter,
        ) {
        let (entry, at) = choose|entry: int, at: int|
            0 <= entry < hunter.reefs.len() && hunter.reefs[entry] < table.len() && 0 <= at
                < table[hunter.reefs[entry] as int].len() && !resists(
                #[trigger] table[hunter.reefs[entry] as int][at],
                hunter,
            );
        lemma_first_where(table[hunter.reefs[entry] as int], catchable_by(hunter));
    }
}

/// Where the first piece of prey on the first reef of the hunter's list
/// neither gets away nor is of the wrong diet, the hunt catches that piece
/// and changes nothing else.
pub proof fn lemma_hunt_catches_at_once(hunter: CrabView, table: Seq<Seq<Prey>>)
    requires
        hunter.reefs.len() > 0,
        hunter.reefs[0] < table.len(),
        table[hunter.reefs[0] as int].len() > 0,
        !resists(table[hunter.reefs[0] as int][0], hunter),
    ensures
        hunt_succeeds(hunter, table),
        table_after_hunt(hunter, table) == table.update(
            hunter.reefs[0] as int,
            table[hunter.reefs[0] as int].drop_first(),
        ),
{
}

} // verus!
