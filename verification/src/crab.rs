//! Crabs: who they are, how they breed, what they cook, and how they hunt.

use vstd::prelude::*;
use crate::color::Color;
use crate::cookbook::{Cookbook, Recipe};
use crate::diet::Diet;
use crate::hunting::{
    attempted, catchable_by, fruitful_in, hunt_succeeds, lemma_total_prey_update, named_before,
    reef_after_hunt, reef_views, resists, stocked_in, table_after_hunt, total_prey,
};
use crate::prey::Prey;
use crate::reef::Reef;
use crate::search::{first_where, lemma_first_where, lemma_first_where_is};

verus! {

/// A crab as contracts see it.
pub struct CrabView {
    pub name: Seq<char>,
    pub speed: u32,
    pub color: Color,
    pub diet: Diet,
    /// The reefs that the crab has discovered, each by its position in the
    /// table of reefs, in the order of discovery.
    pub reefs: Seq<usize>,
}

/// The property of a recipe of suiting the given diet.
pub open spec fn suits(diet: Diet) -> spec_fn(Recipe) -> bool {
    |recipe: Recipe| recipe@.diet == diet
}

/// A crab. Crabs do not own the reefs they hunt on: they know them by their
/// position in a table of reefs that is handed to each hunt.
#[derive(Debug)]
pub struct Crab {
    name: String,
    speed: u32,
    color: Color,
    diet: Diet,
    reefs: Vec<usize>,
}

impl View for Crab {
    type V = CrabView;

    closed spec fn view(&self) -> CrabView {
        CrabView {
            name: self.name@,
            speed: self.speed,
            color: self.color,
            diet: self.diet,
            reefs: self.reefs@,
        }
    }
}

impl Crab {
    /// A crab that has not discovered any reef yet.
    pub fn new(name: String, speed: u32, color: Color, diet: Diet) -> (crab: Crab)
        ensures
            crab@ == (CrabView { name: name@, speed, color, diet, reefs: Seq::empty() }),
    {
        Crab { name, speed, color, diet, reefs: Vec::new() }
    }

    /// The crab's name. Several crabs may bear the same name.
    pub fn name(&self) -> (name: &str)
        ensures
            name@ == self@.name,
    {
        self.name.as_str()
    }

    /// The crab's speed.
    pub fn speed(&self) -> (speed: u32)
        ensures
            speed == self@.speed,
    {
        self.speed
    }

    /// The color of the crab's shell.
    pub fn color(&self) -> (color: &Color)
        ensures
            *color == self@.color,
    {
        &self.color
    }

    /// What the crab eats.
    pub fn diet(&self) -> (diet: Diet)
        ensures
            diet == self@.diet,
    {
        self.diet
    }

    /// Whether the crab bears the given name.
    pub(crate) fn is_named(&self, name: &String) -> (same: bool)
        ensures
            same == (self@.name == name@),
    {
        self.name == *name
    }

    /// The child of two crabs with a given diet: it has the name `n`, speed 1
    /// and the blend of its parents' colors, and knows no reef.
    pub fn breed_with_diet(c1: &Crab, c2: &Crab, n: String, diet: Diet) -> (child: Crab)
        ensures
            child@ == (CrabView {
                name: n@,
                speed: 1,
                color: Color::spec_cross(c1@.color, c2@.color),
                diet,
                reefs: Seq::empty(),
            }),
    {
        let color = Color::cross(&c1.color, &c2.color);
        Crab::new(n, 1, color, diet)
    }

    /// The child of two crabs: as [`Crab::breed_with_diet`] makes it, with a
    /// diet drawn at random that owes nothing to the parents.
    pub fn breed(c1: &Crab, c2: &Crab, n: String) -> (child: Crab)
        ensures
            child@ == (CrabView {
                name: n@,
                speed: 1,
                color: Color::spec_cross(c1@.color, c2@.color),
                diet: child@.diet,
                reefs: Seq::empty(),
            }),
    {
        let diet = Diet::random_diet();
        Crab::breed_with_diet(c1, c2, n, diet)
    }

    /// Adds a reef to the end of the crab's list of reefs, whether or not the
    /// list names it already.
    pub fn discover_reef(&mut self, reef: usize)
        ensures
            final(self)@ == (CrabView { reefs: old(self)@.reefs.push(reef), ..old(self)@ }),
    {
        self.reefs.push(reef);
    }

    /// Takes one piece of prey from the first reef of the crab's list that
    /// has any, and says which entry of the list it came from. Entries that
    /// name no reef of the table are passed over.
    fn catch_prey(&self, reefs: &mut [Reef]) -> (caught: Option<(Prey, usize)>)
        ensures
            ({
                let table = reef_views(old(reefs)@);
                let at = first_where(self@.reefs, stocked_in(table));
                match caught {
                    Some((prey, origin)) => {
                        let reef = self@.reefs[at] as int;
                        &&& at < self@.reefs.len()
                        &&& origin == at
                        &&& prey == table[reef][0]
                        &&& reef_views(final(reefs)@) == table.update(
                            reef,
                            table[reef].drop_first(),
                        )
                    },
                    None => {
                        &&& at == self@.reefs.len()
                        &&& reef_views(final(reefs)@) == table
                    },
                }
            }),
    {
        let ghost table = reef_views(reefs@);
        let mut i: usize = 0;
        while i < self.reefs.len()
            invariant
                i <= self.reefs.len(),
                table == reef_views(old(reefs)@),
                reef_views(reefs@) == table,
                forall|j: int| 0 <= j < i ==> !stocked_in(table)(#[trigger] self@.reefs[j]),
            decreases self.reefs.len() - i,
        {
            let reef = self.reefs[i];
            if reef < reefs.len() {
                if let Some(prey) = reefs[reef].take_prey() {
                    proof {
                        lemma_first_where_is(self@.reefs, stocked_in(table), i as int);
                    }
                    return Some((prey, i));
                }
            }
            i += 1;
        }
        proof {
            lemma_first_where_is(self@.reefs, stocked_in(table), i as int);
        }
        None
    }

    /// Puts a piece of prey back on the reef that the entry `reef_index` of
    /// the crab's list names.
    fn release_prey(&self, reefs: &mut [Reef], prey: Prey, reef_index: usize)
        requires
            reef_index < self@.reefs.len(),
            self@.reefs[reef_index as int] < old(reefs)@.len(),
        ensures
            ({
                let table = reef_views(old(reefs)@);
                let reef = self@.reefs[reef_index as int] as int;
                reef_views(final(reefs)@) == table.update(reef, table[reef].push(prey))
            }),
    {
        let reef = self.reefs[reef_index];
        reefs[reef].add_prey(prey);
    }

    /// Goes hunting on the reefs of the table that the crab has discovered.
    ///
    /// The crab takes prey from the first reef of its list that has any, and
    /// keeps taking until a piece neither gets away nor is of the wrong diet:
    /// that piece is caught, and the hunt ends. Prey that got away or is of
    /// the wrong diet is set aside, and when the hunt is over, with or without
    /// a catch, each such piece goes back to the end of the reef it came from,
    /// in the order in which it was taken. Returns whether a piece was caught.
    ///
    /// An entry of the crab's list that names no reef of the table counts as a
    /// reef without prey. The crab itself does not change.
    pub fn hunt(&mut self, reefs: &mut [Reef]) -> (caught: bool)
        ensures
            *final(self) == *old(self),
            caught == hunt_succeeds(old(self)@, reef_views(old(reefs)@)),
            reef_views(final(reefs)@) == table_after_hunt(old(self)@, reef_views(old(reefs)@)),
    {
        let ghost hunter = self@;
        let ghost start = reef_views(reefs@);
        let ghost mut cursor: int = 0;
        let mut escaped: Vec<(Prey, usize)> = Vec::new();
        let mut caught = false;
        proof {
            assert forall|reef: int| 0 <= reef < start.len() implies #[trigger] returned(
                escaped@,
                hunter.reefs,
                reef,
            ) == attempted(start[reef].subrange(0, 0)) by {
                assert(attempted(start[reef].subrange(0, 0)) =~= Seq::<Prey>::empty());
            }
            assert forall|reef: int| 0 <= reef < start.len() implies is_rest_of(
                #[trigger] start[reef],
                start[reef],
            ) by {
                assert(start[reef] =~= start[reef].subrange(0, start[reef].len() as int));
            }
        }
        loop
            invariant_except_break
                !caught,
                hunting(hunter, start, reef_views(reefs@), escaped@, cursor),
            invariant
                *self == *old(self),
                self@ == hunter,
            ensures
                hunted(hunter, start, reef_views(reefs@), escaped@, caught),
            decreases total_prey(reef_views(reefs@)),
        {
            let ghost now = reef_views(reefs@);
            let ghost at = first_where(hunter.reefs, stocked_in(now));
            proof {
                lemma_first_where(hunter.reefs, stocked_in(now));
            }
            match self.catch_prey(reefs) {
                None => {
                    proof {
                        lemma_hunt_without_catch(hunter, start, now, escaped@, cursor);
                    }
                    break;
                },
                Some((mut prey, reef_index)) => {
                    proof {
                        lemma_total_prey_update(
                            now,
                            hunter.reefs[at] as int,
                            now[hunter.reefs[at] as int].drop_first(),
                        );
                    }
                    let fled = prey.try_escape(self);
                    if fled || prey.diet() != self.diet {
                        proof {
                            lemma_hunt_goes_on(hunter, start, now, escaped@, cursor, reef_index);
                            cursor = at;
                        }
                        escaped.push((prey, reef_index));
                    } else {
                        caught = true;
                        proof {
                            lemma_hunt_with_catch(hunter, start, now, escaped@, cursor);
                        }
                        break;
                    }
                },
            }
        }
        let ghost rest = reef_views(reefs@);
        let mut i: usize = 0;
        while i < escaped.len()
            invariant
                i <= escaped.len(),
                self@ == hunter,
                *self == *old(self),
                reef_views(reefs@).len() == rest.len(),
                origins_known(escaped@, hunter.reefs, rest.len()),
                forall|reef: int| 0 <= reef < rest.len() ==> #[trigger] reef_views(reefs@)[reef]
                    == rest[reef] + returned(escaped@.subrange(0, i as int), hunter.reefs, reef),
            decreases escaped.len() - i,
        {
            let (prey, reef_index) = escaped[i];
            self.release_prey(reefs, prey, reef_index);
            assert(escaped@.subrange(0, i + 1).drop_last() =~= escaped@.subrange(0, i as int));
            i += 1;
        }
        assert(escaped@.subrange(0, i as int) =~= escaped@);
        caught
    }

    /// The first recipe of the cookbook that suits the crab's diet, if there
    /// is one.
    pub fn choose_recipe<'a>(&'a self, cookbook: &'a Cookbook) -> (choice: Option<&'a Recipe>)
        ensures
            choice == (if first_where(cookbook@, suits(self@.diet)) < cookbook@.len() {
                Some(&cookbook@[first_where(cookbook@, suits(self@.diet))])
            } else {
                None
            }),
    {
        let mut i: usize = 0;
        while i < cookbook.len()
            invariant
                i <= cookbook@.len(),
                forall|j: int| 0 <= j < i ==> !suits(self@.diet)(#[trigger] cookbook@[j]),
            decreases cookbook@.len() - i,
        {
            let recipe = cookbook.recipe(i);
            if recipe.diet() == self.diet {
                proof {
                    lemma_first_where_is(cookbook@, suits(self@.diet), i as int);
                }
                return Some(recipe);
            }
            i += 1;
        }
        proof {
            lemma_first_where_is(cookbook@, suits(self@.diet), i as int);
        }
        None
    }
}

/// Whether `now` is what is left of `start` after prey was taken from its
/// front.
spec fn is_rest_of(now: Seq<Prey>, start: Seq<Prey>) -> bool {
    &&& now.len() <= start.len()
    &&& now == start.subrange(start.len() - now.len(), start.len() as int)
}

/// Of the prey set aside, with the entry of the hunter's list that each came
/// from, the pieces that go back to the given reef, in the order in which
/// they were set aside.
spec fn returned(escaped: Seq<(Prey, usize)>, reefs: Seq<usize>, reef: int) -> Seq<Prey>
    decreases escaped.len(),
{
    if escaped.len() == 0 {
        Seq::empty()
    } else {
        let sooner = returned(escaped.drop_last(), reefs, reef);
        let (prey, origin) = escaped.last();
        if origin < reefs.len() && reefs[origin as int] == reef {
            sooner.push(prey)
        } else {
            sooner
        }
    }
}

/// Whether every piece set aside came from an entry of the hunter's list that
/// names a reef of the table.
spec fn origins_known(escaped: Seq<(Prey, usize)>, reefs: Seq<usize>, table_len: nat) -> bool {
    forall|k: int|
        0 <= k < escaped.len() ==> {
            &&& (#[trigger] escaped[k]).1 < reefs.len()
            &&& reefs[escaped[k].1 as int] < table_len
        }
}

/// What holds while a hunt is under way, with no catch made so far. The
/// table was `start` when the hunt began and is `now`; `escaped` is the prey
/// set aside; the last piece was taken from the reef that the entry `cursor`
/// of the hunter's list names.
spec fn hunting(
    hunter: CrabView,
    start: Seq<Seq<Prey>>,
    now: Seq<Seq<Prey>>,
    escaped: Seq<(Prey, usize)>,
    cursor: int,
) -> bool {
    &&& now.len() == start.len()
    &&& 0 <= cursor <= hunter.reefs.len()
    &&& forall|reef: int| 0 <= reef < start.len() ==> is_rest_of(#[trigger] now[reef], start[reef])
    &&& forall|reef: int, k: int|
        0 <= reef < start.len() && 0 <= k < start[reef].len() - now[reef].len() ==> resists(
            #[trigger] start[reef][k],
            hunter,
        )
    &&& forall|reef: int|
        0 <= reef < start.len() ==> #[trigger] returned(escaped, hunter.reefs, reef) == attempted(
            start[reef].subrange(0, start[reef].len() - now[reef].len()),
        )
    &&& origins_known(escaped, hunter.reefs, start.len())
    &&& forall|j: int|
        0 <= j < cursor && (#[trigger] hunter.reefs[j]) < now.len()
            ==> now[hunter.reefs[j] as int].len() == 0
    &&& forall|reef: int|
        0 <= reef < start.len() && (#[trigger] now[reef]).len() < start[reef].len()
            ==> named_before(hunter.reefs, cursor + 1, reef)
}

/// What holds when the taking is over: putting back what was set aside
/// gives the table that the hunt is to leave.
spec fn hunted(
    hunter: CrabView,
    start: Seq<Seq<Prey>>,
    now: Seq<Seq<Prey>>,
    escaped: Seq<(Prey, usize)>,
    caught: bool,
) -> bool {
    &&& now.len() == start.len()
    &&& caught == hunt_succeeds(hunter, start)
    &&& origins_known(escaped, hunter.reefs, start.len())
    &&& forall|reef: int|
        0 <= reef < start.len() ==> (#[trigger] now[reef]) + returned(escaped, hunter.reefs, reef)
            == reef_after_hunt(hunter, start, reef)
}

/// A reef from which the hunt has taken everything holds nothing that the
/// hunter catches and keeps.
proof fn lemma_drained_is_fruitless(
    hunter: CrabView,
    start: Seq<Seq<Prey>>,
    now: Seq<Seq<Prey>>,
    escaped: Seq<(Prey, usize)>,
    cursor: int,
    reef: usize,
)
    requires
        hunting(hunter, start, now, escaped, cursor),
        reef < now.len() ==> now[reef as int].len() == 0,
    ensures
        !fruitful_in(start, hunter)(reef),
{
    if reef < now.len() {
        let prey = start[reef as int];
        lemma_first_where_is(prey, catchable_by(hunter), prey.len() as int);
    }
}

/// The next piece taken resists: the hunt goes on, with that piece set aside.
proof fn lemma_hunt_goes_on(
    hunter: CrabView,
    start: Seq<Seq<Prey>>,
    now: Seq<Seq<Prey>>,
    escaped: Seq<(Prey, usize)>,
    cursor: int,
    origin: usize,
)
    requires
        hunting(hunter, start, now, escaped, cursor),
        origin == first_where(hunter.reefs, stocked_in(now)),
        origin < hunter.reefs.len(),
        now[hunter.reefs[origin as int] as int].len() > 0 ==> resists(
            now[hunter.reefs[origin as int] as int][0],
            hunter,
        ),
    ensures
        ({
            let reef = hunter.reefs[origin as int] as int;
            hunting(
                hunter,
                start,
                now.update(reef, now[reef].drop_first()),
                escaped.push((now[reef][0].after_attempt(), origin)),
                origin as int,
            )
        }),
{
    let at = origin as int;
    lemma_first_where(hunter.reefs, stocked_in(now));
    let from = hunter.reefs[at] as int;
    let prey = now[from][0];
    let next = now.update(from, now[from].drop_first());
    let aside = escaped.push((prey.after_attempt(), origin));
    let taken = start[from].len() - now[from].len();
    assert(aside.drop_last() =~= escaped);
    assert forall|reef: int| 0 <= reef < start.len() implies is_rest_of(
        #[trigger] next[reef],
        start[reef],
    ) by {
        if reef == from {
            assert(next[reef] =~= start[reef].subrange(taken + 1, start[reef].len() as int));
        }
    }
    assert forall|reef: int| 0 <= reef < start.len() implies #[trigger] returned(
        aside,
        hunter.reefs,
        reef,
    ) == attempted(start[reef].subrange(0, start[reef].len() - next[reef].len())) by {
        assert(returned(escaped, hunter.reefs, reef) == attempted(
            start[reef].subrange(0, start[reef].len() - now[reef].len()),
        ));
    }
}

/// No entry of the hunter's list before the first one that names a stocked
/// reef, and none at all if there is no such entry, names a reef with prey
/// that the hunter catches and keeps; and whatever reef the hunt has taken
/// from is drained and named before that entry, or is the reef that the
/// entry names.
proof fn lemma_hunt_so_far(
    hunter: CrabView,
    start: Seq<Seq<Prey>>,
    now: Seq<Seq<Prey>>,
    escaped: Seq<(Prey, usize)>,
    cursor: int,
)
    requires
        hunting(hunter, start, now, escaped, cursor),
    ensures
        ({
            let at = first_where(hunter.reefs, stocked_in(now));
            &&& cursor <= at <= hunter.reefs.len()
            &&& forall|j: int|
                0 <= j < at ==> !fruitful_in(start, hunter)(#[trigger] hunter.reefs[j])
            &&& forall|reef: int|
                0 <= reef < start.len() && named_before(hunter.reefs, at, reef)
                    ==> (#[trigger] now[reef]).len() == 0
            &&& forall|reef: int|
                0 <= reef < start.len() && !named_before(hunter.reefs, at, reef) && !(at
                    < hunter.reefs.len() && hunter.reefs[at] == reef)
                    ==> (#[trigger] now[reef]).len() == start[reef].len()
        }),
{
    let at = first_where(hunter.reefs, stocked_in(now));
    lemma_first_where(hunter.reefs, stocked_in(now));
    assert forall|j: int| 0 <= j < at implies !fruitful_in(start, hunter)(
        #[trigger] hunter.reefs[j],
    ) by {
        lemma_drained_is_fruitless(hunter, start, now, escaped, cursor, hunter.reefs[j]);
    }
}

/// No reef of the hunter's list has prey left: the hunt ends without a catch.
proof fn lemma_hunt_without_catch(
    hunter: CrabView,
    start: Seq<Seq<Prey>>,
    now: Seq<Seq<Prey>>,
    escaped: Seq<(Prey, usize)>,
    cursor: int,
)
    requires
        hunting(hunter, start, now, escaped, cursor),
        first_where(hunter.reefs, stocked_in(now)) == hunter.reefs.len(),
    ensures
        hunted(hunter, start, now, escaped, false),
{
    lemma_hunt_so_far(hunter, start, now, escaped, cursor);
    lemma_first_where_is(hunter.reefs, fruitful_in(start, hunter), hunter.reefs.len() as int);
    assert forall|reef: int| 0 <= reef < start.len() implies (#[trigger] now[reef]) + returned(
        escaped,
        hunter.reefs,
        reef,
    ) == reef_after_hunt(hunter, start, reef) by {
    }
}

/// The next piece taken does not resist: the hunt ends with a catch.
proof fn lemma_hunt_with_catch(
    hunter: CrabView,
    start: Seq<Seq<Prey>>,
    now: Seq<Seq<Prey>>,
    escaped: Seq<(Prey, usize)>,
    cursor: int,
)
    requires
        hunting(hunter, start, now, escaped, cursor),
        first_where(hunter.reefs, stocked_in(now)) < hunter.reefs.len(),
        !resists(now[hunter.reefs[first_where(hunter.reefs, stocked_in(now))] as int][0], hunter),
    ensures
        ({
            let reef = hunter.reefs[first_where(hunter.reefs, stocked_in(now))] as int;
            hunted(hunter, start, now.update(reef, now[reef].drop_first()), escaped, true)
        }),
{
    let at = first_where(hunter.reefs, stocked_in(now));
    let from = hunter.reefs[at] as int;
    let next = now.update(from, now[from].drop_first());
    lemma_hunt_so_far(hunter, start, now, escaped, cursor);
    lemma_first_where(hunter.reefs, stocked_in(now));
    let taken = start[from].len() - now[from].len();
    lemma_first_where_is(start[from], catchable_by(hunter), taken);
    lemma_first_where_is(hunter.reefs, fruitful_in(start, hunter), at);
    assert forall|reef: int| 0 <= reef < start.len() implies (#[trigger] next[reef]) + returned(
        escaped,
        hunter.reefs,
        reef,
    ) == reef_after_hunt(hunter, start, reef) by {
    }
}

} // verus!
