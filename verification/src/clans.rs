//! Clans: named groups of crab names.

use vstd::prelude::*;
use crate::names::{copy_names, texts};
use crate::search::{first_where, lemma_first_where, lemma_first_where_is};

verus! {

/// One clan as contracts see it: its identifier and the names of its members
/// in the order in which they joined.
pub struct ClanView {
    pub id: Seq<char>,
    pub members: Seq<Seq<char>>,
}

/// The property of bearing the identifier `id`.
pub open spec fn has_id(id: Seq<char>) -> spec_fn(ClanView) -> bool {
    |clan: ClanView| clan.id == id
}

/// Where the clan `id` stands in the roster; the roster's length if there is
/// no such clan.
pub open spec fn clan_position(roster: Seq<ClanView>, id: Seq<char>) -> int {
    first_where(roster, has_id(id))
}

/// The members of the clan `id`, none if there is no such clan.
pub open spec fn clan_members(roster: Seq<ClanView>, id: Seq<char>) -> Seq<Seq<char>> {
    let at = clan_position(roster, id);
    if at < roster.len() {
        roster[at].members
    } else {
        Seq::empty()
    }
}

/// What holds of every roster: no identifier stands in it twice, and every
/// clan has a member.
pub open spec fn valid_roster(roster: Seq<ClanView>) -> bool {
    &&& forall|i: int, j: int| 0 <= i < j < roster.len() ==> roster[i].id != roster[j].id
    &&& forall|i: int| 0 <= i < roster.len() ==> (#[trigger] roster[i]).members.len() > 0
}

/// The roster after `name` has joined the clan `id`: the name stands last
/// among the clan's members, and a clan that was not there is founded behind
/// all others.
pub open spec fn roster_with(
    roster: Seq<ClanView>,
    id: Seq<char>,
    name: Seq<char>,
) -> Seq<ClanView> {
    let at = clan_position(roster, id);
    if at < roster.len() {
        roster.update(at, ClanView { id, members: roster[at].members.push(name) })
    } else {
        roster.push(ClanView { id, members: seq![name] })
    }
}

/// Whether the clan at position `at` is the largest: no clan has more
/// members, and every clan before it has fewer.
pub open spec fn largest_at(roster: Seq<ClanView>, at: int) -> bool {
    &&& 0 <= at < roster.len()
    &&& forall|j: int|
        0 <= j < roster.len() ==> (#[trigger] roster[j]).members.len() <= roster[at].members.len()
    &&& forall|j: int|
        0 <= j < at ==> (#[trigger] roster[j]).members.len() < roster[at].members.len()
}

#[derive(Debug)]
struct Clan {
    id: String,
    members: Vec<String>,
}

impl View for Clan {
    type V = ClanView;

    closed spec fn view(&self) -> ClanView {
        ClanView { id: self.id@, members: texts(self.members@) }
    }
}

/// The clans of one beach, in the order in which they were founded.
#[derive(Debug)]
pub struct ClanSystem {
    clans: Vec<Clan>,
}

impl View for ClanSystem {
    type V = Seq<ClanView>;

    /// The roster: every clan with its members, oldest clan first.
    closed spec fn view(&self) -> Seq<ClanView> {
        self.clans@.map_values(|clan: Clan| clan@)
    }
}

impl ClanSystem {
    #[verifier::type_invariant]
    spec fn well_formed(&self) -> bool {
        valid_roster(self@)
    }

    /// A clan system without clans.
    pub fn new() -> (clans: ClanSystem)
        ensures
            clans@ == Seq::<ClanView>::empty(),
    {
        let clans = ClanSystem { clans: Vec::new() };
        clans
    }

    /// Where the clan `clan_id` stands among the clans.
    fn position(&self, clan_id: &String) -> (at: usize)
        ensures
            at == clan_position(self@, clan_id@),
            at <= self.clans.len(),
    {
        let mut at: usize = 0;
        while at < self.clans.len()
            invariant
                at <= self.clans.len(),
                forall|j: int| 0 <= j < at ==> !has_id(clan_id@)(#[trigger] self@[j]),
            decreases self.clans.len() - at,
        {
            if self.clans[at].id == *clan_id {
                proof {
                    lemma_first_where_is(self@, has_id(clan_id@), at as int);
                }
                return at;
            }
            at += 1;
        }
        proof {
            lemma_first_where_is(self@, has_id(clan_id@), at as int);
        }
        at
    }

    /// The names of the members of the clan `clan_id`, in the order in which
    /// they joined; no names if there is no such clan.
    pub fn get_clan_member_names(&self, clan_id: &str) -> (list: Vec<String>)
        ensures
            texts(list@) == clan_members(self@, clan_id@),
    {
        let id = clan_id.to_owned();
        let at = self.position(&id);
        if at < self.clans.len() {
            copy_names(&self.clans[at].members)
        } else {
            let list: Vec<String> = Vec::new();
            list
        }
    }

    /// The number of clans. No two of them bear the same identifier, and
    /// each has a member.
    pub fn get_clan_count(&self) -> (count: usize)
        ensures
            count == self@.len(),
            valid_roster(self@),
    {
        proof {
            use_type_invariant(self);
        }
        self.clans.len()
    }

    /// The number of members of the clan `clan_id`, 0 if there is no such
    /// clan.
    pub fn get_clan_member_count(&self, clan_id: &str) -> (count: usize)
        ensures
            count == clan_members(self@, clan_id@).len(),
    {
        let id = clan_id.to_owned();
        let at = self.position(&id);
        if at < self.clans.len() {
            self.clans[at].members.len()
        } else {
            0
        }
    }

    /// The identifier of the clan with the most members; of several such
    /// clans, the one that was founded first. `None` if there is no clan.
    pub fn get_largest_clan_id(&self) -> (largest: Option<String>)
        ensures
            match largest {
                Some(id) => exists|at: int| largest_at(self@, at) && id@ == self@[at].id,
                None => self@.len() == 0,
            },
    {
        proof {
            use_type_invariant(self);
        }
        if self.clans.len() == 0 {
            return None;
        }
        let mut best: usize = 0;
        let mut i: usize = 1;
        while i < self.clans.len()
            invariant
                1 <= i <= self.clans.len(),
                best < i,
                forall|j: int|
                    0 <= j < i ==> (#[trigger] self@[j]).members.len()
                        <= self@[best as int].members.len(),
                forall|j: int|
                    0 <= j < best ==> (#[trigger] self@[j]).members.len()
                        < self@[best as int].members.len(),
            decreases self.clans.len() - i,
        {
            if self.clans[i].members.len() > self.clans[best].members.len() {
                best = i;
            }
            i += 1;
        }
        let id = self.clans[best].id.clone();
        assert(largest_at(self@, best as int));
        Some(id)
    }

    /// Lets `name` join the clan `clan_id`, founding the clan if there is none
    /// of that identifier. A name may join the same clan more than once.
    pub fn add_to_clan(&mut self, clan_id: &String, name: &String)
        ensures
            final(self)@ == roster_with(old(self)@, clan_id@, name@),
            valid_roster(final(self)@),
    {
        proof {
            use_type_invariant(&*self);
            lemma_first_where(self@, has_id(clan_id@));
        }
        let at = self.position(clan_id);
        let mut clans: Vec<Clan> = Vec::new();
        std::mem::swap(&mut self.clans, &mut clans);
        let ghost before = clans@;
        if at < clans.len() {
            clans[at].members.push(name.clone());
            proof {
                let joined = clans@[at as int];
                assert(texts(joined.members@) =~= texts(before[at as int].members@).push(name@));
            }
        } else {
            let mut members: Vec<String> = Vec::new();
            members.push(name.clone());
            let clan = Clan { id: clan_id.clone(), members };
            assert(clan@.members =~= seq![name@]);
            clans.push(clan);
        }
        assert(clans@.map_values(|clan: Clan| clan@) =~= roster_with(old(self)@, clan_id@, name@));
        self.clans = clans;
    }
}

/// Joining a clan changes that clan alone: the name stands last among its
/// members, every other clan has the members it had, a founded clan is one
/// clan more, and a valid roster stays valid.
pub proof fn lemma_join_changes_one_clan(
    roster: Seq<ClanView>,
    id: Seq<char>,
    name: Seq<char>,
    other: Seq<char>,
)
    ensures
        clan_members(roster_with(roster, id, name), id) == clan_members(roster, id).push(name),
        other != id ==> clan_members(roster_with(roster, id, name), other) == clan_members(
            roster,
            other,
        ),
        roster_with(roster, id, name).len() == (if clan_position(roster, id) < roster.len() {
            roster.len()
        } else {
            roster.len() + 1
        }),
        valid_roster(roster) ==> valid_roster(roster_with(roster, id, name)),
{
    let joined = roster_with(roster, id, name);
    let at = clan_position(roster, id);
    lemma_first_where(roster, has_id(id));
    lemma_first_where_is(joined, has_id(id), at);
    if other != id {
        let there = clan_position(roster, other);
        lemma_first_where(roster, has_id(other));
        if there < roster.len() {
            lemma_first_where_is(joined, has_id(other), there);
        } else {
            lemma_first_where_is(joined, has_id(other), joined.len() as int);
        }
    }
}

/// At most one clan of a roster is the largest.
pub proof fn lemma_largest_is_unique(roster: Seq<ClanView>, a: int, b: int)
    requires
        largest_at(roster, a),
        largest_at(roster, b),
    ensures
        a == b,
{
    if a < b {
        assert(roster[a].members.len() < roster[b].members.len());
    } else if b < a {
        assert(roster[b].members.len() < roster[a].members.len());
    }
}

} // verus!
