use ocean::clans::ClanSystem;

fn s(text: &str) -> String {
    text.to_string()
}

#[test]
fn new_clan_system_is_empty() {
    let clans = ClanSystem::new();
    assert_eq!(clans.get_clan_count(), 0);
    assert_eq!(clans.get_largest_clan_id(), None);
    assert_eq!(clans.get_clan_member_names("A"), Vec::<String>::new());
    assert_eq!(clans.get_clan_member_count("A"), 0);
}

#[test]
fn members_join_in_order() {
    let mut clans = ClanSystem::new();
    clans.add_to_clan(&s("A"), &s("x"));
    clans.add_to_clan(&s("A"), &s("y"));
    assert_eq!(clans.get_clan_member_count("A"), 2);
    assert_eq!(clans.get_clan_member_names("A"), vec![s("x"), s("y")]);
    assert_eq!(clans.get_clan_member_count("missing"), 0);
    assert_eq!(clans.get_clan_member_names("missing"), Vec::<String>::new());
}

#[test]
fn a_name_may_join_twice_and_join_several_clans() {
    let mut clans = ClanSystem::new();
    clans.add_to_clan(&s("A"), &s("x"));
    clans.add_to_clan(&s("A"), &s("x"));
    clans.add_to_clan(&s("B"), &s("x"));
    assert_eq!(clans.get_clan_member_names("A"), vec![s("x"), s("x")]);
    assert_eq!(clans.get_clan_member_names("B"), vec![s("x")]);
    assert_eq!(clans.get_clan_count(), 2);
}

#[test]
fn clan_count_counts_identifiers_once() {
    let mut clans = ClanSystem::new();
    clans.add_to_clan(&s("A"), &s("x"));
    assert_eq!(clans.get_clan_count(), 1);
    clans.add_to_clan(&s("B"), &s("y"));
    assert_eq!(clans.get_clan_count(), 2);
    clans.add_to_clan(&s("A"), &s("z"));
    assert_eq!(clans.get_clan_count(), 2);
    clans.add_to_clan(&s(""), &s("w"));
    assert_eq!(clans.get_clan_count(), 3);
    assert_eq!(clans.get_clan_member_names(""), vec![s("w")]);
}

#[test]
fn joining_one_clan_leaves_the_others() {
    let mut clans = ClanSystem::new();
    clans.add_to_clan(&s("A"), &s("x"));
    clans.add_to_clan(&s("B"), &s("y"));
    clans.add_to_clan(&s("A"), &s("z"));
    assert_eq!(clans.get_clan_member_names("A"), vec![s("x"), s("z")]);
    assert_eq!(clans.get_clan_member_names("B"), vec![s("y")]);
}

#[test]
fn member_names_are_a_copy() {
    let mut clans = ClanSystem::new();
    clans.add_to_clan(&s("A"), &s("x"));
    let mut names = clans.get_clan_member_names("A");
    names.push(s("intruder"));
    assert_eq!(clans.get_clan_member_names("A"), vec![s("x")]);
}

#[test]
fn largest_clan_has_the_most_members() {
    let mut clans = ClanSystem::new();
    clans.add_to_clan(&s("small"), &s("a"));
    clans.add_to_clan(&s("big"), &s("b"));
    clans.add_to_clan(&s("big"), &s("c"));
    clans.add_to_clan(&s("big"), &s("d"));
    clans.add_to_clan(&s("middle"), &s("e"));
    clans.add_to_clan(&s("middle"), &s("f"));
    assert_eq!(clans.get_largest_clan_id(), Some(s("big")));
}

#[test]
fn largest_clan_of_a_single_clan() {
    let mut clans = ClanSystem::new();
    clans.add_to_clan(&s("only"), &s("a"));
    assert_eq!(clans.get_largest_clan_id(), Some(s("only")));
}

#[test]
fn of_equally_large_clans_the_oldest_is_largest() {
    let mut clans = ClanSystem::new();
    clans.add_to_clan(&s("second"), &s("a"));
    clans.add_to_clan(&s("first"), &s("b"));
    clans.add_to_clan(&s("first"), &s("c"));
    clans.add_to_clan(&s("second"), &s("d"));
    assert_eq!(clans.get_largest_clan_id(), Some(s("second")));
    clans.add_to_clan(&s("first"), &s("e"));
    assert_eq!(clans.get_largest_clan_id(), Some(s("first")));
}
