use ocean::color::Color;
use ocean::cookbook::{Cookbook, Recipe};
use ocean::crab::Crab;
use ocean::diet::Diet;
use ocean::ocean::Ocean;
use ocean::prey::Prey;
use ocean::reef::Reef;

fn crab(speed: u32, diet: Diet) -> Crab {
    Crab::new("hunter".to_string(), speed, Color::new(1, 2, 3), diet)
}

fn reef_of(prey: &[Prey]) -> Reef {
    let mut reef = Reef::new();
    for p in prey {
        reef.add_prey(*p);
    }
    reef
}

fn drain(reef: &mut Reef) -> Vec<Prey> {
    let mut all = Vec::new();
    while let Some(p) = reef.take_prey() {
        all.push(p);
    }
    all
}

#[test]
fn new_crab_has_what_it_was_given() {
    let c = Crab::new("Ferris".to_string(), 9, Color::new(4, 5, 6), Diet::Plants);
    assert_eq!(c.name(), "Ferris");
    assert_eq!(c.speed(), 9);
    assert_eq!(*c.color(), Color::new(4, 5, 6));
    assert_eq!(c.diet(), Diet::Plants);
}

#[test]
fn breed_with_diet_makes_the_child() {
    let a = Crab::new("a".to_string(), 50, Color::new(10, 20, 30), Diet::Fish);
    let b = Crab::new("b".to_string(), 70, Color::new(20, 40, 61), Diet::Plants);
    let child = Crab::breed_with_diet(&a, &b, "c".to_string(), Diet::Shellfish);
    assert_eq!(child.name(), "c");
    assert_eq!(child.speed(), 1);
    assert_eq!(*child.color(), Color::new(15, 30, 45));
    assert_eq!(child.diet(), Diet::Shellfish);
    assert_eq!(a.speed(), 50);
    assert_eq!(b.speed(), 70);
}

#[test]
fn breed_makes_a_slow_child_of_blended_color() {
    let a = Crab::new("a".to_string(), 50, Color::new(10, 20, 30), Diet::Fish);
    let b = Crab::new("b".to_string(), 70, Color::new(20, 40, 61), Diet::Fish);
    let child = Crab::breed(&a, &b, "c".to_string());
    assert_eq!(child.name(), "c");
    assert_eq!(child.speed(), 1);
    assert_eq!(*child.color(), Color::cross(a.color(), b.color()));
    assert_eq!(*child.color(), Color::new(15, 30, 45));
    assert!(matches!(child.diet(), Diet::Fish | Diet::Plants | Diet::Shellfish));
    assert_eq!(a.name(), "a");
    assert_eq!(*a.color(), Color::new(10, 20, 30));
    assert_eq!(b.name(), "b");
    assert_eq!(*b.color(), Color::new(20, 40, 61));
}

#[test]
fn bred_children_do_not_inherit_a_diet() {
    let a = crab(1, Diet::Fish);
    let b = crab(1, Diet::Fish);
    let mut other = 0;
    for _ in 0..600 {
        if Crab::breed(&a, &b, "c".to_string()).diet() != Diet::Fish {
            other += 1;
        }
    }
    assert!(other > 0);
}

#[test]
fn a_bred_child_knows_no_reef() {
    let mut table = vec![reef_of(&[Prey::clam()])];
    let mut a = crab(1, Diet::Shellfish);
    a.discover_reef(0);
    let b = crab(1, Diet::Shellfish);
    let mut child = Crab::breed_with_diet(&a, &b, "c".to_string(), Diet::Shellfish);
    assert!(!child.hunt(&mut table));
    assert_eq!(table[0].population(), 1);
}

#[test]
fn hunt_catches_prey_that_suits_and_stays() {
    let mut table = vec![reef_of(&[Prey::clam()])];
    let mut c = crab(1, Diet::Shellfish);
    c.discover_reef(0);
    assert!(c.hunt(&mut table));
    assert_eq!(table[0].population(), 0);
}

#[test]
fn hunt_returns_prey_that_always_escapes() {
    let mut table = vec![reef_of(&[Prey::minnow(25)])];
    let mut c = crab(1, Diet::Fish);
    c.discover_reef(0);
    assert!(!c.hunt(&mut table));
    assert_eq!(table[0].population(), 1);
    assert_eq!(drain(&mut table[0]), vec![Prey::minnow(25)]);
}

#[test]
fn hunt_returns_prey_of_the_wrong_diet() {
    let mut table = vec![reef_of(&[Prey::algae(), Prey::clam()])];
    let mut c = crab(100, Diet::Fish);
    c.discover_reef(0);
    assert!(!c.hunt(&mut table));
    assert_eq!(drain(&mut table[0]), vec![Prey::algae(), Prey::clam()]);
}

#[test]
fn hunt_without_reefs_catches_nothing() {
    let mut table = vec![reef_of(&[Prey::clam()])];
    let mut c = crab(1, Diet::Shellfish);
    assert!(!c.hunt(&mut table));
    assert_eq!(table[0].population(), 1);
}

#[test]
fn hunt_on_empty_reefs_catches_nothing() {
    let mut table = vec![Reef::new(), Reef::new()];
    let mut c = crab(1, Diet::Shellfish);
    c.discover_reef(0);
    c.discover_reef(1);
    assert!(!c.hunt(&mut table));
    assert_eq!(table[0].population(), 0);
    assert_eq!(table[1].population(), 0);
}

#[test]
fn hunt_leaves_undiscovered_reefs_alone() {
    let mut table = vec![reef_of(&[Prey::clam()]), reef_of(&[Prey::minnow(9)])];
    let mut c = crab(1, Diet::Shellfish);
    c.discover_reef(1);
    assert!(!c.hunt(&mut table));
    assert_eq!(drain(&mut table[0]), vec![Prey::clam()]);
    assert_eq!(drain(&mut table[1]), vec![Prey::minnow(9)]);
}

#[test]
fn hunt_takes_one_piece_and_puts_the_tried_ones_last() {
    let mut table = vec![reef_of(&[Prey::clam(), Prey::algae(), Prey::minnow(3), Prey::clam()])];
    let mut c = crab(1, Diet::Plants);
    c.discover_reef(0);
    assert!(c.hunt(&mut table));
    assert_eq!(drain(&mut table[0]), vec![Prey::minnow(3), Prey::clam(), Prey::clam()]);
}

#[test]
fn hunt_returns_tried_prey_in_the_order_it_was_taken() {
    let mut table =
        vec![reef_of(&[Prey::minnow(5), Prey::minnow(6), Prey::minnow(7), Prey::clam()])];
    let mut c = crab(1, Diet::Shellfish);
    c.discover_reef(0);
    assert!(c.hunt(&mut table));
    assert_eq!(drain(&mut table[0]), vec![Prey::minnow(5), Prey::minnow(6), Prey::minnow(7)]);
}

#[test]
fn hunt_goes_through_the_reefs_in_the_order_of_discovery() {
    let mut table = vec![
        reef_of(&[Prey::clam()]),
        reef_of(&[Prey::minnow(30), Prey::algae()]),
        reef_of(&[Prey::clam(), Prey::clam()]),
    ];
    let mut c = crab(1, Diet::Shellfish);
    c.discover_reef(1);
    c.discover_reef(2);
    c.discover_reef(0);
    assert!(c.hunt(&mut table));
    assert_eq!(drain(&mut table[0]), vec![Prey::clam()]);
    assert_eq!(drain(&mut table[1]), vec![Prey::minnow(30), Prey::algae()]);
    assert_eq!(drain(&mut table[2]), vec![Prey::clam()]);
}

#[test]
fn hunt_returns_each_piece_to_the_reef_it_came_from() {
    let mut table = vec![
        reef_of(&[Prey::minnow(30)]),
        reef_of(&[Prey::algae(), Prey::algae()]),
        reef_of(&[Prey::minnow(40), Prey::minnow(50)]),
    ];
    let mut c = crab(1, Diet::Fish);
    c.discover_reef(2);
    c.discover_reef(0);
    c.discover_reef(1);
    assert!(!c.hunt(&mut table));
    assert_eq!(drain(&mut table[0]), vec![Prey::minnow(30)]);
    assert_eq!(drain(&mut table[1]), vec![Prey::algae(), Prey::algae()]);
    assert_eq!(drain(&mut table[2]), vec![Prey::minnow(40), Prey::minnow(50)]);
}

#[test]
fn a_shrimp_tires_over_two_hunts() {
    let mut table = vec![reef_of(&[Prey::shrimp(1)])];
    let mut c = crab(1, Diet::Shellfish);
    c.discover_reef(0);
    assert!(!c.hunt(&mut table));
    assert_eq!(table[0].population(), 1);
    assert!(c.hunt(&mut table));
    assert_eq!(table[0].population(), 0);
    assert!(!c.hunt(&mut table));
}

#[test]
fn a_failed_hunt_leaves_the_shrimp_tired() {
    let mut table = vec![reef_of(&[Prey::shrimp(3), Prey::shrimp(0)])];
    let mut c = crab(1, Diet::Fish);
    c.discover_reef(0);
    assert!(!c.hunt(&mut table));
    assert_eq!(drain(&mut table[0]), vec![Prey::shrimp(2), Prey::shrimp(0)]);
}

#[test]
fn a_reef_discovered_twice_is_hunted_once() {
    let mut table = vec![reef_of(&[Prey::shrimp(1)])];
    let mut c = crab(1, Diet::Shellfish);
    c.discover_reef(0);
    c.discover_reef(0);
    assert!(!c.hunt(&mut table));
    assert_eq!(drain(&mut table[0]), vec![Prey::shrimp(0)]);
}

#[test]
fn a_reef_that_is_not_on_the_table_has_no_prey() {
    let mut table = vec![reef_of(&[Prey::clam()])];
    let mut c = crab(1, Diet::Shellfish);
    c.discover_reef(7);
    assert!(!c.hunt(&mut table));
    assert_eq!(table[0].population(), 1);
    c.discover_reef(0);
    assert!(c.hunt(&mut table));
    assert_eq!(table[0].population(), 0);
}

#[test]
fn two_crabs_hunt_on_the_same_reef() {
    let mut ocean = Ocean::new();
    let reef = ocean.generate_reef(0, 0, 2, 1);
    let mut first = crab(1, Diet::Shellfish);
    let mut second = crab(1, Diet::Plants);
    first.discover_reef(reef);
    second.discover_reef(reef);
    assert!(second.hunt(ocean.reefs_mut()));
    assert!(first.hunt(ocean.reefs_mut()));
    assert!(first.hunt(ocean.reefs_mut()));
    assert!(!first.hunt(ocean.reefs_mut()));
    assert!(!second.hunt(ocean.reefs_mut()));
    assert_eq!(ocean.reefs().next().unwrap().population(), 0);
}

#[test]
fn hunt_does_not_change_the_crab() {
    let mut table = vec![reef_of(&[Prey::minnow(30), Prey::clam()])];
    let mut c = Crab::new("Ferris".to_string(), 9, Color::new(4, 5, 6), Diet::Shellfish);
    c.discover_reef(0);
    assert!(c.hunt(&mut table));
    assert_eq!(c.name(), "Ferris");
    assert_eq!(c.speed(), 9);
    assert_eq!(*c.color(), Color::new(4, 5, 6));
    assert_eq!(c.diet(), Diet::Shellfish);
}

#[test]
fn choose_recipe_takes_the_first_that_suits() {
    let mut book = Cookbook::new();
    book.add_recipe(Recipe::new("salad".to_string(), Diet::Plants));
    book.add_recipe(Recipe::new("chowder".to_string(), Diet::Shellfish));
    book.add_recipe(Recipe::new("paella".to_string(), Diet::Shellfish));
    let c = crab(1, Diet::Shellfish);
    assert_eq!(c.choose_recipe(&book).unwrap().name(), "chowder");
    let d = crab(1, Diet::Plants);
    assert_eq!(d.choose_recipe(&book).unwrap().name(), "salad");
}

#[test]
fn choose_recipe_finds_none_that_suits() {
    let mut book = Cookbook::new();
    let c = crab(1, Diet::Fish);
    assert!(c.choose_recipe(&book).is_none());
    book.add_recipe(Recipe::new("salad".to_string(), Diet::Plants));
    book.add_recipe(Recipe::new("chowder".to_string(), Diet::Shellfish));
    assert!(c.choose_recipe(&book).is_none());
}

#[test]
fn hunt_takes_one_piece_from_the_table_or_none() {
    let mut table = vec![
        reef_of(&[Prey::minnow(30), Prey::shrimp(2)]),
        reef_of(&[Prey::algae(), Prey::clam(), Prey::clam()]),
        reef_of(&[Prey::clam()]),
    ];
    let mut c = crab(1, Diet::Shellfish);
    c.discover_reef(0);
    c.discover_reef(1);
    assert!(c.hunt(&mut table));
    let populations: Vec<usize> = table.iter().map(|r| r.population()).collect();
    assert_eq!(populations, vec![2, 2, 1]);
    let mut d = crab(1, Diet::Fish);
    d.discover_reef(0);
    d.discover_reef(1);
    d.discover_reef(2);
    assert!(!d.hunt(&mut table));
    let populations: Vec<usize> = table.iter().map(|r| r.population()).collect();
    assert_eq!(populations, vec![2, 2, 1]);
    assert_eq!(drain(&mut table[0]), vec![Prey::minnow(30), Prey::shrimp(0)]);
    assert_eq!(drain(&mut table[1]), vec![Prey::clam(), Prey::algae()]);
    assert_eq!(drain(&mut table[2]), vec![Prey::clam()]);
}
