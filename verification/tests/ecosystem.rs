use ocean::beach::Beach;
use ocean::clans::ClanSystem;
use ocean::color::Color;
use ocean::cookbook::{Cookbook, Recipe};
use ocean::crab::Crab;
use ocean::diet::Diet;
use ocean::prey::Prey;
use ocean::reef::Reef;

fn plant_eater(name: &str, speed: u32) -> Crab {
    Crab::new(name.to_string(), speed, Color::Red, Diet::Plants)
}

#[test]
fn hunt_with_no_reefs_returns_false_and_mutates_nothing() {
    let mut reefs: Vec<Reef> = Vec::new();
    let mut r = Reef::new();
    r.add_prey(Prey::Seaweed);
    reefs.push(r);
    let crab = plant_eater("loner", 3);
    // the crab never discovered any reef
    let caught = crab.hunt(&mut reefs);
    assert!(!caught);
    assert_eq!(reefs[0].population(), 1);
}

#[test]
fn hunt_catches_single_matching_prey_and_empties_reef() {
    let mut reefs: Vec<Reef> = Vec::new();
    let mut r = Reef::new();
    r.add_prey(Prey::Seaweed);
    reefs.push(r);
    let mut crab = plant_eater("hunter", 3);
    crab.discover_reef(0);
    let caught = crab.hunt(&mut reefs);
    assert!(caught);
    assert_eq!(reefs[0].population(), 0);
}

#[test]
fn hunt_restores_prey_that_always_escapes() {
    let mut reefs: Vec<Reef> = Vec::new();
    let mut r = Reef::new();
    r.add_prey(Prey::Jellyfish);
    reefs.push(r);
    // the diet matches, but a jellyfish always slips free
    let mut crab = Crab::new("patient".to_string(), 9, Color::Blue, Diet::Fish);
    crab.discover_reef(0);
    let caught = crab.hunt(&mut reefs);
    assert!(!caught);
    assert_eq!(reefs[0].population(), 1);
    assert_eq!(reefs[0].take_prey(), Some(Prey::Jellyfish));
    assert_eq!(reefs[0].take_prey(), None);
}

#[test]
fn hunt_escape_on_diet_mismatch_alone() {
    let mut reefs: Vec<Reef> = Vec::new();
    let mut r = Reef::new();
    r.add_prey(Prey::Clam);
    reefs.push(r);
    // a clam never escapes, but a plant eater will not keep it
    let mut crab = plant_eater("picky", 3);
    crab.discover_reef(0);
    let caught = crab.hunt(&mut reefs);
    assert!(!caught);
    assert_eq!(reefs[0].population(), 1);
}

#[test]
fn hunt_conserves_total_prey_count() {
    let mut reefs: Vec<Reef> = Vec::new();
    let mut r0 = Reef::new();
    r0.add_prey(Prey::Jellyfish);
    r0.add_prey(Prey::Clam);
    let mut r1 = Reef::new();
    r1.add_prey(Prey::Seaweed);
    r1.add_prey(Prey::Minnow { speed: 2 });
    reefs.push(r0);
    reefs.push(r1);

    // this crab catches seaweed eventually: total drops by exactly one
    let mut catcher = plant_eater("catcher", 5);
    catcher.discover_reef(0);
    catcher.discover_reef(1);
    let before: usize = reefs[0].population() + reefs[1].population();
    let caught = catcher.hunt(&mut reefs);
    let after: usize = reefs[0].population() + reefs[1].population();
    assert!(caught);
    assert_eq!(before, after + 1);

    // a shellfish eater slower than the minnow catches the clam
    let mut slow = Crab::new("slow".to_string(), 1, Color::Blue, Diet::Shellfish);
    slow.discover_reef(0);
    slow.discover_reef(1);
    let before2: usize = reefs[0].population() + reefs[1].population();
    let caught2 = slow.hunt(&mut reefs);
    let after2: usize = reefs[0].population() + reefs[1].population();
    assert!(caught2);
    assert_eq!(before2, after2 + 1);

    // nothing left that a plant eater can keep: the pool is restored
    let mut second = plant_eater("second", 5);
    second.discover_reef(0);
    second.discover_reef(1);
    let before3: usize = reefs[0].population() + reefs[1].population();
    let caught3 = second.hunt(&mut reefs);
    let after3: usize = reefs[0].population() + reefs[1].population();
    assert!(!caught3);
    assert_eq!(before3, after3);
}

#[test]
fn shared_reef_mutations_are_visible_to_all_holders() {
    let mut reefs: Vec<Reef> = Vec::new();
    let mut r = Reef::new();
    r.add_prey(Prey::Seaweed);
    reefs.push(r);
    let mut first = plant_eater("first", 2);
    let mut second = plant_eater("second", 2);
    first.discover_reef(0);
    second.discover_reef(0);
    assert!(first.hunt(&mut reefs));
    // the same reef is now empty for the second crab as well
    assert!(!second.hunt(&mut reefs));
}

#[test]
fn breed_crabs_appends_offspring_with_speed_one() {
    let mut beach = Beach::new();
    beach.add_crab(Crab::new("amy".to_string(), 4, Color::Red, Diet::Fish));
    beach.add_crab(Crab::new("bob".to_string(), 6, Color::Blue, Diet::Plants));
    beach.breed_crabs(0, 1, "kid".to_string());
    assert_eq!(beach.size(), 3);
    let kid = beach.get_crab(2);
    assert_eq!(kid.name(), &"kid".to_string());
    assert_eq!(kid.speed(), 1);
    assert_eq!(*kid.color(), Color::cross(&Color::Red, &Color::Blue));
}

#[test]
fn color_cross_mixes_primaries() {
    assert_eq!(Color::cross(&Color::Red, &Color::Yellow), Color::Orange);
    assert_eq!(Color::cross(&Color::Yellow, &Color::Red), Color::Orange);
    assert_eq!(Color::cross(&Color::Red, &Color::Blue), Color::Purple);
    assert_eq!(Color::cross(&Color::Blue, &Color::Yellow), Color::Green);
    assert_eq!(Color::cross(&Color::Green, &Color::Green), Color::Green);
}

#[test]
fn get_fastest_crab_reports_last_among_ties() {
    let mut beach = Beach::new();
    assert!(beach.get_fastest_crab().is_none());
    beach.add_crab(plant_eater("a", 3));
    beach.add_crab(plant_eater("b", 7));
    beach.add_crab(plant_eater("c", 7));
    beach.add_crab(plant_eater("d", 2));
    let fastest = beach.get_fastest_crab().unwrap();
    assert_eq!(fastest.speed(), 7);
    assert_eq!(fastest.name(), &"c".to_string());
}

#[test]
fn find_crabs_by_name_keeps_order() {
    let mut beach = Beach::new();
    beach.add_crab(plant_eater("zoe", 1));
    beach.add_crab(plant_eater("max", 2));
    beach.add_crab(plant_eater("zoe", 3));
    let found = beach.find_crabs_by_name(&"zoe".to_string());
    assert_eq!(found.len(), 2);
    assert_eq!(found[0].speed(), 1);
    assert_eq!(found[1].speed(), 3);
    assert!(beach.find_crabs_by_name(&"nobody".to_string()).is_empty());
}

#[test]
fn choose_recipe_picks_first_match() {
    let mut cookbook = Cookbook::new();
    cookbook.add_recipe(Recipe::new("kelp salad".to_string(), Diet::Plants));
    cookbook.add_recipe(Recipe::new("minnow stew".to_string(), Diet::Fish));
    cookbook.add_recipe(Recipe::new("kelp soup".to_string(), Diet::Plants));
    let crab = plant_eater("cook", 2);
    let recipe = crab.choose_recipe(&cookbook).unwrap();
    assert_eq!(recipe.name(), &"kelp salad".to_string());
    let fish_crab = Crab::new("f".to_string(), 2, Color::Red, Diet::Shellfish);
    assert!(fish_crab.choose_recipe(&cookbook).is_none());
}

#[test]
fn create_clan_resets_an_existing_clan() {
    let mut sys = ClanSystem::new();
    sys.create_clan("reds".to_string());
    sys.add_member(
        &"reds".to_string(),
        "amy".to_string(),
        plant_eater("amy", 3),
    );
    assert_eq!(sys.get_clan_member_count(&"reds".to_string()), 1);
    sys.create_clan("reds".to_string());
    assert_eq!(sys.get_clan_count(), 1);
    assert_eq!(sys.get_clan_member_count(&"reds".to_string()), 0);
}

#[test]
fn clan_member_names_and_counts() {
    let mut sys = ClanSystem::new();
    assert_eq!(sys.get_clan_count(), 0);
    assert_eq!(sys.get_clan_member_count(&"ghost".to_string()), 0);
    assert!(sys.get_clan_member_names(&"ghost".to_string()).is_empty());
    sys.create_clan("blues".to_string());
    sys.add_member(
        &"blues".to_string(),
        "amy".to_string(),
        plant_eater("amy", 3),
    );
    sys.add_member(
        &"blues".to_string(),
        "bob".to_string(),
        plant_eater("bob", 4),
    );
    // filing under an existing member name overwrites, never duplicates
    sys.add_member(
        &"blues".to_string(),
        "amy".to_string(),
        plant_eater("amy", 8),
    );
    assert_eq!(sys.get_clan_count(), 1);
    assert_eq!(sys.get_clan_member_count(&"blues".to_string()), 2);
    let names = sys.get_clan_member_names(&"blues".to_string());
    assert_eq!(names, vec!["amy".to_string(), "bob".to_string()]);
    let clan = sys.get_clan(&"blues".to_string()).unwrap();
    assert_eq!(clan.get_member(&"amy".to_string()).unwrap().speed(), 8);
}

#[test]
fn largest_clan_none_when_empty_or_all_empty() {
    let mut sys = ClanSystem::new();
    assert_eq!(sys.get_largest_clan_id(), None);
    sys.create_clan("empty".to_string());
    assert_eq!(sys.get_largest_clan_id(), None);
}

#[test]
fn largest_clan_reports_strict_maximum() {
    let mut beach = Beach::new();
    beach.add_crab(plant_eater("a", 1));
    beach.add_crab(plant_eater("b", 2));
    beach.add_crab(plant_eater("c", 3));
    beach.add_member_to_clan(&"small".to_string(), &"a".to_string());
    beach.add_member_to_clan(&"big".to_string(), &"b".to_string());
    beach.add_member_to_clan(&"big".to_string(), &"c".to_string());
    let sys = beach.get_clan_system();
    assert_eq!(sys.get_largest_clan_id(), Some("big".to_string()));
}

#[test]
fn winner_clan_is_symmetric() {
    let mut beach = Beach::new();
    beach.add_crab(plant_eater("fast", 8));
    beach.add_crab(plant_eater("slow", 2));
    beach.add_member_to_clan(&"x".to_string(), &"fast".to_string());
    beach.add_member_to_clan(&"y".to_string(), &"slow".to_string());
    let one = beach.get_winner_clan(&"x".to_string(), &"y".to_string());
    let two = beach.get_winner_clan(&"y".to_string(), &"x".to_string());
    assert_eq!(one, Ok(Some("x".to_string())));
    assert_eq!(two, Ok(Some("x".to_string())));
}

#[test]
fn winner_clan_tie_has_no_winner_both_ways() {
    let mut beach = Beach::new();
    beach.add_crab(plant_eater("a", 5));
    beach.add_crab(plant_eater("b", 5));
    beach.add_member_to_clan(&"x".to_string(), &"a".to_string());
    beach.add_member_to_clan(&"y".to_string(), &"b".to_string());
    assert_eq!(
        beach.get_winner_clan(&"x".to_string(), &"y".to_string()),
        Ok(None)
    );
    assert_eq!(
        beach.get_winner_clan(&"y".to_string(), &"x".to_string()),
        Ok(None)
    );
}

#[test]
fn winner_clan_truncates_average() {
    let mut beach = Beach::new();
    // clan x: speeds 3 and 4, mean 3 after truncation; clan y: speed 3
    beach.add_crab(plant_eater("a", 3));
    beach.add_crab(plant_eater("b", 4));
    beach.add_crab(plant_eater("c", 3));
    beach.add_member_to_clan(&"x".to_string(), &"a".to_string());
    beach.add_member_to_clan(&"x".to_string(), &"b".to_string());
    beach.add_member_to_clan(&"y".to_string(), &"c".to_string());
    assert_eq!(
        beach.get_winner_clan(&"x".to_string(), &"y".to_string()),
        Ok(None)
    );
}

#[test]
fn winner_clan_fails_for_missing_id_in_either_position() {
    let mut beach = Beach::new();
    beach.add_crab(plant_eater("a", 5));
    beach.add_member_to_clan(&"x".to_string(), &"a".to_string());
    assert!(beach
        .get_winner_clan(&"x".to_string(), &"ghost".to_string())
        .is_err());
    assert!(beach
        .get_winner_clan(&"ghost".to_string(), &"x".to_string())
        .is_err());
}

#[test]
fn clan_snapshot_is_isolated_from_later_mutation() {
    let mut sys = ClanSystem::new();
    sys.create_clan("c".to_string());
    let mut crab = Crab::new("ann".to_string(), 7, Color::Red, Diet::Fish);
    sys.add_member(&"c".to_string(), "ann".to_string(), crab.clone());
    // mutate the original after the snapshot was taken
    crab.discover_reef(0);
    crab.discover_reef(1);
    let clan = sys.get_clan(&"c".to_string()).unwrap();
    let stored = clan.get_member(&"ann".to_string()).unwrap();
    assert_eq!(stored.speed(), 7);
    assert_eq!(stored.name(), &"ann".to_string());
    // the snapshot still knows no reefs: hunting from it finds nothing
    let mut reefs: Vec<Reef> = Vec::new();
    let mut r = Reef::new();
    r.add_prey(Prey::Minnow { speed: 1 });
    reefs.push(r);
    reefs.push(Reef::new());
    let snapshot = stored.clone();
    assert!(!snapshot.hunt(&mut reefs));
    assert_eq!(reefs[0].population(), 1);
}

#[test]
fn beach_snapshot_survives_beach_mutation() {
    let mut beach = Beach::new();
    beach.add_crab(plant_eater("amy", 9));
    beach.add_crab(plant_eater("joe", 2));
    beach.add_member_to_clan(&"reds".to_string(), &"amy".to_string());
    beach.breed_crabs(0, 1, "kid".to_string());
    let sys = beach.get_clan_system();
    let clan = sys.get_clan(&"reds".to_string()).unwrap();
    let stored = clan.get_member(&"amy".to_string()).unwrap();
    assert_eq!(stored.speed(), 9);
    assert_eq!(sys.get_clan_member_count(&"reds".to_string()), 1);
}

#[test]
fn minnow_escape_depends_on_hunter_speed() {
    let mut reefs: Vec<Reef> = Vec::new();
    let mut r = Reef::new();
    r.add_prey(Prey::Minnow { speed: 4 });
    reefs.push(r);
    let mut slow = Crab::new("slow".to_string(), 4, Color::Red, Diet::Fish);
    slow.discover_reef(0);
    assert!(!slow.hunt(&mut reefs));
    assert_eq!(reefs[0].population(), 1);
    let mut fast = Crab::new("fast".to_string(), 5, Color::Red, Diet::Fish);
    fast.discover_reef(0);
    assert!(fast.hunt(&mut reefs));
    assert_eq!(reefs[0].population(), 0);
}

#[test]
fn reef_take_prey_returns_most_recent_first() {
    let mut reef = Reef::new();
    assert_eq!(reef.take_prey(), None);
    reef.add_prey(Prey::Clam);
    reef.add_prey(Prey::Seaweed);
    assert_eq!(reef.take_prey(), Some(Prey::Seaweed));
    assert_eq!(reef.take_prey(), Some(Prey::Clam));
    assert_eq!(reef.take_prey(), None);
}

#[test]
fn random_diet_is_one_of_the_three() {
    for _ in 0..32 {
        let d = Diet::random_diet();
        assert!(matches!(d, Diet::Plants | Diet::Fish | Diet::Shellfish));
    }
}
