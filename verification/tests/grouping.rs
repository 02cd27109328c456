use pets_service::flattening::flatten_owners;
use pets_service::model::{Owner, OwnerRow, PetType, Pets};

fn row(owner: i32, name: &str, pet: i32, pet_name: &str, kind: &str) -> OwnerRow {
    OwnerRow {
        owner_id: Some(owner),
        owner_name: Some(name.to_string()),
        pet_id: Some(pet),
        pet_name: Some(pet_name.to_string()),
        pet_type: Some(kind.to_string()),
    }
}

fn pet(id: i32, name: &str, kind: &str) -> Pets {
    Pets { id, name: name.to_string(), pet_type: PetType { id: 0, name: kind.to_string() } }
}

fn owner(id: i32, name: &str, pets: Vec<Pets>) -> Owner {
    Owner { id, name: name.to_string(), pets }
}

fn ids(owners: &[Owner]) -> Vec<i32> {
    owners.iter().map(|o| o.id).collect()
}

#[test]
fn two_rows_of_one_owner_give_one_owner_with_both_pets() {
    let rows = vec![row(1, "Al", 10, "Rex", "Dog"), row(1, "Al", 11, "Mia", "Cat")];
    let owners = Owner::parse_result(rows);
    assert_eq!(
        owners,
        vec![owner(1, "Al", vec![pet(10, "Rex", "Dog"), pet(11, "Mia", "Cat")])]
    );
}

#[test]
fn pet_order_is_the_row_order() {
    let rows = vec![row(4, "Di", 22, "Zed", "Cat"), row(4, "Di", 21, "Amy", "Dog")];
    let owners = Owner::parse_result(rows);
    assert_eq!(owners.len(), 1);
    assert_eq!(owners[0].pets.len(), 2);
    assert_eq!(owners[0].pets[0].id, 22);
    assert_eq!(owners[0].pets[1].id, 21);
}

#[test]
fn owners_one_one_two_give_two_owners_in_order() {
    let rows = vec![
        row(1, "Al", 10, "Rex", "Dog"),
        row(1, "Al", 11, "Mia", "Cat"),
        row(2, "Bo", 12, "Tom", "Cat"),
    ];
    let owners = Owner::parse_result(rows);
    assert_eq!(ids(&owners), vec![1, 2]);
    assert_eq!(owners[0].pets.len(), 2);
    assert_eq!(owners[1].pets, vec![pet(12, "Tom", "Cat")]);
}

#[test]
fn equal_keys_that_are_not_adjacent_stay_apart() {
    let rows = vec![
        row(1, "Al", 10, "Rex", "Dog"),
        row(2, "Bo", 12, "Tom", "Cat"),
        row(1, "Al", 11, "Mia", "Cat"),
    ];
    let owners = Owner::parse_result(rows);
    assert_eq!(
        owners,
        vec![
            owner(1, "Al", vec![pet(10, "Rex", "Dog")]),
            owner(2, "Bo", vec![pet(12, "Tom", "Cat")]),
            owner(1, "Al", vec![pet(11, "Mia", "Cat")]),
        ]
    );
}

#[test]
fn no_rows_give_no_owners() {
    assert_eq!(Owner::parse_result(Vec::new()), Vec::<Owner>::new());
}

#[test]
fn pet_type_identifier_is_always_zero() {
    let rows = vec![row(3, "Cy", 30, "Ace", "Bird"), row(5, "Ed", 31, "Bea", "Fish")];
    for o in Owner::parse_result(rows) {
        for p in o.pets {
            assert_eq!(p.pet_type.id, 0);
        }
    }
}

#[test]
fn a_row_with_a_missing_field_is_skipped() {
    let mut broken = row(1, "Al", 11, "Mia", "Cat");
    broken.pet_name = None;
    let rows = vec![row(1, "Al", 10, "Rex", "Dog"), broken, row(1, "Al", 12, "Tom", "Cat")];
    let owners = Owner::parse_result(rows);
    assert_eq!(
        owners,
        vec![owner(1, "Al", vec![pet(10, "Rex", "Dog"), pet(12, "Tom", "Cat")])]
    );
}

#[test]
fn each_missing_field_makes_a_row_incomplete() {
    let full = row(1, "Al", 10, "Rex", "Dog");
    assert_eq!(full.pet(), Some(pet(10, "Rex", "Dog")));
    let mut r = full.clone();
    r.owner_id = None;
    assert_eq!(r.pet(), None);
    let mut r = full.clone();
    r.owner_name = None;
    assert_eq!(r.pet(), None);
    let mut r = full.clone();
    r.pet_id = None;
    assert_eq!(r.pet(), None);
    let mut r = full.clone();
    r.pet_name = None;
    assert_eq!(r.pet(), None);
    let mut r = full.clone();
    r.pet_type = None;
    assert_eq!(r.pet(), None);
}

#[test]
fn an_owner_whose_rows_are_all_incomplete_vanishes() {
    let mut first = row(2, "Bo", 20, "Kit", "Cat");
    first.pet_type = None;
    let mut second = row(2, "Bo", 21, "Kat", "Cat");
    second.pet_id = None;
    let rows = vec![row(1, "Al", 10, "Rex", "Dog"), first, second, row(3, "Cy", 30, "Ace", "Bird")];
    let owners = Owner::parse_result(rows);
    assert_eq!(ids(&owners), vec![1, 3]);
    for o in &owners {
        assert!(!o.pets.is_empty());
    }
}

#[test]
fn the_first_complete_row_names_the_owner() {
    let mut first = row(1, "Al", 10, "Rex", "Dog");
    first.owner_name = None;
    let rows = vec![first, row(1, "Alan", 11, "Mia", "Cat")];
    let owners = Owner::parse_result(rows);
    assert_eq!(owners, vec![owner(1, "Alan", vec![pet(11, "Mia", "Cat")])]);
}

#[test]
fn a_row_without_key_ends_the_run_before_it() {
    let mut keyless = row(1, "Al", 11, "Mia", "Cat");
    keyless.owner_id = None;
    let rows = vec![row(1, "Al", 10, "Rex", "Dog"), keyless, row(1, "Al", 12, "Tom", "Cat")];
    let owners = Owner::parse_result(rows);
    assert_eq!(
        owners,
        vec![owner(1, "Al", vec![pet(10, "Rex", "Dog")]), owner(1, "Al", vec![pet(12, "Tom", "Cat")])]
    );
}

#[test]
fn rows_without_key_give_no_owner() {
    let mut a = row(1, "Al", 10, "Rex", "Dog");
    a.owner_id = None;
    let mut b = row(2, "Bo", 11, "Mia", "Cat");
    b.owner_id = None;
    assert_eq!(Owner::parse_result(vec![a, b]), Vec::<Owner>::new());
}

#[test]
fn parse_owner_builds_one_owner_from_a_run() {
    let run = vec![row(7, "Gus", 70, "Pip", "Hamster"), row(7, "Gus", 71, "Pop", "Hamster")];
    assert_eq!(
        Owner::parse_owner(&run),
        Some(owner(7, "Gus", vec![pet(70, "Pip", "Hamster"), pet(71, "Pop", "Hamster")]))
    );
}

#[test]
fn parse_owner_of_nothing_is_nobody() {
    assert_eq!(Owner::parse_owner(&[]), None);
    let mut broken = row(7, "Gus", 70, "Pip", "Hamster");
    broken.pet_id = None;
    assert_eq!(Owner::parse_owner(&[broken]), None);
}

#[test]
fn owner_rows_list_one_row_for_each_pet() {
    let o = owner(1, "Al", vec![pet(10, "Rex", "Dog"), pet(11, "Mia", "Cat")]);
    assert_eq!(o.rows(), vec![row(1, "Al", 10, "Rex", "Dog"), row(1, "Al", 11, "Mia", "Cat")]);
    assert_eq!(owner(2, "Bo", Vec::new()).rows(), Vec::<OwnerRow>::new());
}

#[test]
fn flatten_writes_owners_in_order() {
    let owners = vec![
        owner(1, "Al", vec![pet(10, "Rex", "Dog"), pet(11, "Mia", "Cat")]),
        owner(2, "Bo", vec![pet(12, "Tom", "Cat")]),
    ];
    assert_eq!(
        flatten_owners(&owners),
        vec![
            row(1, "Al", 10, "Rex", "Dog"),
            row(1, "Al", 11, "Mia", "Cat"),
            row(2, "Bo", 12, "Tom", "Cat"),
        ]
    );
    assert_eq!(flatten_owners(&Vec::new()), Vec::<OwnerRow>::new());
}

#[test]
fn grouping_sorted_rows_again_changes_nothing() {
    let mut keyless = row(0, "", 1, "Nox", "Cat");
    keyless.owner_id = None;
    let mut broken = row(2, "Bo", 13, "Ivy", "Dog");
    broken.pet_name = None;
    let rows = vec![
        keyless,
        row(1, "Al", 10, "Rex", "Dog"),
        row(1, "Al", 11, "Mia", "Cat"),
        broken,
        row(2, "Bo", 12, "Tom", "Cat"),
        row(5, "Ed", 14, "Una", "Bird"),
    ];
    let once = Owner::parse_result(rows);
    let twice = Owner::parse_result(flatten_owners(&once));
    assert_eq!(ids(&once), vec![1, 2, 5]);
    assert_eq!(twice, once);
}

#[test]
fn flattening_grouped_rows_gives_the_complete_rows() {
    let mut broken = row(2, "Bo", 13, "Ivy", "Dog");
    broken.pet_type = None;
    let rows = vec![
        row(1, "Al", 10, "Rex", "Dog"),
        broken,
        row(2, "Bo", 12, "Tom", "Cat"),
        row(1, "Al", 11, "Mia", "Cat"),
    ];
    let complete =
        vec![row(1, "Al", 10, "Rex", "Dog"), row(2, "Bo", 12, "Tom", "Cat"), row(1, "Al", 11, "Mia", "Cat")];
    assert_eq!(flatten_owners(&Owner::parse_result(rows)), complete);
}

#[test]
fn grouping_splits_where_the_key_changes() {
    let a = vec![row(1, "Al", 10, "Rex", "Dog"), row(2, "Bo", 12, "Tom", "Cat")];
    let b = vec![row(1, "Al", 11, "Mia", "Cat"), row(1, "Al", 13, "Ivy", "Dog")];
    let mut joined = a.clone();
    joined.extend(b.clone());
    let mut expected = Owner::parse_result(a);
    expected.extend(Owner::parse_result(b));
    assert_eq!(Owner::parse_result(joined), expected);
    assert_eq!(ids(&expected), vec![1, 2, 1]);
}

#[test]
fn every_owner_has_a_pet() {
    let mut broken = row(9, "Io", 90, "Orb", "Fish");
    broken.owner_name = None;
    let rows = vec![row(8, "Hal", 80, "Dot", "Dog"), broken, row(10, "Jo", 91, "Elf", "Cat")];
    let owners = Owner::parse_result(rows);
    assert_eq!(ids(&owners), vec![8, 10]);
    assert!(owners.iter().all(|o| !o.pets.is_empty()));
}
