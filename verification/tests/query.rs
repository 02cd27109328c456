use pets_service::error::PetsDbError;
use pets_service::model::{Owner, OwnerRow, PetType, Pets};
use pets_service::query::{Statement, OWNER_ID_FILTER, OWNER_ORDER, OWNER_SELECT};

fn full_row(owner: i32, name: &str, pet: i32, pet_name: &str, kind: &str) -> OwnerRow {
    OwnerRow {
        owner_id: Some(owner),
        owner_name: Some(name.to_string()),
        pet_id: Some(pet),
        pet_name: Some(pet_name.to_string()),
        pet_type: Some(kind.to_string()),
    }
}

fn store_failure() -> mysql::Error {
    mysql::Error::DriverError(mysql::DriverError::ConnectTimeout)
}

#[test]
fn list_owners_of_an_empty_table_is_an_empty_list() {
    let outcome = Owner::all(Ok(Vec::new()));
    assert!(matches!(outcome, Ok(ref owners) if owners.is_empty()));
}

#[test]
fn list_owners_groups_the_rows() {
    let rows = vec![
        full_row(1, "Al", 10, "Rex", "Dog"),
        full_row(1, "Al", 11, "Mia", "Cat"),
        full_row(2, "Bo", 12, "Tom", "Cat"),
    ];
    let owners = Owner::all(Ok(rows)).unwrap();
    assert_eq!(owners.len(), 2);
    assert_eq!(
        owners[0],
        Owner {
            id: 1,
            name: "Al".to_string(),
            pets: vec![
                Pets {
                    id: 10,
                    name: "Rex".to_string(),
                    pet_type: PetType { id: 0, name: "Dog".to_string() }
                },
                Pets {
                    id: 11,
                    name: "Mia".to_string(),
                    pet_type: PetType { id: 0, name: "Cat".to_string() }
                },
            ],
        }
    );
    assert_eq!(owners[1].id, 2);
    assert_eq!(owners[1].name, "Bo");
}

#[test]
fn list_owners_hands_the_store_failure_on() {
    let outcome = Owner::all(Err(store_failure()));
    assert!(matches!(
        outcome,
        Err(PetsDbError::MysqlError(mysql::Error::DriverError(mysql::DriverError::ConnectTimeout)))
    ));
}

#[test]
fn find_owner_without_rows_is_not_found() {
    let outcome = Owner::find(Ok(Vec::new()));
    assert!(matches!(outcome, Err(PetsDbError::OwnerNotFound)));
}

#[test]
fn find_owner_with_only_incomplete_rows_is_not_found() {
    let mut broken = full_row(42, "Zoe", 1, "Uno", "Cat");
    broken.pet_id = None;
    let outcome = Owner::find(Ok(vec![broken]));
    assert!(matches!(outcome, Err(PetsDbError::OwnerNotFound)));
}

#[test]
fn find_owner_gives_the_first_owner() {
    let rows = vec![
        full_row(42, "Zoe", 1, "Uno", "Cat"),
        full_row(42, "Zoe", 2, "Duo", "Dog"),
        full_row(43, "Yan", 3, "Tre", "Dog"),
    ];
    let found = Owner::find(Ok(rows)).unwrap();
    assert_eq!(found.id, 42);
    assert_eq!(found.name, "Zoe");
    assert_eq!(found.pets.len(), 2);
    assert_eq!(found.pets[0].name, "Uno");
    assert_eq!(found.pets[1].name, "Duo");
}

#[test]
fn find_owner_hands_the_store_failure_on() {
    let outcome = Owner::find(Err(store_failure()));
    assert!(matches!(outcome, Err(PetsDbError::MysqlError(_))));
}

#[test]
fn the_statement_for_all_owners_has_no_values() {
    let statement = Owner::all_statement();
    let expected = "SELECT
    owner.id as owner_id,
    owner.name as owner_name,
    pet.id as pet_id,
    pet.name as pet_name,
    pet_type.name as pet_type
FROM
    owners owner
    JOIN pets pet ON owner.id = pet.owner_id
    JOIN pet_types pet_type ON pet.type_id = pet_type.id
ORDER BY owner_id";
    assert_eq!(statement, Statement { text: expected.to_string(), params: Vec::new() });
    assert!(!statement.text.contains('?'));
}

#[test]
fn the_statement_for_one_owner_binds_the_identifier() {
    let statement = Owner::find_statement(42);
    let expected = "SELECT
    owner.id as owner_id,
    owner.name as owner_name,
    pet.id as pet_id,
    pet.name as pet_name,
    pet_type.name as pet_type
FROM
    owners owner
    JOIN pets pet ON owner.id = pet.owner_id
    JOIN pet_types pet_type ON pet.type_id = pet_type.id
WHERE owner.id = ?
ORDER BY owner_id";
    assert_eq!(statement.text, expected);
    assert_eq!(statement.params, vec![42]);
    assert!(!statement.text.contains("42"));
    assert_eq!(statement.text.matches('?').count(), statement.params.len());
}

#[test]
fn the_text_for_one_owner_is_the_same_for_every_identifier() {
    let low = Owner::find_statement(0);
    let high = Owner::find_statement(u32::MAX);
    assert_eq!(low.text, high.text);
    assert_eq!(low.params, vec![0]);
    assert_eq!(high.params, vec![u32::MAX]);
    assert!(!high.text.contains("4294967295"));
}

#[test]
fn the_statements_are_made_of_the_same_parts() {
    assert_eq!(Owner::all_statement().text, format!("{}\n{}", OWNER_SELECT, OWNER_ORDER));
    assert_eq!(
        Owner::find_statement(7).text,
        format!("{}\nWHERE {}\n{}", OWNER_SELECT, OWNER_ID_FILTER, OWNER_ORDER)
    );
    assert_eq!(OWNER_ID_FILTER, "owner.id = ?");
    assert_eq!(OWNER_ORDER, "ORDER BY owner_id");
}
