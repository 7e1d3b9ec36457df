use metadata_service::health::health_check;
use metadata_service::identifier::{is_generated_identifier_text, is_identifier_text};
use metadata_service::user::{create_user, CreateUserRequest, CreateUserResponse};

fn ada() -> CreateUserRequest {
    CreateUserRequest {
        first_name: String::from("Ada"),
        last_name: String::from("Lovelace"),
        email: String::from("ada@example.org"),
    }
}

#[test]
fn health_check_says_ok() {
    assert_eq!(health_check(), "OK");
}

#[test]
fn health_check_is_constant() {
    assert_eq!(health_check(), health_check());
}

#[test]
fn create_user_echoes_the_request() {
    let created = create_user(ada());
    assert_eq!(created.first_name, "Ada");
    assert_eq!(created.last_name, "Lovelace");
    assert_eq!(created.email, "ada@example.org");
}

#[test]
fn create_user_returns_a_valid_identifier() {
    let created = create_user(ada());
    assert_eq!(created.id.len(), 36);
    assert!(is_identifier_text(&created.id));
    assert!(is_generated_identifier_text(&created.id));
    let parsed = uuid::Uuid::parse_str(&created.id).expect("a parseable identifier");
    assert_eq!(parsed.get_version_num(), 4);
    assert_eq!(parsed.to_string(), created.id);
}

#[test]
fn create_user_identifiers_differ_across_calls() {
    let one = create_user(ada());
    let two = create_user(ada());
    assert_ne!(one.id, two.id);
    assert_eq!(one.first_name, two.first_name);
    assert_eq!(one.last_name, two.last_name);
    assert_eq!(one.email, two.email);
}

#[test]
fn create_user_applies_no_validation() {
    let created = create_user(CreateUserRequest {
        first_name: String::new(),
        last_name: String::new(),
        email: String::from("not an address"),
    });
    assert_eq!(created.first_name, "");
    assert_eq!(created.last_name, "");
    assert_eq!(created.email, "not an address");
    assert!(is_generated_identifier_text(&created.id));
}

#[test]
fn response_with_given_identifier() {
    let response = CreateUserResponse::with_id(
        String::from("a1a2a3a4-b1b2-41c2-81d2-d3d4d5d6d7d8"),
        ada(),
    );
    assert_eq!(
        response,
        CreateUserResponse {
            id: String::from("a1a2a3a4-b1b2-41c2-81d2-d3d4d5d6d7d8"),
            first_name: String::from("Ada"),
            last_name: String::from("Lovelace"),
            email: String::from("ada@example.org"),
        }
    );
}

#[test]
fn response_takes_any_identifier_text() {
    let response = CreateUserResponse::with_id(String::from("7"), ada());
    assert_eq!(response.id, "7");
    assert_eq!(response.first_name, "Ada");
}
