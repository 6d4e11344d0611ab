use user_service::db::{
    contains_substring, map_backend_error, BackendFailure, CreateUserRequest, Database,
    DatabaseError, UserMetadata, UserProfile,
};

fn full_request(username: &str) -> CreateUserRequest {
    CreateUserRequest {
        username: username.to_string(),
        password: "password123".to_string(),
        profile: Some(UserProfile {
            first_name: Some("John".to_string()),
            last_name: Some("Doe".to_string()),
            email: Some("john@example.com".to_string()),
        }),
        metadata: vec![
            UserMetadata {
                parent_property: None,
                property: "title".to_string(),
                value: Some("Engineer".to_string()),
            },
            UserMetadata {
                parent_property: None,
                property: "hobby".to_string(),
                value: Some("Reading".to_string()),
            },
        ],
    }
}

#[test]
fn test_create_user_assigns_sequential_ids() {
    let mut db = Database::new();
    let first = db.create_user(&full_request("first")).expect("creation should succeed");
    let second = db.create_user(&full_request("second")).expect("creation should succeed");
    assert_eq!(first, 1);
    assert_eq!(second, 2);
    assert_eq!(db.user_count(), 2);
}

#[test]
fn test_create_then_find_round_trip() {
    let mut db = Database::new();
    db.set_time(1577836800);
    let id = db.create_user(&full_request("jdoe")).expect("creation should succeed");
    let user = db.find_user_by_id(id).expect("lookup should succeed");
    assert_eq!(user.id, id);
    assert_eq!(user.username, "jdoe");
    assert_eq!(user.password, "password123");
    assert_eq!(user.created_at, 1577836800);
    assert_eq!(user.updated_at, 1577836800);
    let profile = user.profile.expect("profile should be present");
    assert_eq!(profile.first_name, Some("John".to_string()));
    assert_eq!(profile.last_name, Some("Doe".to_string()));
    assert_eq!(profile.email, Some("john@example.com".to_string()));
    assert_eq!(user.metadata.len(), 2);
    assert_eq!(user.metadata[0].property, "title");
    assert_eq!(user.metadata[0].value, Some("Engineer".to_string()));
    assert_eq!(user.metadata[1].property, "hobby");
    assert_eq!(user.metadata[1].value, Some("Reading".to_string()));
}

#[test]
fn test_duplicate_username_rejected_and_nothing_written() {
    let mut db = Database::new();
    db.create_user(&full_request("duplicate")).expect("first creation should succeed");
    assert_eq!(db.user_count(), 1);
    let second = CreateUserRequest {
        username: "duplicate".to_string(),
        password: "password456".to_string(),
        profile: Some(UserProfile {
            first_name: Some("Other".to_string()),
            last_name: None,
            email: None,
        }),
        metadata: vec![UserMetadata {
            parent_property: None,
            property: "title".to_string(),
            value: Some("Impostor".to_string()),
        }],
    };
    let result = db.create_user(&second);
    assert!(matches!(result, Err(DatabaseError::DuplicateUsername)));
    // Atomicity: no partial rows became visible.
    assert_eq!(db.user_count(), 1);
    let survivor = db.find_user_by_id(1).expect("original user should remain");
    assert_eq!(survivor.password, "password123");
    assert_eq!(survivor.metadata.len(), 2);
}

#[test]
fn test_find_user_by_id_not_found() {
    let db = Database::new();
    let result = db.find_user_by_id(99999);
    assert!(matches!(result, Err(DatabaseError::UserNotFound)));
}

#[test]
fn test_profile_absent_without_profile_row() {
    let mut db = Database::new();
    let id = db
        .create_user(&CreateUserRequest {
            username: "bare".to_string(),
            password: "pw".to_string(),
            profile: None,
            metadata: vec![],
        })
        .expect("creation should succeed");
    let user = db.find_user_by_id(id).expect("lookup should succeed");
    assert!(user.profile.is_none());
    assert!(user.metadata.is_empty());
}

#[test]
fn test_profile_of_three_nulls_reads_back_as_absent() {
    let mut db = Database::new();
    let id = db
        .create_user(&CreateUserRequest {
            username: "nulls".to_string(),
            password: "pw".to_string(),
            profile: Some(UserProfile { first_name: None, last_name: None, email: None }),
            metadata: vec![],
        })
        .expect("creation should succeed");
    let user = db.find_user_by_id(id).expect("lookup should succeed");
    // The aggregation rule: a profile row with no non-null field is absent.
    assert!(user.profile.is_none());
}

#[test]
fn test_metadata_kept_in_storage_order_without_dedup() {
    let mut db = Database::new();
    let id = db
        .create_user(&CreateUserRequest {
            username: "dup_meta".to_string(),
            password: "pw".to_string(),
            profile: None,
            metadata: vec![
                UserMetadata {
                    parent_property: None,
                    property: "title".to_string(),
                    value: Some("First".to_string()),
                },
                UserMetadata {
                    parent_property: Some("group".to_string()),
                    property: "title".to_string(),
                    value: Some("Second".to_string()),
                },
            ],
        })
        .expect("creation should succeed");
    let user = db.find_user_by_id(id).expect("lookup should succeed");
    // The read returns the full ordered list; nothing is deduplicated.
    assert_eq!(user.metadata.len(), 2);
    assert_eq!(user.metadata[0].value, Some("First".to_string()));
    assert_eq!(user.metadata[1].value, Some("Second".to_string()));
    assert_eq!(user.metadata[1].parent_property, Some("group".to_string()));
}

#[test]
fn test_authenticate_user_returns_stored_credentials() {
    let mut db = Database::new();
    let id = db.create_user(&full_request("loginuser")).expect("creation should succeed");
    let (found_id, password) =
        db.authenticate_user("loginuser").expect("authentication lookup should succeed");
    assert_eq!(found_id, id);
    assert_eq!(password, "password123");
}

#[test]
fn test_authenticate_user_not_found() {
    let db = Database::new();
    let result = db.authenticate_user("nonexistent");
    assert!(matches!(result, Err(DatabaseError::UserNotFound)));
}

#[test]
fn test_map_backend_error_row_not_found() {
    let result = map_backend_error(BackendFailure::RowNotFound);
    assert!(matches!(result, DatabaseError::UserNotFound));
}

#[test]
fn test_map_backend_error_duplicate_dialects() {
    let mysql = map_backend_error(BackendFailure::Report(
        "Duplicate entry 'jdoe' for key 'users.username'".to_string(),
    ));
    assert!(matches!(mysql, DatabaseError::DuplicateUsername));

    let sqlite = map_backend_error(BackendFailure::Report(
        "UNIQUE constraint failed: users.username".to_string(),
    ));
    assert!(matches!(sqlite, DatabaseError::DuplicateUsername));
}

#[test]
fn test_map_backend_error_other_reports_become_query_errors() {
    let rejected = map_backend_error(BackendFailure::Report("syntax error near SELECT".to_string()));
    match rejected {
        DatabaseError::QueryError(m) => assert_eq!(m, "syntax error near SELECT"),
        _ => panic!("a non-duplicate report should become QueryError"),
    }

    let other = map_backend_error(BackendFailure::Other("connection reset".to_string()));
    match other {
        DatabaseError::QueryError(m) => assert_eq!(m, "connection reset"),
        _ => panic!("a driver failure should become QueryError"),
    }
}

#[test]
fn test_contains_substring() {
    assert!(contains_substring("UNIQUE constraint failed", "UNIQUE"));
    assert!(contains_substring("error: Duplicate entry 'x'", "Duplicate entry"));
    assert!(!contains_substring("duplicate entry", "Duplicate entry"));
    assert!(contains_substring("anything", ""));
    assert!(!contains_substring("", "x"));
}
