use user_service::api::UserInfoResponse;

#[test]
fn test_field_length_constraints() {
    // Test that optional fields cannot exceed 255 chars
    let long_field = "a".repeat(256);
    assert_eq!(long_field.len(), 256);
    assert!(long_field.len() > 255);

    // Test that max 255 char field is valid
    let valid_field = "a".repeat(255);
    assert_eq!(valid_field.len(), 255);
}

#[test]
fn test_username_length_constraint() {
    // Username max 16 chars
    let max_username = "a".repeat(16);
    assert_eq!(max_username.len(), 16);

    let over_max_username = "a".repeat(17);
    assert_eq!(over_max_username.len(), 17);
    assert!(over_max_username.len() > 16);
}

#[test]
fn test_utf8_character_support() {
    // Test UTF-8 characters in various fields
    let fields = vec![
        ("Ñandú", 5),  // 5 chars, Spanish
        ("日本語", 3),   // 3 chars, Japanese
        ("Привет", 6), // 6 chars, Russian
        ("🎉🎊", 2),   // 2 emoji
    ];

    for (text, expected_len) in fields {
        assert_eq!(text.chars().count(), expected_len);
        assert!(text.len() <= 255); // byte length may be longer
    }
}

#[test]
fn test_password_max_length() {
    let max_password = "p".repeat(255);
    assert_eq!(max_password.len(), 255);

    let over_max = "p".repeat(256);
    assert_eq!(over_max.len(), 256);
    assert!(over_max.len() > 255);
}

#[test]
fn test_user_info_response_fields() {
    let response = UserInfoResponse {
        id: 123,
        username: "john_doe".to_string(),
        first_name: Some("John".to_string()),
        last_name: Some("Doe".to_string()),
        email: Some("john@example.com".to_string()),
        title: Some("Manager".to_string()),
        hobby: Some("Gaming".to_string()),
        metadata: vec![],
        greeting: "Hello Manager John Doe, welcome!".to_string(),
    };

    // Verify all fields are accessible
    assert_eq!(response.id, 123);
    assert_eq!(response.username, "john_doe");
    assert_eq!(response.first_name, Some("John".to_string()));
    assert_eq!(response.email, Some("john@example.com".to_string()));
}

#[test]
fn test_http_status_codes_mapping() {
    // Document expected HTTP status codes
    let status_mapping = vec![
        ("201", "Created - user successfully created"),
        ("200", "OK - login successful"),
        ("200", "OK - user info retrieved"),
        ("400", "Bad Request - validation error"),
        ("401", "Unauthorized - invalid credentials"),
        ("404", "Not Found - user ID not found"),
        ("409", "Conflict - duplicate username"),
        ("503", "Service Unavailable - database error"),
    ];

    // Verify mappings are documented
    assert_eq!(status_mapping.len(), 8);
}

#[test]
fn main_test_test_field_length_constraints() {
    // Test that optional fields cannot exceed 255 chars
    let long_field = "a".repeat(256);
    assert_eq!(long_field.len(), 256);
    assert!(long_field.len() > 255);

    // Test that max 255 char field is valid
    let valid_field = "a".repeat(255);
    assert_eq!(valid_field.len(), 255);
}

#[test]
fn main_test_test_username_length_constraint() {
    // Username max 16 chars
    let max_username = "a".repeat(16);
    assert_eq!(max_username.len(), 16);

    let over_max_username = "a".repeat(17);
    assert_eq!(over_max_username.len(), 17);
    assert!(over_max_username.len() > 16);
}

#[test]
fn main_test_test_utf8_character_support() {
    // Test UTF-8 characters in various fields
    let fields = vec![
        ("Ñandú", 5),  // 5 chars, Spanish
        ("日本語", 3),   // 3 chars, Japanese
        ("Привет", 6), // 6 chars, Russian
        ("🎉🎊", 2),   // 2 emoji
    ];

    for (text, expected_len) in fields {
        assert_eq!(text.chars().count(), expected_len);
        assert!(text.len() <= 255); // byte length may be longer
    }
}

#[test]
fn main_test_test_password_max_length() {
    let max_password = "p".repeat(255);
    assert_eq!(max_password.len(), 255);

    let over_max = "p".repeat(256);
    assert_eq!(over_max.len(), 256);
    assert!(over_max.len() > 255);
}

#[test]
fn main_test_test_user_info_response_fields() {
    let response = UserInfoResponse {
        id: 123,
        username: "john_doe".to_string(),
        first_name: Some("John".to_string()),
        last_name: Some("Doe".to_string()),
        email: Some("john@example.com".to_string()),
        title: Some("Manager".to_string()),
        hobby: Some("Gaming".to_string()),
        metadata: vec![],
        greeting: "Hello Manager John Doe, welcome!".to_string(),
    };

    // Verify all fields are accessible
    assert_eq!(response.id, 123);
    assert_eq!(response.username, "john_doe");
    assert_eq!(response.first_name, Some("John".to_string()));
    assert_eq!(response.email, Some("john@example.com".to_string()));
}

#[test]
fn main_test_test_http_status_codes_mapping() {
    // Document expected HTTP status codes
    let status_mapping = vec![
        ("201", "Created - user successfully created"),
        ("200", "OK - login successful"),
        ("200", "OK - user info retrieved"),
        ("400", "Bad Request - validation error"),
        ("401", "Unauthorized - invalid credentials"),
        ("404", "Not Found - user ID not found"),
        ("409", "Conflict - duplicate username"),
        ("503", "Service Unavailable - database error"),
    ];

    // Verify mappings are documented
    assert_eq!(status_mapping.len(), 8);
}
