use meta_rest::Field;
use meta_rest::InMemoryStorage;
use meta_rest::MetaRestError;
use meta_rest::Resource;
use meta_rest::ResourceDefinition;
use meta_rest::ResourceManager;
use meta_rest::SecurityPolicy;
use meta_rest::ValidationRule;
use meta_rest::Value;

fn create_test_definition() -> ResourceDefinition {
    ResourceDefinition {
        name: "users".to_string(),
        fields: vec![
            Field {
                name: "name".to_string(),
                field_type: "string".to_string(),
                required: true,
                validation: Some(ValidationRule {
                    min: Some(3),
                    max: Some(50),
                    pattern: None,
                }),
            },
            Field {
                name: "age".to_string(),
                field_type: "number".to_string(),
                required: false,
                validation: Some(ValidationRule {
                    min: Some(0),
                    max: Some(150),
                    pattern: None,
                }),
            },
            Field {
                name: "email".to_string(),
                field_type: "string".to_string(),
                required: true,
                validation: None,
            },
        ],
        security: Some(SecurityPolicy {
            require_auth: true,
            allowed_roles: Some(vec!["admin".to_string(), "user".to_string()]),
        }),
    }
}

fn create_test_resource(id: &str, name: &str, age: i64, email: &str) -> Resource {
    Resource {
        id: id.to_string(),
        data: vec![
            ("name".to_string(), Value::Str(name.to_string())),
            ("age".to_string(), Value::Number(age)),
            ("email".to_string(), Value::Str(email.to_string())),
        ],
    }
}

fn expect_validation_error(result: Result<Resource, MetaRestError>) -> String {
    match result {
        Err(MetaRestError::ValidationError(msg)) => msg,
        _ => panic!("Expected ValidationError"),
    }
}

#[test]
fn test_validation_required_fields() {
    let def = create_test_definition();
    let storage = InMemoryStorage::new();
    let mut manager = ResourceManager::new(def, storage);

    // Missing required email field
    let resource = Resource {
        id: "1".to_string(),
        data: vec![("name".to_string(), Value::Str("John".to_string()))],
    };

    let result = manager.create(resource);
    assert!(result.is_err());
    match result {
        Err(MetaRestError::ValidationError(msg)) => {
            assert!(msg.contains("email"));
        }
        _ => panic!("Expected ValidationError"),
    }
}

#[test]
fn test_validation_field_type() {
    let def = create_test_definition();
    let storage = InMemoryStorage::new();
    let mut manager = ResourceManager::new(def, storage);

    let resource = Resource {
        id: "1".to_string(),
        data: vec![
            ("name".to_string(), Value::Str("John Doe".to_string())),
            // Should be a number
            ("age".to_string(), Value::Str("thirty".to_string())),
            ("email".to_string(), Value::Str("john@example.com".to_string())),
        ],
    };

    let result = manager.create(resource);
    assert!(result.is_err());
    match result {
        Err(MetaRestError::ValidationError(msg)) => {
            assert!(msg.contains("age"));
        }
        _ => panic!("Expected ValidationError"),
    }
}

#[test]
fn test_validation_min_max_number() {
    let def = create_test_definition();
    let storage = InMemoryStorage::new();
    let mut manager = ResourceManager::new(def, storage);

    // Test minimum
    let resource = create_test_resource("1", "John Doe", -5, "john@example.com");
    let result = manager.create(resource);
    assert!(result.is_err());

    // Test maximum
    let resource = create_test_resource("2", "Jane Doe", 200, "jane@example.com");
    let result = manager.create(resource);
    assert!(result.is_err());
}

#[test]
fn test_validation_min_max_string() {
    let def = create_test_definition();
    let storage = InMemoryStorage::new();
    let mut manager = ResourceManager::new(def, storage);

    // Test minimum length
    let resource = create_test_resource("1", "Jo", 30, "jo@example.com");
    let result = manager.create(resource);
    assert!(result.is_err());

    // Test maximum length
    let long_name = "A".repeat(100);
    let resource = create_test_resource("2", &long_name, 30, "test@example.com");
    let result = manager.create(resource);
    assert!(result.is_err());
}

#[test]
fn test_required_message_exact() {
    let def = create_test_definition();
    let mut manager = ResourceManager::new(def, InMemoryStorage::new());
    let resource = Resource {
        id: "1".to_string(),
        data: vec![("name".to_string(), Value::Str("John".to_string()))],
    };
    let msg = expect_validation_error(manager.create(resource));
    assert_eq!(msg, "Required field 'email' is missing");
}

#[test]
fn test_type_message_exact() {
    let def = create_test_definition();
    let mut manager = ResourceManager::new(def, InMemoryStorage::new());
    let resource = Resource {
        id: "1".to_string(),
        data: vec![
            ("name".to_string(), Value::Str("John Doe".to_string())),
            ("age".to_string(), Value::Str("thirty".to_string())),
            ("email".to_string(), Value::Str("john@example.com".to_string())),
        ],
    };
    let msg = expect_validation_error(manager.create(resource));
    assert_eq!(msg, "Field 'age' has invalid type, expected 'number'");
}

#[test]
fn test_min_value_message_exact() {
    let def = create_test_definition();
    let mut manager = ResourceManager::new(def, InMemoryStorage::new());
    let resource = create_test_resource("1", "John Doe", -5, "john@example.com");
    let msg = expect_validation_error(manager.create(resource));
    assert_eq!(msg, "Field 'age' value -5 is less than minimum 0");
}

#[test]
fn test_max_value_message_exact() {
    let def = create_test_definition();
    let mut manager = ResourceManager::new(def, InMemoryStorage::new());
    let resource = create_test_resource("2", "Jane Doe", 200, "jane@example.com");
    let msg = expect_validation_error(manager.create(resource));
    assert_eq!(msg, "Field 'age' value 200 is greater than maximum 150");
}

#[test]
fn test_min_length_message_exact() {
    let def = create_test_definition();
    let mut manager = ResourceManager::new(def, InMemoryStorage::new());
    let resource = create_test_resource("1", "Jo", 30, "jo@example.com");
    let msg = expect_validation_error(manager.create(resource));
    assert_eq!(msg, "Field 'name' length is less than minimum 3");
}

#[test]
fn test_max_length_message_exact() {
    let def = create_test_definition();
    let mut manager = ResourceManager::new(def, InMemoryStorage::new());
    let resource = create_test_resource("2", &"A".repeat(100), 30, "test@example.com");
    let msg = expect_validation_error(manager.create(resource));
    assert_eq!(msg, "Field 'name' length is greater than maximum 50");
}

#[test]
fn test_numeric_bounds_accept_edges() {
    let def = create_test_definition();
    let mut manager = ResourceManager::new(def, InMemoryStorage::new());
    assert!(manager
        .create(create_test_resource("1", "John Doe", 0, "john@example.com"))
        .is_ok());
    assert!(manager
        .create(create_test_resource("2", "Jane Doe", 150, "jane@example.com"))
        .is_ok());
    assert!(manager
        .create(create_test_resource("3", "Kim Doe", 75, "kim@example.com"))
        .is_ok());
}

#[test]
fn test_string_length_bounds_accept_edges() {
    let def = create_test_definition();
    let mut manager = ResourceManager::new(def, InMemoryStorage::new());
    assert!(manager
        .create(create_test_resource("1", "Abe", 30, "abe@example.com"))
        .is_ok());
    assert!(manager
        .create(create_test_resource("2", &"B".repeat(50), 30, "b@example.com"))
        .is_ok());
}

#[test]
fn test_validate_without_storing() {
    let def = create_test_definition();
    let manager = ResourceManager::new(def, InMemoryStorage::new());
    let good = create_test_resource("1", "John Doe", 30, "john@example.com");
    assert!(manager.validate(&good).is_ok());
    let bad = create_test_resource("1", "Jo", 30, "jo@example.com");
    assert!(manager.validate(&bad).is_err());
    // validate never writes
    assert_eq!(manager.list().unwrap().len(), 0);
}

#[test]
fn test_empty_schema_accepts_anything() {
    let def = ResourceDefinition {
        name: "free".to_string(),
        fields: vec![],
        security: None,
    };
    let mut manager = ResourceManager::new(def, InMemoryStorage::new());
    let resource = Resource {
        id: "1".to_string(),
        data: vec![("anything".to_string(), Value::Null)],
    };
    assert!(manager.create(resource).is_ok());
}

#[test]
fn test_unknown_type_tag_unconstrained() {
    let def = ResourceDefinition {
        name: "events".to_string(),
        fields: vec![Field {
            name: "when".to_string(),
            field_type: "date".to_string(),
            required: true,
            validation: None,
        }],
        security: None,
    };
    let mut manager = ResourceManager::new(def, InMemoryStorage::new());
    let resource = Resource {
        id: "1".to_string(),
        data: vec![("when".to_string(), Value::Bool(true))],
    };
    assert!(manager.create(resource).is_ok());
}

#[test]
fn test_optional_field_may_be_absent() {
    let def = create_test_definition();
    let mut manager = ResourceManager::new(def, InMemoryStorage::new());
    // age is optional: a record without it passes
    let resource = Resource {
        id: "1".to_string(),
        data: vec![
            ("name".to_string(), Value::Str("John Doe".to_string())),
            ("email".to_string(), Value::Str("john@example.com".to_string())),
        ],
    };
    assert!(manager.create(resource).is_ok());
}
