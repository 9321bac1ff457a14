use meta_rest::Field;
use meta_rest::Filter;
use meta_rest::InMemoryStorage;
use meta_rest::Resource;
use meta_rest::ResourceDefinition;
use meta_rest::ResourceManager;
use meta_rest::SecurityPolicy;
use meta_rest::ValidationRule;
use meta_rest::Value;

fn create_test_definition() -> ResourceDefinition {
    ResourceDefinition {
        name: "users".to_string(),
        fields: vec![
            Field {
                name: "name".to_string(),
                field_type: "string".to_string(),
                required: true,
                validation: Some(ValidationRule {
                    min: Some(3),
                    max: Some(50),
                    pattern: None,
                }),
            },
            Field {
                name: "age".to_string(),
                field_type: "number".to_string(),
                required: false,
                validation: Some(ValidationRule {
                    min: Some(0),
                    max: Some(150),
                    pattern: None,
                }),
            },
            Field {
                name: "email".to_string(),
                field_type: "string".to_string(),
                required: true,
                validation: None,
            },
        ],
        security: Some(SecurityPolicy {
            require_auth: true,
            allowed_roles: Some(vec!["admin".to_string(), "user".to_string()]),
        }),
    }
}

fn create_test_resource(id: &str, name: &str, age: i64, email: &str) -> Resource {
    Resource {
        id: id.to_string(),
        data: vec![
            ("name".to_string(), Value::Str(name.to_string())),
            ("age".to_string(), Value::Number(age)),
            ("email".to_string(), Value::Str(email.to_string())),
        ],
    }
}

#[test]
fn test_filter_resources() {
    let def = create_test_definition();
    let storage = InMemoryStorage::new();
    let mut manager = ResourceManager::new(def, storage);

    manager
        .create(create_test_resource("1", "John Doe", 30, "john@example.com"))
        .unwrap();
    manager
        .create(create_test_resource("2", "Jane Smith", 25, "jane@example.com"))
        .unwrap();
    manager
        .create(create_test_resource("3", "Bob Jones", 35, "bob@example.com"))
        .unwrap();

    // Filter by age greater than 28
    let filters = vec![Filter {
        field: "age".to_string(),
        operator: "gt".to_string(),
        value: Value::Number(28),
    }];

    let result = manager.list_filtered(&filters);
    assert!(result.is_ok());

    let filtered = result.unwrap();
    assert_eq!(filtered.len(), 2);
}

#[test]
fn test_filter_equals() {
    let def = create_test_definition();
    let storage = InMemoryStorage::new();
    let mut manager = ResourceManager::new(def, storage);

    manager
        .create(create_test_resource("1", "John Doe", 30, "john@example.com"))
        .unwrap();
    manager
        .create(create_test_resource("2", "Jane Smith", 25, "jane@example.com"))
        .unwrap();

    let filters = vec![Filter {
        field: "name".to_string(),
        operator: "eq".to_string(),
        value: Value::Str("John Doe".to_string()),
    }];

    let result = manager.list_filtered(&filters);
    assert!(result.is_ok());

    let filtered = result.unwrap();
    assert_eq!(filtered.len(), 1);
    assert_eq!(filtered[0].id, "1");
}

#[test]
fn test_filter_contains() {
    let def = create_test_definition();
    let storage = InMemoryStorage::new();
    let mut manager = ResourceManager::new(def, storage);

    manager
        .create(create_test_resource("1", "John Doe", 30, "john@example.com"))
        .unwrap();
    manager
        .create(create_test_resource("2", "Jane Doe", 25, "jane@example.com"))
        .unwrap();
    manager
        .create(create_test_resource("3", "Bob Smith", 35, "bob@example.com"))
        .unwrap();

    let filters = vec![Filter {
        field: "name".to_string(),
        operator: "contains".to_string(),
        value: Value::Str("Doe".to_string()),
    }];

    let result = manager.list_filtered(&filters);
    assert!(result.is_ok());

    let filtered = result.unwrap();
    assert_eq!(filtered.len(), 2);
}

#[test]
fn test_multiple_filters() {
    let def = create_test_definition();
    let storage = InMemoryStorage::new();
    let mut manager = ResourceManager::new(def, storage);

    manager
        .create(create_test_resource("1", "John Doe", 30, "john@example.com"))
        .unwrap();
    manager
        .create(create_test_resource("2", "Jane Doe", 25, "jane@example.com"))
        .unwrap();
    manager
        .create(create_test_resource("3", "Bob Doe", 35, "bob@example.com"))
        .unwrap();

    let filters = vec![
        Filter {
            field: "name".to_string(),
            operator: "contains".to_string(),
            value: Value::Str("Doe".to_string()),
        },
        Filter {
            field: "age".to_string(),
            operator: "gt".to_string(),
            value: Value::Number(28),
        },
    ];

    let result = manager.list_filtered(&filters);
    assert!(result.is_ok());

    let filtered = result.unwrap();
    assert_eq!(filtered.len(), 2); // John and Bob, not Jane (age 25)
}

#[test]
fn test_filter_conjunction_excludes() {
    let def = create_test_definition();
    let mut manager = ResourceManager::new(def, InMemoryStorage::new());

    manager
        .create(create_test_resource("1", "John Doe", 30, "john@example.com"))
        .unwrap();
    manager
        .create(create_test_resource("2", "Jane Doe", 25, "jane@example.com"))
        .unwrap();
    manager
        .create(create_test_resource("3", "Bob Doe", 35, "bob@example.com"))
        .unwrap();

    let filters = vec![
        Filter {
            field: "name".to_string(),
            operator: "contains".to_string(),
            value: Value::Str("Doe".to_string()),
        },
        Filter {
            field: "age".to_string(),
            operator: "gt".to_string(),
            value: Value::Number(28),
        },
    ];

    let filtered = manager.list_filtered(&filters).unwrap();
    let mut ids: Vec<&str> = filtered.iter().map(|r| r.id.as_str()).collect();
    ids.sort();
    assert_eq!(ids, vec!["1", "3"]);
}

#[test]
fn test_filter_ne() {
    let def = create_test_definition();
    let mut manager = ResourceManager::new(def, InMemoryStorage::new());
    manager
        .create(create_test_resource("1", "John Doe", 30, "john@example.com"))
        .unwrap();
    manager
        .create(create_test_resource("2", "Jane Smith", 25, "jane@example.com"))
        .unwrap();

    let filters = vec![Filter {
        field: "name".to_string(),
        operator: "ne".to_string(),
        value: Value::Str("John Doe".to_string()),
    }];
    let filtered = manager.list_filtered(&filters).unwrap();
    assert_eq!(filtered.len(), 1);
    assert_eq!(filtered[0].id, "2");
}

#[test]
fn test_filter_lt() {
    let def = create_test_definition();
    let mut manager = ResourceManager::new(def, InMemoryStorage::new());
    manager
        .create(create_test_resource("1", "John Doe", 30, "john@example.com"))
        .unwrap();
    manager
        .create(create_test_resource("2", "Jane Smith", 25, "jane@example.com"))
        .unwrap();

    let filters = vec![Filter {
        field: "age".to_string(),
        operator: "lt".to_string(),
        value: Value::Number(28),
    }];
    let filtered = manager.list_filtered(&filters).unwrap();
    assert_eq!(filtered.len(), 1);
    assert_eq!(filtered[0].id, "2");
}

#[test]
fn test_unknown_operator_matches_no_record() {
    let def = create_test_definition();
    let mut manager = ResourceManager::new(def, InMemoryStorage::new());
    manager
        .create(create_test_resource("1", "John Doe", 30, "john@example.com"))
        .unwrap();

    let filters = vec![Filter {
        field: "name".to_string(),
        operator: "like".to_string(),
        value: Value::Str("John".to_string()),
    }];
    let result = manager.list_filtered(&filters);
    assert!(result.is_ok());
    assert_eq!(result.unwrap().len(), 0);
}

#[test]
fn test_filter_absent_field_matches_nothing() {
    let def = create_test_definition();
    let mut manager = ResourceManager::new(def, InMemoryStorage::new());
    manager
        .create(create_test_resource("1", "John Doe", 30, "john@example.com"))
        .unwrap();

    let filters = vec![Filter {
        field: "height".to_string(),
        operator: "eq".to_string(),
        value: Value::Number(180),
    }];
    assert_eq!(manager.list_filtered(&filters).unwrap().len(), 0);
}

#[test]
fn test_filter_gt_non_numeric_no_match() {
    let def = create_test_definition();
    let mut manager = ResourceManager::new(def, InMemoryStorage::new());
    manager
        .create(create_test_resource("1", "John Doe", 30, "john@example.com"))
        .unwrap();

    // gt against a string field: both sides must be numeric, so no match
    let filters = vec![Filter {
        field: "name".to_string(),
        operator: "gt".to_string(),
        value: Value::Str("A".to_string()),
    }];
    let result = manager.list_filtered(&filters);
    assert!(result.is_ok());
    assert_eq!(result.unwrap().len(), 0);
}

#[test]
fn test_filter_contains_non_string_no_match() {
    let def = create_test_definition();
    let mut manager = ResourceManager::new(def, InMemoryStorage::new());
    manager
        .create(create_test_resource("1", "John Doe", 30, "john@example.com"))
        .unwrap();

    let filters = vec![Filter {
        field: "age".to_string(),
        operator: "contains".to_string(),
        value: Value::Str("3".to_string()),
    }];
    assert_eq!(manager.list_filtered(&filters).unwrap().len(), 0);
}

#[test]
fn test_filter_empty_list_matches_all() {
    let def = create_test_definition();
    let mut manager = ResourceManager::new(def, InMemoryStorage::new());
    manager
        .create(create_test_resource("1", "John Doe", 30, "john@example.com"))
        .unwrap();
    manager
        .create(create_test_resource("2", "Jane Smith", 25, "jane@example.com"))
        .unwrap();

    let filters: Vec<Filter> = vec![];
    assert_eq!(manager.list_filtered(&filters).unwrap().len(), 2);
}
