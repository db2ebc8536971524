use pagoda_runtime::pipeline::registry::{Holds, Parameter, Registry};
use std::sync::Arc;

enum Any {
    Int(Arc<i32>),
    Float(Arc<f64>),
    Text(String),
}

impl Holds<Arc<i32>> for Any {
    fn hold(value: Arc<i32>) -> Self {
        Any::Int(value)
    }
    fn held(&self) -> Option<&Arc<i32>> {
        match self {
            Any::Int(value) => Some(value),
            _ => None,
        }
    }
    fn release(self) -> Option<Arc<i32>> {
        match self {
            Any::Int(value) => Some(value),
            _ => None,
        }
    }
}

impl Holds<Arc<f64>> for Any {
    fn hold(value: Arc<f64>) -> Self {
        Any::Float(value)
    }
    fn held(&self) -> Option<&Arc<f64>> {
        match self {
            Any::Float(value) => Some(value),
            _ => None,
        }
    }
    fn release(self) -> Option<Arc<f64>> {
        match self {
            Any::Float(value) => Some(value),
            _ => None,
        }
    }
}

impl Holds<String> for Any {
    fn hold(value: String) -> Self {
        Any::Text(value)
    }
    fn held(&self) -> Option<&String> {
        match self {
            Any::Text(value) => Some(value),
            _ => None,
        }
    }
    fn release(self) -> Option<String> {
        match self {
            Any::Text(value) => Some(value),
            _ => None,
        }
    }
}

#[test]
fn test_insert_and_get_shared() {
    let mut registry = Registry::<Any>::new();
    registry.insert_shared("shared1", 42);
    assert_eq!(*registry.get_shared::<i32>("shared1").unwrap(), 42);
    assert!(registry.get_shared::<f64>("shared1").is_err());
}

#[test]
fn test_insert_and_take_unique() {
    let mut registry = Registry::<Any>::new();
    registry.insert_unique("unique1", "Hello".to_string());
    assert_eq!(registry.take_unique::<String>("unique1").unwrap(), "Hello");
    assert!(registry.take_unique::<String>("unique1").is_err());
}

#[test]
fn test_insert_and_clone_then_take_unique() {
    let mut registry = Registry::<Any>::new();

    registry.insert_unique("unique2", "World".to_string());

    assert_eq!(registry.clone_unique::<String>("unique2").unwrap(), "World");

    assert!(registry.take_unique::<String>("unique2").is_ok());
}

#[test]
fn test_failed_take_after_cloning() {
    let mut registry = Registry::<Any>::new();

    registry.insert_unique("unique3", "Another".to_string());
    assert_eq!(
        registry.clone_unique::<String>("unique3").unwrap(),
        "Another"
    );

    assert_eq!(
        registry.take_unique::<String>("unique3").unwrap(),
        "Another"
    );

    assert!(registry.take_unique::<String>("unique3").is_err());
}

#[test]
fn lookup_errors_name_the_key() {
    let mut registry = Registry::<Parameter>::new();
    registry.insert_shared("s", 7i32);
    registry.insert_unique("u", "text".to_string());

    assert!(registry.contains_shared("s"));
    assert!(!registry.contains_shared("u"));
    assert!(registry.contains_unique("u"));
    assert!(!registry.contains_unique("s"));

    assert_eq!(
        registry.get_shared::<String>("s").unwrap_err(),
        "Failed to downcast to the requested type for shared key: s"
    );
    assert_eq!(
        registry.get_shared::<i32>("u").unwrap_err(),
        "Shared key not found: u"
    );
    assert_eq!(
        registry.clone_unique::<i32>("u").unwrap_err(),
        "Failed to downcast to the requested type for unique key: u"
    );
    assert_eq!(
        registry.clone_unique::<i32>("s").unwrap_err(),
        "Takable key not found: s"
    );
}

#[test]
fn taking_as_the_wrong_type_consumes() {
    let mut registry = Registry::<Parameter>::default();
    registry.insert_unique("u", vec![1u8, 2, 3]);
    assert_eq!(
        registry.take_unique::<String>("u").unwrap_err(),
        "Failed to downcast to the requested type for unique key: u"
    );
    assert_eq!(
        registry.take_unique::<Vec<u8>>("u").unwrap_err(),
        "Takable key not found: u"
    );
}

#[test]
fn later_insertion_replaces() {
    let mut registry = Registry::<Parameter>::new();
    registry.insert_shared("k", 1i32);
    registry.insert_shared("k", "two".to_string());
    assert_eq!(*registry.get_shared::<String>("k").unwrap(), "two");
    assert!(registry.get_shared::<i32>("k").is_err());
}
