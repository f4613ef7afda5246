use cw20_clawback::msg::is_valid_name;
use cw20_clawback::state::{Clawback, Registry, all_clawback_ids};

fn dummy_clawback() -> Clawback {
    Clawback {
        holder: "hold".to_string(),
        backup: "back".to_string(),
        ..Clawback::default()
    }
}

#[test]
fn no_clawback_ids() {
    let registry = Registry::new();
    let ids = all_clawback_ids(&registry);
    assert_eq!(0, ids.len());
}

#[test]
fn all_clawback_ids_in_order() {
    let mut registry = Registry::new();
    registry.save(&"lazy".to_string(), dummy_clawback());
    registry.save(&"assign".to_string(), dummy_clawback());
    registry.save(&"zen".to_string(), dummy_clawback());

    let ids = all_clawback_ids(&registry);
    assert_eq!(3, ids.len());
    assert_eq!(
        vec!["assign".to_string(), "lazy".to_string(), "zen".to_string()],
        ids
    );
}

#[test]
fn registry_load_save_delete() {
    let mut registry = Registry::new();
    assert!(registry.load(&"abc".to_string()).is_none());
    registry
        .create("abc".to_string(), dummy_clawback())
        .unwrap();
    assert!(registry.contains(&"abc".to_string()));
    assert!(registry.create("abc".to_string(), dummy_clawback()).is_err());
    assert_eq!(registry.load(&"abc".to_string()).unwrap().holder, "hold");
    registry.delete(&"abc".to_string());
    assert!(!registry.contains(&"abc".to_string()));
    assert!(registry.load(&"abc".to_string()).is_none());
}

#[test]
fn id_name_length_bounds() {
    assert!(!is_valid_name("ab"));
    assert!(is_valid_name("abc"));
    assert!(is_valid_name("abcdefghijklmnopqrst"));
    assert!(!is_valid_name("abcdefghijklmnopqrstu"));
}
