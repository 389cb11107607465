use tab_system::content::ContentProvider;
use tab_system::content::TabKind;
use tab_system::registry::TabTypeDescriptor;
use tab_system::registry::TabTypeRegistry;

fn descriptor(name: &str, icon: Option<&str>, kind: TabKind) -> TabTypeDescriptor {
    TabTypeDescriptor {
        display_name: name.to_string(),
        icon: icon.map(|s| s.to_string()),
        kind,
    }
}

#[test]
fn create_unknown_name_returns_nothing() {
    let mut registry = TabTypeRegistry::new();
    registry.register(descriptor("Text Document", None, TabKind::Text));
    assert!(registry.create(&"Foo".to_string()).is_none());
    // The miss changed nothing: the catalog still lists one entry.
    assert_eq!(registry.len(), 1);
}

#[test]
fn create_known_name_builds_default_payload() {
    let mut registry = TabTypeRegistry::new();
    registry.register(descriptor("Text Document", Some("doc"), TabKind::Text));
    registry.register(descriptor("Settings", None, TabKind::Settings));
    match registry.create(&"Text Document".to_string()) {
        Some(ContentProvider::Text(t)) => {
            assert_eq!(t.title, "New Document");
            assert_eq!(t.content, "");
            assert!(!t.is_dirty);
        }
        other => panic!("expected a text payload, got {:?}", other),
    }
    match registry.create(&"Settings".to_string()) {
        Some(ContentProvider::Settings(sp)) => {
            assert_eq!(sp.title, "Settings");
        }
        other => panic!("expected a settings payload, got {:?}", other),
    }
}

#[test]
fn listing_keeps_registration_order() {
    let mut registry = TabTypeRegistry::new();
    registry.register(descriptor("One", None, TabKind::Text));
    registry.register(descriptor("Two", None, TabKind::LevelEditor));
    registry.register(descriptor("Three", None, TabKind::Settings));
    let names: Vec<&str> = registry.list().iter().map(|d| d.display_name.as_str()).collect();
    assert_eq!(names, vec!["One", "Two", "Three"]);
}

#[test]
fn reregistering_a_name_overwrites_in_place() {
    let mut registry = TabTypeRegistry::new();
    registry.register(descriptor("One", None, TabKind::Text));
    registry.register(descriptor("Two", None, TabKind::Text));
    registry.register(descriptor("One", Some("new-icon"), TabKind::LevelEditor));
    assert_eq!(registry.len(), 2);
    let entries = registry.list();
    assert_eq!(entries[0].display_name, "One");
    assert_eq!(entries[0].icon.as_deref(), Some("new-icon"));
    assert_eq!(entries[0].kind, TabKind::LevelEditor);
    assert_eq!(entries[1].display_name, "Two");
    // The overwritten entry is what `create` now instantiates.
    match registry.create(&"One".to_string()) {
        Some(ContentProvider::Level(l)) => assert_eq!(l.title, "New Level"),
        other => panic!("expected a level payload, got {:?}", other),
    }
}
