use tab_system::content::ContentProvider;
use tab_system::content::LevelEditorContentProvider;
use tab_system::content::SettingsContentProvider;
use tab_system::content::LevelEditorTabType;
use tab_system::content::SettingsTabType;
use tab_system::content::TabType;
use tab_system::content::TextContentProvider;
use tab_system::content::TextTabType;
use tab_system::editors::AsteriskEditor;
use tab_system::editors::AsteriskEditorView;
use tab_system::editors::EditorMetadata;
use tab_system::editors::ExampleEditor;
use tab_system::editors::ExampleEditorView;
use tab_system::editors::LevelEditorView;
use tab_system::events::TabChangeEvent;
use tab_system::events::TabCloseEvent;
use tab_system::events::TabReorderEvent;
use tab_system::frame_counter::FrameCounter;
use tab_system::frame_counter::get_fps;
use tab_system::frame_counter::get_frame_count;
use tab_system::frame_counter::increment_frame;
use tab_system::frame_counter::update_fps;
use tab_system::tab::TabRecord;

#[test]
fn providers_answer_the_capability_contract() {
    let text = ContentProvider::Text(TextContentProvider::new(
        "notes".to_string(),
        "hello".to_string(),
    ));
    assert_eq!(text.get_title(), "notes");
    assert!(!text.is_dirty());
    assert!(text.can_close());

    let level = ContentProvider::Level(LevelEditorContentProvider::new("arena".to_string()));
    assert_eq!(level.get_title(), "arena");
    assert!(level.can_close());

    let settings = ContentProvider::Settings(SettingsContentProvider::new());
    assert_eq!(settings.get_title(), "Settings");
    assert!(!settings.can_close());
}

#[test]
fn tab_record_builders_set_flags() {
    let content = ContentProvider::Text(TextContentProvider::new(
        "doc".to_string(),
        String::new(),
    ));
    let record = TabRecord::new(4, content).with_icon("icon".to_string()).pinned().preview();
    assert_eq!(record.id, 4);
    assert_eq!(record.icon.as_deref(), Some("icon"));
    assert!(record.is_pinned);
    assert!(record.is_preview);
    assert!(record.metadata.is_empty());
    assert_eq!(record.get_title(), "doc");
}

#[test]
fn registerable_types_describe_themselves() {
    let text_type = TextTabType;
    assert_eq!(text_type.name(), "Text Document");
    assert_eq!(text_type.icon().as_deref(), Some("📝"));
    match text_type.create() {
        ContentProvider::Text(t) => {
            assert_eq!(t.title, "New Document");
            assert_eq!(t.content, "");
        }
        other => panic!("expected a text payload, got {:?}", other),
    }
    let settings_type = SettingsTabType;
    assert_eq!(settings_type.name(), "Settings");
    assert!(!settings_type.create().can_close());
    let level_type = LevelEditorTabType;
    assert_eq!(level_type.name(), "Level Editor");
    assert_eq!(level_type.icon().as_deref(), Some("🎮"));
    match level_type.create() {
        ContentProvider::Level(l) => {
            assert_eq!(l.title, "New Level");
            assert_eq!(l.level_data, "Level data...");
            assert!(!l.is_dirty);
        }
        other => panic!("expected a level payload, got {:?}", other),
    }
}

#[test]
fn tab_type_display_names() {
    assert_eq!(TabType::Scene.display_name(), "Scene");
    assert_eq!(TabType::LevelEditor.display_name(), "Level Editor");
    assert_eq!(TabType::TerrainEditor.display_name(), "Terrain Editor");
    assert_eq!(TabType::Inspector.display_name(), "Inspector");
    assert_eq!(TabType::Console.display_name(), "Console");
    assert_eq!(TabType::Profiler.display_name(), "Profiler");
}

#[test]
fn editor_metadata_answers() {
    let asterisk = AsteriskEditor;
    assert_eq!(asterisk.name(), "Asterisk");
    assert_eq!(asterisk.title(), "Asterisk's editor");
    let example = ExampleEditor;
    assert_eq!(example.name(), "Example");
    assert_eq!(example.description(), "Editor for showing how editor tabs are created.");
}

#[test]
fn editor_views_reduce_their_seed() {
    assert_eq!(AsteriskEditorView::new(12_345).random_number, 345);
    assert_eq!(ExampleEditorView::new(999).random_number, 999);
    assert_eq!(LevelEditorView::new(1_000).random_number, 0);
}

#[test]
fn frame_counter_counts() {
    let mut counter = FrameCounter::new();
    assert_eq!(get_frame_count(&counter), 0);
    increment_frame(&mut counter);
    increment_frame(&mut counter);
    assert_eq!(get_frame_count(&counter), 2);
    update_fps(&mut counter, 60);
    assert_eq!(get_fps(&counter), 60);
    assert_eq!(get_frame_count(&counter), 2);
}

#[test]
fn events_carry_their_fields() {
    let change = TabChangeEvent { old_index: 0, new_index: 2 };
    assert_eq!((change.old_index, change.new_index), (0, 2));
    let close = TabCloseEvent { index: 1, tab_id: "tab_1".to_string() };
    assert_eq!(close.tab_id, "tab_1");
    let reorder = TabReorderEvent { from_index: 2, to_index: 0 };
    assert_eq!((reorder.from_index, reorder.to_index), (2, 0));
}
