//! Tab payloads. Every open tab owns one `ContentProvider`, a tagged union of
//! the editor kinds the shell knows how to display. Each variant answers the
//! same small capability contract: a title, a dirty flag, and whether the tab
//! may be closed.

use vstd::prelude::*;

verus! {

/// A text document payload.
#[derive(Clone, Debug)]
pub struct TextContentProvider {
    pub title: String,
    pub content: String,
    pub is_dirty: bool,
}

impl TextContentProvider {
    pub fn new(title: String, content: String) -> (r: Self)
        ensures
            r.title == title,
            r.content == content,
            !r.is_dirty,
    {
        TextContentProvider { title, content, is_dirty: false }
    }
}

/// A level-editor payload.
#[derive(Clone, Debug)]
pub struct LevelEditorContentProvider {
    pub title: String,
    pub level_data: String,
    pub is_dirty: bool,
}

impl LevelEditorContentProvider {
    pub fn new(title: String) -> (r: Self)
        ensures
            r.title == title,
            r.level_data@ == "Level data..."@,
            !r.is_dirty,
    {
        LevelEditorContentProvider {
            title,
            level_data: "Level data...".to_owned(),
            is_dirty: false,
        }
    }
}

/// The settings form. It reports `can_close() == false`: the settings tab
/// must stay open.
#[derive(Clone, Debug)]
pub struct SettingsContentProvider {
    pub title: String,
    pub is_dirty: bool,
}

impl SettingsContentProvider {
    pub fn new() -> (r: Self)
        ensures
            r.title@ == "Settings"@,
            !r.is_dirty,
    {
        SettingsContentProvider { title: "Settings".to_owned(), is_dirty: false }
    }
}

/// The payload of one tab: one of the editor kinds the shell can display.
#[derive(Clone, Debug)]
pub enum ContentProvider {
    Text(TextContentProvider),
    Level(LevelEditorContentProvider),
    Settings(SettingsContentProvider),
}

impl ContentProvider {
    pub open spec fn spec_title(&self) -> Seq<char> {
        match self {
            ContentProvider::Text(p) => p.title@,
            ContentProvider::Level(p) => p.title@,
            ContentProvider::Settings(p) => p.title@,
        }
    }

    pub open spec fn spec_dirty(&self) -> bool {
        match self {
            ContentProvider::Text(p) => p.is_dirty,
            ContentProvider::Level(p) => p.is_dirty,
            ContentProvider::Settings(p) => p.is_dirty,
        }
    }

    /// Whether the tab holding this payload may be closed. Only the settings
    /// form refuses.
    pub open spec fn spec_can_close(&self) -> bool {
        match self {
            ContentProvider::Settings(_) => false,
            _ => true,
        }
    }

    pub fn get_title(&self) -> (r: String)
        ensures
            r@ == self.spec_title(),
    {
        match self {
            ContentProvider::Text(p) => p.title.clone(),
            ContentProvider::Level(p) => p.title.clone(),
            ContentProvider::Settings(p) => p.title.clone(),
        }
    }

    pub fn is_dirty(&self) -> (r: bool)
        ensures
            r == self.spec_dirty(),
    {
        match self {
            ContentProvider::Text(p) => p.is_dirty,
            ContentProvider::Level(p) => p.is_dirty,
            ContentProvider::Settings(p) => p.is_dirty,
        }
    }

    pub fn can_close(&self) -> (r: bool)
        ensures
            r == self.spec_can_close(),
    {
        match self {
            ContentProvider::Settings(_) => false,
            _ => true,
        }
    }
}

/// The kinds of tab the registry can instantiate.
#[derive(Clone, Copy, Debug, PartialEq, Eq, Structural)]
pub enum TabKind {
    Text,
    LevelEditor,
    Settings,
}

/// What a freshly created payload of the given kind looks like: the default
/// title for the kind, no content yet, and a clean dirty flag.
pub open spec fn is_default_provider(p: ContentProvider, kind: TabKind) -> bool {
    match kind {
        TabKind::Text => match p {
            ContentProvider::Text(t) => t.title@ == "New Document"@ && t.content@ == ""@
                && !t.is_dirty,
            _ => false,
        },
        TabKind::LevelEditor => match p {
            ContentProvider::Level(l) => l.title@ == "New Level"@
                && l.level_data@ == "Level data..."@ && !l.is_dirty,
            _ => false,
        },
        TabKind::Settings => match p {
            ContentProvider::Settings(s) => s.title@ == "Settings"@ && !s.is_dirty,
            _ => false,
        },
    }
}

/// Builds the default payload for a tab kind; the factory behind the
/// registry's `create` and the "new tab" dropdown.
pub fn default_provider(kind: TabKind) -> (r: ContentProvider)
    ensures
        is_default_provider(r, kind),
{
    match kind {
        TabKind::Text => ContentProvider::Text(
            TextContentProvider::new("New Document".to_owned(), "".to_owned()),
        ),
        TabKind::LevelEditor => ContentProvider::Level(
            LevelEditorContentProvider::new("New Level".to_owned()),
        ),
        TabKind::Settings => ContentProvider::Settings(SettingsContentProvider::new()),
    }
}

/// The fixed panel kinds of the single-window prototype's tab bar.
#[derive(Clone, Copy, Debug, PartialEq, Eq, Structural)]
pub enum TabType {
    Scene,
    LevelEditor,
    TerrainEditor,
    Inspector,
    Console,
    Profiler,
}

impl TabType {
    pub open spec fn spec_display_name(&self) -> Seq<char> {
        match self {
            TabType::Scene => "Scene"@,
            TabType::LevelEditor => "Level Editor"@,
            TabType::TerrainEditor => "Terrain Editor"@,
            TabType::Inspector => "Inspector"@,
            TabType::Console => "Console"@,
            TabType::Profiler => "Profiler"@,
        }
    }

    pub fn display_name(&self) -> (r: &'static str)
        ensures
            r@ == self.spec_display_name(),
    {
        match self {
            TabType::Scene => "Scene",
            TabType::LevelEditor => "Level Editor",
            TabType::TerrainEditor => "Terrain Editor",
            TabType::Inspector => "Inspector",
            TabType::Console => "Console",
            TabType::Profiler => "Profiler",
        }
    }
}

/// Holds when an optional string equals the given character sequence.
pub open spec fn opt_string_is(o: Option<String>, s: Seq<char>) -> bool {
    match o {
        Some(x) => x@ == s,
        None => false,
    }
}

/// Registerable kind: plain text documents.
pub struct TextTabType;

impl TextTabType {
    pub fn name(&self) -> (r: &'static str)
        ensures
            r@ == "Text Document"@,
    {
        "Text Document"
    }

    pub fn icon(&self) -> (r: Option<String>)
        ensures
            opt_string_is(r, "📝"@),
    {
        Some("📝".to_owned())
    }

    pub fn create(&self) -> (r: ContentProvider)
        ensures
            is_default_provider(r, TabKind::Text),
    {
        default_provider(TabKind::Text)
    }
}

/// Registerable kind: the level editor.
pub struct LevelEditorTabType;

impl LevelEditorTabType {
    pub fn name(&self) -> (r: &'static str)
        ensures
            r@ == "Level Editor"@,
    {
        "Level Editor"
    }

    pub fn icon(&self) -> (r: Option<String>)
        ensures
            opt_string_is(r, "🎮"@),
    {
        Some("🎮".to_owned())
    }

    pub fn create(&self) -> (r: ContentProvider)
        ensures
            is_default_provider(r, TabKind::LevelEditor),
    {
        default_provider(TabKind::LevelEditor)
    }
}

/// Registerable kind: the settings form.
pub struct SettingsTabType;

impl SettingsTabType {
    pub fn name(&self) -> (r: &'static str)
        ensures
            r@ == "Settings"@,
    {
        "Settings"
    }

    pub fn icon(&self) -> (r: Option<String>)
        ensures
            opt_string_is(r, "⚙️"@),
    {
        Some("⚙️".to_owned())
    }

    pub fn create(&self) -> (r: ContentProvider)
        ensures
            is_default_provider(r, TabKind::Settings),
    {
        default_provider(TabKind::Settings)
    }
}

} // verus!
