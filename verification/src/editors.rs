//! The plugin surface for editor kinds and the sample editors that implement
//! it. The metadata answers are plain strings; building the rendered view is
//! the host shell's business.

use vstd::prelude::*;

verus! {

/// What every registerable editor kind tells the shell about itself. Each
/// implementation pins its answers with the four spec functions, so callers
/// know exactly which strings come back.
pub trait EditorMetadata {
    spec fn spec_name(&self) -> Seq<char>;

    spec fn spec_icon(&self) -> Seq<char>;

    spec fn spec_title(&self) -> Seq<char>;

    spec fn spec_description(&self) -> Seq<char>;

    fn name(&self) -> (r: &'static str)
        ensures
            r@ == self.spec_name(),
    ;

    fn icon(&self) -> (r: &'static str)
        ensures
            r@ == self.spec_icon(),
    ;

    fn title(&self) -> (r: &'static str)
        ensures
            r@ == self.spec_title(),
    ;

    fn description(&self) -> (r: &'static str)
        ensures
            r@ == self.spec_description(),
    ;
}

/// A sample editor kind used to demonstrate tab creation.
#[derive(Clone, Debug)]
pub struct AsteriskEditor;

impl EditorMetadata for AsteriskEditor {
    open spec fn spec_name(&self) -> Seq<char> {
        "Asterisk"@
    }

    open spec fn spec_icon(&self) -> Seq<char> {
        "🗺️"@
    }

    open spec fn spec_title(&self) -> Seq<char> {
        "Asterisk's editor"@
    }

    open spec fn spec_description(&self) -> Seq<char> {
        "Editor for showing how editor tabs are created."@
    }

    fn name(&self) -> (r: &'static str) {
        "Asterisk"
    }

    fn icon(&self) -> (r: &'static str) {
        "🗺️"
    }

    fn title(&self) -> (r: &'static str) {
        "Asterisk's editor"
    }

    fn description(&self) -> (r: &'static str) {
        "Editor for showing how editor tabs are created."
    }
}

/// The view state of one `AsteriskEditor` instance. The shell draws a fresh
/// random number when it creates the view and hands it in here.
pub struct AsteriskEditorView {
    pub random_number: u32,
}

impl AsteriskEditorView {
    pub fn new(random_number: u32) -> (r: Self)
        ensures
            r.random_number == random_number % 1000,
    {
        AsteriskEditorView { random_number: random_number % 1000 }
    }
}

/// A second sample editor kind.
#[derive(Clone, Debug)]
pub struct ExampleEditor;

impl EditorMetadata for ExampleEditor {
    open spec fn spec_name(&self) -> Seq<char> {
        "Example"@
    }

    open spec fn spec_icon(&self) -> Seq<char> {
        "🗺️"@
    }

    open spec fn spec_title(&self) -> Seq<char> {
        "Example Editor"@
    }

    open spec fn spec_description(&self) -> Seq<char> {
        "Editor for showing how editor tabs are created."@
    }

    fn name(&self) -> (r: &'static str) {
        "Example"
    }

    fn icon(&self) -> (r: &'static str) {
        "🗺️"
    }

    fn title(&self) -> (r: &'static str) {
        "Example Editor"
    }

    fn description(&self) -> (r: &'static str) {
        "Editor for showing how editor tabs are created."
    }
}

/// The view state of one `ExampleEditor` instance.
pub struct ExampleEditorView {
    pub random_number: u32,
}

impl ExampleEditorView {
    pub fn new(random_number: u32) -> (r: Self)
        ensures
            r.random_number == random_number % 1000,
    {
        ExampleEditorView { random_number: random_number % 1000 }
    }
}

/// The view state of one level-editor instance.
pub struct LevelEditorView {
    pub random_number: u32,
}

impl LevelEditorView {
    pub fn new(random_number: u32) -> (r: Self)
        ensures
            r.random_number == random_number % 1000,
    {
        LevelEditorView { random_number: random_number % 1000 }
    }
}

} // verus!
