//! Declarative UI: the model capability that plugins implement, and the
//! components built out of parsed markup. Rendering through an
//! immediate-mode UI backend happens outside this crate.

use vstd::prelude::*;

pub mod menu_item;
pub mod text_box;
pub mod ui_manager;

verus! {

/// A value assigned to a UI element attribute at runtime.
pub enum UiAttributeValue {
    Int(i64),
    Uint(u64),
    String(String),
    Bool(bool),
}

/// Failure reported by a UI model.
pub enum UiModelError {
    NoError,
    StandardError(String),
}

impl UiModelError {
    pub open spec fn spec_message(&self) -> Seq<char> {
        match self {
            UiModelError::NoError => Seq::empty(),
            UiModelError::StandardError(msg) => msg@,
        }
    }

    /// The message carried by this error; empty for `NoError`.
    pub fn message(&self) -> (r: String)
        ensures
            r@ == self.spec_message(),
    {
        match self {
            UiModelError::NoError => String::new(),
            UiModelError::StandardError(msg) => msg.clone(),
        }
    }
}

/// Per-instance behavior behind a UI component: named handlers that
/// component elements invoke.
pub trait UiModelInstance {
    fn call_handler(&self, name: &str);
}

/// A UI behavior model contributed by a plugin: its tag name and a
/// factory for per-window instances.
pub trait UiModel: Sized {
    type Instance: UiModelInstance;

    fn tag_name(&self) -> &'static str;

    fn new_instance(&self) -> Result<Self::Instance, UiModelError>;
}

/// What every concrete UI element answers about itself.
pub trait UiElement {
    fn kind(&self) -> String;

    fn id(&self) -> Option<String>;

    fn set_attrib(&mut self, attrib: String, value: UiAttributeValue);
}

/// A view over an instantiated UI tree: elements looked up by the id
/// their markup gave them.
pub trait Document<E: UiElement> {
    fn get_element_by_id(&mut self, id: &str) -> Option<&mut E>;
}

/// Sink through which a plugin registers UI models.
pub trait UiModelLoader<M: UiModel> {
    fn register(&mut self, name: &str, model: M);
}

/// Sink through which a plugin registers UI markup sources.
pub trait UiSourceLoader {
    fn register(&mut self, name: String, xml: String);
}

/// The built-in model for static markup: instances carry no behavior
/// and answer no handlers.
pub struct StaticUi;

impl UiModel for StaticUi {
    type Instance = StaticUi;

    fn tag_name(&self) -> (r: &'static str)
        ensures
            r@ == "static"@,
    {
        "static"
    }

    fn new_instance(&self) -> (r: Result<StaticUi, UiModelError>)
        ensures
            r is Ok,
    {
        Ok(StaticUi)
    }
}

impl UiModelInstance for StaticUi {
    fn call_handler(&self, _name: &str) {
    }
}

} // verus!
