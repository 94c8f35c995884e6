//! The interface that externally supplied behavior code implements.
//!
//! Plugins contribute entity models: factories that manufacture per-object
//! behavior instances and optionally name the shader, sprite and shape
//! resources an object of that kind wants bound. The runtime drives the
//! instances through `update` / `should_update` and hands each update a
//! dispose capability so an object can remove itself from the world.

use vstd::prelude::*;

verus! {

/// Capability handed to behavior code during an update: the only sanctioned
/// way for an object to remove itself from its world.
pub trait EntityHandle {
    fn dispose(&mut self);
}

/// Per-object behavior supplied by a plugin. `update` may request disposal
/// through the handle; `should_update` lets static objects opt out of the
/// update pass entirely, and must answer what `spec_should_update` says,
/// so the world's contracts can speak of who opted in.
pub trait EntityInstance: Sized {
    /// Whether this instance currently wants the update pass.
    spec fn spec_should_update(&self) -> bool;

    fn update<H: EntityHandle>(&mut self, handle: &mut H);

    fn should_update(&self) -> (r: bool)
        ensures
            r == self.spec_should_update(),
    ;
}

/// A declarative entity definition: a factory for behavior instances plus
/// optional resource-name hints. The hint methods must answer what the
/// spec-level hints say; that is what lets the registry promise which
/// names a registered template carries.
pub trait EntityModel: Sized {
    type Instance: EntityInstance;

    /// The shader name objects of this kind want bound, if any.
    spec fn spec_shader(&self) -> Option<&'static str>;

    /// The texture name objects of this kind want bound, if any.
    spec fn spec_sprite(&self) -> Option<&'static str>;

    /// The mesh name objects of this kind want bound, if any.
    spec fn spec_shape(&self) -> Option<&'static str>;

    fn new_instance(&self) -> Self::Instance;

    fn shader(&self) -> (r: Option<&'static str>)
        ensures
            r == self.spec_shader(),
    ;

    fn sprite(&self) -> (r: Option<&'static str>)
        ensures
            r == self.spec_sprite(),
    ;

    fn shape(&self) -> (r: Option<&'static str>)
        ensures
            r == self.spec_shape(),
    ;
}

/// Sink through which a plugin registers its entity models under
/// declarative names.
pub trait EntityModelLoader<M: EntityModel> {
    fn register(&mut self, name: &str, model: M);
}

/// A model whose objects never update and bind no resources; spawned
/// objects of this kind exist in the primary store only.
pub struct InvisibleEntity;

impl EntityModel for InvisibleEntity {
    type Instance = InvisibleEntity;

    open spec fn spec_shader(&self) -> Option<&'static str> {
        None
    }

    open spec fn spec_sprite(&self) -> Option<&'static str> {
        None
    }

    open spec fn spec_shape(&self) -> Option<&'static str> {
        None
    }

    fn new_instance(&self) -> (r: InvisibleEntity)
    {
        InvisibleEntity
    }

    fn shader(&self) -> (r: Option<&'static str>)
    {
        None
    }

    fn sprite(&self) -> (r: Option<&'static str>)
    {
        None
    }

    fn shape(&self) -> (r: Option<&'static str>)
    {
        None
    }
}

impl EntityInstance for InvisibleEntity {
    open spec fn spec_should_update(&self) -> bool {
        false
    }

    fn update<H: EntityHandle>(&mut self, _handle: &mut H) {
    }

    fn should_update(&self) -> (r: bool)
    {
        false
    }
}

/// Failure reported by a plugin's entry point while it registers its
/// contributions.
pub enum PluginLoadError {
    GeneralFailure(String),
}

/// What a loaded plugin offers the runtime while its contributions are
/// gathered: its own install path, a logger, and the sinks it registers
/// textures, shaders, UI pieces and entity models into.
pub trait Plugin {
    type Log: crate::util::logging::Logger;

    type Textures: crate::gfx::TextureLoader;

    type Shaders: crate::gfx::ShaderLoader;

    type UiKind: crate::ui::UiModel;

    type UiModels: crate::ui::UiModelLoader<Self::UiKind>;

    type UiSources: crate::ui::UiSourceLoader;

    type Entity: EntityModel;

    type Entities: EntityModelLoader<Self::Entity>;

    fn path(&self) -> String;

    fn logger(&self) -> &Self::Log;

    fn textures(&mut self) -> &mut Self::Textures;

    fn shaders(&mut self) -> &mut Self::Shaders;

    fn ui_models(&mut self) -> &mut Self::UiModels;

    fn ui_sources(&mut self) -> &mut Self::UiSources;

    fn entity_models(&mut self) -> &mut Self::Entities;
}

} // verus!
