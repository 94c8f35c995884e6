//! Graphics-facing data of the runtime: shader sources and programs,
//! mesh models, images and textures.
//!
//! The repositories here hold what the world's logic reads of each
//! resource — names, sources, index data, pixel data. Uploading any of it
//! to a graphics context is the backend's business and happens outside
//! this crate, keyed by the same names.

use vstd::prelude::*;

pub mod image;
pub mod model;
pub mod shaders;
pub mod tex;

verus! {

/// Sink through which a plugin registers shader sources and programs.
pub trait ShaderLoader {
    fn register(&mut self, id: &str, src: &str);

    fn register_shader(&mut self, id: &str, vertex_id: &str, fragment_id: &str);
}

/// Sink through which a plugin registers decoded images.
pub trait TextureLoader {
    fn register(&mut self, name: String, image: crate::gfx::tex::Image);
}

/// A render target: receives one draw operation per renderable object,
/// with the object's behavior instance and its three resolved resources.
/// The graphics backend implements this outside the crate.
pub trait Surface<I> {
    fn draw(
        &mut self,
        instance: &I,
        shader: &std::rc::Rc<crate::gfx::shaders::Program>,
        model: &std::rc::Rc<crate::gfx::model::Model>,
        texture: &std::rc::Rc<crate::gfx::tex::Texture>,
    );
}

} // verus!
