//! The live world: object identities, the template registry that
//! manufactures runtime objects, and the map container that owns them.
//!
//! The map keeps two indices: the primary store of every spawned object,
//! in ascending id order, and a derived render index holding exactly the
//! ids of objects whose shader, model and texture all resolved when the
//! object was constructed. Disposal keeps both in step within one call,
//! so no observable state has an id in one and not the other.

use vstd::prelude::*;
use crate::gfx::Surface;
use crate::gfx::model::{Model, ModelRepository};
use crate::gfx::shaders::{Program, ShaderProgramArchive};
use crate::gfx::tex::{Texture, TextureArchive};
use crate::plugin::{EntityHandle, EntityInstance, EntityModel, EntityModelLoader};
use crate::util::logging::{ChildLogger, Logger};
use crate::util::storage::NameMap;

verus! {

/// Identity of a spawned object: totally ordered, unique within its
/// world, and never reused once issued, even after disposal.
#[derive(Debug, Clone, Copy, PartialEq, Eq, Structural, Hash, PartialOrd, Ord)]
pub struct EntityId {
    value: u64,
}

impl EntityId {
    pub closed spec fn spec_value(self) -> u64 {
        self.value
    }
}

/// Source of fresh object identities: counts upward and never hands the
/// same value out twice.
pub struct IdAllocator {
    next: u64,
}

impl IdAllocator {
    pub closed spec fn spec_next(self) -> u64 {
        self.next
    }

    pub fn new() -> (r: Self)
        ensures
            r.spec_next() == 0,
    {
        IdAllocator { next: 0 }
    }

    pub fn allocate(&mut self) -> (r: EntityId)
        requires
            old(self).spec_next() < u64::MAX,
        ensures
            r.spec_value() == old(self).spec_next(),
            final(self).spec_next() == old(self).spec_next() + 1,
    {
        let id = EntityId { value: self.next };
        self.next = self.next + 1;
        id
    }
}

/// The capability view a behavior instance receives while it updates:
/// the object's own id, and disposal. A disposal request is applied by
/// the world as soon as the behavior callback returns.
pub struct DisposeHandle {
    id: EntityId,
    dispose_requested: bool,
}

impl DisposeHandle {
    pub closed spec fn spec_id(self) -> EntityId {
        self.id
    }

    pub closed spec fn spec_requested(self) -> bool {
        self.dispose_requested
    }

    pub fn new(id: EntityId) -> (r: Self)
        ensures
            r.spec_id() == id,
            !r.spec_requested(),
    {
        DisposeHandle { id, dispose_requested: false }
    }

    pub fn id(&self) -> (r: EntityId)
        ensures
            r == self.spec_id(),
    {
        self.id
    }

    pub fn requested(&self) -> (r: bool)
        ensures
            r == self.spec_requested(),
    {
        self.dispose_requested
    }
}

impl EntityHandle for DisposeHandle {
    fn dispose(&mut self)
        ensures
            final(self).spec_id() == old(self).spec_id(),
            final(self).spec_requested(),
    {
        self.dispose_requested = true;
    }
}

/// An immutable entity definition: the behavior factory together with
/// the resource names it asked for when it was registered.
pub struct EntityTemplate<M: EntityModel> {
    model: M,
    shader: Option<&'static str>,
    shape: Option<&'static str>,
    sprite: Option<&'static str>,
}

impl<M: EntityModel> EntityTemplate<M> {
    pub closed spec fn spec_model(self) -> M {
        self.model
    }

    pub closed spec fn spec_shader(self) -> Option<&'static str> {
        self.shader
    }

    pub closed spec fn spec_shape(self) -> Option<&'static str> {
        self.shape
    }

    pub closed spec fn spec_sprite(self) -> Option<&'static str> {
        self.sprite
    }

    /// Captures the model's resource-name hints once; they stay fixed for
    /// the life of the template.
    fn new(model: M) -> (r: Self)
        ensures
            r.spec_model() == model,
            r.spec_shader() == model.spec_shader(),
            r.spec_shape() == model.spec_shape(),
            r.spec_sprite() == model.spec_sprite(),
    {
        let shader = model.shader();
        let shape = model.shape();
        let sprite = model.sprite();
        EntityTemplate { model, shader, shape, sprite }
    }
}

/// Entity models contributed by a plugin, keyed by declarative name.
pub struct EntityModelArchive<M: EntityModel> {
    pub(crate) models: NameMap<M>,
}

impl<M: EntityModel> EntityModelArchive<M> {
    pub closed spec fn wf(self) -> bool {
        self.models.wf()
    }

    pub closed spec fn spec_models(self) -> NameMap<M> {
        self.models
    }

    pub fn new() -> (r: Self)
        ensures
            r.wf(),
            r.spec_models().len() == 0,
    {
        EntityModelArchive { models: NameMap::new() }
    }
}

impl<M: EntityModel> Default for EntityModelArchive<M> {
    fn default() -> (r: Self)
        ensures
            r.wf(),
            r.spec_models().len() == 0,
    {
        EntityModelArchive { models: NameMap::new() }
    }
}

impl<M: EntityModel> EntityModelLoader<M> for EntityModelArchive<M> {
    fn register(&mut self, name: &str, model: M)
        ensures
            old(self).wf() ==> {
                &&& final(self).wf()
                &&& final(self).spec_models().spec_get(name@) == Some(model)
                &&& forall|k: Seq<char>| k != name@ ==>
                    final(self).spec_models().spec_get(k) == old(self).spec_models().spec_get(k)
            },
    {
        self.models.insert(name.to_owned(), model);
    }
}

/// The template registry: turns registered models into templates and
/// manufactures runtime objects on demand.
pub struct EntityArchive<M: EntityModel> {
    templates: NameMap<EntityTemplate<M>>,
    logger: ChildLogger,
}

impl<M: EntityModel> EntityArchive<M> {
    pub closed spec fn wf(self) -> bool {
        self.templates.wf()
    }

    pub closed spec fn spec_templates(self) -> NameMap<EntityTemplate<M>> {
        self.templates
    }

    pub closed spec fn spec_logger(self) -> ChildLogger {
        self.logger
    }

    pub open spec fn has_template(self, name: Seq<char>) -> bool {
        self.spec_templates().has_key(name)
    }

    pub open spec fn template_of(self, name: Seq<char>) -> EntityTemplate<M> {
        self.spec_templates().spec_get(name)->Some_0
    }

    pub fn new(logger: ChildLogger) -> (r: Self)
        ensures
            r.wf(),
            r.spec_templates().len() == 0,
            r.spec_logger() == logger,
    {
        EntityArchive { templates: NameMap::new(), logger }
    }

    /// Turns every model of the archive into a template; a model under an
    /// already-registered name replaces the earlier template. Each
    /// registered name afterwards holds a template carrying that very
    /// model and its resource-name hints.
    pub fn add_model_archive(&mut self, archive: EntityModelArchive<M>)
        requires
            old(self).wf(),
            archive.wf(),
        ensures
            final(self).wf(),
            final(self).spec_logger() == old(self).spec_logger(),
            forall|k: Seq<char>| #[trigger] archive.spec_models().has_key(k) ==> {
                let m = archive.spec_models().spec_get(k)->Some_0;
                &&& final(self).has_template(k)
                &&& final(self).template_of(k).spec_model() == m
                &&& final(self).template_of(k).spec_shader() == m.spec_shader()
                &&& final(self).template_of(k).spec_shape() == m.spec_shape()
                &&& final(self).template_of(k).spec_sprite() == m.spec_sprite()
            },
            forall|k: Seq<char>| !archive.spec_models().has_key(k) ==>
                final(self).spec_templates().spec_get(k) == old(self).spec_templates().spec_get(k),
    {
        let mut items = archive.models.into_items();
        let ghost arch = archive.spec_models();
        let ghost n = arch.len() as int;
        let ghost mut i: int = 0;
        while items.len() > 0
            invariant
                self.wf(),
                self.spec_logger() == old(self).spec_logger(),
                arch.wf(),
                n == arch.len(),
                0 <= i,
                i + items@.len() == n,
                forall|j: int| 0 <= j < items@.len() ==> items@[j].0@ == arch.key_at(i + j)
                    && items@[j].1 == arch.val_at(i + j),
                forall|j: int| 0 <= j < i ==> {
                    &&& self.has_template(#[trigger] arch.key_at(j))
                    &&& self.template_of(arch.key_at(j)).spec_model() == arch.val_at(j)
                    &&& self.template_of(arch.key_at(j)).spec_shader()
                        == arch.val_at(j).spec_shader()
                    &&& self.template_of(arch.key_at(j)).spec_shape()
                        == arch.val_at(j).spec_shape()
                    &&& self.template_of(arch.key_at(j)).spec_sprite()
                        == arch.val_at(j).spec_sprite()
                },
                forall|k: Seq<char>| (forall|j: int| 0 <= j < n ==> arch.key_at(j) != k) ==>
                    self.spec_templates().spec_get(k) == old(self).spec_templates().spec_get(k),
            decreases items@.len(),
        {
            let pair = items.remove(0);
            let ghost key = pair.0@;
            let ghost mv = pair.1;
            let ghost prev = *self;
            self.create_template(pair.0, pair.1);
            proof {
                assert(key == arch.key_at(i));
                assert(mv == arch.val_at(i));
                i = i + 1;
                assert forall|j: int| 0 <= j < i implies {
                    &&& self.has_template(#[trigger] arch.key_at(j))
                    &&& self.template_of(arch.key_at(j)).spec_model() == arch.val_at(j)
                    &&& self.template_of(arch.key_at(j)).spec_shader()
                        == arch.val_at(j).spec_shader()
                    &&& self.template_of(arch.key_at(j)).spec_shape()
                        == arch.val_at(j).spec_shape()
                    &&& self.template_of(arch.key_at(j)).spec_sprite()
                        == arch.val_at(j).spec_sprite()
                } by {
                    if j == i - 1 {
                        assert(self.has_template(key));
                        assert(self.template_of(key).spec_model() == mv);
                    } else {
                        assert(prev.has_template(arch.key_at(j)));
                        assert(key == arch.key_at(i - 1));
                        assert(0 <= j < i - 1 < n);
                        assert(arch.key_at(j) != arch.key_at(i - 1));
                        assert(self.spec_templates().spec_get(arch.key_at(j))
                            == prev.spec_templates().spec_get(arch.key_at(j)));
                    }
                }
                assert forall|k: Seq<char>| (forall|j: int| 0 <= j < n ==> arch.key_at(j) != k)
                    implies self.spec_templates().spec_get(k)
                        == old(self).spec_templates().spec_get(k) by {
                    assert(arch.key_at(i - 1) != k);
                }
            }
        }
        proof {
            assert forall|k: Seq<char>| #[trigger] arch.has_key(k) implies {
                let m = arch.spec_get(k)->Some_0;
                &&& self.has_template(k)
                &&& self.template_of(k).spec_model() == m
                &&& self.template_of(k).spec_shader() == m.spec_shader()
                &&& self.template_of(k).spec_shape() == m.spec_shape()
                &&& self.template_of(k).spec_sprite() == m.spec_sprite()
            } by {
                let j = arch.idx_of(k);
                assert(0 <= j < n && arch.key_at(j) == k);
            }
            assert forall|k: Seq<char>| !arch.has_key(k) implies
                self.spec_templates().spec_get(k) == old(self).spec_templates().spec_get(k) by {
                assert forall|j: int| 0 <= j < n implies arch.key_at(j) != k by {}
            }
        }
    }

    /// Registers a template for `model` under `id`, replacing any earlier
    /// template of that name (last write wins). The stored template
    /// carries the model and exactly the resource names it asked for.
    pub fn create_template(&mut self, id: String, model: M)
        requires
            old(self).wf(),
        ensures
            final(self).wf(),
            final(self).spec_logger() == old(self).spec_logger(),
            final(self).has_template(id@),
            final(self).template_of(id@).spec_model() == model,
            final(self).template_of(id@).spec_shader() == model.spec_shader(),
            final(self).template_of(id@).spec_shape() == model.spec_shape(),
            final(self).template_of(id@).spec_sprite() == model.spec_sprite(),
            forall|k: Seq<char>| k != id@ ==>
                final(self).spec_templates().spec_get(k) == old(self).spec_templates().spec_get(k),
    {
        let template = EntityTemplate::new(model);
        self.templates.insert(id, template);
    }

    /// Manufactures a runtime object from the template registered under
    /// `item_id`. Fails exactly when no such template exists; in that case
    /// nothing is allocated and no partial state is created. Each of the
    /// template's three resource names is resolved independently against
    /// its repository; an unresolved or absent name leaves that binding
    /// empty and the object is still returned, merely not renderable.
    pub fn construct(
        &self,
        item_id: &str,
        ids: &mut IdAllocator,
        shaders: &ShaderProgramArchive,
        models: &ModelRepository,
        textures: &TextureArchive,
    ) -> (r: Result<Entity<M::Instance>, String>)
        requires
            self.wf(),
            shaders.wf(),
            models.wf(),
            textures.wf(),
            old(ids).spec_next() < u64::MAX,
        ensures
            r is Ok <==> self.has_template(item_id@),
            r matches Ok(e) ==> {
                &&& final(ids).spec_next() == old(ids).spec_next() + 1
                &&& e.spec_id().spec_value() == old(ids).spec_next()
                &&& e.spec_shader() == spec_resolve_shader(
                    self.template_of(item_id@).spec_shader(), *shaders)
                &&& e.spec_model() == spec_resolve_model(
                    self.template_of(item_id@).spec_shape(), *models)
                &&& e.spec_texture() == spec_resolve_texture(
                    self.template_of(item_id@).spec_sprite(), *textures)
            },
            r matches Err(m) ==> {
                &&& m@ == "could not find "@ + item_id@
                &&& *final(ids) == *old(ids)
            },
    {
        match self.templates.get(item_id) {
            Some(tmpl) => {
                let id = ids.allocate();
                let instance = tmpl.model.new_instance();
                let mut entity = Entity::new(id, instance);

                if let Some(shader) = tmpl.shader {
                    if let Some(program) = shaders.get(shader) {
                        entity.shader = Some(program);
                    }
                }

                if let Some(model) = tmpl.shape {
                    if let Some(model) = models.get(model) {
                        entity.model = Some(model);
                    }
                }

                if let Some(texture) = tmpl.sprite {
                    if let Some(texture) = textures.get(texture) {
                        entity.texture = Some(texture);
                    }
                }

                Ok(entity)
            },
            None => Err(String::from_str("could not find ").concat(item_id)),
        }
    }
}

/// What a template's shader name resolves to against the program archive.
pub open spec fn spec_resolve_shader(
    name: Option<&'static str>,
    shaders: ShaderProgramArchive,
) -> Option<std::rc::Rc<Program>> {
    match name {
        Some(n) => if shaders.has_program(n@) {
            Some(shaders.program_of(n@))
        } else {
            None
        },
        None => None,
    }
}

/// What a template's shape name resolves to against the model repository.
pub open spec fn spec_resolve_model(
    name: Option<&'static str>,
    models: ModelRepository,
) -> Option<std::rc::Rc<Model>> {
    match name {
        Some(n) => if models.has_model(n@) {
            Some(models.model_of(n@))
        } else {
            None
        },
        None => None,
    }
}

/// What a template's sprite name resolves to against the texture archive.
pub open spec fn spec_resolve_texture(
    name: Option<&'static str>,
    textures: TextureArchive,
) -> Option<std::rc::Rc<Texture>> {
    match name {
        Some(n) => if textures.has_texture(n@) {
            Some(textures.texture_of(n@))
        } else {
            None
        },
        None => None,
    }
}

/// A live, spawned game object: identity, behavior instance and whatever
/// resource handles resolved at construction. The bindings never change
/// after construction, so renderability is fixed for the object's life.
pub struct Entity<I: EntityInstance> {
    id: EntityId,
    instance: I,
    shader: Option<std::rc::Rc<Program>>,
    model: Option<std::rc::Rc<Model>>,
    texture: Option<std::rc::Rc<Texture>>,
}

impl<I: EntityInstance> Entity<I> {
    pub closed spec fn spec_id(self) -> EntityId {
        self.id
    }

    pub closed spec fn spec_instance(self) -> I {
        self.instance
    }

    pub closed spec fn spec_shader(self) -> Option<std::rc::Rc<Program>> {
        self.shader
    }

    pub closed spec fn spec_model(self) -> Option<std::rc::Rc<Model>> {
        self.model
    }

    pub closed spec fn spec_texture(self) -> Option<std::rc::Rc<Texture>> {
        self.texture
    }

    pub open spec fn spec_renderable(self) -> bool {
        self.spec_shader() is Some && self.spec_model() is Some && self.spec_texture() is Some
    }

    fn new(id: EntityId, instance: I) -> (r: Self)
        ensures
            r.spec_id() == id,
            r.spec_instance() == instance,
            r.spec_shader() is None,
            r.spec_model() is None,
            r.spec_texture() is None,
    {
        Entity { id, instance, shader: None, model: None, texture: None }
    }

    pub fn id(&self) -> (r: EntityId)
        ensures
            r == self.spec_id(),
    {
        self.id
    }

    /// Runs the behavior instance once; identity and resource bindings
    /// are untouched, whatever the behavior does.
    fn update(&mut self, handle: &mut DisposeHandle)
        ensures
            final(self).spec_id() == old(self).spec_id(),
            final(self).spec_shader() == old(self).spec_shader(),
            final(self).spec_model() == old(self).spec_model(),
            final(self).spec_texture() == old(self).spec_texture(),
    {
        self.instance.update(handle);
    }

    /// Whether the behavior instance wants the update pass.
    fn should_update(&self) -> (r: bool)
        ensures
            r == self.spec_instance().spec_should_update(),
    {
        self.instance.should_update()
    }

    /// True exactly when shader, model and texture all resolved at
    /// construction.
    pub fn is_renderable(&self) -> (r: bool)
        ensures
            r == self.spec_renderable(),
    {
        self.shader.is_some() && self.model.is_some() && self.texture.is_some()
    }

    /// Issues one draw operation for this object, binding its behavior
    /// instance and its three resolved resources. Called only for objects
    /// in the render index, which is why every binding is present.
    pub fn draw_to<S: Surface<I>>(&self, surface: &mut S)
        requires
            self.spec_renderable(),
    {
        if let Some(shader) = &self.shader {
            if let Some(model) = &self.model {
                if let Some(texture) = &self.texture {
                    surface.draw(&self.instance, shader, model, texture);
                }
            }
        }
    }
}

/// A map tile; the grid is carried for the world's dimensions but holds
/// no per-tile state.
#[derive(Clone, Copy)]
pub struct Tile;

/// Dimensions of the world grid.
pub struct MapData {
    pub width: usize,
    pub height: usize,
}

impl Default for MapData {
    fn default() -> (r: Self)
        ensures
            r.width == 0,
            r.height == 0,
    {
        MapData { width: 0, height: 0 }
    }
}

/// Whether some object of `pre` carries this object's identity and
/// resource bindings; the behavior state inside may differ.
pub open spec fn spec_carried<I: EntityInstance>(pre: Seq<Entity<I>>, e: Entity<I>) -> bool {
    exists|i: int| 0 <= i < pre.len() && pre[i].spec_id() == e.spec_id()
        && pre[i].spec_shader() == e.spec_shader()
        && pre[i].spec_model() == e.spec_model()
        && pre[i].spec_texture() == e.spec_texture()
}

/// Every object of `pre` whose behavior has opted out of the update
/// pass is still present in `post` — the very same entity, behavior
/// state included.
pub open spec fn spec_opted_out_kept<I: EntityInstance>(
    pre: Seq<Entity<I>>,
    post: Seq<Entity<I>>,
) -> bool {
    forall|i: int| 0 <= i < pre.len()
        && !(#[trigger] pre[i]).spec_instance().spec_should_update()
        ==> exists|j: int| 0 <= j < post.len() && post[j] == pre[i]
}

/// `s` with the entry at `i` swap-removed: the last entry moves into
/// position `i` and the sequence shrinks by one.
pub open spec fn spec_swap_removed(s: Seq<EntityId>, i: int) -> Seq<EntityId> {
    s.update(i, s.last()).drop_last()
}

/// Swap-removal of one entry from a duplicate-free sequence keeps the
/// rest, stays duplicate-free, and drops exactly that entry.
proof fn lemma_swap_removed(s: Seq<EntityId>, i: int)
    requires
        0 <= i < s.len(),
        forall|p: int, q: int| 0 <= p < q < s.len() ==> s[p] != s[q],
    ensures
        spec_swap_removed(s, i).len() == s.len() - 1,
        forall|p: int, q: int| 0 <= p < q < spec_swap_removed(s, i).len()
            ==> spec_swap_removed(s, i)[p] != spec_swap_removed(s, i)[q],
        forall|x: EntityId| spec_swap_removed(s, i).contains(x)
            <==> (s.contains(x) && x != s[i]),
{
    let r = spec_swap_removed(s, i);
    let n = s.len() as int;
    assert(r.len() == n - 1);
    assert forall|j: int| 0 <= j < n - 1 implies
        r[j] == (if j == i { s[n - 1] } else { s[j] }) by {}
    assert forall|x: EntityId| r.contains(x) implies (s.contains(x) && x != s[i]) by {
        let j = choose|j: int| 0 <= j < r.len() && r[j] == x;
        if j == i {
            assert(s[n - 1] == x);
            assert(i < n - 1);
        } else {
            assert(s[j] == x);
        }
    }
    assert forall|x: EntityId| s.contains(x) && x != s[i] implies r.contains(x) by {
        let j = choose|j: int| 0 <= j < s.len() && s[j] == x;
        assert(j != i);
        if j < n - 1 {
            if j == i {
            } else {
                assert(r[j] == x);
            }
        } else {
            assert(j == n - 1);
            if i == n - 1 {
                assert(x == s[i]);
            } else {
                assert(r[i] == s[n - 1]);
                assert(r[i] == x);
            }
        }
    }
    assert forall|p: int, q: int| 0 <= p < q < r.len() implies r[p] != r[q] by {
        assert(r[p] == (if p == i { s[n - 1] } else { s[p] }));
        assert(r[q] == (if q == i { s[n - 1] } else { s[q] }));
    }
}

/// The world container: owns every spawned object in the primary store,
/// ascending by id, and keeps the render index holding exactly the ids of
/// renderable objects. The registry and the three resource repositories
/// are owned too and read-only for the world's whole life.
///
/// Lookups and removals scan the store linearly; with the small live
/// object counts this world is built for, that stays cheaper than an
/// auxiliary id-to-slot table would be.
pub struct World<M: EntityModel> {
    data: MapData,
    tiles: Vec<Tile>,
    ids: IdAllocator,
    spawned_entities: Vec<Entity<M::Instance>>,
    drawable_entities: Vec<EntityId>,
    logger: ChildLogger,
    entities: EntityArchive<M>,
    shaders: ShaderProgramArchive,
    models: ModelRepository,
    textures: TextureArchive,
}

impl<M: EntityModel> World<M> {
    pub closed spec fn spec_entities(self) -> Seq<Entity<M::Instance>> {
        self.spawned_entities@
    }

    pub closed spec fn spec_render(self) -> Seq<EntityId> {
        self.drawable_entities@
    }

    pub closed spec fn spec_archive(self) -> EntityArchive<M> {
        self.entities
    }

    pub closed spec fn spec_shaders(self) -> ShaderProgramArchive {
        self.shaders
    }

    pub closed spec fn spec_models(self) -> ModelRepository {
        self.models
    }

    pub closed spec fn spec_textures(self) -> TextureArchive {
        self.textures
    }

    pub closed spec fn spec_next_id(self) -> u64 {
        self.ids.spec_next()
    }

    /// Number of tiles in the world grid.
    pub closed spec fn spec_tile_count(self) -> nat {
        self.tiles@.len()
    }

    /// Some spawned object carries this id.
    pub open spec fn contains_id(self, id: EntityId) -> bool {
        exists|i: int| 0 <= i < self.spec_entities().len()
            && self.spec_entities()[i].spec_id() == id
    }

    /// Position of the object with this id in the primary store.
    pub open spec fn entity_index(self, id: EntityId) -> int {
        choose|i: int| 0 <= i < self.spec_entities().len()
            && self.spec_entities()[i].spec_id() == id
    }

    /// Position of this id in the render index.
    pub open spec fn render_index(self, id: EntityId) -> int {
        choose|j: int| 0 <= j < self.spec_render().len() && self.spec_render()[j] == id
    }

    /// The world's invariant: registry and repositories well-formed; the
    /// primary store strictly ascending by id, every id below the
    /// allocator's next; the render index duplicate-free, containing
    /// exactly the ids of renderable objects, each of which is in the
    /// primary store.
    pub open spec fn wf(self) -> bool {
        &&& self.spec_archive().wf()
        &&& self.spec_shaders().wf()
        &&& self.spec_models().wf()
        &&& self.spec_textures().wf()
        &&& forall|i: int, j: int| 0 <= i < j < self.spec_entities().len()
            ==> self.spec_entities()[i].spec_id().spec_value()
                < self.spec_entities()[j].spec_id().spec_value()
        &&& forall|i: int| 0 <= i < self.spec_entities().len()
            ==> self.spec_entities()[i].spec_id().spec_value() < self.spec_next_id()
        &&& forall|i: int| 0 <= i < self.spec_entities().len()
            ==> (self.spec_entities()[i].spec_renderable()
                <==> self.spec_render().contains(self.spec_entities()[i].spec_id()))
        &&& forall|j: int| 0 <= j < self.spec_render().len()
            ==> self.contains_id(self.spec_render()[j])
        &&& forall|j: int, k: int| 0 <= j < k < self.spec_render().len()
            ==> self.spec_render()[j] != self.spec_render()[k]
    }

    /// Ids in the primary store are pairwise distinct, and any position
    /// holding `id` is the one `entity_index` picks.
    pub proof fn lemma_entity_index_unique(self, id: EntityId, i: int)
        requires
            self.wf(),
            0 <= i < self.spec_entities().len(),
            self.spec_entities()[i].spec_id() == id,
        ensures
            self.entity_index(id) == i,
            self.contains_id(id),
    {
        assert(self.contains_id(id));
        let j = self.entity_index(id);
        if i < j {
            assert(self.spec_entities()[i].spec_id().spec_value()
                < self.spec_entities()[j].spec_id().spec_value());
        } else if j < i {
            assert(self.spec_entities()[j].spec_id().spec_value()
                < self.spec_entities()[i].spec_id().spec_value());
        }
    }

    /// A fresh world over the given registry and repositories: empty
    /// primary store, empty render index, ids starting at zero.
    pub fn new(
        data: MapData,
        logger: ChildLogger,
        entities: EntityArchive<M>,
        shaders: ShaderProgramArchive,
        models: ModelRepository,
        textures: TextureArchive,
    ) -> (r: Self)
        requires
            entities.wf(),
            shaders.wf(),
            models.wf(),
            textures.wf(),
            data.width * data.height <= usize::MAX,
        ensures
            r.wf(),
            r.spec_entities().len() == 0,
            r.spec_render().len() == 0,
            r.spec_next_id() == 0,
            r.spec_tile_count() == data.width * data.height,
            r.spec_archive() == entities,
            r.spec_shaders() == shaders,
            r.spec_models() == models,
            r.spec_textures() == textures,
    {
        let count = data.width * data.height;
        let mut tiles: Vec<Tile> = Vec::new();
        let mut i: usize = 0;
        while i < count
            invariant
                i <= count,
                tiles@.len() == i,
            decreases count - i,
        {
            tiles.push(Tile);
            i += 1;
        }
        World {
            data,
            tiles,
            ids: IdAllocator::new(),
            spawned_entities: Vec::new(),
            drawable_entities: Vec::new(),
            logger,
            entities,
            shaders,
            models,
            textures,
        }
    }

    /// Position of the object with this id in the primary store, if any.
    fn find_entity(&self, id: EntityId) -> (r: Option<usize>)
        ensures
            match r {
                Some(i) => i < self.spec_entities().len()
                    && self.spec_entities()[i as int].spec_id() == id,
                None => !self.contains_id(id),
            },
    {
        let n = self.spawned_entities.len();
        let mut i: usize = 0;
        while i < n
            invariant
                n == self.spec_entities().len(),
                i <= n,
                forall|j: int| 0 <= j < i ==> self.spec_entities()[j].spec_id() != id,
            decreases n - i,
        {
            if self.spawned_entities[i].id() == id {
                return Some(i);
            }
            i += 1;
        }
        None
    }

    /// Position of this id in the render index, if present.
    fn find_drawable(&self, id: EntityId) -> (r: Option<usize>)
        ensures
            match r {
                Some(j) => j < self.spec_render().len() && self.spec_render()[j as int] == id,
                None => !self.spec_render().contains(id),
            },
    {
        let n = self.drawable_entities.len();
        let mut j: usize = 0;
        while j < n
            invariant
                n == self.spec_render().len(),
                j <= n,
                forall|k: int| 0 <= k < j ==> self.spec_render()[k] != id,
            decreases n - j,
        {
            if self.drawable_entities[j] == id {
                return Some(j);
            }
            j += 1;
        }
        proof {
            if self.spec_render().contains(id) {
                let k = choose|k: int| 0 <= k < self.spec_render().len()
                    && self.spec_render()[k] == id;
                assert(self.spec_render()[k] != id);
            }
        }
        None
    }

    /// Number of objects in the primary store.
    pub fn entity_count(&self) -> (n: usize)
        ensures
            n == self.spec_entities().len(),
    {
        self.spawned_entities.len()
    }

    /// Number of entries in the render index.
    pub fn drawable_count(&self) -> (n: usize)
        ensures
            n == self.spec_render().len(),
    {
        self.drawable_entities.len()
    }

    /// The ids of every spawned object, ascending.
    pub fn spawned_ids(&self) -> (r: Vec<EntityId>)
        ensures
            r@.len() == self.spec_entities().len(),
            forall|i: int| 0 <= i < r@.len() ==> r@[i] == self.spec_entities()[i].spec_id(),
    {
        let n = self.spawned_entities.len();
        let mut ret: Vec<EntityId> = Vec::new();
        let mut i: usize = 0;
        while i < n
            invariant
                n == self.spec_entities().len(),
                i <= n,
                ret@.len() == i,
                forall|j: int| 0 <= j < i ==> ret@[j] == self.spec_entities()[j].spec_id(),
            decreases n - i,
        {
            ret.push(self.spawned_entities[i].id());
            i += 1;
        }
        ret
    }

    /// The render index, in its current order.
    pub fn drawable_ids(&self) -> (r: Vec<EntityId>)
        ensures
            r@ == self.spec_render(),
    {
        let n = self.drawable_entities.len();
        let mut ret: Vec<EntityId> = Vec::new();
        let mut i: usize = 0;
        while i < n
            invariant
                n == self.spec_render().len(),
                i <= n,
                ret@ == self.spec_render().take(i as int),
            decreases n - i,
        {
            ret.push(self.drawable_entities[i]);
            proof {
                assert(ret@ =~= self.spec_render().take(i + 1));
            }
            i += 1;
        }
        proof {
            assert(ret@ =~= self.spec_render());
        }
        ret
    }

    /// Whether an object with this id is currently spawned.
    pub fn contains_entity(&self, id: EntityId) -> (r: bool)
        ensures
            r == self.contains_id(id),
    {
        match self.find_entity(id) {
            Some(_) => {
                proof {
                    assert(self.contains_id(id));
                }
                true
            },
            None => false,
        }
    }

    /// How one `dispose_of(id)` call relates the world before it to the
    /// world after it. An unknown id changes nothing; a known id leaves
    /// the primary store with that object removed, and the render index
    /// untouched or swap-removed at the id's position, depending on
    /// whether the object was renderable.
    pub open spec fn spec_dispose_step(pre: Self, post: Self, id: EntityId) -> bool {
        &&& post.spec_archive() == pre.spec_archive()
        &&& post.spec_shaders() == pre.spec_shaders()
        &&& post.spec_models() == pre.spec_models()
        &&& post.spec_textures() == pre.spec_textures()
        &&& post.spec_next_id() == pre.spec_next_id()
        &&& post.spec_tile_count() == pre.spec_tile_count()
        &&& if pre.contains_id(id) {
            &&& post.spec_entities() == pre.spec_entities().remove(pre.entity_index(id))
            &&& if pre.spec_entities()[pre.entity_index(id)].spec_renderable() {
                post.spec_render() == spec_swap_removed(pre.spec_render(), pre.render_index(id))
            } else {
                post.spec_render() == pre.spec_render()
            }
        } else {
            post == pre
        }
    }

    /// Removes the object with this id from the primary store and, if it
    /// was renderable, its entry from the render index, within this one
    /// call. An unknown id is silently ignored.
    pub fn dispose_of(&mut self, id: EntityId)
        requires
            old(self).wf(),
        ensures
            final(self).wf(),
            Self::spec_dispose_step(*old(self), *final(self), id),
    {
        let found = self.find_entity(id);
        match found {
            Some(idx) => {
                proof {
                    old(self).lemma_entity_index_unique(id, idx as int);
                }
                if self.spawned_entities[idx].is_renderable() {
                    let rfound = self.find_drawable(id);
                    if let Some(ridx) = rfound {
                        proof {
                            let n = self.spec_render().len() as int;
                            let rj = old(self).render_index(id);
                            if rj != ridx {
                                assert(self.spec_render()[rj] == id
                                    && self.spec_render()[ridx as int] == id);
                                if rj < ridx {
                                    assert(self.spec_render()[rj]
                                        != self.spec_render()[ridx as int]);
                                } else {
                                    assert(self.spec_render()[ridx as int]
                                        != self.spec_render()[rj]);
                                }
                            }
                            lemma_swap_removed(self.spec_render(), ridx as int);
                        }
                        self.drawable_entities.swap_remove(ridx);
                    } else {
                        proof {
                            assert(old(self).spec_render().contains(
                                old(self).spec_entities()[idx as int].spec_id()));
                            assert(false);
                        }
                    }
                }
                let ghost mid = *self;
                self.spawned_entities.remove(idx);
                proof {
                    self.lemma_dispose_restores_wf(*old(self), mid, id, idx as int);
                }
            },
            None => {},
        }
    }

    /// After removing a disposed object from the store, the invariant
    /// holds again and the dispose step relation is met.
    proof fn lemma_dispose_restores_wf(self, pre: Self, mid: Self, id: EntityId, idx: int)
        requires
            pre.wf(),
            0 <= idx < pre.spec_entities().len(),
            pre.spec_entities()[idx].spec_id() == id,
            pre.entity_index(id) == idx,
            mid.spec_entities() == pre.spec_entities(),
            mid.spec_archive() == pre.spec_archive(),
            mid.spec_shaders() == pre.spec_shaders(),
            mid.spec_models() == pre.spec_models(),
            mid.spec_textures() == pre.spec_textures(),
            mid.spec_next_id() == pre.spec_next_id(),
            mid.spec_tile_count() == pre.spec_tile_count(),
            pre.spec_entities()[idx].spec_renderable() ==> mid.spec_render()
                == spec_swap_removed(pre.spec_render(), pre.render_index(id)),
            !pre.spec_entities()[idx].spec_renderable() ==> mid.spec_render()
                == pre.spec_render(),
            self.spec_entities() == mid.spec_entities().remove(idx),
            self.spec_render() == mid.spec_render(),
            self.spec_archive() == mid.spec_archive(),
            self.spec_shaders() == mid.spec_shaders(),
            self.spec_models() == mid.spec_models(),
            self.spec_textures() == mid.spec_textures(),
            self.spec_next_id() == mid.spec_next_id(),
            self.spec_tile_count() == mid.spec_tile_count(),
        ensures
            self.wf(),
            Self::spec_dispose_step(pre, self, id),
    {
        let e = pre.spec_entities();
        let n = e.len() as int;
        let r0 = pre.spec_render();
        assert(pre.contains_id(id));
        assert forall|j: int| 0 <= j < n - 1 implies
            self.spec_entities()[j] == e[if j < idx { j } else { j + 1 }] by {}

        if pre.spec_entities()[idx].spec_renderable() {
            let rj = pre.render_index(id);
            assert(r0.contains(e[idx].spec_id()));
            let w = choose|w: int| 0 <= w < r0.len() && r0[w] == id;
            assert(0 <= rj < r0.len() && r0[rj] == id);
            lemma_swap_removed(r0, rj);
        }

        // The disposed id is gone from the store.
        assert forall|j: int| 0 <= j < n - 1 implies
            self.spec_entities()[j].spec_id() != id by {
            let jo = if j < idx { j } else { j + 1 };
            assert(self.spec_entities()[j] == e[jo]);
            if jo < idx {
                assert(e[jo].spec_id().spec_value() < e[idx].spec_id().spec_value());
            } else if jo > idx {
                assert(e[idx].spec_id().spec_value() < e[jo].spec_id().spec_value());
            }
        }

        // Membership between store and render index is re-established.
        assert forall|j: int| 0 <= j < self.spec_entities().len() implies
            (self.spec_entities()[j].spec_renderable()
                <==> self.spec_render().contains(self.spec_entities()[j].spec_id())) by {
            let jo = if j < idx { j } else { j + 1 };
            assert(self.spec_entities()[j] == e[jo]);
            assert(e[jo].spec_renderable() <==> r0.contains(e[jo].spec_id()));
            assert(self.spec_entities()[j].spec_id() != id);
        }

        // Every render entry still points at a live object.
        assert forall|j: int| 0 <= j < self.spec_render().len() implies
            self.contains_id(self.spec_render()[j]) by {
            let x = self.spec_render()[j];
            assert(self.spec_render().contains(x));
            if pre.spec_entities()[idx].spec_renderable() {
                assert(r0.contains(x) && x != id);
            } else {
                assert(r0.contains(x));
                assert(pre.contains_id(x));
                let w = pre.entity_index(x);
                assert(0 <= w < n && e[w].spec_id() == x);
                if x == id {
                    pre.lemma_entity_index_unique(id, idx);
                    assert(e[idx].spec_renderable());
                }
            }
            assert(pre.contains_id(x));
            let w2 = choose|w2: int| 0 <= w2 < n && e[w2].spec_id() == x;
            assert(x != id);
            assert(w2 != idx);
            let wn = if w2 < idx { w2 } else { w2 - 1 };
            assert(self.spec_entities()[wn] == e[w2]);
        }
    }

    /// Spawns an object from the template registered under `item_id`: on
    /// success the object joins the primary store and, if its shader,
    /// model and texture all resolved, the render index. An unregistered
    /// name logs a warning and changes nothing.
    pub fn spawn(&mut self, item_id: &str)
        requires
            old(self).wf(),
            old(self).spec_next_id() < u64::MAX,
        ensures
            final(self).wf(),
            final(self).spec_archive() == old(self).spec_archive(),
            final(self).spec_shaders() == old(self).spec_shaders(),
            final(self).spec_models() == old(self).spec_models(),
            final(self).spec_textures() == old(self).spec_textures(),
            final(self).spec_tile_count() == old(self).spec_tile_count(),
            !old(self).spec_archive().has_template(item_id@) ==> {
                &&& final(self).spec_entities() == old(self).spec_entities()
                &&& final(self).spec_render() == old(self).spec_render()
                &&& final(self).spec_next_id() == old(self).spec_next_id()
            },
            old(self).spec_archive().has_template(item_id@) ==> {
                let tmpl = old(self).spec_archive().template_of(item_id@);
                let e = final(self).spec_entities()[old(self).spec_entities().len() as int];
                &&& final(self).spec_next_id() == old(self).spec_next_id() + 1
                &&& final(self).spec_entities().len() == old(self).spec_entities().len() + 1
                &&& forall|i: int| 0 <= i < old(self).spec_entities().len() ==>
                    final(self).spec_entities()[i] == old(self).spec_entities()[i]
                &&& e.spec_id().spec_value() == old(self).spec_next_id()
                &&& e.spec_shader() == spec_resolve_shader(tmpl.spec_shader(), old(self).spec_shaders())
                &&& e.spec_model() == spec_resolve_model(tmpl.spec_shape(), old(self).spec_models())
                &&& e.spec_texture() == spec_resolve_texture(tmpl.spec_sprite(), old(self).spec_textures())
                &&& final(self).spec_render() == if e.spec_renderable() {
                    old(self).spec_render().push(e.spec_id())
                } else {
                    old(self).spec_render()
                }
            },
    {
        let result = self.entities.construct(
            item_id,
            &mut self.ids,
            &self.shaders,
            &self.models,
            &self.textures,
        );

        match result {
            Ok(entity) => {
                let ghost new_e = entity;
                let ghost e0 = old(self).spec_entities();
                let ghost r0 = old(self).spec_render();
                let ghost n = e0.len() as int;
                proof {
                    assert forall|i: int| 0 <= i < n implies
                        e0[i].spec_id().spec_value() < new_e.spec_id().spec_value() by {}
                    assert forall|j: int| 0 <= j < r0.len() implies r0[j] != new_e.spec_id() by {
                        assert(old(self).contains_id(r0[j]));
                        let w = choose|w: int| 0 <= w < n && e0[w].spec_id() == r0[j];
                        assert(e0[w].spec_id().spec_value() < new_e.spec_id().spec_value());
                    }
                }
                if entity.is_renderable() {
                    let eid = entity.id();
                    self.drawable_entities.push(eid);
                }
                self.spawned_entities.push(entity);
                proof {
                    let e1 = self.spec_entities();
                    let r1 = self.spec_render();
                    assert(e1 == e0.push(new_e));
                    assert forall|i: int| 0 <= i < n implies e1[i] == e0[i] by {}
                    assert(e1[n] == new_e);
                    if new_e.spec_renderable() {
                        assert(r1 == r0.push(new_e.spec_id()));
                        assert forall|j: int| 0 <= j < r0.len() implies r1[j] == r0[j] by {}
                        assert(r1[r0.len() as int] == new_e.spec_id());
                        assert forall|x: EntityId| r1.contains(x) implies
                            (r0.contains(x) || x == new_e.spec_id()) by {
                            let j = choose|j: int| 0 <= j < r1.len() && r1[j] == x;
                            if j < r0.len() {
                                assert(r0[j] == x);
                            }
                        }
                        assert forall|x: EntityId| r0.contains(x) implies r1.contains(x) by {
                            let j = choose|j: int| 0 <= j < r0.len() && r0[j] == x;
                            assert(r1[j] == x);
                        }
                        assert(r1.contains(new_e.spec_id()));
                    } else {
                        assert(r1 == r0);
                        assert(!r1.contains(new_e.spec_id()));
                    }
                    // Store and render index agree again.
                    assert forall|i: int| 0 <= i < e1.len() implies
                        (e1[i].spec_renderable() <==> r1.contains(e1[i].spec_id())) by {
                        if i < n {
                            assert(e1[i] == e0[i]);
                            assert(e0[i].spec_renderable() <==> r0.contains(e0[i].spec_id()));
                            assert(e0[i].spec_id() != new_e.spec_id());
                        }
                    }
                    assert forall|j: int| 0 <= j < r1.len() implies
                        self.contains_id(r1[j]) by {
                        if j < r0.len() {
                            assert(r0[j] == r1[j]);
                            assert(old(self).contains_id(r0[j]));
                            let w = choose|w: int| 0 <= w < n && e0[w].spec_id() == r0[j];
                            assert(e1[w] == e0[w]);
                        } else {
                            assert(r1[j] == new_e.spec_id());
                            assert(e1[n].spec_id() == new_e.spec_id());
                        }
                    }
                }
            },
            Err(msg) => {
                self.logger.warn(
                    String::from_str("unable to load entity '").concat(item_id).concat("'"),
                );
            },
        }
    }

    /// Runs one update pass: every object whose behavior asks for updates
    /// is visited once, over a snapshot of the ids present when the pass
    /// began. An object may request its own disposal from inside the
    /// callback; the removal is applied before the next object is
    /// visited, and later objects of the same pass are still visited.
    /// Objects spawned during the pass would be excluded by the snapshot;
    /// behavior callbacks hold no spawning capability at all.
    ///
    /// A pass only removes: every surviving object was present when it
    /// began, with the same id and the same three resource bindings, and
    /// the survivors keep their relative order (the store stays
    /// ascending by id). An object whose behavior had opted out of
    /// updates when the pass began is never visited and never removed:
    /// that very object, behavior state included, is still in the store
    /// afterwards. Only objects that had opted in can be gone.
    pub fn update(&mut self)
        requires
            old(self).wf(),
        ensures
            final(self).wf(),
            final(self).spec_archive() == old(self).spec_archive(),
            final(self).spec_shaders() == old(self).spec_shaders(),
            final(self).spec_models() == old(self).spec_models(),
            final(self).spec_textures() == old(self).spec_textures(),
            final(self).spec_next_id() == old(self).spec_next_id(),
            final(self).spec_tile_count() == old(self).spec_tile_count(),
            forall|id: EntityId| final(self).contains_id(id) ==> old(self).contains_id(id),
            forall|j: int| 0 <= j < final(self).spec_entities().len() ==>
                spec_carried(old(self).spec_entities(), final(self).spec_entities()[j]),
            spec_opted_out_kept(old(self).spec_entities(), final(self).spec_entities()),
            forall|i: int| 0 <= i < old(self).spec_entities().len()
                && !(#[trigger] old(self).spec_entities()[i]).spec_instance()
                    .spec_should_update()
                ==> final(self).contains_id(old(self).spec_entities()[i].spec_id()),
    {
        let snapshot = self.spawned_ids();
        let n = snapshot.len();
        let mut i: usize = 0;
        while i < n
            invariant
                n == snapshot@.len(),
                i <= n,
                self.wf(),
                self.spec_archive() == old(self).spec_archive(),
                self.spec_shaders() == old(self).spec_shaders(),
                self.spec_models() == old(self).spec_models(),
                self.spec_textures() == old(self).spec_textures(),
                self.spec_next_id() == old(self).spec_next_id(),
                self.spec_tile_count() == old(self).spec_tile_count(),
                forall|id: EntityId| self.contains_id(id) ==> old(self).contains_id(id),
                forall|j: int| 0 <= j < self.spec_entities().len() ==>
                    spec_carried(old(self).spec_entities(), self.spec_entities()[j]),
                spec_opted_out_kept(old(self).spec_entities(), self.spec_entities()),
            decreases n - i,
        {
            let id = snapshot[i];
            let found = self.find_entity(id);
            match found {
                Some(idx) => {
                    if self.spawned_entities[idx].should_update() {
                        let mut handle = DisposeHandle::new(id);
                        let ghost pre = *self;
                        self.spawned_entities[idx].update(&mut handle);
                        proof {
                            let e1 = self.spec_entities();
                            let e0 = pre.spec_entities();
                            assert(e1 == e0.update(idx as int, e1[idx as int]));
                            assert forall|j: int| 0 <= j < e1.len() implies
                                e1[j].spec_id() == e0[j].spec_id()
                                && (e1[j].spec_renderable() <==> e0[j].spec_renderable()) by {}
                            assert forall|x: EntityId| self.contains_id(x) implies
                                pre.contains_id(x) by {
                                let j = choose|j: int| 0 <= j < e1.len()
                                    && e1[j].spec_id() == x;
                                assert(e0[j].spec_id() == x);
                            }
                            assert forall|j: int| 0 <= j < self.spec_render().len() implies
                                self.contains_id(self.spec_render()[j]) by {
                                assert(pre.contains_id(pre.spec_render()[j]));
                                let w = choose|w: int| 0 <= w < e0.len()
                                    && e0[w].spec_id() == pre.spec_render()[j];
                                assert(e1[w].spec_id() == pre.spec_render()[j]);
                            }
                            assert(self.wf());
                            assert forall|j: int| 0 <= j < e1.len() implies
                                spec_carried(old(self).spec_entities(), e1[j]) by {
                                assert(spec_carried(old(self).spec_entities(), e0[j]));
                                let o = old(self).spec_entities();
                                let w = choose|w: int| 0 <= w < o.len()
                                    && o[w].spec_id() == e0[j].spec_id()
                                    && o[w].spec_shader() == e0[j].spec_shader()
                                    && o[w].spec_model() == e0[j].spec_model()
                                    && o[w].spec_texture() == e0[j].spec_texture();
                                assert(e1[j].spec_id() == e0[j].spec_id()
                                    && e1[j].spec_shader() == e0[j].spec_shader()
                                    && e1[j].spec_model() == e0[j].spec_model()
                                    && e1[j].spec_texture() == e0[j].spec_texture());
                            }
                            // The visited object had opted in, so no kept
                            // opted-out object is the one being touched.
                            assert(e0[idx as int].spec_instance().spec_should_update());
                            assert forall|i2: int| 0 <= i2 < old(self).spec_entities().len()
                                && !(#[trigger] old(self).spec_entities()[i2])
                                    .spec_instance().spec_should_update()
                                implies exists|j: int| 0 <= j < e1.len()
                                    && e1[j] == old(self).spec_entities()[i2] by {
                                assert(spec_opted_out_kept(old(self).spec_entities(), e0));
                                let j = choose|j: int| 0 <= j < e0.len()
                                    && e0[j] == old(self).spec_entities()[i2];
                                if j == idx {
                                    assert(e0[j].spec_instance().spec_should_update());
                                    assert(false);
                                }
                                assert(e1[j] == old(self).spec_entities()[i2]);
                            }
                            assert(spec_opted_out_kept(old(self).spec_entities(), e1));
                        }
                        if handle.requested() {
                            let ghost before = *self;
                            self.dispose_of(id);
                            proof {
                                assert forall|x: EntityId| self.contains_id(x) implies
                                    before.contains_id(x) by {
                                    if before.contains_id(id) {
                                        let k = before.entity_index(id);
                                        let j = choose|j: int|
                                            0 <= j < self.spec_entities().len()
                                            && self.spec_entities()[j].spec_id() == x;
                                        let jo = if j < k { j } else { j + 1 };
                                        assert(self.spec_entities()[j]
                                            == before.spec_entities()[jo]);
                                    }
                                }
                                assert forall|j: int| 0 <= j < self.spec_entities().len()
                                    implies spec_carried(
                                        old(self).spec_entities(),
                                        self.spec_entities()[j],
                                    ) by {
                                    if before.contains_id(id) {
                                        let k = before.entity_index(id);
                                        let jo = if j < k { j } else { j + 1 };
                                        assert(self.spec_entities()[j]
                                            == before.spec_entities()[jo]);
                                        assert(spec_carried(old(self).spec_entities(),
                                            before.spec_entities()[jo]));
                                    } else {
                                        assert(self.spec_entities()[j]
                                            == before.spec_entities()[j]);
                                        assert(spec_carried(old(self).spec_entities(),
                                            before.spec_entities()[j]));
                                    }
                                }
                                // A kept opted-out object survives the
                                // removal: it was not the visited slot, so
                                // its id is not the disposed one.
                                assert forall|i2: int|
                                    0 <= i2 < old(self).spec_entities().len()
                                    && !(#[trigger] old(self).spec_entities()[i2])
                                        .spec_instance().spec_should_update()
                                    implies exists|j: int|
                                        0 <= j < self.spec_entities().len()
                                        && self.spec_entities()[j]
                                            == old(self).spec_entities()[i2] by {
                                    let e0 = pre.spec_entities();
                                    assert(spec_opted_out_kept(
                                        old(self).spec_entities(), e0));
                                    let jp = choose|jp: int| 0 <= jp < e0.len()
                                        && e0[jp] == old(self).spec_entities()[i2];
                                    if jp == idx {
                                        assert(e0[jp].spec_instance()
                                            .spec_should_update());
                                        assert(false);
                                    }
                                    assert(before.spec_entities()[jp]
                                        == old(self).spec_entities()[i2]);
                                    if before.contains_id(id) {
                                        assert(before.spec_entities()[idx as int]
                                            .spec_id() == id);
                                        before.lemma_entity_index_unique(
                                            id, idx as int);
                                        let k = before.entity_index(id);
                                        assert(k == idx);
                                        let jn = if jp < k { jp } else { jp - 1 };
                                        assert(self.spec_entities()[jn]
                                            == before.spec_entities()[jp]);
                                    } else {
                                        assert(self.spec_entities()[jp]
                                            == before.spec_entities()[jp]);
                                    }
                                }
                                assert(spec_opted_out_kept(
                                    old(self).spec_entities(), self.spec_entities()));
                            }
                        }
                    }
                },
                None => {},
            }
            i += 1;
        }
        proof {
            assert forall|i2: int| 0 <= i2 < old(self).spec_entities().len()
                && !(#[trigger] old(self).spec_entities()[i2]).spec_instance()
                    .spec_should_update()
                implies self.contains_id(old(self).spec_entities()[i2].spec_id()) by {
                let j = choose|j: int| 0 <= j < self.spec_entities().len()
                    && self.spec_entities()[j] == old(self).spec_entities()[i2];
                assert(self.spec_entities()[j].spec_id()
                    == old(self).spec_entities()[i2].spec_id());
            }
        }
    }

    /// Visits the render index in its current order and issues one draw
    /// operation per entry. Every entry points at a live, renderable
    /// object, so each visit draws.
    pub fn draw_to<S: Surface<M::Instance>>(&self, surface: &mut S)
        requires
            self.wf(),
    {
        let n = self.drawable_entities.len();
        let mut j: usize = 0;
        while j < n
            invariant
                self.wf(),
                n == self.spec_render().len(),
            decreases n - j,
        {
            let id = self.drawable_entities[j];
            let found = self.find_entity(id);
            match found {
                Some(idx) => {
                    proof {
                        assert(self.spec_render()[j as int] == id);
                        assert(self.spec_render().contains(id));
                        assert(self.spec_entities()[idx as int].spec_renderable()
                            <==> self.spec_render().contains(
                                self.spec_entities()[idx as int].spec_id()));
                    }
                    self.spawned_entities[idx].draw_to(surface);
                },
                None => {
                    proof {
                        assert(self.contains_id(self.spec_render()[j as int]));
                        assert(false);
                    }
                },
            }
            j += 1;
        }
    }

    /// An object is in the render index exactly when its shader, model
    /// and texture all resolved at construction; the bindings never
    /// change afterwards, so renderability is fixed for its life.
    pub proof fn lemma_render_membership(self)
        requires
            self.wf(),
        ensures
            forall|i: int| 0 <= i < self.spec_entities().len() ==>
                (self.spec_entities()[i].spec_renderable()
                    <==> self.spec_render().contains(self.spec_entities()[i].spec_id())),
    {
    }

    /// Every id in the render index is also an id in the primary store.
    pub proof fn lemma_render_in_store(self)
        requires
            self.wf(),
        ensures
            forall|j: int| 0 <= j < self.spec_render().len() ==>
                self.contains_id(self.spec_render()[j]),
    {
    }

    /// Disposing the same id twice in a row is the same as disposing it
    /// once: the second call finds nothing and changes nothing.
    pub proof fn lemma_dispose_idempotent(m0: Self, m1: Self, m2: Self, id: EntityId)
        requires
            m0.wf(),
            Self::spec_dispose_step(m0, m1, id),
            Self::spec_dispose_step(m1, m2, id),
        ensures
            m2 == m1,
    {
        if m0.contains_id(id) {
            let idx = m0.entity_index(id);
            assert(0 <= idx < m0.spec_entities().len()
                && m0.spec_entities()[idx].spec_id() == id);
            assert forall|j: int| 0 <= j < m1.spec_entities().len() implies
                m1.spec_entities()[j].spec_id() != id by {
                let jo = if j < idx { j } else { j + 1 };
                assert(m1.spec_entities()[j] == m0.spec_entities()[jo]);
                if jo < idx {
                    assert(m0.spec_entities()[jo].spec_id().spec_value()
                        < m0.spec_entities()[idx].spec_id().spec_value());
                } else if jo > idx {
                    assert(m0.spec_entities()[idx].spec_id().spec_value()
                        < m0.spec_entities()[jo].spec_id().spec_value());
                }
            }
            assert(!m1.contains_id(id));
        } else {
            assert(m1 == m0);
            assert(!m1.contains_id(id));
        }
    }
}

} // verus!


