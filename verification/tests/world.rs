use omt_core::game::world::{EntityArchive, EntityModelArchive, MapData, World};
use omt_core::gfx::model::ModelRepository;
use omt_core::gfx::shaders::{Program, ShaderProgramArchive, ShaderSourceArchive};
use omt_core::gfx::tex::{Image, TextureArchive, ImageArchive};
use omt_core::gfx::{ShaderLoader, Surface, TextureLoader};
use omt_core::plugin::{EntityHandle, EntityInstance, EntityModel, EntityModelLoader};
use omt_core::util::logging::{ChildLogger, LogMessage, SpawnableLogger};
use std::cell::{Cell, RefCell};
use std::rc::Rc;

/// Behavior used by the scenarios: knows which resource names it wants,
/// numbers its instances in creation order, and can mark one instance to
/// dispose itself during its update.
struct TestModel {
    shader: Option<&'static str>,
    sprite: Option<&'static str>,
    shape: Option<&'static str>,
    created: Cell<u64>,
    dispose_seq: Option<u64>,
    visits: Rc<RefCell<Vec<u64>>>,
}

impl TestModel {
    fn renderable() -> Self {
        TestModel {
            shader: Some("basic"),
            sprite: Some("grass"),
            shape: Some("sprite"),
            created: Cell::new(0),
            dispose_seq: None,
            visits: Rc::new(RefCell::new(Vec::new())),
        }
    }

    fn bare() -> Self {
        TestModel {
            shader: None,
            sprite: None,
            shape: None,
            created: Cell::new(0),
            dispose_seq: None,
            visits: Rc::new(RefCell::new(Vec::new())),
        }
    }
}

struct TestInstance {
    seq: u64,
    dispose_on_update: bool,
    visits: Rc<RefCell<Vec<u64>>>,
}

impl EntityModel for TestModel {
    type Instance = TestInstance;

    fn spec_shader(&self) -> Option<&'static str> {
        self.shader
    }

    fn spec_sprite(&self) -> Option<&'static str> {
        self.sprite
    }

    fn spec_shape(&self) -> Option<&'static str> {
        self.shape
    }

    fn new_instance(&self) -> TestInstance {
        let seq = self.created.get();
        self.created.set(seq + 1);
        TestInstance {
            seq,
            dispose_on_update: self.dispose_seq == Some(seq),
            visits: self.visits.clone(),
        }
    }

    fn shader(&self) -> Option<&'static str> {
        self.shader
    }

    fn sprite(&self) -> Option<&'static str> {
        self.sprite
    }

    fn shape(&self) -> Option<&'static str> {
        self.shape
    }
}

impl EntityInstance for TestInstance {
    fn spec_should_update(&self) -> bool {
        true
    }

    fn update<H: EntityHandle>(&mut self, handle: &mut H) {
        self.visits.borrow_mut().push(self.seq);
        if self.dispose_on_update {
            handle.dispose();
        }
    }

    fn should_update(&self) -> bool {
        true
    }
}

fn logger() -> (ChildLogger, std::sync::mpsc::Receiver<LogMessage>) {
    let (tx, rx) = std::sync::mpsc::channel();
    (ChildLogger::new(tx), rx)
}

/// Repositories where "basic", "grass" and "sprite" all resolve.
fn full_repositories() -> (ShaderProgramArchive, ModelRepository, TextureArchive) {
    let mut sources = ShaderSourceArchive::new("main".to_string());
    ShaderLoader::register(&mut sources, "vs", "void vs() {}");
    ShaderLoader::register(&mut sources, "fs", "void fs() {}");
    sources.register_shader("basic", "main.vs", "main.fs");
    let mut shaders = ShaderProgramArchive::new();
    shaders.add_source_archive(sources);
    let (log, _rx) = logger();
    shaders.compile(&log);
    assert!(shaders.get("basic").is_some());

    let models = ModelRepository::new();
    assert!(models.get("sprite").is_some());

    let mut images = ImageArchive::new();
    TextureLoader::register(
        &mut images,
        "grass".to_string(),
        Image { width: 1, height: 1, pixels: vec![1, 2, 3, 4] },
    );
    let mut textures = TextureArchive::new();
    textures.add_image_archive(images).expect("image converts");
    assert!(textures.get("grass").is_some());

    (shaders, models, textures)
}

fn world_with(model: TestModel, name: &str) -> (World<TestModel>, std::sync::mpsc::Receiver<LogMessage>) {
    let (shaders, models, textures) = full_repositories();
    let (log, rx) = logger();
    let mut archive = EntityArchive::new(log.spawn());
    let mut contributed = EntityModelArchive::new();
    contributed.register(name, model);
    archive.add_model_archive(contributed);
    let world = World::new(MapData::default(), log, archive, shaders, models, textures);
    (world, rx)
}

#[test]
fn renderable_spawn_fills_both_indices() {
    // Register "square" with all three resource names resolvable.
    let (mut world, _rx) = world_with(TestModel::renderable(), "square");
    world.spawn("square");
    assert_eq!(world.entity_count(), 1);
    assert_eq!(world.drawable_count(), 1);
}

#[test]
fn unresolved_bindings_leave_object_unrenderable() {
    // Register "ghost" with no resource bindings at all.
    let (mut world, _rx) = world_with(TestModel::bare(), "ghost");
    world.spawn("ghost");
    assert_eq!(world.entity_count(), 1);
    assert_eq!(world.drawable_count(), 0);
}

#[test]
fn dispose_keeps_indices_in_step() {
    let (mut world, _rx) = world_with(TestModel::renderable(), "square");
    world.spawn("square");
    world.spawn("square");
    let ids = world.spawned_ids();
    assert_eq!(world.entity_count(), 2);
    assert_eq!(ids.len(), 2);
    assert_ne!(ids[0], ids[1]);

    world.dispose_of(ids[0]);
    assert_eq!(world.entity_count(), 1);
    assert_eq!(world.drawable_count(), 1);
    assert_eq!(world.drawable_ids(), vec![ids[1]]);
    assert_eq!(world.spawned_ids(), vec![ids[1]]);
}

#[test]
fn unknown_name_spawn_is_logged_no_op() {
    let (mut world, rx) = world_with(TestModel::renderable(), "square");
    world.spawn("nonexistent");
    assert_eq!(world.entity_count(), 0);
    assert_eq!(world.drawable_count(), 0);
    match rx.try_recv().expect("a warning was logged") {
        LogMessage::Warn(msg) => {
            assert_eq!(msg, "unable to load entity 'nonexistent'");
        }
        _ => panic!("expected a warning"),
    }
}

#[test]
fn self_disposal_mid_pass_keeps_later_objects_visited() {
    // Three objects; the second disposes itself from inside update().
    let mut model = TestModel::bare();
    model.dispose_seq = Some(1);
    let visits = model.visits.clone();
    let (mut world, _rx) = world_with(model, "obj");
    world.spawn("obj");
    world.spawn("obj");
    world.spawn("obj");
    assert_eq!(world.entity_count(), 3);

    world.update();

    assert_eq!(world.entity_count(), 2);
    // All three were visited in order, the third after the removal.
    assert_eq!(*visits.borrow(), vec![0, 1, 2]);
}

#[test]
fn dispose_twice_equals_dispose_once() {
    let (mut world, _rx) = world_with(TestModel::renderable(), "square");
    world.spawn("square");
    world.spawn("square");
    let ids = world.spawned_ids();

    world.dispose_of(ids[0]);
    let spawned_after_one = world.spawned_ids();
    let drawable_after_one = world.drawable_ids();

    world.dispose_of(ids[0]);
    assert_eq!(world.spawned_ids(), spawned_after_one);
    assert_eq!(world.drawable_ids(), drawable_after_one);
}

#[test]
fn unknown_id_dispose_is_ignored() {
    let (mut world, _rx) = world_with(TestModel::renderable(), "square");
    world.spawn("square");
    let ids = world.spawned_ids();
    world.dispose_of(ids[0]);
    // The id is gone; disposing it again, or any id never issued, changes nothing.
    world.dispose_of(ids[0]);
    assert_eq!(world.entity_count(), 0);
    assert_eq!(world.drawable_count(), 0);
}

#[test]
fn ids_are_never_reused() {
    let (mut world, _rx) = world_with(TestModel::renderable(), "square");
    world.spawn("square");
    let first = world.spawned_ids()[0];
    world.dispose_of(first);
    world.spawn("square");
    let second = world.spawned_ids()[0];
    assert_ne!(first, second);
}

struct RecordingSurface {
    draws: Vec<(u32, String)>,
}

impl Surface<TestInstance> for RecordingSurface {
    fn draw(
        &mut self,
        instance: &TestInstance,
        shader: &Rc<Program>,
        _model: &Rc<omt_core::gfx::model::Model>,
        texture: &Rc<omt_core::gfx::tex::Texture>,
    ) {
        let _ = instance;
        self.draws.push((texture.width, shader.vertex.clone()));
    }
}

#[test]
fn draw_visits_each_renderable_object_once() {
    let (mut world, _rx) = world_with(TestModel::renderable(), "square");
    world.spawn("square");
    world.spawn("square");
    let mut surface = RecordingSurface { draws: Vec::new() };
    world.draw_to(&mut surface);
    assert_eq!(surface.draws.len(), 2);
    assert_eq!(surface.draws[0].0, 1);
    assert_eq!(surface.draws[0].1, "void vs() {}");
}

#[test]
fn non_renderable_objects_are_not_drawn() {
    let (mut world, _rx) = world_with(TestModel::bare(), "ghost");
    world.spawn("ghost");
    let mut surface = RecordingSurface { draws: Vec::new() };
    world.draw_to(&mut surface);
    assert!(surface.draws.is_empty());
}

#[test]
fn contains_entity_tracks_membership() {
    let (mut world, _rx) = world_with(TestModel::renderable(), "square");
    world.spawn("square");
    let id = world.spawned_ids()[0];
    assert!(world.contains_entity(id));
    world.dispose_of(id);
    assert!(!world.contains_entity(id));
}
