use omt_core::game::world::{EntityArchive, EntityModelArchive, IdAllocator, World, MapData};
use omt_core::input::keyboard::{Key, KeyAction, KeyEvent};
use omt_core::input::mouse::{Button, ButtonAction, MouseButtonEvent};
use omt_core::input::{InputCheck, InputDevices, InputProcessor};
use omt_core::math::{Dim, IVec2};
use omt_core::plugin::{EntityModelLoader, InvisibleEntity};
use omt_core::ui::menu_item::MenuItem;
use omt_core::ui::text_box::TextBox;
use omt_core::ui::ui_manager::{UiModelArchive, UiTemplateSourceArchive};
use omt_core::ui::{StaticUi, UiElement, UiModel, UiModelLoader, UiSourceLoader};
use omt_core::util::dir::Dirs;
use omt_core::util::fps::FpsManager;
use omt_core::util::io::{DirID, RecursiveDirIterator, RecursiveDirIteratorWithID};
use omt_core::util::logging::{next_log_rotation, u64_to_decimal, ChildLogger, LogMessage, Logger, SpawnableLogger};
use omt_core::util::math::Vec2;
use omt_core::util::storage::NameMap;
use omt_core::util::xml::XmlNode;
use omt_core::util::GameError;

#[test]
fn name_map_overwrites_and_removes() {
    let mut map: NameMap<u32> = NameMap::new();
    map.insert("a".to_string(), 1);
    map.insert("b".to_string(), 2);
    map.insert("a".to_string(), 3);
    assert_eq!(map.count(), 2);
    assert_eq!(map.get("a"), Some(&3));
    assert_eq!(map.get("b"), Some(&2));
    assert!(map.contains("a"));
    assert!(!map.contains("c"));
    assert_eq!(map.remove("a"), Some(3));
    assert_eq!(map.remove("a"), None);
    assert_eq!(map.count(), 1);
}

#[test]
fn dirs_lay_out_under_the_root() {
    let dirs = Dirs::new("game".to_string());
    assert_eq!(dirs.root, "game");
    assert_eq!(dirs.config, "game/config");
    assert_eq!(dirs.assets.shaders, "game/assets/shaders");
    assert_eq!(dirs.assets.cfg, "game/assets/cfg");

    let io_dirs = omt_core::util::io::Dirs::new("game".to_string());
    assert_eq!(io_dirs.assets.cfg.entities, "game/assets/cfg/entities");
    assert_eq!(io_dirs.assets.scripts, "game/assets/scripts");
}

#[test]
fn dir_id_extends_with_dots() {
    let id = DirID::from_text("plugin".to_string());
    let extended = id.extend("textures").extend("grass");
    assert_eq!(extended.id().as_str(), "plugin.textures.grass");
}

#[test]
fn dir_iterator_walks_in_order() {
    let mut it = RecursiveDirIterator::from_paths(vec![
        "a.txt".to_string(),
        "b.txt".to_string(),
    ]);
    assert_eq!(it.next(), Some("a.txt".to_string()));
    assert_eq!(it.next(), Some("b.txt".to_string()));
    assert_eq!(it.next(), None);
    assert_eq!(it.next(), None);
}

#[test]
fn fps_manager_budgets_the_second() {
    let mut fps = FpsManager::new(60);
    assert_eq!(fps.target(), 60);
    fps.begin();
    let budget = fps.remaining_budget_nanos();
    assert!(budget <= 1_000_000_000 / 60);
}

#[test]
fn frame_budget_shrinks_with_elapsed_time() {
    let fps = FpsManager::new(50);
    // 20ms budget per frame at 50 fps.
    assert_eq!(fps.budget_after(0), 20_000_000);
    assert_eq!(fps.budget_after(5_000_000), 15_000_000);
    assert_eq!(fps.budget_after(20_000_000), 0);
    assert_eq!(fps.budget_after(u64::MAX), 0);
}

#[test]
fn game_error_carries_its_message() {
    let err = GameError::Simple("broken".to_string());
    assert_eq!(err.message().as_str(), "broken");
}

#[test]
fn child_loggers_share_their_sink() {
    let (tx, rx) = std::sync::mpsc::channel();
    let log = ChildLogger::new(tx);
    let child = log.spawn();
    log.info("one".to_string());
    child.error("two".to_string());
    match rx.try_recv().unwrap() {
        LogMessage::Info(m) => assert_eq!(m, "one"),
        _ => panic!("expected info"),
    }
    match rx.try_recv().unwrap() {
        LogMessage::Error(m) => assert_eq!(m, "two"),
        _ => panic!("expected error"),
    }
}

#[test]
fn keyboard_state_tracks_events() {
    let mut input = InputDevices::new();
    assert_eq!(InputCheck::<Key, KeyAction>::check(&input, Key::Escape), KeyAction::Idle);
    input.process(KeyEvent::new(Key::Escape, KeyAction::Press));
    assert_eq!(InputCheck::<Key, KeyAction>::check(&input, Key::Escape), KeyAction::Press);
    assert_eq!(InputCheck::<Key, KeyAction>::check(&input, Key::A), KeyAction::Idle);
    input.new_frame();
    assert_eq!(InputCheck::<Key, KeyAction>::check(&input, Key::Escape), KeyAction::Idle);
}

#[test]
fn mouse_state_tracks_events() {
    let mut input = InputDevices::new();
    input.process(MouseButtonEvent::new(Button::Left, ButtonAction::Press));
    assert_eq!(
        InputCheck::<Button, ButtonAction>::check(&input, Button::Left),
        ButtonAction::Press,
    );
    input.process(MouseButtonEvent::new(Button::Left, ButtonAction::Release));
    assert_eq!(
        InputCheck::<Button, ButtonAction>::check(&input, Button::Left),
        ButtonAction::Release,
    );
}

#[test]
fn vectors_hold_their_parts() {
    let v = Vec2::new(1280, 720);
    assert_eq!(v.x, 1280);
    assert_eq!(v.y, 720);
    let d: Dim<u32> = Dim::new(3, 4);
    assert_eq!(d.x, 3);
    assert_eq!(d.y, 4);
    let iv = IVec2::new(-1, 2);
    assert_eq!(iv.x, -1);
    assert_eq!(iv.y, 2);
}

#[test]
fn menu_item_reads_its_attributes() {
    let mut node = XmlNode::new("menu-item".to_string());
    node.attribs.insert("id".to_string(), "quit".to_string());
    node.attribs.insert("name".to_string(), "Quit".to_string());
    node.attribs.insert("click".to_string(), "on_exit".to_string());
    let item = MenuItem::new(node);
    assert_eq!(item.name().as_str(), "Quit");
    assert_eq!(item.on_click(), &Some("on_exit".to_string()));
    assert_eq!(UiElement::id(&item), Some("quit".to_string()));
    assert_eq!(item.kind(), "MenuItem");
}

#[test]
fn menu_item_defaults_to_an_empty_name() {
    let node = XmlNode::new("menu-item".to_string());
    let item = MenuItem::new(node);
    assert_eq!(item.name().as_str(), "");
    assert_eq!(item.on_click(), &None);
    assert_eq!(UiElement::id(&item), None);
}

#[test]
fn text_box_reads_text_and_id() {
    let mut node = XmlNode::new("textbox".to_string());
    node.text = Some("hello".to_string());
    node.attribs.insert("id".to_string(), "greeting".to_string());
    let text_box = TextBox::new(node);
    assert_eq!(text_box.text().as_str(), "hello");
    assert_eq!(UiElement::id(&text_box), Some("greeting".to_string()));
    assert_eq!(text_box.kind(), "TextBox");
}

#[test]
fn ui_archives_store_contributions() {
    let mut models: UiModelArchive<StaticUi> = UiModelArchive::new();
    models.register("static", StaticUi);
    assert!(models.lookup("static").is_some());
    assert!(models.lookup("other").is_none());
    assert_eq!(StaticUi.tag_name(), "static");
    assert!(StaticUi.new_instance().is_ok());

    let mut sources = UiTemplateSourceArchive::new();
    sources.register("menu".to_string(), "<main-menu-bar/>".to_string());
    assert_eq!(sources.get("menu"), Some(&"<main-menu-bar/>".to_string()));
}

#[test]
fn id_allocator_counts_upward() {
    let mut ids = IdAllocator::new();
    let a = ids.allocate();
    let b = ids.allocate();
    assert_ne!(a, b);
    assert!(a < b);
}

#[test]
fn construct_reports_unknown_templates() {
    let (tx, _rx) = std::sync::mpsc::channel();
    let log = ChildLogger::new(tx);
    let mut archive: EntityArchive<InvisibleEntity> = EntityArchive::new(log.spawn());
    let mut contributed = EntityModelArchive::new();
    contributed.register("hidden", InvisibleEntity);
    archive.add_model_archive(contributed);

    let mut ids = IdAllocator::new();
    let shaders = omt_core::gfx::shaders::ShaderProgramArchive::new();
    let models = omt_core::gfx::model::ModelRepository::new();
    let textures = omt_core::gfx::tex::TextureArchive::new();
    match archive.construct("missing", &mut ids, &shaders, &models, &textures) {
        Err(err) => assert_eq!(err, "could not find missing"),
        Ok(_) => panic!("expected failure for an unregistered template"),
    }

    match archive.construct("hidden", &mut ids, &shaders, &models, &textures) {
        Ok(entity) => assert!(!entity.is_renderable()),
        Err(err) => panic!("registered template failed: {}", err),
    }
}

#[test]
fn invisible_entities_spawn_without_render_entries() {
    let (tx, _rx) = std::sync::mpsc::channel();
    let log = ChildLogger::new(tx);
    let mut archive: EntityArchive<InvisibleEntity> = EntityArchive::new(log.spawn());
    archive.create_template("hidden".to_string(), InvisibleEntity);
    let mut world = World::new(
        MapData::default(),
        log,
        archive,
        omt_core::gfx::shaders::ShaderProgramArchive::new(),
        omt_core::gfx::model::ModelRepository::new(),
        omt_core::gfx::tex::TextureArchive::new(),
    );
    world.spawn("hidden");
    world.spawn("hidden");
    assert_eq!(world.entity_count(), 2);
    assert_eq!(world.drawable_count(), 0);
    // Invisible objects opt out of updates; the pass leaves them alone.
    world.update();
    assert_eq!(world.entity_count(), 2);
}

#[test]
fn decimal_rendering_is_exact() {
    assert_eq!(u64_to_decimal(0), "0");
    assert_eq!(u64_to_decimal(7), "7");
    assert_eq!(u64_to_decimal(10), "10");
    assert_eq!(u64_to_decimal(321), "321");
    assert_eq!(u64_to_decimal(18446744073709551615), "18446744073709551615");
}

#[test]
fn log_rotation_fills_free_slots_first() {
    assert_eq!(next_log_rotation(vec![], 3), "logs/game_0.log");
    let logs = vec![("game_0.log".to_string(), 5)];
    assert_eq!(next_log_rotation(logs, 3), "logs/game_1.log");
}

#[test]
fn log_rotation_overwrites_the_oldest_when_full() {
    let logs = vec![
        ("game_0.log".to_string(), 7),
        ("game_1.log".to_string(), 3),
        ("game_2.log".to_string(), 3),
    ];
    // Both old logs are tied; the one recorded first is overwritten.
    assert_eq!(next_log_rotation(logs, 3), "logs/game_1.log");
}

#[test]
fn log_rotation_without_slots_or_logs_names_the_directory() {
    assert_eq!(next_log_rotation(vec![], 0), "logs");
}

#[test]
fn plain_directory_iterator_walks_in_order() {
    let mut it = omt_core::util::dir::RecursiveDirectoryIterator::from_paths(vec![
        "x/one".to_string(),
        "x/two".to_string(),
    ]);
    assert_eq!(it.next(), Some("x/one".to_string()));
    assert_eq!(it.next(), Some("x/two".to_string()));
    assert_eq!(it.next(), None);
}

#[test]
fn id_paired_iterator_hands_out_both_parts() {
    let mut it = RecursiveDirIteratorWithID::from_entries(vec![(
        "tex/grass.png".to_string(),
        DirID::from_text("tex.grass".to_string()),
    )]);
    let (path, id) = it.next().expect("one entry");
    assert_eq!(path, "tex/grass.png");
    assert_eq!(id.id().as_str(), "tex.grass");
    assert!(it.next().is_none());
}
