use omt_core::gfx::shaders::{parse_import_line, ShaderProgramArchive, ShaderSourceArchive};
use omt_core::util::storage::NameMap;
use omt_core::gfx::ShaderLoader;
use omt_core::util::logging::ChildLogger;

fn logger() -> ChildLogger {
    let (tx, _rx) = std::sync::mpsc::channel();
    ChildLogger::new(tx)
}

#[test]
fn import_shader_works() {
    let test_strings = vec![r#"#import "main.shader.vs""#, r#"#import "main.shader.fs""#];
    let expected_imports = vec!["main.shader.vs", "main.shader.fs"];

    for (test, expected) in test_strings.iter().zip(expected_imports.iter()) {
        if let Some(import) = parse_import_line(test) {
            assert_eq!(expected.to_string(), import);
        }
    }
}

#[test]
fn import_line_grammar() {
    assert_eq!(parse_import_line("  #  import  \"a-b.c\"  "), Some("a-b.c".to_string()));
    assert_eq!(parse_import_line("#import \"x\""), Some("x".to_string()));
    assert_eq!(parse_import_line("import \"x\""), None);
    assert_eq!(parse_import_line("#import x"), None);
    assert_eq!(parse_import_line("#import \"\""), None);
    assert_eq!(parse_import_line("#import \"x\" trailing"), None);
    assert_eq!(parse_import_line("#import \"two words\""), None);
    assert_eq!(parse_import_line("void main() {}"), None);
}

#[test]
fn plain_sources_pass_through() {
    let mut sources = ShaderSourceArchive::new("main".to_string());
    ShaderLoader::register(&mut sources, "vs", "line one\nline two");
    ShaderLoader::register(&mut sources, "fs", "frag");
    sources.register_shader("basic", "main.vs", "main.fs");

    let mut archive = ShaderProgramArchive::new();
    archive.add_source_archive(sources);
    archive.compile(&logger());

    let program = archive.get("basic").expect("program resolves");
    assert_eq!(program.vertex, "line one\nline two");
    assert_eq!(program.fragment, "frag");
}

#[test]
fn imports_are_expanded_in_place() {
    let mut sources = ShaderSourceArchive::new("main".to_string());
    ShaderLoader::register(&mut sources, "common", "vec3 shared_fn();");
    ShaderLoader::register(&mut sources, "vs", "#import \"main.common\"\nvoid vs() {}");
    ShaderLoader::register(&mut sources, "fs", "void fs() {}");
    sources.register_shader("basic", "main.vs", "main.fs");

    let mut archive = ShaderProgramArchive::new();
    archive.add_source_archive(sources);
    archive.compile(&logger());

    let program = archive.get("basic").expect("program resolves");
    assert_eq!(program.vertex, "vec3 shared_fn();\nvoid vs() {}");
}

#[test]
fn repeated_import_is_expanded_once() {
    let mut sources = ShaderSourceArchive::new("main".to_string());
    ShaderLoader::register(&mut sources, "common", "shared");
    ShaderLoader::register(
        &mut sources,
        "vs",
        "#import \"main.common\"\n#import \"main.common\"\nbody",
    );
    ShaderLoader::register(&mut sources, "fs", "frag");
    sources.register_shader("basic", "main.vs", "main.fs");

    let mut archive = ShaderProgramArchive::new();
    archive.add_source_archive(sources);
    archive.compile(&logger());

    let program = archive.get("basic").expect("program resolves");
    // The second import line is skipped, not duplicated.
    assert_eq!(program.vertex, "shared\nbody");
}

#[test]
fn circular_imports_fail_resolution() {
    let mut sources = ShaderSourceArchive::new("main".to_string());
    ShaderLoader::register(&mut sources, "a", "#import \"main.b\"");
    ShaderLoader::register(&mut sources, "b", "#import \"main.a\"");
    sources.register_shader("loop", "main.a", "main.a");

    let mut archive = ShaderProgramArchive::new();
    archive.add_source_archive(sources);
    archive.compile(&logger());

    assert!(archive.get("loop").is_none());
}

#[test]
fn unknown_import_fails_resolution() {
    let mut sources = ShaderSourceArchive::new("main".to_string());
    ShaderLoader::register(&mut sources, "vs", "#import \"no.such.source\"");
    sources.register_shader("broken", "main.vs", "main.vs");

    let mut archive = ShaderProgramArchive::new();
    archive.add_source_archive(sources);
    archive.compile(&logger());

    assert!(archive.get("broken").is_none());
}

#[test]
fn list_names_registered_programs_in_ascending_order() {
    let mut sources = ShaderSourceArchive::new("main".to_string());
    sources.register_shader("fancy", "main.vs", "main.fs");
    sources.register_shader("basic", "main.vs", "main.fs");
    sources.register_shader("debug", "main.vs", "main.fs");

    let mut archive = ShaderProgramArchive::new();
    archive.add_source_archive(sources);
    // Names come back sorted, not in registration order.
    assert_eq!(
        archive.list(),
        vec!["basic".to_string(), "debug".to_string(), "fancy".to_string()],
    );
}

#[test]
fn sources_are_prefixed_with_plugin_name() {
    let mut sources = ShaderSourceArchive::new("plug".to_string());
    ShaderLoader::register(&mut sources, "vs", "text");
    sources.register_shader("p", "plug.vs", "plug.vs");

    let mut archive = ShaderProgramArchive::new();
    archive.add_source_archive(sources);
    archive.compile(&logger());
    assert!(archive.get("p").is_some());
}

#[test]
fn circular_error_names_both_sources() {
    let mut sources: NameMap<String> = NameMap::new();
    sources.insert("a".to_string(), "#import \"b\"".to_string());
    sources.insert("b".to_string(), "#import \"a\"".to_string());
    let mut chain = Vec::new();
    let mut done = Vec::new();
    let err = ShaderProgramArchive::load_source(&logger(), "a", &sources, &mut chain, &mut done)
        .expect_err("cycle detected");
    assert_eq!(
        err,
        "circular dependency detected processing: b | this dependency requires current source: a"
    );
}

#[test]
fn missing_source_error_names_it() {
    let sources: NameMap<String> = NameMap::new();
    let mut chain = Vec::new();
    let mut done = Vec::new();
    let err = ShaderProgramArchive::load_source(&logger(), "vs", &sources, &mut chain, &mut done)
        .expect_err("missing source");
    assert_eq!(err, "unknown shader source: vs");
}
