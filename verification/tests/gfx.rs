use omt_core::gfx::model::{Model, ModelRepository, PrimitiveType};
use omt_core::gfx::tex::{Image, ImageArchive, TextureArchive, TextureLoadError};
use omt_core::gfx::TextureLoader;

#[test]
fn texture_rows_are_flipped() {
    // A 1x3 image: rows r0, r1, r2 top-first come out bottom-first.
    let pixels = vec![
        0, 1, 2, 3, // row 0
        10, 11, 12, 13, // row 1
        20, 21, 22, 23, // row 2
    ];
    let mut images = ImageArchive::new();
    TextureLoader::register(
        &mut images,
        "strip".to_string(),
        Image { width: 1, height: 3, pixels },
    );
    let mut textures = TextureArchive::new();
    textures.add_image_archive(images).expect("valid image");
    let tex = textures.get("strip").expect("registered");
    assert_eq!(tex.width, 1);
    assert_eq!(tex.height, 3);
    assert_eq!(tex.data, vec![20, 21, 22, 23, 10, 11, 12, 13, 0, 1, 2, 3]);
}

#[test]
fn wide_texture_keeps_bytes_within_rows() {
    // A 2x2 image: whole rows swap, bytes inside a row stay put.
    let pixels = vec![
        1, 1, 1, 1, 2, 2, 2, 2, // row 0: two pixels
        3, 3, 3, 3, 4, 4, 4, 4, // row 1
    ];
    let mut images = ImageArchive::new();
    TextureLoader::register(
        &mut images,
        "quad".to_string(),
        Image { width: 2, height: 2, pixels },
    );
    let mut textures = TextureArchive::new();
    textures.add_image_archive(images).expect("valid image");
    let tex = textures.get("quad").expect("registered");
    assert_eq!(tex.data, vec![3, 3, 3, 3, 4, 4, 4, 4, 1, 1, 1, 1, 2, 2, 2, 2]);
}

#[test]
fn mismatched_pixel_buffer_is_an_error() {
    let mut images = ImageArchive::new();
    TextureLoader::register(
        &mut images,
        "broken".to_string(),
        Image { width: 2, height: 2, pixels: vec![0, 0, 0] },
    );
    let mut textures = TextureArchive::new();
    let errors = textures.add_image_archive(images).expect_err("invalid image");
    assert_eq!(errors.len(), 1);
    let TextureLoadError::Standard(msg) = &errors[0];
    assert_eq!(msg.as_str(), "could not convert broken to srgb tex");
    assert!(textures.get("broken").is_none());
}

#[test]
fn valid_images_survive_an_invalid_neighbour() {
    let mut images = ImageArchive::new();
    TextureLoader::register(
        &mut images,
        "good".to_string(),
        Image { width: 1, height: 1, pixels: vec![9, 9, 9, 9] },
    );
    TextureLoader::register(
        &mut images,
        "bad".to_string(),
        Image { width: 1, height: 1, pixels: vec![9] },
    );
    let mut textures = TextureArchive::new();
    let errors = textures.add_image_archive(images).expect_err("one invalid image");
    assert_eq!(errors.len(), 1);
    assert!(textures.get("good").is_some());
    assert!(textures.get("bad").is_none());
}

#[test]
fn model_repository_offers_the_sprite_quad() {
    let repo = ModelRepository::new();
    let sprite = repo.get("sprite").expect("built-in model");
    assert_eq!(sprite.vertex_count, 4);
    assert_eq!(sprite.indices, vec![0, 1, 2, 2, 3, 0]);
    assert_eq!(sprite.primitive, PrimitiveType::TrianglesList);
    assert!(repo.get("cube").is_none());
}

#[test]
fn model_rejects_out_of_range_indices() {
    assert!(Model::new(3, vec![0, 1, 2], PrimitiveType::TrianglesList).is_ok());
    let err = Model::new(3, vec![0, 1, 3], PrimitiveType::TrianglesList);
    assert_eq!(err.expect_err("index 3 of 3 vertices"), "model index out of range");
}
