use orrery::texture::{
    check_cubemap_faces, load_texture_2d, load_texture_cubemap, update_texture_2d, DecodedImage, ImageFailure,
    TextureError, TextureType,
};

fn png(width: u32, height: u32) -> Vec<u8> {
    let image = image::RgbaImage::from_fn(width, height, |x, y| image::Rgba([x as u8, y as u8, 7, 255]));
    let mut bytes = std::io::Cursor::new(Vec::new());
    image.write_to(&mut bytes, image::ImageFormat::Png).unwrap();
    bytes.into_inner()
}

fn decoded(width: u32, height: u32) -> Result<DecodedImage, ImageFailure> {
    Ok(DecodedImage::new(vec![0; (4 * width * height) as usize], width, height))
}

#[test]
fn load_2d_decodes_png() {
    let image = load_texture_2d(&png(3, 2), TextureType::Texture2D).unwrap();
    assert_eq!((image.width, image.height), (3, 2));
    assert_eq!(image.rgba.len(), 24);
    assert_eq!(&image.rgba[4..8], &[1, 0, 7, 255]);
}

#[test]
fn load_2d_refuses_cube_config() {
    let result = load_texture_2d(&png(1, 1), TextureType::TextureCube);
    assert!(matches!(result, Err(TextureError::WrongType { expected: TextureType::Texture2D })));
}

#[test]
fn load_2d_reports_garbage() {
    let result = load_texture_2d(&[1, 2, 3, 4, 5], TextureType::Texture2D);
    assert!(matches!(result, Err(TextureError::Decode { face: None, .. })));
}

fn png_of_colour(width: u32, height: u32, red: u8) -> Vec<u8> {
    let image = image::RgbaImage::from_fn(width, height, |_, _| image::Rgba([red, 0, 0, 255]));
    let mut bytes = std::io::Cursor::new(Vec::new());
    image.write_to(&mut bytes, image::ImageFormat::Png).unwrap();
    bytes.into_inner()
}

#[test]
fn update_2d_decodes_png() {
    let image = update_texture_2d(&png(3, 2)).unwrap();
    assert_eq!((image.width, image.height), (3, 2));
    assert_eq!(image.rgba.len(), 24);
    assert_eq!(&image.rgba[20..24], &[2, 1, 7, 255]);
}

#[test]
fn update_2d_reports_garbage() {
    assert!(matches!(update_texture_2d(&[9, 9, 9]), Err(TextureError::Decode { face: None, .. })));
}

#[test]
fn cubemap_faces_keep_their_order() {
    let faces: Vec<Vec<u8>> = (0..6).map(|k| png_of_colour(1, 1, 10 * k as u8)).collect();
    let refs = [&faces[0][..], &faces[1][..], &faces[2][..], &faces[3][..], &faces[4][..], &faces[5][..]];
    let cubemap = load_texture_cubemap(refs, TextureType::TextureCube).unwrap();
    for k in 0..6 {
        assert_eq!(cubemap.faces[k], vec![10 * k as u8, 0, 0, 255]);
    }
}

#[test]
fn cubemap_of_six_equal_faces() {
    let faces: Vec<Vec<u8>> = (0..6).map(|_| png(2, 2)).collect();
    let refs = [&faces[0][..], &faces[1][..], &faces[2][..], &faces[3][..], &faces[4][..], &faces[5][..]];
    let cubemap = load_texture_cubemap(refs, TextureType::TextureCube).unwrap();
    assert_eq!(cubemap.faces.len(), 6);
    assert_eq!((cubemap.width, cubemap.height), (2, 2));
}

#[test]
fn cubemap_refuses_2d_config() {
    let face = png(1, 1);
    let refs = [&face[..]; 6];
    let result = load_texture_cubemap(refs, TextureType::Texture2D);
    assert!(matches!(result, Err(TextureError::WrongType { expected: TextureType::TextureCube })));
}

#[test]
fn cubemap_reports_size_mismatch() {
    let small = png(2, 2);
    let large = png(4, 2);
    let refs = [&small[..], &small[..], &large[..], &small[..], &small[..], &small[..]];
    let result = load_texture_cubemap(refs, TextureType::TextureCube);
    assert!(matches!(result, Err(TextureError::FaceSizeMismatch { expected: (2, 2), found: (4, 2) })));
}

#[test]
fn cubemap_reports_first_bad_face() {
    let good = png(2, 2);
    let bad: Vec<u8> = vec![0, 1, 2];
    let refs = [&good[..], &good[..], &good[..], &bad[..], &good[..], &good[..]];
    let result = load_texture_cubemap(refs, TextureType::TextureCube);
    assert!(matches!(result, Err(TextureError::Decode { face: Some(3), .. })));
}

#[test]
fn check_faces_in_order() {
    let faces = vec![decoded(2, 2), decoded(3, 3), Err(ImageFailure::Decode("bad".to_string()))];
    assert_eq!(
        check_cubemap_faces(faces).err(),
        Some(TextureError::FaceSizeMismatch { expected: (2, 2), found: (3, 3) })
    );
    let faces = vec![decoded(2, 2), Err(ImageFailure::GuessFormat("io".to_string())), decoded(3, 3)];
    assert_eq!(
        check_cubemap_faces(faces).err(),
        Some(TextureError::GuessFormat { face: Some(1), message: "io".to_string() })
    );
    let faces = vec![decoded(1, 1), decoded(1, 1)];
    let ok = check_cubemap_faces(faces).unwrap();
    assert_eq!((ok.faces.len(), ok.width, ok.height), (2, 1, 1));
}
