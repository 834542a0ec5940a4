use orrery::asset_library::AssetLibrary;
use orrery::texture::TextureType;

#[test]
fn empty_library_finds_nothing() {
    let library: AssetLibrary<u32> = AssetLibrary::new();
    assert_eq!(library.get_texture("earth_diffuse"), None);
    assert_eq!(library.get_texture_type("earth_diffuse"), None);
}

#[test]
fn inserted_texture_is_found() {
    let mut library = AssetLibrary::new();
    library.insert_texture_2d("earth_diffuse".to_string(), 1u32);
    assert_eq!(library.get_texture("earth_diffuse"), Some(&1));
    assert_eq!(library.get_texture_type("earth_diffuse"), Some(TextureType::Texture2D));
    assert_eq!(library.get_texture("skybox"), None);
}

#[test]
fn later_insert_replaces() {
    let mut library = AssetLibrary::new();
    library.insert_texture_2d("a".to_string(), 1u32);
    library.insert_texture_2d("a".to_string(), 2u32);
    assert_eq!(library.get_texture("a"), Some(&2));
}

#[test]
fn two_d_texture_hides_cubemap_of_same_name() {
    let mut library = AssetLibrary::new();
    library.insert_texture_cubemap("skybox".to_string(), 5u32);
    assert_eq!(library.get_texture("skybox"), Some(&5));
    assert_eq!(library.get_texture_type("skybox"), Some(TextureType::TextureCube));
    library.insert_texture_2d("skybox".to_string(), 6u32);
    assert_eq!(library.get_texture("skybox"), Some(&6));
    assert_eq!(library.get_texture_type("skybox"), Some(TextureType::Texture2D));
}
