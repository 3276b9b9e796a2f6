use std::path::PathBuf;

use notema_image::cache::{Cache, CacheState};
use notema_image::geometry::{viewer_image_size, Rect, Size};
use notema_image::key::{CacheKey, ImageAsset, WarmRequest};
use notema_image::runtime::ImageRuntime;

fn asset(path: &str, file: &str) -> ImageAsset {
    ImageAsset {
        entry_path: PathBuf::from(path),
        file_name: file.to_string(),
    }
}

fn size(width: u16, height: u16) -> Size {
    Size { width, height }
}

#[test]
fn key_holds_the_asset_and_the_size() {
    let key = ImageRuntime::default().key(&asset("2024/01/entry.md", "cat.png"), size(78, 22));
    assert_eq!(key.entry_path, PathBuf::from("2024/01/entry.md"));
    assert_eq!(key.file_name, "cat.png");
    assert_eq!((key.width, key.height), (78, 22));
}

#[test]
fn key_is_never_empty() {
    let key = CacheKey::new(&asset("e", "f"), size(0, 0));
    assert_eq!((key.width, key.height), (1, 1));
    assert!(key.same_as(&CacheKey::new(&asset("e", "f"), size(1, 1))));
}

#[test]
fn every_part_tells_keys_apart() {
    let key = CacheKey::new(&asset("e", "f"), size(2, 3));
    assert!(key.same_as(&key.clone()));
    assert!(!key.same_as(&CacheKey::new(&asset("d", "f"), size(2, 3))));
    assert!(!key.same_as(&CacheKey::new(&asset("e", "g"), size(2, 3))));
    assert!(!key.same_as(&CacheKey::new(&asset("e", "f"), size(1, 3))));
    assert!(!key.same_as(&CacheKey::new(&asset("e", "f"), size(2, 4))));
}

#[test]
fn paths_are_compared_as_paths() {
    let key = CacheKey::new(&asset("a/b", "f"), size(2, 3));
    assert!(key.same_as(&CacheKey::new(&asset("a//b/", "f"), size(2, 3))));
    assert!(!key.same_as(&CacheKey::new(&asset("a/b", "f/"), size(2, 3))));
}

#[test]
fn warmed_and_viewed_keys_match() {
    let image = asset("e", "f");
    for length in 0..10 {
        let area = Rect { x: 1, y: 2, width: length, height: length };
        let warmed = CacheKey::new(&image, viewer_image_size(area));
        let shown = viewer_image_size(area);
        let viewed = CacheKey::new(&image, size(shown.width, shown.height));
        assert!(warmed.same_as(&viewed));
        assert_eq!((warmed.width, warmed.height), (shown.width, shown.height));
    }
}

#[test]
fn assets_can_be_cloned_and_compared() {
    let image = asset("e", "f");
    assert_eq!(image.clone(), image);
    assert_ne!(asset("e", "g"), image);
    let request = WarmRequest { assets: vec![image.clone()], size: size(1, 2) };
    assert_eq!(request, WarmRequest { assets: vec![image], size: size(1, 2) });
}

#[test]
fn cache_maps_keys_to_states() {
    let key = CacheKey::new(&asset("e", "f"), size(2, 3));
    let other = CacheKey::new(&asset("e", "g"), size(2, 3));
    let mut cache = Cache::new();
    assert!(!cache.contains_key(&key));
    assert!(cache.get(&key).is_none());
    assert!(!cache.any_loading());

    cache.insert(key.clone(), CacheState::Loading);
    cache.insert(other.clone(), CacheState::Failed);
    assert!(cache.contains_key(&key));
    assert!(matches!(cache.get(&key), Some(CacheState::Loading)));
    assert!(matches!(cache.get(&other), Some(CacheState::Failed)));
    assert!(cache.any_loading());

    cache.insert(key.clone(), CacheState::Failed);
    assert!(matches!(cache.get(&key), Some(CacheState::Failed)));
    assert!(!cache.any_loading());

    cache.clear();
    assert!(!cache.contains_key(&key));
    assert!(!cache.contains_key(&other));
}
