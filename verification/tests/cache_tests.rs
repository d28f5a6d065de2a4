use onionbell::Config;
use onionbell::Rule;
use onionbell::SoundCache;
use onionbell::Volume;

#[test]
fn cache_stores_and_returns_data() {
    let mut cache = SoundCache::new();
    let key = "/sounds/bell.mp3".to_string();
    assert!(!cache.contains_key(&key));
    assert_eq!(cache.get(&key), None);
    assert!(cache.insert(key.clone(), vec![1, 2, 3]));
    assert!(cache.contains_key(&key));
    assert_eq!(cache.get(&key), Some(&vec![1, 2, 3]));
}

#[test]
fn cache_keeps_first_data_for_a_key() {
    let mut cache = SoundCache::new();
    let key = "/sounds/bell.mp3".to_string();
    assert!(cache.insert(key.clone(), vec![1]));
    // A second load of the same path is not stored again.
    assert!(!cache.insert(key.clone(), vec![2]));
    assert_eq!(cache.get(&key), Some(&vec![1]));
}

#[test]
fn invalidate_removes_only_its_key() {
    let mut cache = SoundCache::new();
    let a = "/sounds/a.mp3".to_string();
    let b = "/sounds/b.mp3".to_string();
    cache.insert(a.clone(), vec![10]);
    cache.insert(b.clone(), vec![20]);
    cache.invalidate(&a);
    assert!(!cache.contains_key(&a));
    assert_eq!(cache.get(&b), Some(&vec![20]));
    // Invalidating an absent key changes nothing.
    cache.invalidate(&a);
    assert_eq!(cache.get(&b), Some(&vec![20]));
}

#[test]
fn sound_paths_lists_each_path_once() {
    let shared = "/sounds/shared.mp3".to_string();
    let config = Config {
        sound: Some(shared.clone()),
        volume: Volume::default(),
        rules: vec![
            Rule { sound: Some(shared.clone()), ..Default::default() },
            Rule { sound: None, ..Default::default() },
            Rule { sound: Some("/sounds/other.mp3".to_string()), ..Default::default() },
            Rule { sound: Some("/sounds/other.mp3".to_string()), ..Default::default() },
        ],
    };
    let paths = config.sound_paths();
    assert_eq!(paths, vec![shared, "/sounds/other.mp3".to_string()]);
}

#[test]
fn sound_paths_empty_config() {
    let config = Config::default();
    assert!(config.sound_paths().is_empty());
}
