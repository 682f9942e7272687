use palmier_pro::cache::{cache_key, clear_preview_cache, get_cached, put_cache, FrameCache, CACHE_MAX};

#[test]
fn cache_key_format() {
    assert_eq!(cache_key("m1", 42, 1920, 1080), "m1:42:1920x1080");
    assert_eq!(cache_key("", -3, 0, 7), ":-3:0x7");
}

#[test]
fn get_after_put_gives_the_bytes() {
    let mut c = FrameCache::new();
    assert_eq!(get_cached(&c, "k"), None);
    put_cache(&mut c, "k".to_string(), vec![1, 2, 3]);
    assert_eq!(get_cached(&c, "k"), Some(vec![1, 2, 3]));
    put_cache(&mut c, "k".to_string(), vec![9]);
    assert_eq!(get_cached(&c, "k"), Some(vec![9]));
}

#[test]
fn put_keeps_other_keys() {
    let mut c = FrameCache::new();
    put_cache(&mut c, "a".to_string(), vec![1]);
    put_cache(&mut c, "b".to_string(), vec![2]);
    assert_eq!(get_cached(&c, "a"), Some(vec![1]));
    assert_eq!(get_cached(&c, "b"), Some(vec![2]));
}

#[test]
fn the_least_recent_entry_leaves_a_full_cache() {
    let mut c = FrameCache::new();
    for i in 0..CACHE_MAX {
        put_cache(&mut c, format!("k{i}"), vec![i as u8]);
    }
    assert_eq!(get_cached(&c, "k0"), Some(vec![0]));
    put_cache(&mut c, "k0".to_string(), vec![7]);
    put_cache(&mut c, "new".to_string(), vec![8]);
    assert_eq!(get_cached(&c, "k1"), None);
    assert_eq!(get_cached(&c, "k0"), Some(vec![7]));
    assert_eq!(get_cached(&c, "k2"), Some(vec![2]));
    assert_eq!(get_cached(&c, "new"), Some(vec![8]));
}

#[test]
fn clear_empties_the_cache() {
    let mut c = FrameCache::new();
    put_cache(&mut c, "a".to_string(), vec![1]);
    clear_preview_cache(&mut c);
    assert_eq!(get_cached(&c, "a"), None);
}

#[test]
fn cache_keys_of_different_frames_differ() {
    assert_ne!(cache_key("a:1", 2, 3, 4), cache_key("a", 1, 2, 34));
    assert_ne!(cache_key("x1", 0, 2, 3), cache_key("x", 10, 2, 3));
    assert_ne!(cache_key("m", 1, 2, 3), cache_key("m", 1, 23, 3));
    assert_ne!(cache_key("m", -1, 2, 3), cache_key("m", 1, 2, 3));
}

#[test]
fn a_run_of_puts_keeps_the_newest_keys() {
    let mut c = FrameCache::new();
    for i in 0..=CACHE_MAX {
        put_cache(&mut c, format!("k{i}"), vec![(i % 256) as u8]);
    }
    assert_eq!(get_cached(&c, "k0"), None);
    assert_eq!(get_cached(&c, "k1"), Some(vec![1]));
    assert_eq!(get_cached(&c, &format!("k{CACHE_MAX}")), Some(vec![(CACHE_MAX % 256) as u8]));
    for _ in 0..3 {
        assert_eq!(get_cached(&c, "k1"), Some(vec![1]));
    }
    put_cache(&mut c, "other".to_string(), vec![0]);
    assert_eq!(get_cached(&c, "k1"), None);
    assert_eq!(get_cached(&c, "k2"), Some(vec![2]));
}
