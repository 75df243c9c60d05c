use terrarium::pipeline_cache::{CacheLookup, LabelCache};

#[test]
fn labels_are_built_once_and_shared() {
    let mut cache = LabelCache::new();
    assert_eq!(cache.lookup("terrarium::bloom_downsample"), CacheLookup::Created(0));
    assert_eq!(cache.lookup("terrarium::bloom_upsample"), CacheLookup::Created(1));
    assert_eq!(cache.lookup("terrarium::bloom_downsample"), CacheLookup::Cached(0));
    assert_eq!(cache.lookup("terrarium::bloom_upsample"), CacheLookup::Cached(1));
    assert_eq!(cache.lookup(""), CacheLookup::Created(2));
    assert_eq!(cache.lookup(""), CacheLookup::Cached(2));
    assert_eq!(cache.len(), 3);
}
