use raspivid_stream::params::ParameterCache;

#[test]
fn new_cache_is_empty() {
    let cache = ParameterCache::new();
    assert_eq!(cache.snapshot(), (None, None));
}

#[test]
fn set_picture_fills_only_the_picture_slot() {
    let mut cache = ParameterCache::new();
    cache.set_picture(&[0, 0, 0, 1, 0x67, 0x42]);
    assert_eq!(cache.snapshot(), (Some(vec![0, 0, 0, 1, 0x67, 0x42]), None));
}

#[test]
fn set_sequence_fills_only_the_sequence_slot() {
    let mut cache = ParameterCache::new();
    cache.set_sequence(&[0, 0, 0, 1, 0x68, 0xce]);
    assert_eq!(cache.snapshot(), (None, Some(vec![0, 0, 0, 1, 0x68, 0xce])));
}

#[test]
fn newer_unit_replaces_the_older_one() {
    let mut cache = ParameterCache::new();
    cache.set_picture(&[0, 0, 0, 1, 0x67, 0x01]);
    cache.set_picture(&[0, 0, 0, 1, 0x67, 0x02, 0x03]);
    cache.set_sequence(&[0, 0, 0, 1, 0x68, 0x0a]);
    cache.set_sequence(&[0, 0, 1, 0x68]);
    assert_eq!(
        cache.snapshot(),
        (Some(vec![0, 0, 0, 1, 0x67, 0x02, 0x03]), Some(vec![0, 0, 1, 0x68]))
    );
}

#[test]
fn slots_do_not_depend_on_the_order_of_arrival() {
    let mut cache = ParameterCache::new();
    cache.set_sequence(&[0, 0, 0, 1, 0x68, 0xce]);
    cache.set_picture(&[0, 0, 0, 1, 0x67, 0x42]);
    assert_eq!(
        cache.snapshot(),
        (Some(vec![0, 0, 0, 1, 0x67, 0x42]), Some(vec![0, 0, 0, 1, 0x68, 0xce]))
    );
}

#[test]
fn snapshot_is_a_copy() {
    let mut cache = ParameterCache::new();
    cache.set_picture(&[1, 2, 3]);
    let before = cache.snapshot();
    cache.set_picture(&[4, 5, 6]);
    assert_eq!(before, (Some(vec![1, 2, 3]), None));
    assert_eq!(cache.snapshot(), (Some(vec![4, 5, 6]), None));
}

#[test]
fn filled_slot_stays_filled() {
    let mut cache = ParameterCache::new();
    cache.set_picture(&[0, 0, 1, 0x67, 0x00]);
    cache.set_sequence(&[0, 0, 1, 0x68, 0x00]);
    for n in 0..10u8 {
        cache.set_picture(&[0, 0, 1, 0x67, n]);
        let (picture, sequence) = cache.snapshot();
        assert_eq!(picture, Some(vec![0, 0, 1, 0x67, n]));
        assert_eq!(sequence, Some(vec![0, 0, 1, 0x68, 0x00]));
    }
}
