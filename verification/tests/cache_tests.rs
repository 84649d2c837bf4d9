use wav_core::AudioError;
use wav_core::cache::CircularSampleCache;
use wav_core::rta::{RTA, select_input_config};

#[test]
fn absorbed_chunks_become_the_newest_entries() {
    // Capacity 8, absorbing [1,2,3] then [4,5]: the snapshot holds the
    // absorbed samples oldest-first, with the remaining zero-filled slots
    // last until the ring has been filled once.
    let mut cache = CircularSampleCache::new(8, 0i32);
    assert!(cache.absorb(&[1, 2, 3]).is_ok());
    assert_eq!(cache.snapshot(), vec![1, 2, 3, 0, 0, 0, 0, 0]);
    assert!(cache.absorb(&[4, 5]).is_ok());
    assert_eq!(cache.snapshot(), vec![1, 2, 3, 4, 5, 0, 0, 0]);
}

#[test]
fn a_wrap_evicts_exactly_the_oldest_samples() {
    let mut cache = CircularSampleCache::new(4, 0i32);
    assert!(cache.absorb(&[1, 2, 3, 4]).is_ok());
    assert!(cache.absorb(&[5]).is_ok());
    assert_eq!(cache.snapshot(), vec![2, 3, 4, 5]);
}

#[test]
fn oversized_chunk_is_refused() {
    let mut cache = CircularSampleCache::new(8, 0i32);
    let r = cache.absorb(&[1, 2, 3, 4, 5, 6, 7, 8, 9]);
    assert_eq!(r, Err(AudioError::OversizedChunk));
    assert_eq!(cache.snapshot(), vec![0; 8]);
}

#[test]
fn chunk_of_full_capacity_replaces_everything() {
    let mut cache = CircularSampleCache::new(4, 0i32);
    assert!(cache.absorb(&[7]).is_ok());
    assert!(cache.absorb(&[1, 2, 3, 4]).is_ok());
    assert_eq!(cache.snapshot(), vec![1, 2, 3, 4]);
}

#[test]
fn empty_chunk_changes_nothing() {
    let mut cache = CircularSampleCache::new(4, 0i32);
    assert!(cache.absorb(&[5, 6]).is_ok());
    let before = cache.snapshot();
    assert!(cache.absorb(&[]).is_ok());
    assert_eq!(cache.snapshot(), before);
}

#[test]
fn unwritten_positions_keep_the_fill_value() {
    let mut cache = CircularSampleCache::new(5, 9i32);
    assert!(cache.absorb(&[1]).is_ok());
    let snap = cache.snapshot();
    assert_eq!(snap.iter().filter(|&&s| s == 9).count(), 4);
    assert_eq!(cache.capacity(), 5);
}

#[test]
fn float_samples_ride_the_same_ring() {
    let mut cache = CircularSampleCache::new(3, 0.0f32);
    assert!(cache.absorb(&[0.5f32]).is_ok());
    let snap = cache.snapshot();
    assert_eq!(snap.iter().filter(|&&s| s == 0.5).count(), 1);
}

#[test]
fn feed_then_analyze_sees_the_fed_samples() {
    let mut rta = RTA::new(4, 48000, 0i32);
    assert!(rta.update(&[1, 2]).is_ok());
    let window = rta.analysis_window();
    assert_eq!(window.len(), 4);
    assert!(window.contains(&1));
    assert!(window.contains(&2));
    assert_eq!(rta.cache_size(), 4);
    assert_eq!(rta.sample_rate(), 48000);
}

#[test]
fn oversized_feed_is_refused() {
    let mut rta = RTA::new(2, 8000, 0i32);
    assert_eq!(rta.update(&[1, 2, 3]), Err(AudioError::OversizedChunk));
}

#[test]
fn stop_preserves_the_analysis_window() {
    let mut rta = RTA::new(4, 44100, 0i32);
    rta.start();
    assert!(rta.active());
    assert!(rta.update(&[1, 2, 3]).is_ok());
    let before = rta.analysis_window();
    rta.stop();
    assert!(!rta.active());
    assert_eq!(rta.analysis_window(), before);
}

#[test]
fn input_config_prefers_the_highest_rate_at_or_below_48k() {
    assert_eq!(select_input_config(&vec![44100, 48000, 96000]), Some(1));
    assert_eq!(select_input_config(&vec![48000, 44100]), Some(0));
    assert_eq!(select_input_config(&vec![8000, 96000, 22050]), Some(2));
    assert_eq!(select_input_config(&vec![96000, 192000]), None);
    assert_eq!(select_input_config(&vec![]), None);
}
