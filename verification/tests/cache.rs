use glyph_atlas::cache::{Cache, PipelineSlot};

#[test]
fn new_cache_knows_no_pipeline() {
    let cache = Cache::new();
    assert_eq!(cache.len(), 0);
    assert_eq!(cache.find(80, 1), None);
}

#[test]
fn pipeline_is_created_once() {
    let mut cache = Cache::new();
    assert_eq!(cache.get_or_create_pipeline(80, 1), PipelineSlot { index: 0, created: true });
    assert_eq!(cache.get_or_create_pipeline(80, 1), PipelineSlot { index: 0, created: false });
    assert_eq!(cache.len(), 1);
}

#[test]
fn pipelines_differ_by_format_and_sample_count() {
    let mut cache = Cache::new();
    assert_eq!(cache.get_or_create_pipeline(80, 1), PipelineSlot { index: 0, created: true });
    assert_eq!(cache.get_or_create_pipeline(80, 4), PipelineSlot { index: 1, created: true });
    assert_eq!(cache.get_or_create_pipeline(70, 4), PipelineSlot { index: 2, created: true });
    assert_eq!(cache.get_or_create_pipeline(80, 4), PipelineSlot { index: 1, created: false });
    assert_eq!(cache.find(70, 4), Some(2));
    assert_eq!(cache.find(80, 1), Some(0));
    assert_eq!(cache.find(70, 1), None);
    assert_eq!(cache.find(1, 80), None);
    assert_eq!(cache.len(), 3);
}
