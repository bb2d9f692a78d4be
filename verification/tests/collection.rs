use arcon_state::collection::{CollectionSource, SourceStep, RESCHEDULE_EVERY};

/// What one call of the source gave: the records, how many watermarks, and
/// whether it asked to be called again.
fn call(source: &mut CollectionSource<u64>) -> (Vec<u64>, usize, bool) {
    let mut data = Vec::new();
    let mut watermarks = 0;
    loop {
        match source.process_collection() {
            SourceStep::Process(record) => data.push(record),
            SourceStep::Watermark => watermarks += 1,
            SourceStep::ContinueSending => return (data, watermarks, true),
            SourceStep::LastWatermark => return (data, watermarks + 1, false),
        }
    }
}

fn run(collection: Vec<u64>, interval: u64) -> (Vec<u64>, usize, usize) {
    let mut source = CollectionSource::new(collection, interval);
    let mut data = Vec::new();
    let mut watermarks = 0;
    let mut reschedules = 0;
    loop {
        let (records, sent, again) = call(&mut source);
        data.extend(records);
        watermarks += sent;
        if !again {
            break;
        }
        reschedules += 1;
    }
    assert_eq!(source.len(), 0);
    (data, watermarks, reschedules)
}

#[test]
fn collection_source_test() {
    fn filter_fn(x: &u64) -> bool {
        *x < 1000
    }
    let watermark_interval = 50;
    let collection_elements = 2000;
    let collection: Vec<u64> = (0..collection_elements).collect();
    let (data, watermark_len, _) = run(collection, watermark_interval);
    let data_len = data.iter().filter(|x| filter_fn(x)).count();
    assert_eq!(
        watermark_len as u64,
        (collection_elements / watermark_interval) + 1
    );
    assert_eq!(data_len, 1000);
}

#[test]
fn records_come_in_their_order() {
    let (data, _, reschedules) = run(vec![3, 1, 2], 2);
    assert_eq!(data, vec![3, 1, 2]);
    assert_eq!(reschedules, 0);
}

#[test]
fn steps_of_a_small_collection() {
    let mut source = CollectionSource::new(vec![10u64, 20, 30], 2);
    assert_eq!(source.len(), 3);
    assert!(matches!(source.process_collection(), SourceStep::Process(10)));
    assert!(matches!(source.process_collection(), SourceStep::Process(20)));
    assert!(matches!(source.process_collection(), SourceStep::Watermark));
    assert!(matches!(source.process_collection(), SourceStep::Process(30)));
    assert_eq!(source.len(), 0);
    assert!(matches!(source.process_collection(), SourceStep::LastWatermark));
}

#[test]
fn every_call_on_a_used_up_collection_sends_the_last_watermark() {
    let mut source = CollectionSource::new(vec![1u64], 10);
    assert_eq!(call(&mut source), (vec![1], 1, false));
    for _ in 0..3 {
        assert_eq!(call(&mut source), (Vec::new(), 1, false));
        assert!(matches!(source.process_collection(), SourceStep::LastWatermark));
    }
    let mut empty: CollectionSource<u64> = CollectionSource::new(Vec::new(), 1);
    assert!(matches!(empty.process_collection(), SourceStep::LastWatermark));
    assert!(matches!(empty.process_collection(), SourceStep::LastWatermark));
}

#[test]
fn an_empty_collection_sends_one_watermark() {
    let (data, watermarks, reschedules) = run(Vec::new(), 10);
    assert!(data.is_empty());
    assert_eq!(watermarks, 1);
    assert_eq!(reschedules, 0);
}

#[test]
fn no_interval_means_only_the_last_watermark() {
    let (data, watermarks, _) = run((0..100).collect(), 0);
    assert_eq!(data.len(), 100);
    assert_eq!(watermarks, 1);
}

#[test]
fn a_full_interval_at_the_end_sends_two_watermarks_in_a_row() {
    let mut source = CollectionSource::new(vec![1u64, 2], 2);
    assert!(matches!(source.process_collection(), SourceStep::Process(1)));
    assert!(matches!(source.process_collection(), SourceStep::Process(2)));
    assert!(matches!(source.process_collection(), SourceStep::Watermark));
    assert!(matches!(source.process_collection(), SourceStep::LastWatermark));
    assert!(matches!(source.process_collection(), SourceStep::LastWatermark));
}

#[test]
fn watermark_counts_follow_the_formula() {
    for (total, interval) in [(0u64, 1u64), (1, 1), (7, 3), (9, 3), (10, 3), (100, 7), (5, 100)] {
        let (data, watermarks, _) = run((0..total).collect(), interval);
        assert_eq!(data.len() as u64, total);
        assert_eq!(watermarks as u64, total / interval + 1);
    }
}

#[test]
fn a_long_collection_is_handed_out_in_batches() {
    let total = RESCHEDULE_EVERY as u64 * 2 + 5;
    let mut source = CollectionSource::new((0..total).collect(), 100000);
    let (first, sent, again) = call(&mut source);
    assert_eq!(first.len(), RESCHEDULE_EVERY);
    assert_eq!(sent, 5);
    assert!(again);
    let (second, sent, again) = call(&mut source);
    assert_eq!(second.len(), RESCHEDULE_EVERY);
    assert_eq!(second[0], RESCHEDULE_EVERY as u64);
    assert_eq!(sent, 5);
    assert!(again);
    let (third, sent, again) = call(&mut source);
    assert_eq!(third, vec![total - 5, total - 4, total - 3, total - 2, total - 1]);
    assert_eq!(sent, 1);
    assert!(!again);
    let (data, watermarks, reschedules) = run((0..total).collect(), 100000);
    assert_eq!(data.len() as u64, total);
    assert_eq!(reschedules, 2);
    assert_eq!(watermarks as u64, total / 100000 + 1);
}

#[test]
fn a_collection_of_exactly_one_batch_is_not_rescheduled() {
    let total = RESCHEDULE_EVERY as u64;
    let (data, watermarks, reschedules) = run((0..total).collect(), 0);
    assert_eq!(data.len() as u64, total);
    assert_eq!(reschedules, 0);
    assert_eq!(watermarks, 1);
}
