use arcon_state::aggregator::{xor_merge, Aggregator, XorAggregator};

fn fold(inputs: &[Vec<u8>]) -> Vec<u8> {
    let aggregator = XorAggregator;
    let mut acc = aggregator.create_accumulator();
    for input in inputs {
        aggregator.add(&mut acc, input.clone());
    }
    acc
}

fn inputs() -> Vec<Vec<u8>> {
    vec![
        vec![0x01, 0x02, 0x03],
        vec![0xff],
        vec![],
        vec![0x10, 0x20, 0x30, 0x40, 0x50],
        vec![0x0f, 0xf0],
    ]
}

#[test]
fn xor_extends_the_shorter_operand_with_zeros() {
    assert_eq!(xor_merge(&vec![0b1100, 0b1010], &vec![0b1010]), vec![0b0110, 0b1010]);
    assert_eq!(xor_merge(&vec![0b1010], &vec![0b1100, 0b1010]), vec![0b0110, 0b1010]);
    assert_eq!(xor_merge(&vec![], &vec![1, 2]), vec![1, 2]);
    assert_eq!(xor_merge(&vec![1, 2], &vec![]), vec![1, 2]);
    assert_eq!(xor_merge(&vec![], &vec![]), Vec::<u8>::new());
    assert_eq!(xor_merge(&vec![5, 5], &vec![5, 5]), vec![0, 0]);
}

#[test]
fn the_fresh_accumulator_is_empty() {
    let aggregator = XorAggregator;
    assert_eq!(aggregator.create_accumulator(), Vec::<u8>::new());
    assert_eq!(aggregator.accumulator_into_result(vec![1, 2]), vec![1, 2]);
}

#[test]
fn merge_is_commutative_and_associative() {
    let aggregator = XorAggregator;
    let values = inputs();
    for a in &values {
        for b in &values {
            assert_eq!(
                aggregator.merge_accumulators(a.clone(), b.clone()),
                aggregator.merge_accumulators(b.clone(), a.clone())
            );
            for c in &values {
                let left = aggregator.merge_accumulators(
                    aggregator.merge_accumulators(a.clone(), b.clone()),
                    c.clone(),
                );
                let right = aggregator.merge_accumulators(
                    a.clone(),
                    aggregator.merge_accumulators(b.clone(), c.clone()),
                );
                assert_eq!(left, right);
            }
        }
    }
}

#[test]
fn batching_does_not_change_the_result() {
    let aggregator = XorAggregator;
    let values = inputs();
    let whole = fold(&values);
    assert_eq!(whole, vec![0xe1, 0xd2, 0x33, 0x40, 0x50]);
    for split in 0..=values.len() {
        let merged = aggregator.merge_accumulators(fold(&values[..split]), fold(&values[split..]));
        assert_eq!(aggregator.accumulator_into_result(merged), whole);
    }
    let thirds = aggregator.merge_accumulators(
        fold(&values[..1]),
        aggregator.merge_accumulators(fold(&values[1..3]), fold(&values[3..])),
    );
    assert_eq!(thirds, whole);
}

#[test]
fn order_does_not_change_the_result() {
    let values = inputs();
    let whole = fold(&values);
    let mut reversed = values.clone();
    reversed.reverse();
    assert_eq!(fold(&reversed), whole);
    let mut rotated = values.clone();
    rotated.rotate_left(2);
    assert_eq!(fold(&rotated), whole);
    let mut swapped = values;
    swapped.swap(0, 3);
    assert_eq!(fold(&swapped), whole);
}
