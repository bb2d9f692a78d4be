use vstd::prelude::*;

verus! {

/// fastrand's generator; nothing is known of its state.
#[verifier::external_type_specification]
#[verifier::external_body]
pub struct ExRng(fastrand::Rng);

/// Calls fastrand's `Rng::new`: a generator with a seed of its own. Nothing is
/// known of what it will give.
#[verifier::external_body]
pub(crate) fn new_rng() -> fastrand::Rng {
    fastrand::Rng::new()
}

/// Calls fastrand's `Rng::u8` on the full range: any byte may come back.
#[verifier::external_body]
pub(crate) fn random_byte(rng: &fastrand::Rng) -> u8 {
    rng.u8(..)
}

/// As many random bytes as asked for.
pub fn random_bytes(rng: &fastrand::Rng, len: usize) -> (bytes: Vec<u8>)
    ensures
        bytes@.len() == len,
{
    let mut bytes: Vec<u8> = Vec::new();
    let mut i: usize = 0;
    while i < len
        invariant
            i <= len,
            bytes@.len() == i,
        decreases len - i,
    {
        bytes.push(random_byte(rng));
        i = i + 1;
    }
    bytes
}

/// As many random records as asked for, each a key and a value of `size` bytes.
pub fn random_records(rng: &fastrand::Rng, count: usize, size: usize) -> (records: Vec<
    (Vec<u8>, Vec<u8>),
>)
    ensures
        records@.len() == count,
        forall|i: int|
            0 <= i < count ==> (#[trigger] records@[i]).0@.len() == size && records@[i].1@.len()
                == size,
{
    let mut records: Vec<(Vec<u8>, Vec<u8>)> = Vec::new();
    let mut i: usize = 0;
    while i < count
        invariant
            i <= count,
            records@.len() == i,
            forall|j: int|
                0 <= j < i ==> (#[trigger] records@[j]).0@.len() == size && records@[j].1@.len()
                    == size,
        decreases count - i,
    {
        let key = random_bytes(rng, size);
        let value = random_bytes(rng, size);
        records.push((key, value));
        i = i + 1;
    }
    records
}

} // verus!
