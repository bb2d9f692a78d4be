use vstd::prelude::*;
use crate::serialization::protobuf::Value;

verus! {

/// A way to fold inputs into an accumulator and to read a result off it.
///
/// Accumulators that were filled apart can be merged. Merging is associative
/// and commutative, the fresh accumulator is neutral for it, and adding an
/// input is merging with the accumulator that holds that input alone: so the
/// result does not depend on how the inputs were ordered or batched.
pub trait Aggregator {
    type Input: View;

    type Accumulator: Value;

    type Result: View;

    /// The accumulator that no input was added to.
    spec fn initial() -> <Self::Accumulator as View>::V;

    /// The accumulator after one more input.
    spec fn added(
        acc: <Self::Accumulator as View>::V,
        input: <Self::Input as View>::V,
    ) -> <Self::Accumulator as View>::V;

    /// The accumulator that stands for the inputs of both.
    spec fn merged(
        fst: <Self::Accumulator as View>::V,
        snd: <Self::Accumulator as View>::V,
    ) -> <Self::Accumulator as View>::V;

    /// The result that an accumulator stands for.
    spec fn result_of(acc: <Self::Accumulator as View>::V) -> <Self::Result as View>::V;

    proof fn merge_is_commutative(
        fst: <Self::Accumulator as View>::V,
        snd: <Self::Accumulator as View>::V,
    )
        ensures
            Self::merged(fst, snd) == Self::merged(snd, fst),
    ;

    proof fn merge_is_associative(
        a: <Self::Accumulator as View>::V,
        b: <Self::Accumulator as View>::V,
        c: <Self::Accumulator as View>::V,
    )
        ensures
            Self::merged(Self::merged(a, b), c) == Self::merged(a, Self::merged(b, c)),
    ;

    proof fn initial_is_neutral(acc: <Self::Accumulator as View>::V)
        ensures
            Self::merged(Self::initial(), acc) == acc,
    ;

    proof fn add_is_merge(acc: <Self::Accumulator as View>::V, input: <Self::Input as View>::V)
        ensures
            Self::added(acc, input) == Self::merged(acc, Self::added(Self::initial(), input)),
    ;

    fn create_accumulator(&self) -> (acc: Self::Accumulator)
        ensures
            acc@ == Self::initial(),
    ;

    fn add(&self, acc: &mut Self::Accumulator, value: Self::Input)
        ensures
            final(acc)@ == Self::added(old(acc)@, value@),
    ;

    fn merge_accumulators(&self, fst: Self::Accumulator, snd: Self::Accumulator) -> (acc:
        Self::Accumulator)
        ensures
            acc@ == Self::merged(fst@, snd@),
    ;

    fn accumulator_into_result(&self, acc: Self::Accumulator) -> (result: Self::Result)
        ensures
            result@ == Self::result_of(acc@),
    ;
}

/// The accumulator that the inputs leave when they are added one after the
/// other to a fresh one.
pub open spec fn accumulated<A: Aggregator>(inputs: Seq<<A::Input as View>::V>) -> <
    A::Accumulator as View
>::V
    decreases inputs.len(),
{
    if inputs.len() == 0 {
        A::initial()
    } else {
        A::added(accumulated::<A>(inputs.drop_last()), inputs.last())
    }
}

/// Inputs that are accumulated in two batches and merged give the accumulator
/// of all of them.
pub proof fn law_batches_merge<A: Aggregator>(
    fst: Seq<<A::Input as View>::V>,
    snd: Seq<<A::Input as View>::V>,
)
    ensures
        A::merged(accumulated::<A>(fst), accumulated::<A>(snd)) == accumulated::<A>(fst + snd),
        A::result_of(A::merged(accumulated::<A>(fst), accumulated::<A>(snd))) == A::result_of(
            accumulated::<A>(fst + snd),
        ),
    decreases snd.len(),
{
    if snd.len() == 0 {
        assert(fst + snd =~= fst);
        A::merge_is_commutative(accumulated::<A>(fst), A::initial());
        A::initial_is_neutral(accumulated::<A>(fst));
    } else {
        let rest = snd.drop_last();
        let x = snd.last();
        assert((fst + snd).drop_last() =~= fst + rest);
        assert((fst + snd).last() == x);
        law_batches_merge::<A>(fst, rest);
        let single = A::added(A::initial(), x);
        A::add_is_merge(accumulated::<A>(fst + rest), x);
        A::merge_is_associative(accumulated::<A>(fst), accumulated::<A>(rest), single);
        A::add_is_merge(accumulated::<A>(rest), x);
    }
}

/// An input can be moved to the end without changing the accumulator.
pub proof fn lemma_input_moves_last<A: Aggregator>(inputs: Seq<<A::Input as View>::V>, i: int)
    requires
        0 <= i < inputs.len(),
    ensures
        accumulated::<A>(inputs) == A::added(accumulated::<A>(inputs.remove(i)), inputs[i]),
{
    let head = inputs.take(i);
    let upto = inputs.take(i + 1);
    let tail = inputs.skip(i + 1);
    let x = inputs[i];
    let single = A::added(A::initial(), x);
    assert(upto + tail =~= inputs);
    assert(head + tail =~= inputs.remove(i));
    assert(upto.drop_last() =~= head);
    assert(upto.last() == x);
    law_batches_merge::<A>(upto, tail);
    law_batches_merge::<A>(head, tail);
    A::add_is_merge(accumulated::<A>(head), x);
    A::merge_is_associative(accumulated::<A>(head), single, accumulated::<A>(tail));
    A::merge_is_commutative(single, accumulated::<A>(tail));
    A::merge_is_associative(accumulated::<A>(head), accumulated::<A>(tail), single);
    A::add_is_merge(accumulated::<A>(head + tail), x);
}

/// The same inputs in another order give the same accumulator, and so the
/// same result.
pub proof fn law_order_is_irrelevant<A: Aggregator>(
    fst: Seq<<A::Input as View>::V>,
    snd: Seq<<A::Input as View>::V>,
)
    requires
        fst.to_multiset() == snd.to_multiset(),
    ensures
        accumulated::<A>(fst) == accumulated::<A>(snd),
        A::result_of(accumulated::<A>(fst)) == A::result_of(accumulated::<A>(snd)),
    decreases fst.len(),
{
    broadcast use vstd::seq_lib::group_to_multiset_ensures;

    assert(fst.to_multiset().len() == fst.len());
    assert(snd.to_multiset().len() == snd.len());
    if fst.len() == 0 {
        assert(snd =~= fst);
    } else {
        let x = fst.last();
        let rest = fst.drop_last();
        assert(rest.push(x) =~= fst);
        assert(fst.to_multiset().count(x) > 0);
        assert(snd.contains(x));
        let i = choose|i: int| 0 <= i < snd.len() && snd[i] == x;
        assert(rest.to_multiset() =~= fst.to_multiset().remove(x));
        assert(snd.remove(i).to_multiset() =~= snd.to_multiset().remove(x));
        law_order_is_irrelevant::<A>(rest, snd.remove(i));
        lemma_input_moves_last::<A>(snd, i);
    }
}

/// The byte at a position of an accumulator, zero past its end.
pub open spec fn byte_at(bytes: Seq<u8>, i: int) -> u8 {
    if 0 <= i < bytes.len() {
        bytes[i]
    } else {
        0
    }
}

/// The bytewise exclusive or of two byte strings, the shorter one extended with zeros.
pub open spec fn xor_bytes(fst: Seq<u8>, snd: Seq<u8>) -> Seq<u8> {
    Seq::new(
        if fst.len() >= snd.len() {
            fst.len()
        } else {
            snd.len()
        },
        |i: int| byte_at(fst, i) ^ byte_at(snd, i),
    )
}

pub proof fn lemma_xor_byte_at(fst: Seq<u8>, snd: Seq<u8>, i: int)
    ensures
        byte_at(xor_bytes(fst, snd), i) == byte_at(fst, i) ^ byte_at(snd, i),
{
    assert(0u8 ^ 0u8 == 0u8) by (bit_vector);
}

/// Computes the bytewise exclusive or of two byte strings.
pub fn xor_merge(fst: &Vec<u8>, snd: &Vec<u8>) -> (merged: Vec<u8>)
    ensures
        merged@ == xor_bytes(fst@, snd@),
{
    let n = if fst.len() >= snd.len() {
        fst.len()
    } else {
        snd.len()
    };
    let mut merged: Vec<u8> = Vec::new();
    let mut i: usize = 0;
    while i < n
        invariant
            i <= n,
            n == xor_bytes(fst@, snd@).len(),
            merged@.len() == i,
            forall|j: int| 0 <= j < i ==> merged@[j] == xor_bytes(fst@, snd@)[j],
        decreases n - i,
    {
        let a: u8 = if i < fst.len() {
            fst[i]
        } else {
            0
        };
        let b: u8 = if i < snd.len() {
            snd[i]
        } else {
            0
        };
        merged.push(a ^ b);
        i = i + 1;
    }
    assert(merged@ =~= xor_bytes(fst@, snd@));
    merged
}

/// Folds byte strings into their bytewise exclusive or.
pub struct XorAggregator;

impl Aggregator for XorAggregator {
    type Input = Vec<u8>;

    type Accumulator = Vec<u8>;

    type Result = Vec<u8>;

    open spec fn initial() -> Seq<u8> {
        Seq::empty()
    }

    open spec fn added(acc: Seq<u8>, input: Seq<u8>) -> Seq<u8> {
        xor_bytes(acc, input)
    }

    open spec fn merged(fst: Seq<u8>, snd: Seq<u8>) -> Seq<u8> {
        xor_bytes(fst, snd)
    }

    open spec fn result_of(acc: Seq<u8>) -> Seq<u8> {
        acc
    }

    proof fn merge_is_commutative(fst: Seq<u8>, snd: Seq<u8>) {
        assert forall|i: int| 0 <= i < xor_bytes(fst, snd).len() implies xor_bytes(fst, snd)[i]
            == xor_bytes(snd, fst)[i] by {
            let x = byte_at(fst, i);
            let y = byte_at(snd, i);
            assert(x ^ y == y ^ x) by (bit_vector);
        }
        assert(xor_bytes(fst, snd) =~= xor_bytes(snd, fst));
    }

    proof fn merge_is_associative(a: Seq<u8>, b: Seq<u8>, c: Seq<u8>) {
        let left = xor_bytes(xor_bytes(a, b), c);
        let right = xor_bytes(a, xor_bytes(b, c));
        assert forall|i: int| 0 <= i < left.len() implies left[i] == right[i] by {
            lemma_xor_byte_at(a, b, i);
            lemma_xor_byte_at(b, c, i);
            let x = byte_at(a, i);
            let y = byte_at(b, i);
            let z = byte_at(c, i);
            assert((x ^ y) ^ z == x ^ (y ^ z)) by (bit_vector);
        }
        assert(left =~= right);
    }

    proof fn initial_is_neutral(acc: Seq<u8>) {
        assert forall|i: int| 0 <= i < acc.len() implies xor_bytes(Seq::empty(), acc)[i]
            == acc[i] by {
            let y = acc[i];
            assert(0u8 ^ y == y) by (bit_vector);
        }
        assert(xor_bytes(Seq::empty(), acc) =~= acc);
    }

    proof fn add_is_merge(acc: Seq<u8>, input: Seq<u8>) {
        Self::initial_is_neutral(input);
    }

    fn create_accumulator(&self) -> (acc: Vec<u8>) {
        Vec::new()
    }

    fn add(&self, acc: &mut Vec<u8>, value: Vec<u8>) {
        let merged = xor_merge(acc, &value);
        *acc = merged;
    }

    fn merge_accumulators(&self, fst: Vec<u8>, snd: Vec<u8>) -> (acc: Vec<u8>) {
        xor_merge(&fst, &snd)
    }

    fn accumulator_into_result(&self, acc: Vec<u8>) -> (result: Vec<u8>) {
        acc
    }
}

} // verus!
