use vstd::prelude::*;

verus! {

/// After how many records of one batch a source lets other work run.
pub const RESCHEDULE_EVERY: usize = 500000;

/// What the driver of a source has to do next. A call of the source is the
/// run of steps up to the first that ends it.
pub enum SourceStep<T> {
    /// Hand the record to the operator.
    Process(T),
    /// Send a watermark downstream.
    Watermark,
    /// Ask to be called again later; this ends the call.
    ContinueSending,
    /// Send the watermark that ends the input; this ends the call. Every
    /// call that finds the collection used up comes to this.
    LastWatermark,
}

/// How many watermarks a source sends for a collection of `total` records:
/// one after every `interval` records, and one at the end.
pub open spec fn watermarks_for(total: nat, interval: u64) -> int {
    if interval > 0 {
        total as int / interval as int + 1
    } else {
        1
    }
}

/// A source that hands out the records of a collection in their order, in
/// batches of at most `RESCHEDULE_EVERY`, with a watermark after every
/// `watermark_interval` records and one after the last record. A call is
/// the run of steps up to `ContinueSending` or `LastWatermark`; every call
/// that finds the collection used up sends the watermark that ends the input.
pub struct CollectionSource<T> {
    /// The records that are left, the next one last.
    records: Vec<T>,
    /// How many records were handed out since the last watermark.
    counter: usize,
    /// How many records were handed out in the call under way.
    drained: usize,
    /// A watermark is to be sent before the next record.
    due: bool,
    watermark_interval: u64,
    total: Ghost<nat>,
    processed: Ghost<nat>,
    emitted: Ghost<nat>,
    ended: Ghost<nat>,
}

impl<T> CollectionSource<T> {
    /// The records that are left, the next one first.
    pub closed spec fn remaining(&self) -> Seq<T> {
        self.records@.reverse()
    }

    /// How many records the collection had.
    pub closed spec fn total(&self) -> nat {
        self.total@
    }

    /// How many records were handed out.
    pub closed spec fn processed(&self) -> nat {
        self.processed@
    }

    /// How many watermarks were sent.
    pub closed spec fn emitted(&self) -> nat {
        self.emitted@
    }

    /// How many of the watermarks that were sent ended the input.
    pub closed spec fn ended(&self) -> nat {
        self.ended@
    }

    pub closed spec fn counter(&self) -> nat {
        self.counter as nat
    }

    pub closed spec fn drained(&self) -> nat {
        self.drained as nat
    }

    pub closed spec fn due(&self) -> bool {
        self.due
    }

    pub closed spec fn interval(&self) -> u64 {
        self.watermark_interval
    }

    /// The counts add up, and the watermarks keep pace with the records:
    /// besides those that ended the input, and with the one that is due, one
    /// was sent for every full interval.
    pub closed spec fn wf(&self) -> bool {
        let periods = self.emitted@ + (if self.due {
            1int
        } else {
            0int
        }) - self.ended@;
        &&& self.processed@ + self.records@.len() == self.total@
        &&& self.total@ <= usize::MAX
        &&& self.drained <= RESCHEDULE_EVERY
        &&& self.counter <= self.processed@
        &&& self.ended@ >= 1 ==> self.records@.len() == 0 && !self.due
        &&& self.due ==> self.counter == self.watermark_interval
        &&& periods >= 0
        &&& if self.watermark_interval > 0 {
            &&& self.processed@ == periods * self.watermark_interval + (if self.due {
                0int
            } else {
                self.counter as int
            })
            &&& self.counter <= self.watermark_interval
            &&& !self.due ==> self.counter < self.watermark_interval
        } else {
            periods == 0 && !self.due
        }
    }

    /// A watermark was sent or is due for every full interval of the records
    /// handed out, and one more for every time the input was ended. A source
    /// that has ended the input has handed out every record.
    pub proof fn law_watermarks_keep_pace(&self)
        requires
            self.wf(),
        ensures
            self.processed() + self.remaining().len() == self.total(),
            self.ended() >= 1 ==> self.processed() == self.total(),
            self.emitted() + (if self.due() {
                1int
            } else {
                0int
            }) == watermarks_for(self.processed(), self.interval()) - 1 + self.ended(),
    {
        let periods = self.emitted@ + (if self.due {
            1int
        } else {
            0int
        }) - self.ended@;
        if self.watermark_interval > 0 {
            let rest = if self.due {
                0int
            } else {
                self.counter as int
            };
            vstd::arithmetic::div_mod::lemma_fundamental_div_mod_converse(
                self.processed@ as int,
                self.watermark_interval as int,
                periods,
                rest,
            );
        }
    }

    /// A source at the start of the collection.
    pub fn new(collection: Vec<T>, watermark_interval: u64) -> (source: Self)
        ensures
            source.wf(),
            source.remaining() == collection@,
            source.total() == collection@.len(),
            source.processed() == 0,
            source.emitted() == 0,
            source.ended() == 0,
            source.counter() == 0,
            source.drained() == 0,
            !source.due(),
            source.interval() == watermark_interval,
    {
        let mut collection = collection;
        let ghost all = collection@;
        let mut records: Vec<T> = Vec::new();
        while collection.len() > 0
            invariant
                collection@.len() + records@.len() == all.len(),
                collection@ == all.take(collection@.len() as int),
                forall|i: int|
                    0 <= i < records@.len() ==> #[trigger] records@[i] == all[all.len() - 1 - i],
            decreases collection@.len(),
        {
            let record = collection.pop().unwrap();
            records.push(record);
        }
        let count = records.len();
        assert(count == all.len());
        assert(records@.reverse() =~= all);
        assert(0int * (watermark_interval as int) == 0) by (nonlinear_arith);
        CollectionSource {
            records,
            counter: 0,
            drained: 0,
            due: false,
            watermark_interval,
            total: Ghost(all.len()),
            processed: Ghost(0),
            emitted: Ghost(0),
            ended: Ghost(0),
        }
    }

    /// How many records are left.
    pub fn len(&self) -> (len: usize)
        ensures
            len == self.remaining().len(),
    {
        self.records.len()
    }

    /// What to do next. Records come in their order; a watermark follows
    /// every `interval`-th record; after `RESCHEDULE_EVERY` records of one
    /// call the source asks to be called again; where no record is left, the
    /// watermark that ends the input is sent, in every call that finds it so.
    /// The first time the input is ended, the source has sent
    /// `watermarks_for(total, interval)` watermarks.
    pub fn process_collection(&mut self) -> (step: SourceStep<T>)
        requires
            old(self).wf(),
        ensures
            final(self).wf(),
            final(self).total() == old(self).total(),
            final(self).interval() == old(self).interval(),
            step is LastWatermark && final(self).ended() == 1 ==> final(self).emitted()
                == watermarks_for(final(self).total(), final(self).interval()),
            old(self).due() ==> {
                &&& step is Watermark
                &&& final(self).remaining() == old(self).remaining()
                &&& final(self).processed() == old(self).processed()
                &&& final(self).emitted() == old(self).emitted() + 1
                &&& final(self).ended() == old(self).ended()
                &&& final(self).counter() == 0
                &&& final(self).drained() == old(self).drained()
                &&& !final(self).due()
            },
            !old(self).due() && old(self).remaining().len() > 0 && old(self).drained()
                < RESCHEDULE_EVERY ==> {
                &&& step matches SourceStep::Process(record)
                &&& record == old(self).remaining().first()
                &&& final(self).remaining() == old(self).remaining().drop_first()
                &&& final(self).processed() == old(self).processed() + 1
                &&& final(self).emitted() == old(self).emitted()
                &&& final(self).ended() == old(self).ended()
                &&& final(self).counter() == old(self).counter() + 1
                &&& final(self).drained() == old(self).drained() + 1
                &&& final(self).due() == (old(self).counter() + 1 == old(self).interval())
            },
            !old(self).due() && old(self).remaining().len() > 0 && old(self).drained()
                >= RESCHEDULE_EVERY ==> {
                &&& step is ContinueSending
                &&& final(self).remaining() == old(self).remaining()
                &&& final(self).processed() == old(self).processed()
                &&& final(self).emitted() == old(self).emitted()
                &&& final(self).ended() == old(self).ended()
                &&& final(self).counter() == old(self).counter()
                &&& final(self).drained() == 0
                &&& !final(self).due()
            },
            !old(self).due() && old(self).remaining().len() == 0 ==> {
                &&& step is LastWatermark
                &&& final(self).remaining() == old(self).remaining()
                &&& final(self).processed() == old(self).processed()
                &&& final(self).emitted() == old(self).emitted() + 1
                &&& final(self).ended() == old(self).ended() + 1
                &&& final(self).counter() == old(self).counter()
                &&& final(self).drained() == 0
                &&& !final(self).due()
            },
    {
        let ghost interval = self.watermark_interval as int;
        let ghost periods = self.emitted@ + (if self.due {
            1int
        } else {
            0int
        }) - self.ended@;
        if self.due {
            self.due = false;
            self.counter = 0;
            self.emitted = Ghost((self.emitted@ + 1) as nat);
            return SourceStep::Watermark;
        }
        if self.records.len() == 0 {
            self.drained = 0;
            self.emitted = Ghost((self.emitted@ + 1) as nat);
            self.ended = Ghost((self.ended@ + 1) as nat);
            proof {
                self.law_watermarks_keep_pace();
            }
            return SourceStep::LastWatermark;
        }
        if self.drained >= RESCHEDULE_EVERY {
            self.drained = 0;
            return SourceStep::ContinueSending;
        }
        let ghost before = self.records@;
        let record = self.records.pop().unwrap();
        self.counter = self.counter + 1;
        self.drained = self.drained + 1;
        self.processed = Ghost(self.processed@ + 1);
        if self.counter as u64 == self.watermark_interval {
            self.due = true;
        }
        proof {
            assert(self.records@.reverse() =~= before.reverse().drop_first());
            assert(before.reverse().first() == record);
            assert((periods + 1) * interval == periods * interval + interval) by (nonlinear_arith);
        }
        SourceStep::Process(record)
    }
}

} // verus!
