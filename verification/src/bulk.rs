//! Bulk loading of keys, in batches of bounded size.
//!
//! The store limits the size of a transaction, so the keys go out in
//! batches, one transaction each and one after the other. Each batch is
//! atomic; the whole load is not: when a batch fails, the batches before
//! it stay committed and those after it are not sent.

use vstd::prelude::*;
use crate::error::EtcdError;
use crate::message::{views, TxnRequest, TxnRequestView};
use crate::transaction::{build_unconditional, unconditional, Mutation, MutationView};

verus! {

/// The largest number of keys that one batch holds.
pub const BATCH_SIZE: usize = 1000;

/// The number of batches that `n` keys go out in.
pub open spec fn batch_count(n: nat) -> nat {
    (n + BATCH_SIZE - 1) as nat / (BATCH_SIZE as nat)
}

/// The number of keys that the first `batches` batches of `n` keys hold.
pub open spec fn covered(n: nat, batches: nat) -> nat {
    if batches * BATCH_SIZE < n {
        batches * (BATCH_SIZE as nat)
    } else {
        n
    }
}

/// The keys of the batch with the given index, counted from zero.
pub open spec fn batch_keys(keys: Seq<Seq<u8>>, index: nat) -> Seq<Seq<u8>> {
    keys.subrange(covered(keys.len(), index) as int, covered(keys.len(), index + 1) as int)
}

/// The insertion of `key` with an empty value.
pub open spec fn insertion_of(key: Seq<u8>) -> MutationView {
    MutationView::Put { key, value: Seq::empty() }
}

/// The transaction that stores the keys of one batch, each with an empty
/// value.
pub open spec fn batch_request_for(keys: Seq<Seq<u8>>, index: nat) -> TxnRequestView {
    unconditional(batch_keys(keys, index).map_values(|k: Seq<u8>| insertion_of(k)))
}

/// Where the batch that starts at the key with index `from` lies among
/// the batches of `n` keys.
proof fn lemma_batch_at(n: nat, from: nat)
    requires
        from < n,
        from % (BATCH_SIZE as nat) == 0,
    ensures
        covered(n, batch_count(from)) == from,
        covered(n, batch_count(from) + 1) == if n - from > BATCH_SIZE {
            from + BATCH_SIZE
        } else {
            n as int
        },
        batch_count(covered(n, batch_count(from) + 1)) == batch_count(from) + 1,
        batch_count(from) < batch_count(n),
{
    let index = batch_count(from);
    assert(BATCH_SIZE == 1000);
    assert(index == (from + 999) / 1000);
    assert(index * 1000 == from);
    assert((index + 1) * 1000 == from + 1000);
}

/// Every batch but the last holds `BATCH_SIZE` keys, the last holds the
/// rest, and no batch is empty.
pub proof fn lemma_batch_sizes(keys: Seq<Seq<u8>>, index: nat)
    requires
        index < batch_count(keys.len()),
    ensures
        0 < batch_keys(keys, index).len() <= BATCH_SIZE,
        batch_keys(keys, index).len() == if index + 1 < batch_count(keys.len()) {
            BATCH_SIZE as int
        } else {
            keys.len() - index * BATCH_SIZE
        },
{
    assert(BATCH_SIZE == 1000);
    assert(index * 1000 < keys.len());
    assert((index + 1) * 1000 == index * 1000 + 1000);
}

/// The batches follow one another through the keys: the keys of the
/// first `index` batches, then those of the next, are the keys of the
/// first `index + 1` batches.
pub proof fn lemma_batches_in_order(keys: Seq<Seq<u8>>, index: nat)
    ensures
        covered(keys.len(), index) <= covered(keys.len(), index + 1) <= keys.len(),
        keys.take(covered(keys.len(), index) as int) + batch_keys(keys, index) == keys.take(
            covered(keys.len(), index + 1) as int,
        ),
        covered(keys.len(), 0) == 0,
        covered(keys.len(), batch_count(keys.len())) == keys.len(),
{
    assert(BATCH_SIZE == 1000);
    assert((index + 1) * 1000 == index * 1000 + 1000);
    assert(batch_count(keys.len()) * 1000 >= keys.len());
    assert(keys.take(covered(keys.len(), index) as int) + batch_keys(keys, index) =~= keys.take(
        covered(keys.len(), index + 1) as int,
    ));
}

/// A bulk load that waits for the reply to the batch it sent last.
#[derive(Debug)]
pub struct BulkPut {
    keys: Vec<Vec<u8>>,
    /// The number of keys in the batches sent so far.
    sent: usize,
}

/// What a bulk load does next.
#[derive(Debug)]
pub enum BulkPutStep {
    /// Send `request`, and resume `pending` with the reply.
    Send { request: TxnRequest, pending: BulkPut },
    /// The load is over, with this outcome.
    Done(Result<(), EtcdError>),
}

impl BulkPut {
    #[verifier::type_invariant]
    spec fn awaits_reply(self) -> bool {
        &&& 0 < self.sent <= self.keys@.len()
        &&& self.sent % BATCH_SIZE == 0 || self.sent == self.keys@.len()
    }

    /// The keys to load.
    pub closed spec fn keys(&self) -> Seq<Seq<u8>> {
        views(self.keys@)
    }

    /// The number of batches sent so far.
    pub closed spec fn issued(&self) -> nat {
        batch_count(self.sent as nat)
    }

    /// Builds the batch that starts at `keys[from]`, and the load that
    /// waits for its reply.
    fn send(keys: Vec<Vec<u8>>, from: usize) -> (step: BulkPutStep)
        requires
            from < keys@.len(),
            from % BATCH_SIZE == 0,
        ensures
            step matches BulkPutStep::Send { request, pending } && request@ == batch_request_for(
                views(keys@),
                batch_count(from as nat),
            ) && pending.keys() == views(keys@) && pending.issued() == batch_count(from as nat) + 1,
    {
        let until = if keys.len() - from > BATCH_SIZE {
            from + BATCH_SIZE
        } else {
            keys.len()
        };
        let mut insertions: Vec<Mutation> = Vec::new();
        let mut i: usize = from;
        while i < until
            invariant
                from <= i <= until <= keys@.len(),
                insertions@.len() == i - from,
                forall|j: int|
                    0 <= j < i - from ==> (#[trigger] insertions@[j])@ == insertion_of(
                        keys@[from + j]@,
                    ),
            decreases until - i,
        {
            insertions.push(
                Mutation::Put {
                    key: vstd::slice::slice_to_vec(keys[i].as_slice()),
                    value: Vec::new(),
                },
            );
            i += 1;
        }
        proof {
            lemma_batch_at(keys@.len() as nat, from as nat);
            assert(views(insertions@) =~= batch_keys(
                views(keys@),
                batch_count(from as nat),
            ).map_values(|k: Seq<u8>| insertion_of(k)));
        }
        let request = build_unconditional(insertions);
        BulkPutStep::Send { request, pending: BulkPut { keys, sent: until } }
    }

    /// Starts the load of `keys`: the first batch to send, or the end of
    /// a load without keys.
    pub fn start(keys: Vec<Vec<u8>>) -> (step: BulkPutStep)
        ensures
            match step {
                BulkPutStep::Send { request, pending } => {
                    &&& keys@.len() > 0
                    &&& request@ == batch_request_for(views(keys@), 0)
                    &&& pending.keys() == views(keys@)
                    &&& pending.issued() == 1
                },
                BulkPutStep::Done(outcome) => keys@.len() == 0 && outcome is Ok,
            },
    {
        if keys.len() == 0 {
            BulkPutStep::Done(Ok(()))
        } else {
            BulkPut::send(keys, 0)
        }
    }

    /// Takes the reply to the batch sent last. A failed batch ends the
    /// load with its status; after a batch that went through, the next
    /// batch goes out, and the load is over when none is left.
    pub fn resume<T>(self, reply: Result<T, tonic::Status>) -> (step: BulkPutStep)
        ensures
            0 < self.issued() <= batch_count(self.keys().len()),
            match reply {
                Ok(_) => if self.issued() < batch_count(self.keys().len()) {
                    step matches BulkPutStep::Send { request, pending } && request@
                        == batch_request_for(self.keys(), self.issued()) && pending.keys()
                        == self.keys() && pending.issued() == self.issued() + 1
                } else {
                    step matches BulkPutStep::Done(outcome) && outcome is Ok
                },
                Err(status) => step == BulkPutStep::Done(Err(EtcdError::Grpc(status))),
            },
    {
        proof {
            use_type_invariant(&self);
        }
        match reply {
            Ok(_) => {
                if self.sent < self.keys.len() {
                    BulkPut::send(self.keys, self.sent)
                } else {
                    BulkPutStep::Done(Ok(()))
                }
            },
            Err(status) => BulkPutStep::Done(Err(EtcdError::Grpc(status))),
        }
    }
}

} // verus!
