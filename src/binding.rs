use vstd::prelude::*;

use crate::provenance::{provenance_of, RawLog, TxInformation, H256};

verus! {

/// Turns the topics and data of a log into the typed payload of one event
/// kind. Decoders come from the contract's ABI; a payload that does not fit
/// the event's layout yields `None`. Decoding has no side effects: its result
/// depends on the decoder, the topics and the data alone.
pub trait LogDecoder {
    type Payload;

    /// What this decoder makes of `topics` and `data`. Nothing is known of it
    /// but that it is determined by the decoder, the topics and the data.
    open spec fn decoded(&self, topics: Seq<H256>, data: Seq<u8>) -> Option<Self::Payload> {
        choose|r: Option<Self::Payload>| #[trigger] decoding_of(self, topics, data, r)
    }

    fn decode(&self, topics: &Vec<H256>, data: &Vec<u8>) -> (r: Option<Self::Payload>)
        ensures
            r == self.decoded(topics@, data@),
    ;
}

/// Any result is a candidate for what `decoder` makes of `topics` and `data`:
/// the result is chosen per decoder, topics and data, and left unknown.
pub open spec fn decoding_of<D: ?Sized, P>(decoder: &D, topics: Seq<H256>, data: Seq<u8>, r: Option<P>) -> bool {
    true
}

/// One deployment of a contract: the network and address it lives at, the
/// decoder for its events, and the block range and polling interval to index.
#[derive(Clone)]
pub struct NetworkContract<D> {
    pub network: String,
    pub address: String,
    pub decoder: D,
    pub start_block: Option<u64>,
    pub end_block: Option<u64>,
    pub polling_every: Option<u64>,
}

/// One logical contract, by name and ABI, with its deployments.
#[derive(Clone)]
pub struct ContractInformation<D> {
    pub name: String,
    pub details: Vec<NetworkContract<D>>,
    pub abi: String,
}

impl<D> ContractInformation<D> {
    /// A contract is deployed on at least one network.
    pub open spec fn well_formed(&self) -> bool {
        self.details@.len() > 0
    }

    /// The contract `name` with ABI `abi`, deployed as `details`; `None` when
    /// it is deployed nowhere.
    pub fn new(name: String, details: Vec<NetworkContract<D>>, abi: String) -> (r: Option<Self>)
        ensures
            r is None <==> details@.len() == 0,
            r matches Some(c) ==> c.well_formed() && c.name == name && c.details == details
                && c.abi == abi,
    {
        if details.len() == 0 {
            None
        } else {
            Some(ContractInformation { name, details, abi })
        }
    }
}

/// A decoded payload with the provenance of the log it came from.
pub struct EventResult<P> {
    pub decoded_data: P,
    pub tx_information: TxInformation,
}

/// A log of a batch whose payload could not be decoded: the topic it was
/// dispatched under and its place in the batch.
pub struct DecodeFailure {
    pub topic_id: String,
    pub index: usize,
}

impl<P> EventResult<P> {
    /// The event for `log`, read through `network_contract`, whose payload
    /// decoded to `decoded_data`.
    pub fn new<D>(network_contract: &NetworkContract<D>, log: &RawLog, decoded_data: P) -> (r: Self)
        ensures
            r.decoded_data == decoded_data,
            provenance_of(r.tx_information, network_contract.network@, *log),
    {
        EventResult {
            decoded_data,
            tx_information: TxInformation::extract(&network_contract.network, log),
        }
    }
}

/// What `decoder` makes of each of `logs`, in order.
pub open spec fn decoded_logs<D: LogDecoder>(decoder: D, logs: Seq<RawLog>) -> Seq<Option<D::Payload>> {
    Seq::new(logs.len(), |k: int| decoder.decoded(logs[k].topics@, logs[k].data@))
}

/// The positions, in increasing order, at which decoding succeeded.
pub open spec fn decoded_indices<P>(outcomes: Seq<Option<P>>) -> Seq<int>
    decreases outcomes.len(),
{
    if outcomes.len() == 0 {
        Seq::empty()
    } else {
        let before = decoded_indices(outcomes.drop_last());
        if outcomes.last() is Some {
            before.push(outcomes.len() - 1)
        } else {
            before
        }
    }
}

/// The positions, in increasing order, at which decoding failed.
pub open spec fn failed_indices<P>(outcomes: Seq<Option<P>>) -> Seq<int>
    decreases outcomes.len(),
{
    if outcomes.len() == 0 {
        Seq::empty()
    } else {
        let before = failed_indices(outcomes.drop_last());
        if outcomes.last() is None {
            before.push(outcomes.len() - 1)
        } else {
            before
        }
    }
}

/// `batch` and `failures` are what a batch of `logs`, read on `network` and
/// dispatched under `topic`, comes to when the logs decode to `outcomes`:
/// one event per decoded log, in the logs' order, each with its own log's
/// provenance; one failure per log that did not decode, in the same order.
pub open spec fn batch_of<P>(
    network: Seq<char>,
    topic: Seq<char>,
    logs: Seq<RawLog>,
    outcomes: Seq<Option<P>>,
    batch: Seq<EventResult<P>>,
    failures: Seq<DecodeFailure>,
) -> bool {
    let ok = decoded_indices(outcomes);
    let bad = failed_indices(outcomes);
    &&& batch.len() == ok.len()
    &&& forall|k: int|
        0 <= k < batch.len() ==> {
            &&& Some(#[trigger] batch[k].decoded_data) == outcomes[ok[k]]
            &&& provenance_of(batch[k].tx_information, network, logs[ok[k]])
        }
    &&& failures.len() == bad.len()
    &&& forall|k: int|
        0 <= k < failures.len() ==> {
            &&& #[trigger] failures[k].index == bad[k]
            &&& failures[k].topic_id@ == topic
        }
}

proof fn lemma_indices_bounded<P>(outcomes: Seq<Option<P>>)
    ensures
        forall|k: int|
            0 <= k < decoded_indices(outcomes).len() ==> 0 <= #[trigger] decoded_indices(
                outcomes,
            )[k] < outcomes.len() && outcomes[decoded_indices(outcomes)[k]] is Some,
        forall|k: int|
            0 <= k < failed_indices(outcomes).len() ==> 0 <= #[trigger] failed_indices(
                outcomes,
            )[k] < outcomes.len() && outcomes[failed_indices(outcomes)[k]] is None,
    decreases outcomes.len(),
{
    if outcomes.len() > 0 {
        lemma_indices_bounded(outcomes.drop_last());
    }
}

/// Decoding failures only take events out of a batch: the decoded events are
/// those of the logs that decoded, all of them, in the logs' order, and the
/// failures are those of all the others, in order too.
pub proof fn lemma_decode_skip_isolation<P>(outcomes: Seq<Option<P>>)
    ensures
        forall|a: int, b: int|
            0 <= a < b < decoded_indices(outcomes).len() ==> #[trigger] decoded_indices(outcomes)[a]
                < #[trigger] decoded_indices(outcomes)[b],
        forall|a: int, b: int|
            0 <= a < b < failed_indices(outcomes).len() ==> #[trigger] failed_indices(outcomes)[a]
                < #[trigger] failed_indices(outcomes)[b],
        forall|j: int|
            0 <= j < outcomes.len() && #[trigger] outcomes[j] is Some ==> decoded_indices(
                outcomes,
            ).contains(j),
        forall|j: int|
            0 <= j < outcomes.len() && #[trigger] outcomes[j] is None ==> failed_indices(
                outcomes,
            ).contains(j),
        decoded_indices(outcomes).len() + failed_indices(outcomes).len() == outcomes.len(),
    decreases outcomes.len(),
{
    lemma_indices_bounded(outcomes);
    if outcomes.len() > 0 {
        let init = outcomes.drop_last();
        lemma_decode_skip_isolation(init);
        lemma_indices_bounded(init);
        let n = outcomes.len() - 1;
        assert forall|j: int| 0 <= j < outcomes.len() && #[trigger] outcomes[j] is Some implies decoded_indices(outcomes).contains(j) by {
            if j < n {
                assert(init[j] == outcomes[j]);
                let k = choose|k: int| 0 <= k < decoded_indices(init).len() && decoded_indices(init)[k] == j;
                assert(decoded_indices(outcomes)[k] == j);
            } else {
                assert(decoded_indices(outcomes).last() == j);
            }
        }
        assert forall|j: int| 0 <= j < outcomes.len() && #[trigger] outcomes[j] is None implies failed_indices(outcomes).contains(j) by {
            if j < n {
                assert(init[j] == outcomes[j]);
                let k = choose|k: int| 0 <= k < failed_indices(init).len() && failed_indices(init)[k] == j;
                assert(failed_indices(outcomes)[k] == j);
            } else {
                assert(failed_indices(outcomes).last() == j);
            }
        }
    }
}

impl<D> NetworkContract<D> {
    /// Decodes the payload of `log` with this deployment's decoder: only the
    /// log's topics and data reach it.
    pub fn decode_log(&self, log: &RawLog) -> (r: Option<D::Payload>) where D: LogDecoder
        ensures
            r == self.decoder.decoded(log.topics@, log.data@),
    {
        self.decoder.decode(&log.topics, &log.data)
    }

    /// Decodes each of `logs` with this deployment's decoder and builds the
    /// batch dispatched under `topic_id`: the batch holds the logs that
    /// decoded, in order, and the failures name the others.
    pub fn decode_batch(&self, topic_id: &String, logs: &Vec<RawLog>) -> (r: (Vec<EventResult<D::Payload>>, Vec<DecodeFailure>)) where D: LogDecoder
        ensures
            batch_of(self.network@, topic_id@, logs@, decoded_logs(self.decoder, logs@), r.0@, r.1@),
    {
        let mut outcomes: Vec<Option<D::Payload>> = Vec::new();
        let mut i: usize = 0;
        while i < logs.len()
            invariant
                i <= logs@.len(),
                outcomes@.len() == i,
                forall|k: int| 0 <= k < i ==> #[trigger] outcomes@[k] == self.decoder.decoded(logs@[k].topics@, logs@[k].data@),
            decreases logs@.len() - i,
        {
            let o = self.decode_log(&logs[i]);
            outcomes.push(o);
            i = i + 1;
        }
        assert(outcomes@ =~= decoded_logs(self.decoder, logs@));
        self.assemble_batch(topic_id, logs, outcomes)
    }

    /// Builds the events of a batch of `logs` dispatched under `topic_id`, given
    /// what each log decoded to. Logs that did not decode are left out of the
    /// batch and reported; the others keep their relative order.
    pub fn assemble_batch<P>(&self, topic_id: &String, logs: &Vec<RawLog>, outcomes: Vec<Option<P>>) -> (r: (Vec<EventResult<P>>, Vec<DecodeFailure>))
        requires
            outcomes@.len() == logs@.len(),
        ensures
            batch_of(self.network@, topic_id@, logs@, outcomes@, r.0@, r.1@),
    {
        let ghost orig = outcomes@;
        let n = outcomes.len();
        let mut outcomes = outcomes;
        let mut reversed: Vec<Option<P>> = Vec::new();
        while outcomes.len() > 0
            invariant
                n == orig.len(),
                outcomes@ == orig.take(outcomes@.len() as int),
                outcomes@.len() + reversed@.len() == n,
                forall|k: int| 0 <= k < reversed@.len() ==> #[trigger] reversed@[k] == orig[n - 1 - k],
            decreases outcomes@.len(),
        {
            let o = outcomes.pop().unwrap();
            reversed.push(o);
        }
        let mut batch: Vec<EventResult<P>> = Vec::new();
        let mut failures: Vec<DecodeFailure> = Vec::new();
        let mut i: usize = 0;
        while reversed.len() > 0
            invariant
                n == orig.len(),
                n == logs@.len(),
                i + reversed@.len() == n,
                forall|k: int| 0 <= k < reversed@.len() ==> #[trigger] reversed@[k] == orig[n - 1 - k],
                batch_of(self.network@, topic_id@, logs@, orig.take(i as int), batch@, failures@),
            decreases reversed@.len(),
        {
            let o = reversed.pop().unwrap();
            let ghost prefix = orig.take(i as int);
            let ghost next = orig.take(i + 1);
            assert(next.drop_last() == prefix);
            assert(next.last() == orig[i as int]);
            proof {
                lemma_indices_bounded(prefix);
            }
            let ghost old_batch = batch@;
            let ghost old_failures = failures@;
            match o {
                Some(p) => {
                    let e = EventResult::new(self, &logs[i], p);
                    batch.push(e);
                },
                None => {
                    failures.push(DecodeFailure { topic_id: topic_id.clone(), index: i });
                },
            }
            proof {
                let ok = decoded_indices(next);
                let bad = failed_indices(next);
                assert forall|k: int| 0 <= k < batch@.len() implies {
                    &&& Some(#[trigger] batch@[k].decoded_data) == next[ok[k]]
                    &&& provenance_of(batch@[k].tx_information, self.network@, logs@[ok[k]])
                } by {
                    if k < old_batch.len() {
                        assert(batch@[k] == old_batch[k]);
                        assert(ok[k] == decoded_indices(prefix)[k]);
                        assert(next[ok[k]] == prefix[ok[k]]);
                    }
                }
                assert(next.len() == i + 1);
                if o is Some {
                    assert(ok == decoded_indices(prefix).push(i as int));
                    assert(bad == failed_indices(prefix));
                } else {
                    assert(ok == decoded_indices(prefix));
                    assert(bad == failed_indices(prefix).push(i as int));
                }
                assert(batch@.len() == ok.len());
                assert(failures@.len() == bad.len());
                assert forall|k: int| 0 <= k < failures@.len() implies {
                    &&& #[trigger] failures@[k].index == bad[k]
                    &&& failures@[k].topic_id@ == topic_id@
                } by {
                    if k < old_failures.len() {
                        assert(failures@[k] == old_failures[k]);
                        assert(bad[k] == failed_indices(prefix)[k]);
                    }
                }
            }
            assert(batch_of(self.network@, topic_id@, logs@, next, batch@, failures@));
            i = i + 1;
        }
        assert(orig.take(n as int) == orig);
        (batch, failures)
    }
}

} // verus!
