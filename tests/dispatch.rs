use rindexer_core::binding::{ContractInformation, EventResult, LogDecoder, NetworkContract};
use rindexer_core::provenance::{Address, RawLog, TxInformation, H256, U256};
use rindexer_core::registry::{EventCallbackRegistry, EventInformation};

/// Decodes a log whose data is one byte; anything else does not fit.
#[derive(Clone)]
struct ByteDecoder;

impl LogDecoder for ByteDecoder {
    type Payload = u8;

    fn decode(&self, _topics: &Vec<H256>, data: &Vec<u8>) -> Option<u8> {
        if data.len() == 1 {
            Some(data[0])
        } else {
            None
        }
    }
}

fn binding(network: &str) -> NetworkContract<ByteDecoder> {
    NetworkContract {
        network: network.to_string(),
        address: "0x00000000000000000000000000000000000000aa".to_string(),
        decoder: ByteDecoder,
        start_block: Some(100),
        end_block: None,
        polling_every: Some(1000),
    }
}

fn contract(name: &str) -> ContractInformation<ByteDecoder> {
    ContractInformation {
        name: name.to_string(),
        details: vec![binding("mainnet")],
        abi: "[]".to_string(),
    }
}

fn route(topic: &str, handler: u32) -> EventInformation<ByteDecoder, u32> {
    EventInformation {
        topic_id: topic.to_string(),
        contract: contract("Token"),
        callback: handler,
    }
}

fn pending_log(data: Vec<u8>) -> RawLog {
    RawLog {
        address: Address { bytes: [7u8; 20] },
        topics: vec![H256 { bytes: [1u8; 32] }],
        data,
        block_hash: None,
        block_number: None,
        transaction_hash: None,
        transaction_index: None,
        log_index: None,
        transaction_log_index: None,
        log_type: None,
        removed: None,
    }
}

fn mined_log(data: Vec<u8>, removed: bool) -> RawLog {
    RawLog {
        address: Address { bytes: [9u8; 20] },
        topics: vec![H256 { bytes: [2u8; 32] }, H256 { bytes: [3u8; 32] }],
        data,
        block_hash: Some(H256 { bytes: [4u8; 32] }),
        block_number: Some(17_000_000),
        transaction_hash: Some(H256 { bytes: [5u8; 32] }),
        transaction_index: Some(12),
        log_index: Some(U256 { limbs: [33, 0, 0, 0] }),
        transaction_log_index: Some(U256 { limbs: [2, 0, 0, 1] }),
        log_type: Some("mined".to_string()),
        removed: Some(removed),
    }
}

#[test]
fn new_registry_has_no_routes() {
    let registry: EventCallbackRegistry<ByteDecoder, u32> = EventCallbackRegistry::new();
    assert!(registry.events.is_empty());
    assert!(registry.find_event(&"0xabc".to_string()).is_none());
}

#[test]
fn register_appends_in_order() {
    let mut registry = EventCallbackRegistry::new();
    registry.register_event(route("0x01", 1));
    registry.register_event(route("0x02", 2));
    assert_eq!(registry.events.len(), 2);
    assert_eq!(registry.events[0].topic_id, "0x01");
    assert_eq!(registry.events[1].topic_id, "0x02");
}

#[test]
fn distinct_topics_find_their_own_route() {
    let mut registry = EventCallbackRegistry::new();
    registry.register_event(route("0xddf252ad", 10));
    registry.register_event(route("0x8c5be1e5", 20));
    registry.register_event(route("0x17307eab", 30));
    assert_eq!(registry.find_event(&"0xddf252ad".to_string()).unwrap().callback, 10);
    assert_eq!(registry.find_event(&"0x8c5be1e5".to_string()).unwrap().callback, 20);
    assert_eq!(registry.find_event(&"0x17307eab".to_string()).unwrap().callback, 30);
    assert!(registry.find_event(&"0x17307eac".to_string()).is_none());
}

#[test]
fn duplicate_topic_resolves_to_first_registered() {
    let mut registry = EventCallbackRegistry::new();
    registry.register_event(route("0xaa", 1));
    registry.register_event(route("0xbb", 2));
    registry.register_event(route("0xbb", 3));
    assert_eq!(registry.events.len(), 3);
    assert_eq!(registry.find_event(&"0xbb".to_string()).unwrap().callback, 2);
    let (handler, batch) = registry.trigger_event(&"0xbb".to_string(), vec![5u8]).unwrap();
    assert_eq!(*handler, 2);
    assert_eq!(batch, vec![5u8]);
}

#[test]
fn unroutable_topic_is_dropped() {
    let empty: EventCallbackRegistry<ByteDecoder, u32> = EventCallbackRegistry::new();
    assert!(empty.trigger_event(&"0xaa".to_string(), vec![1u8, 2]).is_none());

    let mut registry = EventCallbackRegistry::new();
    registry.register_event(route("0xaa", 1));
    assert!(registry.trigger_event(&"0xab".to_string(), vec![1u8, 2]).is_none());
}

#[test]
fn interleaved_dispatches_stay_separate() {
    let mut registry = EventCallbackRegistry::new();
    registry.register_event(route("0xaa", 1));
    registry.register_event(route("0xbb", 2));
    let shared = registry.complete();
    let net = binding("mainnet");
    let logs_a = vec![mined_log(vec![1], false), mined_log(vec![2], false)];
    let logs_b = vec![pending_log(vec![30]), pending_log(vec![40]), pending_log(vec![50])];

    let (batch_a, fail_a) = net.decode_batch(&"0xaa".to_string(), &logs_a);
    let (batch_b, fail_b) = net.decode_batch(&"0xbb".to_string(), &logs_b);
    let routed_b = shared.trigger_event(&"0xbb".to_string(), batch_b).unwrap();
    let routed_a = shared.trigger_event(&"0xaa".to_string(), batch_a).unwrap();

    assert!(fail_a.is_empty() && fail_b.is_empty());
    assert_eq!(*routed_a.0, 1);
    assert_eq!(*routed_b.0, 2);
    let a: Vec<u8> = routed_a.1.iter().map(|e| e.decoded_data).collect();
    let b: Vec<u8> = routed_b.1.iter().map(|e| e.decoded_data).collect();
    assert_eq!(a, vec![1, 2]);
    assert_eq!(b, vec![30, 40, 50]);
}

#[test]
fn failed_decode_is_skipped_and_order_kept() {
    let net = binding("mainnet");
    let logs = vec![mined_log(vec![11], false), mined_log(vec![], false), mined_log(vec![33], true)];
    let (batch, failures) = net.decode_batch(&"0xaa".to_string(), &logs);
    assert_eq!(batch.len(), 2);
    assert_eq!(batch[0].decoded_data, 11);
    assert_eq!(batch[1].decoded_data, 33);
    assert_eq!(batch[0].tx_information.removed, Some(false));
    assert_eq!(batch[1].tx_information.removed, Some(true));
    assert_eq!(failures.len(), 1);
    assert_eq!(failures[0].index, 1);
    assert_eq!(failures[0].topic_id, "0xaa");
}

#[test]
fn assemble_batch_uses_given_outcomes() {
    let net = binding("polygon");
    let logs = vec![pending_log(vec![]), pending_log(vec![]), pending_log(vec![]), pending_log(vec![])];
    let outcomes = vec![None, Some("b"), None, Some("d")];
    let (batch, failures) = net.assemble_batch(&"0xcc".to_string(), &logs, outcomes);
    let payloads: Vec<&str> = batch.iter().map(|e| e.decoded_data).collect();
    assert_eq!(payloads, vec!["b", "d"]);
    assert_eq!(batch[0].tx_information.network, "polygon");
    let idx: Vec<usize> = failures.iter().map(|f| f.index).collect();
    assert_eq!(idx, vec![0, 2]);
}

#[test]
fn every_log_failing_gives_an_empty_batch() {
    let net = binding("mainnet");
    let logs = vec![pending_log(vec![1, 2]), pending_log(vec![])];
    let (batch, failures) = net.decode_batch(&"0xaa".to_string(), &logs);
    assert!(batch.is_empty());
    assert_eq!(failures.len(), 2);
    let (batch, failures) = net.decode_batch(&"0xaa".to_string(), &Vec::new());
    assert!(batch.is_empty() && failures.is_empty());
}

#[test]
fn removed_log_provenance_is_verbatim() {
    let net = binding("mainnet");
    let log = mined_log(vec![8], true);
    let event = EventResult::new(&net, &log, 8u8);
    let info = &event.tx_information;
    assert_eq!(event.decoded_data, 8);
    assert_eq!(info.network, "mainnet");
    assert_eq!(info.address, Address { bytes: [9u8; 20] });
    assert_eq!(info.block_hash, Some(H256 { bytes: [4u8; 32] }));
    assert_eq!(info.block_number, Some(17_000_000));
    assert_eq!(info.transaction_hash, Some(H256 { bytes: [5u8; 32] }));
    assert_eq!(info.transaction_index, Some(12));
    assert_eq!(info.log_index, Some(U256 { limbs: [33, 0, 0, 0] }));
    assert_eq!(info.transaction_log_index, Some(U256 { limbs: [2, 0, 0, 1] }));
    assert_eq!(info.log_type, Some("mined".to_string()));
    assert_eq!(info.removed, Some(true));
    assert!(info.is_removed());
    assert!(!info.is_pending());
}

#[test]
fn pending_log_keeps_fields_absent() {
    let net = binding("arbitrum");
    let log = pending_log(vec![3]);
    let decoded = net.decode_log(&log);
    assert_eq!(decoded, Some(3));
    let info = TxInformation::extract(&net.network, &log);
    assert_eq!(info.network, "arbitrum");
    assert_eq!(info.block_hash, None);
    assert_eq!(info.block_number, None);
    assert_eq!(info.transaction_hash, None);
    assert_eq!(info.transaction_index, None);
    assert_eq!(info.log_index, None);
    assert_eq!(info.removed, None);
    assert!(info.is_pending());
    assert!(!info.is_removed());
}

#[test]
fn decode_log_reports_mismatched_payload() {
    let net = binding("mainnet");
    assert_eq!(net.decode_log(&pending_log(vec![1, 2, 3])), None);
    assert_eq!(net.decode_log(&pending_log(vec![])), None);
}

#[test]
fn contract_needs_a_deployment() {
    let none: Option<ContractInformation<ByteDecoder>> =
        ContractInformation::new("Token".to_string(), Vec::new(), "[]".to_string());
    assert!(none.is_none());
    let some = ContractInformation::new("Token".to_string(), vec![binding("mainnet")], "[]".to_string()).unwrap();
    assert_eq!(some.name, "Token");
    assert_eq!(some.details.len(), 1);
    assert_eq!(some.details[0].network, "mainnet");
    assert_eq!(some.abi, "[]");
}

#[test]
fn decoding_depends_on_topics_and_data_only() {
    let net = binding("mainnet");
    let mut a = pending_log(vec![42]);
    let b = mined_log(vec![42], true);
    a.topics = b.topics.clone();
    assert_eq!(net.decode_log(&a), net.decode_log(&b));
    assert_eq!(net.decode_log(&a), Some(42));
}

#[test]
fn cloned_registry_routes_alike() {
    let mut registry = EventCallbackRegistry::new();
    registry.register_event(route("0xaa", 1));
    let copy = registry.clone();
    registry.register_event(route("0xbb", 2));
    assert_eq!(copy.events.len(), 1);
    assert_eq!(copy.find_event(&"0xaa".to_string()).unwrap().callback, 1);
    assert!(copy.find_event(&"0xbb".to_string()).is_none());
}
