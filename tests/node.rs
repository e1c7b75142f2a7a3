use sn_node::build_info::{git_branch, git_describe, git_info, git_sha, BuildInfo};
use sn_node::files::{
    check_small_chunk, chunk_batches, is_small_file, retrieval_outcome, EncryptedChunk, Files,
    FilesError,
};
use sn_node::error::Error;
use sn_node::node::{
    after_not_found, after_replicated, handle_node_cmd, CmdAction, CmdResponse, NodeCmd,
    inactivity_timeout_secs, run_step, LoopInput, NatStatus, NetworkEvent, NodeAction, NodeEvent,
    NodeEventsChannel, NodeState, ReplicationFetcher, RunningNode,
};
use xor_name::XorName;

fn kinds(actions: &[NodeAction]) -> Vec<String> {
    actions
        .iter()
        .map(|a| match a {
            NodeAction::HandleRequest => "request".to_string(),
            NodeAction::HandleResponse => "response".to_string(),
            NodeAction::ValidateRecord => "record".to_string(),
            NodeAction::GetClosestPeersToSelf => "closest-self".to_string(),
            NodeAction::GetClosestPeersToRandom => "closest-random".to_string(),
            NodeAction::RequestReplicationFromClosest => "request-replication".to_string(),
            NodeAction::TriggerReplication { peer, lost } => format!("replicate {} {}", peer[0], lost),
            NodeAction::DialInitialPeers => "dial".to_string(),
            NodeAction::Broadcast(NodeEvent::ConnectedToNetwork) => "connected".to_string(),
            NodeAction::Broadcast(NodeEvent::BehindNat) => "nat".to_string(),
            NodeAction::Broadcast(_) => "other".to_string(),
        })
        .collect()
}

#[test]
fn first_peer_added_joins_the_network_once() {
    let mut state = NodeState::new(false);
    let first = state.handle_network_event(NetworkEvent::PeerAdded(vec![1]));
    assert_eq!(kinds(&first), vec!["closest-self", "connected", "replicate 1 false"]);
    let second = state.handle_network_event(NetworkEvent::PeerAdded(vec![2]));
    assert_eq!(kinds(&second), vec!["replicate 2 false"]);
    state.initial_join_failed();
    let retry = state.handle_network_event(NetworkEvent::PeerAdded(vec![3]));
    assert_eq!(kinds(&retry), vec!["closest-self", "connected", "replicate 3 false"]);
}

#[test]
fn churn_triggers_replication() {
    let mut state = NodeState::new(false);
    assert_eq!(kinds(&state.handle_network_event(NetworkEvent::PeerRemoved(vec![4]))), vec!["replicate 4 true"]);
    assert_eq!(
        kinds(&state.handle_network_event(NetworkEvent::LostRecordDetected(vec![vec![5], vec![6]]))),
        vec!["replicate 5 false", "replicate 6 false"]
    );
    assert!(state.handle_network_event(NetworkEvent::LostRecordDetected(vec![])).is_empty());
}

#[test]
fn other_events() {
    let mut state = NodeState::new(false);
    assert_eq!(kinds(&state.handle_network_event(NetworkEvent::NewListenAddr)), vec!["dial"]);
    assert_eq!(kinds(&state.handle_network_event(NetworkEvent::NatStatusChanged(NatStatus::Private))), vec!["nat"]);
    assert!(state.handle_network_event(NetworkEvent::NatStatusChanged(NatStatus::Public)).is_empty());
    assert_eq!(kinds(&state.handle_network_event(NetworkEvent::RequestReceived)), vec!["request"]);
    assert_eq!(kinds(&state.handle_network_event(NetworkEvent::ResponseReceived)), vec!["response"]);
    assert_eq!(kinds(&state.handle_network_event(NetworkEvent::UnverifiedRecord)), vec!["record"]);
    let mut local = NodeState::new(true);
    assert!(local.handle_network_event(NetworkEvent::NewListenAddr).is_empty());
}

#[test]
fn main_loop_steps() {
    let (a, go_on) = run_step(LoopInput::Inactivity);
    assert!(go_on);
    assert_eq!(kinds(&a), vec!["closest-random", "request-replication"]);
    let (a, go_on) = run_step(LoopInput::EventsClosed);
    assert!(!go_on);
    assert!(matches!(a.as_slice(), [NodeAction::Broadcast(NodeEvent::ChannelClosed)]));
    let (a, go_on) = run_step(LoopInput::Event(NetworkEvent::NewListenAddr));
    assert!(go_on && a.is_empty());
    for _ in 0..50 {
        let t = inactivity_timeout_secs();
        assert!((20..40).contains(&t));
    }
}

#[test]
fn events_channel_keeps_order() {
    let mut channel = NodeEventsChannel::new();
    channel.broadcast(NodeEvent::ConnectedToNetwork);
    channel.broadcast(NodeEvent::SpendStored(vec![1]));
    let node = RunningNode::new(vec![7; 4], "/tmp/node".to_string(), channel);
    assert_eq!(node.peer_id(), &vec![7u8; 4]);
    assert_eq!(node.root_dir_path(), "/tmp/node");
    let _ = node.node_events_channel();
    let mut channel = NodeEventsChannel::new();
    channel.broadcast(NodeEvent::BehindNat);
    channel.broadcast(NodeEvent::ChannelClosed);
    let taken = channel.take_pending();
    assert!(matches!(taken.as_slice(), [NodeEvent::BehindNat, NodeEvent::ChannelClosed]));
    assert!(channel.take_pending().is_empty());
}

#[test]
fn replication_fetches_each_key_once() {
    let mut fetcher = ReplicationFetcher::new();
    let now = fetcher.add_keys(vec![vec![1], vec![2], vec![1]]);
    assert_eq!(now, vec![vec![1], vec![2]]);
    let now = fetcher.add_keys(vec![vec![2], vec![3]]);
    assert_eq!(now, vec![vec![3]]);
    assert!(fetcher.notify_fetch_result(&[2]));
    assert!(!fetcher.notify_fetch_result(&[2]));
    assert_eq!(fetcher.add_keys(vec![vec![2]]), vec![vec![2]]);
}

#[test]
fn chunks_go_in_batches_of_five() {
    assert_eq!(chunk_batches(12), vec![(0, 5), (5, 10), (10, 12)]);
    assert_eq!(chunk_batches(10), vec![(0, 5), (5, 10)]);
    assert!(chunk_batches(0).is_empty());
    assert_eq!(chunk_batches(3), vec![(0, 3)]);
}

#[test]
fn small_files_stay_below_the_encryption_threshold() {
    assert!(is_small_file(3071));
    assert!(!is_small_file(3072));
    assert!(check_small_chunk(100).is_ok());
    assert!(matches!(check_small_chunk(3072), Err(FilesError::SmallFilePaddingNeeded(3072))));
}

#[test]
fn missing_chunks_are_named() {
    let contents = [b"one".to_vec(), b"two".to_vec(), b"three".to_vec()];
    let expected: Vec<Vec<u8>> = contents.iter().map(|c| XorName::from_content(c).0.to_vec()).collect();
    let got = vec![EncryptedChunk { index: 1, content: contents[1].clone() }];
    match retrieval_outcome(&expected, got) {
        Err(FilesError::NotEnoughChunksRetrieved { expected: e, retrieved, missing_chunks }) => {
            assert_eq!(e, 3);
            assert_eq!(retrieved, 1);
            assert_eq!(missing_chunks, vec![expected[0].clone(), expected[2].clone()]);
        },
        _ => panic!("expected missing chunks"),
    }
    let all: Vec<EncryptedChunk> = contents
        .iter()
        .enumerate()
        .map(|(index, c)| EncryptedChunk { index, content: c.clone() })
        .collect();
    assert_eq!(retrieval_outcome(&expected, all).unwrap().len(), 3);
    let files = Files::new(5u32);
    assert_eq!(*files.client(), 5);
}

#[test]
fn build_info_text() {
    let info = BuildInfo { sha: "abc1234".to_string(), branch: "main".to_string(), describe: "v0.1-3-gabc1234".to_string() };
    assert_eq!(git_info(&info), "abc1234 / main / v0.1-3-gabc1234");
    assert_eq!(git_sha(&info), "abc1234");
    assert_eq!(git_branch(&info), "main");
    assert_eq!(git_describe(&info), "v0.1-3-gabc1234");
}

#[test]
fn every_command_is_answered() {
    let (actions, answer) = handle_node_cmd(NodeCmd::Replicate { holder: vec![1], keys: vec![vec![2]] });
    assert!(matches!(answer, Some(CmdResponse::Replicate)));
    assert!(matches!(actions.as_slice(), [CmdAction::FetchReplicationKeys { holder, keys }] if holder == &vec![1u8] && keys == &vec![vec![2u8]]));
    let (actions, answer) = handle_node_cmd(NodeCmd::RequestReplication { sender: Some(vec![3]) });
    assert!(matches!(answer, Some(CmdResponse::Replicate)));
    assert!(matches!(actions.as_slice(), [CmdAction::TriggerReplication { peer }] if peer == &vec![3u8]));
    let (actions, answer) = handle_node_cmd(NodeCmd::RequestReplication { sender: None });
    assert!(matches!(answer, Some(CmdResponse::Replicate)));
    assert!(actions.is_empty());
}

#[test]
fn replicated_data_notifies_the_fetcher() {
    assert!(matches!(
        after_replicated(Some(vec![1]), vec![9], Ok(sn_node::validation::CmdOk::StoredSuccessfully)),
        Ok(Some((h, k, true))) if h == vec![1u8] && k == vec![9u8]
    ));
    assert!(matches!(after_replicated(None, vec![9], Ok(sn_node::validation::CmdOk::DataAlreadyPresent)), Ok(None)));
    assert!(matches!(after_replicated(Some(vec![1]), vec![9], Err(Error::RecordKeyMismatch)), Err(Error::RecordKeyMismatch)));
    assert!(matches!(after_not_found(Some(vec![1]), vec![8]), Some((h, k, false)) if h == vec![1u8] && k == vec![8u8]));
    assert!(after_not_found(None, vec![8]).is_none());
}
