//! The node's event handling: what it does on each network event, on
//! inactivity, and which records it fetches for replication.
use vstd::prelude::*;
use crate::bytes::bytes_eq;
use crate::dbc::{copy_bytes, SignedSpend};
use crate::error::Error;
use crate::store::{derived_key, record_key, RecordValue};
use crate::validation::CmdOk;

verus! {

/// The shortest wait, in seconds, before the node acts on inactivity.
pub const INACTIVITY_TIMEOUT_MIN_SECS: u64 = 20;

/// The bound, in seconds, that the wait on inactivity stays below.
pub const INACTIVITY_TIMEOUT_MAX_SECS: u64 = 40;

/// Relies on `rand::Rng::gen_range` over `rand::thread_rng`: a number drawn
/// from `low..high`, which is not empty.
#[verifier::external_body]
fn random_in_range(low: u64, high: u64) -> (r: u64)
    requires
        low < high,
    ensures
        low <= r < high,
{
    rand::Rng::gen_range(&mut rand::thread_rng(), low..high)
}

/// A wait on inactivity, drawn anew each time so that nodes do not act in step.
pub fn inactivity_timeout_secs() -> (r: u64)
    ensures
        INACTIVITY_TIMEOUT_MIN_SECS <= r < INACTIVITY_TIMEOUT_MAX_SECS,
{
    random_in_range(INACTIVITY_TIMEOUT_MIN_SECS, INACTIVITY_TIMEOUT_MAX_SECS)
}

/// What the node tells its subscribers.
#[derive(Clone, Debug)]
pub enum NodeEvent {
    /// The node has joined the network.
    ConnectedToNetwork,
    /// The node is behind a NAT.
    BehindNat,
    /// A spend of this DBC was stored.
    SpendStored(Vec<u8>),
    /// The network events stopped coming.
    ChannelClosed,
}

/// The node's events, in the order they were broadcast, waiting to be handed
/// to subscribers.
pub struct NodeEventsChannel {
    events: Vec<NodeEvent>,
}

impl NodeEventsChannel {
    /// The events waiting, in order.
    pub closed spec fn pending(&self) -> Seq<NodeEvent> {
        self.events@
    }

    /// A channel with nothing waiting.
    pub fn new() -> (r: NodeEventsChannel)
        ensures
            r.pending() == Seq::<NodeEvent>::empty(),
    {
        NodeEventsChannel { events: Vec::new() }
    }

    /// Broadcasts an event to every subscriber.
    pub fn broadcast(&mut self, event: NodeEvent)
        ensures
            final(self).pending() == old(self).pending().push(event),
    {
        self.events.push(event);
    }

    /// Hands over the waiting events, in order, and empties the channel.
    pub fn take_pending(&mut self) -> (r: Vec<NodeEvent>)
        ensures
            r@ == old(self).pending(),
            final(self).pending() == Seq::<NodeEvent>::empty(),
    {
        let mut out: Vec<NodeEvent> = Vec::new();
        std::mem::swap(&mut self.events, &mut out);
        out
    }
}

/// A node that has started and runs.
pub struct RunningNode {
    peer_id: Vec<u8>,
    root_dir_path: String,
    node_events_channel: NodeEventsChannel,
}

impl RunningNode {
    pub closed spec fn peer_id_view(&self) -> Seq<u8> {
        self.peer_id@
    }

    pub closed spec fn root_dir_view(&self) -> Seq<char> {
        self.root_dir_path@
    }

    pub closed spec fn events_view(&self) -> NodeEventsChannel {
        self.node_events_channel
    }

    /// A running node with this peer id, root directory and events channel.
    pub fn new(peer_id: Vec<u8>, root_dir_path: String, node_events_channel: NodeEventsChannel) -> (r:
        RunningNode)
        ensures
            r.peer_id_view() == peer_id@,
            r.root_dir_view() == root_dir_path@,
            r.events_view() == node_events_channel,
    {
        RunningNode { peer_id, root_dir_path, node_events_channel }
    }

    /// Returns this node's peer id.
    pub fn peer_id(&self) -> (r: &Vec<u8>)
        ensures
            r@ == self.peer_id_view(),
    {
        &self.peer_id
    }

    /// Returns the root directory path for the node: the one the user chose,
    /// or a platform-specific default, with the peer id appended.
    pub fn root_dir_path(&self) -> (r: String)
        ensures
            r@ == self.root_dir_view(),
    {
        self.root_dir_path.clone()
    }

    /// Returns the node events channel where to subscribe to receive node events.
    pub fn node_events_channel(&self) -> (r: &NodeEventsChannel)
        ensures
            *r == self.events_view(),
    {
        &self.node_events_channel
    }
}

/// The NAT status the network reports.
#[derive(Clone, Copy, Debug, PartialEq, Eq, Structural)]
pub enum NatStatus {
    Public,
    Private,
    Unknown,
}

/// A network event, with what the node's decisions read of it. The request,
/// response or record that comes with some of them stays with the caller.
pub enum NetworkEvent {
    RequestReceived,
    ResponseReceived,
    PeerAdded(Vec<u8>),
    PeerRemoved(Vec<u8>),
    LostRecordDetected(Vec<Vec<u8>>),
    NewListenAddr,
    NatStatusChanged(NatStatus),
    UnverifiedRecord,
}

/// What the node does next.
pub enum NodeAction {
    /// Handle the request that came with the event, and answer it.
    HandleRequest,
    /// Handle the response that came with the event.
    HandleResponse,
    /// Validate and store the record that came with the event.
    ValidateRecord,
    /// Look up the peers closest to this node, to fill its routing table.
    GetClosestPeersToSelf,
    /// Look up the peers closest to a random address, to spread the routing table.
    GetClosestPeersToRandom,
    /// Ask this node's closest peers for replication.
    RequestReplicationFromClosest,
    /// Work out which records to fetch now that this peer came or went.
    TriggerReplication { peer: Vec<u8>, lost: bool },
    /// Dial the peers the node was started with.
    DialInitialPeers,
    /// Tell subscribers.
    Broadcast(NodeEvent),
}

/// The part of the node's state that its event handling decides on.
pub struct NodeState {
    /// Whether the lookup of the peers closest to this node, on joining, is
    /// under way or done.
    pub initial_join_underway_or_done: bool,
    /// Whether peers are found on the local network rather than dialled.
    pub local_discovery: bool,
}

/// A replication trigger for each peer, in order.
pub open spec fn replication_triggers(peers: Seq<Vec<u8>>, lost: bool) -> Seq<NodeAction> {
    peers.map_values(|p: Vec<u8>| NodeAction::TriggerReplication { peer: p, lost })
}

/// What the node does on a network event.
pub open spec fn event_actions(s: NodeState, event: NetworkEvent) -> Seq<NodeAction> {
    match event {
        NetworkEvent::RequestReceived => seq![NodeAction::HandleRequest],
        NetworkEvent::ResponseReceived => seq![NodeAction::HandleResponse],
        NetworkEvent::UnverifiedRecord => seq![NodeAction::ValidateRecord],
        NetworkEvent::PeerAdded(p) => if s.initial_join_underway_or_done {
            seq![NodeAction::TriggerReplication { peer: p, lost: false }]
        } else {
            seq![
                NodeAction::GetClosestPeersToSelf,
                NodeAction::Broadcast(NodeEvent::ConnectedToNetwork),
                NodeAction::TriggerReplication { peer: p, lost: false },
            ]
        },
        NetworkEvent::PeerRemoved(p) => seq![NodeAction::TriggerReplication { peer: p, lost: true }],
        NetworkEvent::LostRecordDetected(ps) => replication_triggers(ps@, false),
        NetworkEvent::NewListenAddr => if s.local_discovery {
            seq![]
        } else {
            seq![NodeAction::DialInitialPeers]
        },
        NetworkEvent::NatStatusChanged(st) => if st == NatStatus::Private {
            seq![NodeAction::Broadcast(NodeEvent::BehindNat)]
        } else {
            seq![]
        },
    }
}

impl NodeState {
    /// A node that has not joined yet.
    pub fn new(local_discovery: bool) -> (r: NodeState)
        ensures
            !r.initial_join_underway_or_done,
            r.local_discovery == local_discovery,
    {
        NodeState { initial_join_underway_or_done: false, local_discovery }
    }

    /// Decides what to do on a network event. The first peer added starts
    /// the lookup of the peers closest to this node, once.
    pub fn handle_network_event(&mut self, event: NetworkEvent) -> (r: Vec<NodeAction>)
        ensures
            r@ == event_actions(*old(self), event),
            final(self).local_discovery == old(self).local_discovery,
            final(self).initial_join_underway_or_done == (old(self).initial_join_underway_or_done
                || event is PeerAdded),
    {
        let ghost before = *self;
        let mut r: Vec<NodeAction> = Vec::new();
        match event {
            NetworkEvent::RequestReceived => r.push(NodeAction::HandleRequest),
            NetworkEvent::ResponseReceived => r.push(NodeAction::HandleResponse),
            NetworkEvent::UnverifiedRecord => r.push(NodeAction::ValidateRecord),
            NetworkEvent::PeerAdded(p) => {
                if !self.initial_join_underway_or_done {
                    self.initial_join_underway_or_done = true;
                    r.push(NodeAction::GetClosestPeersToSelf);
                    r.push(NodeAction::Broadcast(NodeEvent::ConnectedToNetwork));
                }
                r.push(NodeAction::TriggerReplication { peer: p, lost: false });
            },
            NetworkEvent::PeerRemoved(p) => r.push(NodeAction::TriggerReplication { peer: p, lost: true }),
            NetworkEvent::LostRecordDetected(ps) => {
                let ghost peers = ps@;
                let mut ps = ps;
                while ps.len() > 0
                    invariant
                        ps@.len() + r@.len() == peers.len(),
                        ps@ == peers.skip(r@.len() as int),
                        r@ == replication_triggers(peers.take(r@.len() as int), false),
                    decreases ps@.len(),
                {
                    let ghost k: int = r@.len() as int;
                    let p = ps.remove(0);
                    r.push(NodeAction::TriggerReplication { peer: p, lost: false });
                    assert(peers.take(k + 1) =~= peers.take(k).push(p));
                    assert(r@ =~= replication_triggers(peers.take(r@.len() as int), false));
                    assert(ps@ =~= peers.skip(r@.len() as int));
                }
                assert(peers.take(r@.len() as int) =~= peers);
            },
            NetworkEvent::NewListenAddr => {
                if !self.local_discovery {
                    r.push(NodeAction::DialInitialPeers);
                }
            },
            NetworkEvent::NatStatusChanged(st) => {
                if st == NatStatus::Private {
                    r.push(NodeAction::Broadcast(NodeEvent::BehindNat));
                }
            },
        }
        assert(r@ =~= event_actions(before, event));
        r
    }

    /// The lookup of the closest peers on joining failed: the next peer added
    /// starts it again.
    pub fn initial_join_failed(&mut self)
        ensures
            !final(self).initial_join_underway_or_done,
            final(self).local_discovery == old(self).local_discovery,
    {
        self.initial_join_underway_or_done = false;
    }
}

/// What the node's main loop has to act on.
pub enum LoopInput {
    /// A network event arrived.
    Event(NetworkEvent),
    /// The network events stopped coming.
    EventsClosed,
    /// Nothing arrived within the inactivity timeout.
    Inactivity,
}

/// What the main loop does on each input: hand an event to a task of its
/// own; stop when the events stop; spread the routing table and ask for
/// replication on inactivity. The second part tells whether the loop goes on.
pub fn run_step(input: LoopInput) -> (r: (Vec<NodeAction>, bool))
    ensures
        input is Event ==> r.0@.len() == 0 && r.1,
        input is EventsClosed ==> r.0@ == seq![NodeAction::Broadcast(NodeEvent::ChannelClosed)]
            && !r.1,
        input is Inactivity ==> r.0@ == seq![
            NodeAction::GetClosestPeersToRandom,
            NodeAction::RequestReplicationFromClosest,
        ] && r.1,
{
    let mut r: Vec<NodeAction> = Vec::new();
    match input {
        LoopInput::Event(_) => (r, true),
        LoopInput::EventsClosed => {
            r.push(NodeAction::Broadcast(NodeEvent::ChannelClosed));
            (r, false)
        },
        LoopInput::Inactivity => {
            r.push(NodeAction::GetClosestPeersToRandom);
            r.push(NodeAction::RequestReplicationFromClosest);
            assert(r@ =~= seq![
                NodeAction::GetClosestPeersToRandom,
                NodeAction::RequestReplicationFromClosest,
            ]);
            (r, true)
        },
    }
}

/// The answer to a command: every command gets one, so that the sender does
/// not take the silence for a failing connection.
pub enum CmdResponse {
    /// The replication command was taken.
    Replicate,
    /// The outcome of storing the spend.
    Spend(Result<CmdOk, Error>),
}

/// A command sent to this node.
pub enum NodeCmd {
    /// The holder has these records, which this node may need.
    Replicate { holder: Vec<u8>, keys: Vec<Vec<u8>> },
    /// The sender asks for replication; its peer id, if the address is one.
    RequestReplication { sender: Option<Vec<u8>> },
    /// Store this spend.
    SpendDbc(SignedSpend),
}

/// What a command makes the node do.
pub enum CmdAction {
    /// Work out which of these keys of the holder to fetch.
    FetchReplicationKeys { holder: Vec<u8>, keys: Vec<Vec<u8>> },
    /// Work out which records to fetch now that this peer asked.
    TriggerReplication { peer: Vec<u8> },
    /// Validate and store the spend; the answer is its outcome.
    ValidateSpend(SignedSpend),
}

/// Decides what a command makes the node do, and its answer when it does
/// not wait on validation: replication commands are acknowledged whatever
/// the work they start gives; a spend is answered once validated.
pub fn handle_node_cmd(cmd: NodeCmd) -> (r: (Vec<CmdAction>, Option<CmdResponse>))
    ensures
        match cmd {
            NodeCmd::Replicate { holder, keys } => r.1 matches Some(CmdResponse::Replicate)
                && r.0@ == seq![CmdAction::FetchReplicationKeys { holder, keys }],
            NodeCmd::RequestReplication { sender } => r.1 matches Some(CmdResponse::Replicate)
                && match sender {
                Some(peer) => r.0@ == seq![CmdAction::TriggerReplication { peer }],
                None => r.0@.len() == 0,
            },
            NodeCmd::SpendDbc(s) => r.1 is None && r.0@ == seq![CmdAction::ValidateSpend(s)],
        },
{
    let mut actions: Vec<CmdAction> = Vec::new();
    match cmd {
        NodeCmd::Replicate { holder, keys } => {
            actions.push(CmdAction::FetchReplicationKeys { holder, keys });
            assert(actions@ =~= seq![CmdAction::FetchReplicationKeys { holder, keys }]);
            (actions, Some(CmdResponse::Replicate))
        },
        NodeCmd::RequestReplication { sender } => {
            if let Some(peer) = sender {
                actions.push(CmdAction::TriggerReplication { peer });
                assert(actions@ =~= seq![CmdAction::TriggerReplication { peer }]);
            }
            (actions, Some(CmdResponse::Replicate))
        },
        NodeCmd::SpendDbc(s) => {
            actions.push(CmdAction::ValidateSpend(s));
            assert(actions@ =~= seq![CmdAction::ValidateSpend(s)]);
            (actions, None)
        },
    }
}

/// The answer to a spend command once validated, and the event broadcast
/// when the spend was stored.
pub fn spend_cmd_outcome(dbc_id: &Vec<u8>, result: Result<CmdOk, Error>) -> (r: (
    CmdResponse,
    Option<NodeEvent>,
))
    ensures
        r.0 == CmdResponse::Spend(result),
        result is Ok ==> (r.1 matches Some(NodeEvent::SpendStored(id)) && id@ == dbc_id@),
        result is Err ==> r.1 is None,
{
    match result {
        Ok(ok) => (CmdResponse::Spend(Ok(ok)), Some(NodeEvent::SpendStored(copy_bytes(dbc_id.as_slice())))),
        Err(e) => (CmdResponse::Spend(Err(e)), None),
    }
}

/// What the fetcher of replicated data is told: the holder, the key, and
/// whether the data came.
pub type FetchNotice = (Vec<u8>, Vec<u8>, bool);

/// After replicated data under `key` from `holder` went through validation:
/// a validation error is handed on and the fetcher hears nothing; a holder
/// that is no peer gives no notice; else the fetcher hears the key came.
pub fn after_replicated(holder: Option<Vec<u8>>, key: Vec<u8>, validated: Result<CmdOk, Error>) -> (r:
    Result<Option<FetchNotice>, Error>)
    ensures
        validated is Err ==> r == Err::<Option<FetchNotice>, Error>(validated->Err_0),
        validated is Ok && holder is None ==> r matches Ok(None),
        validated is Ok && holder is Some ==> r == Ok::<Option<FetchNotice>, Error>(
            Some((holder->Some_0, key, true)),
        ),
{
    match validated {
        Err(e) => Err(e),
        Ok(_) => match holder {
            None => Ok(None),
            Some(peer) => Ok(Some((peer, key, true))),
        },
    }
}

/// After `holder` answered that it does not have the data at `address`: the
/// fetcher hears the key did not come, if the holder is a peer.
pub fn after_not_found(holder: Option<Vec<u8>>, address: Vec<u8>) -> (r: Option<FetchNotice>)
    ensures
        holder is None ==> r is None,
        holder is Some ==> r == Some::<FetchNotice>((holder->Some_0, address, false)),
{
    match holder {
        None => None,
        Some(peer) => Some((peer, address, false)),
    }
}

/// The key of data received for replication, which the fetch of that key
/// is then told about; an empty list of spends has none and is ignored.
pub fn replicated_data_key(data: &RecordValue) -> (r: Option<Vec<u8>>)
    ensures
        match r {
            Some(k) => k@ == derived_key(*data) && !(data matches RecordValue::DbcSpend(s)
                && s@.len() == 0),
            None => data matches RecordValue::DbcSpend(s) && s@.len() == 0,
        },
{
    if let RecordValue::DbcSpend(s) = data {
        if s.len() == 0 {
            return None;
        }
    }
    Some(record_key(data))
}

/// The records being fetched from peers for replication, by key.
pub struct ReplicationFetcher {
    pending: Vec<Vec<u8>>,
}

/// The keys of `keys` that are not in `pending`, each once, in order of
/// first appearance.
pub open spec fn fresh_keys(pending: Seq<Seq<u8>>, keys: Seq<Seq<u8>>) -> Seq<Seq<u8>>
    decreases keys.len(),
{
    if keys.len() == 0 {
        seq![]
    } else {
        let prev = fresh_keys(pending, keys.drop_last());
        let k = keys.last();
        if pending.contains(k) || prev.contains(k) {
            prev
        } else {
            prev.push(k)
        }
    }
}

pub open spec fn key_views(keys: Seq<Vec<u8>>) -> Seq<Seq<u8>> {
    keys.map_values(|k: Vec<u8>| k@)
}

fn position(keys: &Vec<Vec<u8>>, key: &[u8]) -> (r: Option<usize>)
    ensures
        match r {
            Some(i) => i < keys@.len() && keys@[i as int]@ == key@,
            None => !key_views(keys@).contains(key@),
        },
{
    let mut i: usize = 0;
    while i < keys.len()
        invariant
            i <= keys@.len(),
            forall|j: int| 0 <= j < i ==> keys@[j]@ != key@,
        decreases keys@.len() - i,
    {
        if bytes_eq(keys[i].as_slice(), key) {
            return Some(i);
        }
        i = i + 1;
    }
    None
}

impl ReplicationFetcher {
    /// The keys being fetched.
    pub closed spec fn pending_keys(&self) -> Seq<Seq<u8>> {
        key_views(self.pending@)
    }

    /// Each key is pending at most once.
    pub open spec fn wf(&self) -> bool {
        self.pending_keys().no_duplicates()
    }

    /// A fetcher with nothing pending.
    pub fn new() -> (r: ReplicationFetcher)
        ensures
            r.wf(),
            r.pending_keys() == Seq::<Seq<u8>>::empty(),
    {
        let r = ReplicationFetcher { pending: Vec::new() };
        assert(r.pending_keys() =~= Seq::<Seq<u8>>::empty());
        r
    }

    /// Adds keys to fetch and returns those to fetch now: a key already being
    /// fetched, or given twice, is fetched once.
    pub fn add_keys(&mut self, keys: Vec<Vec<u8>>) -> (r: Vec<Vec<u8>>)
        requires
            old(self).wf(),
        ensures
            final(self).wf(),
            key_views(r@) == fresh_keys(old(self).pending_keys(), key_views(keys@)),
            final(self).pending_keys() == old(self).pending_keys() + key_views(r@),
    {
        let ghost start = self.pending_keys();
        let ghost kv = key_views(keys@);
        let mut r: Vec<Vec<u8>> = Vec::new();
        let mut i: usize = 0;
        while i < keys.len()
            invariant
                kv == key_views(keys@),
                i <= keys@.len(),
                key_views(r@) == fresh_keys(start, kv.take(i as int)),
                self.pending_keys() == start + key_views(r@),
                self.wf(),
            decreases keys@.len() - i,
        {
            let k = &keys[i];
            assert(kv.take(i + 1).drop_last() =~= kv.take(i as int));
            assert(kv.take(i + 1).last() == k@);
            let pos = position(&self.pending, k.as_slice());
            let ghost pk = self.pending_keys();
            assert(pk == key_views(self.pending@));
            match pos {
                None => {
                    let ghost pr = r@;
                    let ghost pp = self.pending@;
                    assert forall|j: int| 0 <= j < start.len() implies start[j] != k@ by {
                        assert(pk[j] == start[j]);
                    }
                    assert forall|j: int| 0 <= j < key_views(pr).len() implies key_views(pr)[j]
                        != k@ by {
                        assert(pk[start.len() + j] == key_views(pr)[j]);
                    }
                    r.push(copy_bytes(k.as_slice()));
                    self.pending.push(copy_bytes(k.as_slice()));
                    assert(key_views(r@) =~= key_views(pr).push(k@));
                    assert(key_views(self.pending@) =~= key_views(pp).push(k@));
                    assert(self.pending_keys() =~= start + key_views(r@));
                    assert forall|x: int, y: int|
                        0 <= x < y < self.pending_keys().len() implies self.pending_keys()[x]
                        != self.pending_keys()[y] by {
                        if y == self.pending_keys().len() - 1 {
                            assert(pk[x] == self.pending_keys()[x]);
                        } else {
                            assert(pk[x] == self.pending_keys()[x]);
                            assert(pk[y] == self.pending_keys()[y]);
                        }
                    }
                },
                Some(p) => {
                    proof {
                        assert(pk[p as int] == k@);
                        let kvr = key_views(r@);
                        assert(pk =~= start + kvr);
                        assert(pk.len() == self.pending@.len());
                        assert((p as int) < start.len() + kvr.len());
                        if (p as int) < start.len() {
                            assert(start[p as int] == k@);
                            assert(start.contains(k@));
                        } else {
                            let j: int = p - start.len();
                            assert((start + kvr)[p as int] == kvr[j]);
                            assert(kvr[j] == k@);
                            assert(kvr.contains(k@));
                        }
                    }
                },
            }
            i = i + 1;
        }
        assert(kv.take(i as int) =~= kv);
        r
    }

    /// The fetch of `key` is over, whether it succeeded or not.
    pub fn notify_fetch_result(&mut self, key: &[u8]) -> (r: bool)
        requires
            old(self).wf(),
        ensures
            final(self).wf(),
            !final(self).pending_keys().contains(key@),
            r == old(self).pending_keys().contains(key@),
            !r ==> final(self).pending_keys() == old(self).pending_keys(),
            r ==> exists|i: int|
                0 <= i < old(self).pending_keys().len() && old(self).pending_keys()[i] == key@
                    && final(self).pending_keys() == old(self).pending_keys().remove(i),
    {
        match position(&self.pending, key) {
            Some(i) => {
                let ghost before = self.pending@;
                assert(self.pending_keys()[i as int] == key@);
                self.pending.remove(i);
                assert(key_views(self.pending@) =~= key_views(before).remove(i as int));
                let ghost old_keys = key_views(before);
                assert forall|j: int| 0 <= j < self.pending_keys().len() implies self.pending_keys()[j]
                    != key@ by {
                    if j < i {
                        assert(self.pending_keys()[j] == old_keys[j]);
                    } else {
                        assert(self.pending_keys()[j] == old_keys[j + 1]);
                    }
                }
                assert forall|x: int, y: int|
                    0 <= x < y < self.pending_keys().len() implies self.pending_keys()[x]
                    != self.pending_keys()[y] by {
                    let ox = if x < i { x } else { x + 1 };
                    let oy = if y < i { y } else { y + 1 };
                    assert(self.pending_keys()[x] == old_keys[ox]);
                    assert(self.pending_keys()[y] == old_keys[oy]);
                }
                true
            },
            None => false,
        }
    }
}

} // verus!
