//! The master's broadcast server state: the roster of connected slaves, the
//! per-slave reports, fan-out of the outbound message stream, and the
//! handling of frames a slave sends upstream.
//!
//! Sockets and tasks live outside the library; this is the bookkeeping they
//! consult, with the roster-consistency invariant proved on every operation.

use vstd::prelude::*;
use crate::codec::enc_message;
use crate::codec::encode_message;
use crate::codec::decode_message;
use crate::protocol::Payload;
use crate::protocol::StateDifference;
use crate::protocol::StateDifferenceView;
use crate::protocol::SyncMessage;
use crate::protocol::SyncMessageType;
use crate::protocol::SyncMessageView;
use crate::protocol::payload_matches;
use crate::protocol::views_of;
use crate::wire::str_eq;

verus! {

/// What the master knows about one connected slave.
#[derive(Clone, Debug, PartialEq)]
pub struct ClientInfo {
    pub id: String,
    pub ip_address: String,
    pub connected_at: i64,
    pub last_activity: i64,
}

pub struct ClientInfoView {
    pub id: Seq<char>,
    pub ip_address: Seq<char>,
    pub connected_at: i64,
    pub last_activity: i64,
}

impl View for ClientInfo {
    type V = ClientInfoView;

    open spec fn view(&self) -> ClientInfoView {
        ClientInfoView {
            id: self.id@,
            ip_address: self.ip_address@,
            connected_at: self.connected_at,
            last_activity: self.last_activity,
        }
    }
}

/// The last report a slave sent upstream.
#[derive(Clone, Debug, PartialEq)]
pub struct SlaveStatus {
    pub client_id: String,
    pub is_synced: bool,
    pub desync_details: Vec<StateDifference>,
    pub last_report_time: i64,
}

pub struct SlaveStatusView {
    pub client_id: Seq<char>,
    pub is_synced: bool,
    pub desync_details: Seq<StateDifferenceView>,
    pub last_report_time: i64,
}

impl View for SlaveStatus {
    type V = SlaveStatusView;

    open spec fn view(&self) -> SlaveStatusView {
        SlaveStatusView {
            client_id: self.client_id@,
            is_synced: self.is_synced,
            desync_details: views_of(self.desync_details@),
            last_report_time: self.last_report_time,
        }
    }
}

/// A frame received from a slave's socket, reduced to plain values.
#[derive(Clone, Debug, PartialEq)]
pub enum ClientFrame {
    Text(String),
    Ping(Vec<u8>),
    Close,
    SocketError,
}

/// What the per-client reader must do after one frame.
#[derive(Clone, Debug, PartialEq)]
pub enum ClientFrameAction {
    /// Nothing beyond the bookkeeping already done.
    NoAction,
    /// Echo a pong carrying these bytes.
    SendPong(Vec<u8>),
    /// Ask the sync engine for a fresh snapshot for this client.
    TriggerInitialState,
    /// The connection is over: tear the client down.
    Disconnect,
}

/// No two entries of a sequence of names are the same.
pub open spec fn distinct_ids(ids: Seq<Seq<char>>) -> bool {
    forall|i: int, j: int| 0 <= i < j < ids.len() ==> ids[i] != ids[j]
}

/// The master's broadcast-server state.
pub struct MasterServer {
    pub port: u16,
    pub shutdown: bool,
    pub clients: Vec<String>,
    pub client_info: Vec<ClientInfo>,
    pub slave_statuses: Vec<SlaveStatus>,
}

impl MasterServer {
    /// The ids with a live outbound channel.
    pub open spec fn client_ids(self) -> Seq<Seq<char>> {
        views_of(self.clients@)
    }

    /// The ids carried by the info entries.
    pub open spec fn info_ids(self) -> Seq<Seq<char>> {
        Seq::new(self.client_info@.len(), |i: int| self.client_info@[i].id@)
    }

    /// The ids carried by the report entries.
    pub open spec fn status_ids(self) -> Seq<Seq<char>> {
        Seq::new(self.slave_statuses@.len(), |i: int| self.slave_statuses@[i].client_id@)
    }

    pub open spec fn infos(self) -> Seq<ClientInfoView> {
        views_of(self.client_info@)
    }

    pub open spec fn statuses(self) -> Seq<SlaveStatusView> {
        views_of(self.slave_statuses@)
    }

    /// Roster consistency: ids are unique in each map, and the set of ids
    /// with a live channel is exactly the set of ids with an info entry.
    pub open spec fn wf(self) -> bool {
        &&& distinct_ids(self.client_ids())
        &&& distinct_ids(self.info_ids())
        &&& distinct_ids(self.status_ids())
        &&& forall|id: Seq<char>|
            self.client_ids().contains(id) <==> self.info_ids().contains(id)
    }

    /// A server that listens on `port` and knows no client yet.
    pub fn new(port: u16) -> (r: MasterServer)
        ensures
            r.wf(),
            r.port == port,
            !r.shutdown,
            r.client_ids().len() == 0,
            r.infos().len() == 0,
            r.statuses().len() == 0,
    {
        MasterServer {
            port,
            shutdown: false,
            clients: Vec::new(),
            client_info: Vec::new(),
            slave_statuses: Vec::new(),
        }
    }

    fn find_client(&self, client_id: &str) -> (r: Option<usize>)
        ensures
            match r {
                Some(k) => 0 <= k < self.client_ids().len() && self.client_ids()[k as int]
                    == client_id@,
                None => !self.client_ids().contains(client_id@),
            },
    {
        let mut i: usize = 0;
        while i < self.clients.len()
            invariant
                0 <= i <= self.clients@.len(),
                forall|j: int| 0 <= j < i ==> self.client_ids()[j] != client_id@,
            decreases self.clients@.len() - i,
        {
            if str_eq(self.clients[i].as_str(), client_id) {
                return Some(i);
            }
            i += 1;
        }
        proof {
            assert forall|j: int|
                0 <= j < self.client_ids().len() implies self.client_ids()[j] != client_id@ by {}
        }
        None
    }

    fn find_info(&self, client_id: &str) -> (r: Option<usize>)
        ensures
            match r {
                Some(k) => 0 <= k < self.infos().len() && self.infos()[k as int].id == client_id@,
                None => !self.info_ids().contains(client_id@),
            },
    {
        let mut i: usize = 0;
        while i < self.client_info.len()
            invariant
                0 <= i <= self.client_info@.len(),
                forall|j: int| 0 <= j < i ==> self.info_ids()[j] != client_id@,
            decreases self.client_info@.len() - i,
        {
            if str_eq(self.client_info[i].id.as_str(), client_id) {
                return Some(i);
            }
            i += 1;
        }
        proof {
            assert forall|j: int|
                0 <= j < self.info_ids().len() implies self.info_ids()[j] != client_id@ by {}
        }
        None
    }

    fn find_status(&self, client_id: &str) -> (r: Option<usize>)
        ensures
            match r {
                Some(k) => 0 <= k < self.statuses().len() && self.statuses()[k as int].client_id
                    == client_id@,
                None => !self.status_ids().contains(client_id@),
            },
    {
        let mut i: usize = 0;
        while i < self.slave_statuses.len()
            invariant
                0 <= i <= self.slave_statuses@.len(),
                forall|j: int| 0 <= j < i ==> self.status_ids()[j] != client_id@,
            decreases self.slave_statuses@.len() - i,
        {
            if str_eq(self.slave_statuses[i].client_id.as_str(), client_id) {
                return Some(i);
            }
            i += 1;
        }
        proof {
            assert forall|j: int|
                0 <= j < self.status_ids().len() implies self.status_ids()[j] != client_id@ by {}
        }
        None
    }

    /// Installs a client after its handshake: a live channel entry plus an
    /// info entry stamped with the connection time. Reconnecting under an id
    /// still present simply refreshes the info entry.
    pub fn register_client(&mut self, client_id: String, ip_address: String, now: i64)
        requires
            old(self).wf(),
        ensures
            final(self).wf(),
            final(self).client_ids().contains(client_id@),
            forall|x: Seq<char>|
                #[trigger] final(self).client_ids().contains(x) <==> (old(self).client_ids().contains(x) || x == client_id@),
            exists|k: int|
                0 <= k < final(self).infos().len() && (#[trigger] final(self).infos()[k]).id
                    == client_id@ && final(self).infos()[k].ip_address == ip_address@ && final(self).infos()[k].connected_at == now && final(self).infos()[k].last_activity == now,
            final(self).statuses() == old(self).statuses(),
            final(self).port == old(self).port,
            final(self).shutdown == old(self).shutdown,
    {
        let fresh = ClientInfo {
            id: client_id.clone(),
            ip_address,
            connected_at: now,
            last_activity: now,
        };
        match self.find_info(client_id.as_str()) {
            Some(k) => {
                proof {
                    assert(self.info_ids()[k as int] == client_id@);
                    assert(self.info_ids().contains(client_id@));
                    assert(self.client_ids().contains(client_id@));
                }
                self.client_info.set(k, fresh);
                proof {
                    assert(self.infos()[k as int].id == client_id@);
                    assert forall|i: int, j: int|
                        0 <= i < j < self.info_ids().len() implies self.info_ids()[i]
                        != self.info_ids()[j] by {
                        assert(old(self).info_ids()[i] != old(self).info_ids()[j]);
                    }
                    assert forall|x: Seq<char>|
                        #[trigger] self.info_ids().contains(x) <==> old(self).info_ids().contains(x) by {
                        assert forall|i: int|
                            0 <= i < self.info_ids().len() implies self.info_ids()[i] == old(self).info_ids()[i] by {}
                        assert(self.info_ids() =~= old(self).info_ids());
                    }
                    assert(self.client_ids() =~= old(self).client_ids());
                }
            },
            None => {
                proof {
                    assert(!old(self).client_ids().contains(client_id@));
                }
                let ghost cid = client_id@;
                self.clients.push(client_id);
                self.client_info.push(fresh);
                proof {
                    assert(self.client_ids() =~= old(self).client_ids().push(cid));
                    assert(self.info_ids() =~= old(self).info_ids().push(cid));
                    assert(self.infos()[self.infos().len() - 1].id == cid);
                    lemma_distinct_push(old(self).client_ids(), cid);
                    lemma_distinct_push(old(self).info_ids(), cid);
                    assert forall|x: Seq<char>|
                        #[trigger] self.client_ids().contains(x) <==> (old(self).client_ids().contains(x) || x == cid) by {
                        lemma_push_contains(old(self).client_ids(), cid, x);
                    }
                    assert forall|x: Seq<char>|
                        #[trigger] self.info_ids().contains(x) <==> (old(self).info_ids().contains(x) || x == cid) by {
                        lemma_push_contains(old(self).info_ids(), cid, x);
                    }
                }
            },
        }
    }

    /// Refreshes a client's last-activity stamp.
    pub fn touch_activity(&mut self, client_id: &str, now: i64)
        requires
            old(self).wf(),
        ensures
            final(self).wf(),
            final(self).client_ids() == old(self).client_ids(),
            final(self).statuses() == old(self).statuses(),
            forall|k: int|
                0 <= k < final(self).infos().len() ==> (#[trigger] final(self).infos()[k])
                    == if old(self).infos()[k].id == client_id@ {
                    ClientInfoView {
                        last_activity: now,
                        ..old(self).infos()[k]
                    }
                } else {
                    old(self).infos()[k]
                },
            final(self).infos().len() == old(self).infos().len(),
            final(self).port == old(self).port,
            final(self).shutdown == old(self).shutdown,
    {
        match self.find_info(client_id) {
            Some(k) => {
                let refreshed = ClientInfo {
                    id: self.client_info[k].id.clone(),
                    ip_address: self.client_info[k].ip_address.clone(),
                    connected_at: self.client_info[k].connected_at,
                    last_activity: now,
                };
                self.client_info.set(k, refreshed);
                proof {
                    assert forall|i: int, j: int|
                        0 <= i < j < self.info_ids().len() implies self.info_ids()[i]
                        != self.info_ids()[j] by {
                        assert(old(self).info_ids()[i] != old(self).info_ids()[j]);
                    }
                    assert(self.info_ids() =~= old(self).info_ids());
                    assert forall|k2: int|
                        0 <= k2 < self.infos().len() && k2 != k implies old(self).infos()[k2].id
                        != client_id@ by {
                        assert(old(self).info_ids()[k2] != old(self).info_ids()[k as int]);
                    }
                }
            },
            None => {
                proof {
                    assert forall|k: int|
                        0 <= k < self.infos().len() implies (#[trigger] self.infos()[k]).id
                        != client_id@ by {
                        assert(self.info_ids()[k] == self.infos()[k].id);
                    }
                }
            },
        }
    }

    /// Records the report a slave sent: its row is replaced, or added when
    /// this is its first report.
    pub fn record_report(
        &mut self,
        client_id: String,
        is_synced: bool,
        desync_details: Vec<StateDifference>,
        now: i64,
    )
        requires
            old(self).wf(),
        ensures
            final(self).wf(),
            final(self).client_ids() == old(self).client_ids(),
            final(self).infos() == old(self).infos(),
            exists|k: int|
                0 <= k < final(self).statuses().len() && (#[trigger] final(self).statuses()[k])
                    == (SlaveStatusView {
                    client_id: client_id@,
                    is_synced: is_synced,
                    desync_details: views_of(desync_details@),
                    last_report_time: now,
                }),
            forall|x: Seq<char>|
                #[trigger] final(self).status_ids().contains(x) <==> (old(self).status_ids().contains(x) || x == client_id@),
            final(self).port == old(self).port,
            final(self).shutdown == old(self).shutdown,
    {
        let ghost target = SlaveStatusView {
            client_id: client_id@,
            is_synced: is_synced,
            desync_details: views_of(desync_details@),
            last_report_time: now,
        };
        let row = SlaveStatus {
            client_id: client_id.clone(),
            is_synced,
            desync_details,
            last_report_time: now,
        };
        proof {
            assert(row@ == target);
        }
        match self.find_status(client_id.as_str()) {
            Some(k) => {
                proof {
                    assert(old(self).status_ids()[k as int] == client_id@);
                    assert(old(self).status_ids().contains(client_id@));
                }
                self.slave_statuses.set(k, row);
                proof {
                    assert(self.statuses()[k as int] == target);
                    assert forall|i: int, j: int|
                        0 <= i < j < self.status_ids().len() implies self.status_ids()[i]
                        != self.status_ids()[j] by {
                        assert(old(self).status_ids()[i] != old(self).status_ids()[j]);
                    }
                    assert(self.status_ids() =~= old(self).status_ids());
                    assert(self.infos() =~= old(self).infos());
                    assert(self.client_ids() =~= old(self).client_ids());
                }
            },
            None => {
                self.slave_statuses.push(row);
                proof {
                    assert(self.statuses()[self.statuses().len() - 1] == target);
                    assert(self.status_ids() =~= old(self).status_ids().push(client_id@));
                    lemma_distinct_push(old(self).status_ids(), client_id@);
                    assert forall|x: Seq<char>|
                        #[trigger] self.status_ids().contains(x) <==> (old(
                            self,
                        ).status_ids().contains(x) || x == client_id@) by {
                        lemma_push_contains(old(self).status_ids(), client_id@, x);
                    }
                    assert(self.infos() =~= old(self).infos());
                    assert(self.client_ids() =~= old(self).client_ids());
                }
            },
        }
    }

    /// Tears a client down: its channel, info and report rows all go, within
    /// the one call.
    pub fn remove_client(&mut self, client_id: &str)
        requires
            old(self).wf(),
        ensures
            final(self).wf(),
            !final(self).client_ids().contains(client_id@),
            !final(self).status_ids().contains(client_id@),
            forall|x: Seq<char>|
                #[trigger] final(self).client_ids().contains(x) <==> (old(self).client_ids().contains(x) && x != client_id@),
            forall|x: Seq<char>|
                #[trigger] final(self).status_ids().contains(x) <==> (old(self).status_ids().contains(x) && x != client_id@),
            old(self).info_ids().contains(client_id@) ==> exists|j: int|
                0 <= j < old(self).infos().len() && (#[trigger] old(self).infos()[j]).id
                    == client_id@ && final(self).infos() == old(self).infos().remove(j),
            !old(self).info_ids().contains(client_id@) ==> final(self).infos() == old(self).infos(),
            old(self).status_ids().contains(client_id@) ==> exists|j: int|
                0 <= j < old(self).statuses().len() && (#[trigger] old(self).statuses()[j]).client_id == client_id@ && final(self).statuses() == old(self).statuses().remove(j),
            !old(self).status_ids().contains(client_id@) ==> final(self).statuses() == old(self).statuses(),
            final(self).port == old(self).port,
            final(self).shutdown == old(self).shutdown,
    {
        let ghost pre_clients = self.client_ids();
        match self.find_client(client_id) {
            Some(k) => {
                self.clients.remove(k);
                proof {
                    assert(self.client_ids() =~= pre_clients.remove(k as int));
                    lemma_distinct_remove(pre_clients, k as int, client_id@);
                }
            },
            None => {
                proof {
                    assert forall|x: Seq<char>|
                        #[trigger] self.client_ids().contains(x) implies x != client_id@ by {}
                }
            },
        }
        let ghost pre_infos = self.infos();
        let ghost pre_info_ids = self.info_ids();
        match self.find_info(client_id) {
            Some(k) => {
                self.client_info.remove(k);
                proof {
                    assert(self.infos() =~= pre_infos.remove(k as int));
                    assert(self.info_ids() =~= pre_info_ids.remove(k as int));
                    lemma_distinct_remove(pre_info_ids, k as int, client_id@);
                    assert(pre_info_ids.contains(client_id@)) by {
                        assert(pre_info_ids[k as int] == client_id@);
                    }
                }
            },
            None => {
                proof {
                    assert forall|x: Seq<char>|
                        #[trigger] self.info_ids().contains(x) implies x != client_id@ by {}
                }
            },
        }
        let ghost pre_statuses = self.statuses();
        let ghost pre_status_ids = self.status_ids();
        match self.find_status(client_id) {
            Some(k) => {
                self.slave_statuses.remove(k);
                proof {
                    assert(self.statuses() =~= pre_statuses.remove(k as int));
                    assert(self.status_ids() =~= pre_status_ids.remove(k as int));
                    lemma_distinct_remove(pre_status_ids, k as int, client_id@);
                    assert(pre_status_ids.contains(client_id@)) by {
                        assert(pre_status_ids[k as int] == client_id@);
                    }
                }
            },
            None => {
                proof {
                    assert forall|x: Seq<char>|
                        #[trigger] self.status_ids().contains(x) implies x != client_id@ by {}
                }
            },
        }
    }

    /// How many slaves are connected.
    pub fn get_connected_clients_count(&self) -> (r: usize)
        ensures
            r == self.client_ids().len(),
    {
        self.clients.len()
    }

    /// A snapshot of every client's info row.
    pub fn get_connected_clients_info(&self) -> (r: Vec<ClientInfo>)
        ensures
            views_of(r@) == self.infos(),
    {
        let mut out: Vec<ClientInfo> = Vec::new();
        let mut i: usize = 0;
        while i < self.client_info.len()
            invariant
                0 <= i <= self.client_info@.len(),
                views_of(out@) =~= self.infos().take(i as int),
            decreases self.client_info@.len() - i,
        {
            let e = ClientInfo {
                id: self.client_info[i].id.clone(),
                ip_address: self.client_info[i].ip_address.clone(),
                connected_at: self.client_info[i].connected_at,
                last_activity: self.client_info[i].last_activity,
            };
            proof {
                assert(e@ == self.infos()[i as int]);
            }
            out.push(e);
            proof {
                assert(self.infos().take(i + 1) =~= self.infos().take(i as int).push(
                    self.infos()[i as int],
                ));
                assert(views_of(out@) =~= self.infos().take(i + 1));
            }
            i += 1;
        }
        proof {
            assert(self.infos().take(self.infos().len() as int) =~= self.infos());
        }
        out
    }

    /// A snapshot of every slave's last report.
    pub fn get_slave_statuses(&self) -> (r: Vec<SlaveStatus>)
        ensures
            views_of(r@) == self.statuses(),
    {
        let mut out: Vec<SlaveStatus> = Vec::new();
        let mut i: usize = 0;
        while i < self.slave_statuses.len()
            invariant
                0 <= i <= self.slave_statuses@.len(),
                views_of(out@) =~= self.statuses().take(i as int),
            decreases self.slave_statuses@.len() - i,
        {
            let e = clone_status(&self.slave_statuses[i]);
            proof {
                assert(e@ == self.statuses()[i as int]);
            }
            out.push(e);
            proof {
                assert(self.statuses().take(i + 1) =~= self.statuses().take(i as int).push(
                    self.statuses()[i as int],
                ));
                assert(views_of(out@) =~= self.statuses().take(i + 1));
            }
            i += 1;
        }
        proof {
            assert(self.statuses().take(self.statuses().len() as int) =~= self.statuses());
        }
        out
    }

    /// Shuts the server down: the flag is set and every map is emptied.
    pub fn stop(&mut self)
        ensures
            final(self).wf(),
            final(self).shutdown,
            final(self).client_ids().len() == 0,
            final(self).infos().len() == 0,
            final(self).statuses().len() == 0,
            final(self).port == old(self).port,
    {
        self.shutdown = true;
        self.clients = Vec::new();
        self.client_info = Vec::new();
        self.slave_statuses = Vec::new();
    }

    /// Handles one frame a slave sent: refreshes the client's activity
    /// stamp, echoes pings, routes a `StateSyncRequest` to the initial-state
    /// trigger and a `StateReport` into the report map, and asks for teardown
    /// on close or error. A frame that does not parse is skipped and the
    /// connection is kept.
    pub fn handle_client_frame(&mut self, client_id: &str, frame: ClientFrame, now: i64) -> (r:
        ClientFrameAction)
        requires
            old(self).wf(),
        ensures
            final(self).wf(),
            final(self).client_ids() == old(self).client_ids(),
            frame matches ClientFrame::Ping(d) ==> r == ClientFrameAction::SendPong(d),
            frame is Close ==> r == ClientFrameAction::Disconnect,
            frame is SocketError ==> r == ClientFrameAction::Disconnect,
            forall|m: SyncMessageView|
                #![trigger enc_message(m)]
                (frame matches ClientFrame::Text(t) && t@ == enc_message(m) && payload_matches(
                    m.message_type,
                    m.payload,
                ) && m.message_type == SyncMessageType::StateSyncRequest) ==> r
                    == ClientFrameAction::TriggerInitialState,
            forall|m: SyncMessageView|
                #![trigger enc_message(m)]
                (frame matches ClientFrame::Text(t) && t@ == enc_message(m) && payload_matches(
                    m.message_type,
                    m.payload,
                ) && m.message_type == SyncMessageType::StateReport) ==> (r
                    == ClientFrameAction::NoAction && exists|k: int|
                    0 <= k < final(self).statuses().len() && (#[trigger] final(self).statuses()[k])
                        == (SlaveStatusView {
                        client_id: client_id@,
                        is_synced: m.payload->StateReport_0.is_synced,
                        desync_details: m.payload->StateReport_0.desync_details,
                        last_report_time: now,
                    })),
    {
        self.touch_activity(client_id, now);
        match frame {
            ClientFrame::Ping(data) => ClientFrameAction::SendPong(data),
            ClientFrame::Close => ClientFrameAction::Disconnect,
            ClientFrame::SocketError => ClientFrameAction::Disconnect,
            ClientFrame::Text(text) => {
                match decode_message(text.as_str()) {
                    Ok(msg) => {
                        match msg.message_type {
                            SyncMessageType::StateSyncRequest => {
                                ClientFrameAction::TriggerInitialState
                            },
                            SyncMessageType::StateReport => {
                                match msg.payload {
                                    Payload::StateReport(report) => {
                                        self.record_report(
                                            String::from_str(client_id),
                                            report.is_synced,
                                            report.desync_details,
                                            now,
                                        );
                                        ClientFrameAction::NoAction
                                    },
                                    _ => ClientFrameAction::NoAction,
                                }
                            },
                            _ => ClientFrameAction::NoAction,
                        }
                    },
                    Err(_) => ClientFrameAction::NoAction,
                }
            },
        }
    }

    /// Fan-out of one outbound message: the frame is encoded once and every
    /// live client is to receive exactly that frame, in roster order.
    pub fn broadcast_frames(&self, msg: &SyncMessage) -> (r: Vec<(String, String)>)
        ensures
            r@.len() == self.client_ids().len(),
            forall|i: int|
                0 <= i < r@.len() ==> (#[trigger] r@[i]).0@ == self.client_ids()[i] && r@[i].1@
                    == enc_message(msg@),
    {
        let frame = encode_message(msg);
        let mut out: Vec<(String, String)> = Vec::new();
        let mut i: usize = 0;
        while i < self.clients.len()
            invariant
                0 <= i <= self.clients@.len(),
                out@.len() == i,
                frame@ == enc_message(msg@),
                forall|j: int|
                    0 <= j < i ==> (#[trigger] out@[j]).0@ == self.client_ids()[j] && out@[j].1@
                        == enc_message(msg@),
            decreases self.clients@.len() - i,
        {
            out.push((self.clients[i].clone(), frame.clone()));
            i += 1;
        }
        out
    }
}


/// Roster consistency: under the server invariant, every id with a live
/// channel has an info entry, every info entry belongs to a live channel, and
/// no id appears twice in either map — so each connected client has exactly
/// one info row.
pub proof fn lemma_roster_consistency(s: MasterServer)
    requires
        s.wf(),
    ensures
        forall|id: Seq<char>| s.client_ids().contains(id) <==> s.info_ids().contains(id),
        forall|i: int, j: int|
            0 <= i < j < s.infos().len() ==> (#[trigger] s.infos()[i]).id != (
            #[trigger] s.infos()[j]).id,
        forall|i: int, j: int|
            0 <= i < j < s.client_ids().len() ==> s.client_ids()[i] != s.client_ids()[j],
{
    assert forall|i: int, j: int|
        0 <= i < j < s.infos().len() implies (#[trigger] s.infos()[i]).id != (
    #[trigger] s.infos()[j]).id by {
        assert(s.info_ids()[i] == s.infos()[i].id);
        assert(s.info_ids()[j] == s.infos()[j].id);
    }
}

/// Removing index `k` from a duplicate-free id list keeps it duplicate-free
/// and drops exactly the id at `k`.
pub proof fn lemma_distinct_remove(ids: Seq<Seq<char>>, k: int, removed: Seq<char>)
    requires
        0 <= k < ids.len(),
        ids[k] == removed,
        distinct_ids(ids),
    ensures
        distinct_ids(ids.remove(k)),
        forall|x: Seq<char>|
            #[trigger] ids.remove(k).contains(x) <==> (ids.contains(x) && x != removed),
{
    let r = ids.remove(k);
    assert forall|i: int, j: int| 0 <= i < j < r.len() implies r[i] != r[j] by {
        assert(r[i] == if i < k {
            ids[i]
        } else {
            ids[i + 1]
        });
        assert(r[j] == if j < k {
            ids[j]
        } else {
            ids[j + 1]
        });
    }
    assert forall|x: Seq<char>| #[trigger] r.contains(x) implies (ids.contains(x) && x
        != removed) by {
        let w = choose|w: int| 0 <= w < r.len() && r[w] == x;
        let orig: int = if w < k {
            w
        } else {
            w + 1
        };
        assert(ids[orig] == x);
        assert(ids.contains(x));
        assert(orig != k);
    }
    assert forall|x: Seq<char>| ids.contains(x) && x != removed implies #[trigger] r.contains(
        x,
    ) by {
        let w = choose|w: int| 0 <= w < ids.len() && ids[w] == x;
        assert(w != k);
        let pos: int = if w < k {
            w
        } else {
            w - 1
        };
        assert(r[pos] == x);
    }
}

/// Appending a fresh id keeps an id list duplicate-free.
pub proof fn lemma_distinct_push(ids: Seq<Seq<char>>, id: Seq<char>)
    requires
        distinct_ids(ids),
        !ids.contains(id),
    ensures
        distinct_ids(ids.push(id)),
{
    let r = ids.push(id);
    assert forall|i: int, j: int| 0 <= i < j < r.len() implies r[i] != r[j] by {
        if j < ids.len() {
            assert(r[i] == ids[i] && r[j] == ids[j]);
        } else {
            assert(r[j] == id);
            assert(r[i] == ids[i]);
            if ids[i] == id {
                assert(ids.contains(id));
            }
        }
    }
}

/// What an id list contains after a push.
pub proof fn lemma_push_contains(ids: Seq<Seq<char>>, id: Seq<char>, x: Seq<char>)
    ensures
        ids.push(id).contains(x) <==> (ids.contains(x) || x == id),
{
    let r = ids.push(id);
    if ids.contains(x) {
        let w = choose|w: int| 0 <= w < ids.len() && ids[w] == x;
        assert(r[w] == x);
    }
    if x == id {
        assert(r[ids.len() as int] == x);
    }
    if r.contains(x) {
        let w = choose|w: int| 0 <= w < r.len() && r[w] == x;
        if w < ids.len() {
            assert(ids[w] == x);
        }
    }
}

/// A deep copy of one report row.
fn clone_status(s: &SlaveStatus) -> (r: SlaveStatus)
    ensures
        r@ == s@,
{
    let mut details: Vec<StateDifference> = Vec::new();
    let mut i: usize = 0;
    while i < s.desync_details.len()
        invariant
            0 <= i <= s.desync_details@.len(),
            views_of(details@) =~= views_of(s.desync_details@).take(i as int),
        decreases s.desync_details@.len() - i,
    {
        let d = StateDifference {
            category: s.desync_details[i].category,
            scene_name: s.desync_details[i].scene_name.clone(),
            source_name: s.desync_details[i].source_name.clone(),
            description: s.desync_details[i].description.clone(),
            severity: s.desync_details[i].severity,
        };
        proof {
            assert(d@ == views_of(s.desync_details@)[i as int]);
        }
        details.push(d);
        proof {
            assert(views_of(s.desync_details@).take(i + 1) =~= views_of(
                s.desync_details@,
            ).take(i as int).push(views_of(s.desync_details@)[i as int]));
            assert(views_of(details@) =~= views_of(s.desync_details@).take(i + 1));
        }
        i += 1;
    }
    proof {
        assert(views_of(details@) =~= views_of(s.desync_details@));
    }
    SlaveStatus {
        client_id: s.client_id.clone(),
        is_synced: s.is_synced,
        desync_details: details,
        last_report_time: s.last_report_time,
    }
}

} // verus!
