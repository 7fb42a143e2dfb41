use vstd::prelude::*;

use std::collections::VecDeque;

use crate::CAddressHandle;
use crate::CPlayerHandle;
use crate::CSessionHandle;
use crate::INVALID_HANDLE;
use crate::message::CMESSAGE_BUFFER_SIZE;
use crate::message::CMessage;
use crate::requests::CRequest;
use crate::requests::CRequestType;
use crate::requests::CSessionEvent;
use crate::requests::append_batch;
use crate::requests::batch_requests;
use crate::requests::event_requests;
use crate::requests::is_state_event;
use crate::requests::lemma_advance_emission_order;
use crate::requests::lemma_batch_requests_no_sentinel;
use crate::requests::state_record;
use crate::settings::CSessionBuilderSettings;
use crate::settings::is_default_settings;
use crate::settings::valid_p2p_settings;
use crate::settings::valid_synctest_settings;

verus! {

/// The two session kinds the bridge can host.
#[derive(Clone, Copy, PartialEq, Eq, Structural, Debug)]
pub enum CSessionType {
    /// Local determinism testing; no transport attached.
    SyncTest,
    /// Networked session; owns a transport queue pair.
    P2P,
}

/// Coarse session status reported to the caller.
#[derive(Clone, Copy, PartialEq, Eq, Structural, Debug)]
pub enum CSessionState {
    /// The session is still establishing contact with its peers.
    Synchronizing,
    /// The session is ready to take and transmit input.
    Running,
}

/// The transport queue pair of one peer-to-peer session: outbound messages
/// wait for the caller to pull them, inbound messages wait for the engine to
/// drain them.
#[derive(Debug)]
pub struct CTransport {
    /// Framed messages the engine has sent, oldest first.
    pub outbound: VecDeque<CMessage>,
    /// Framed messages the caller has delivered, oldest first.
    pub inbound: VecDeque<CMessage>,
}

/// Everything the bridge owns for one live session.
#[derive(Debug)]
pub struct CSessionEntry {
    /// The handle under which the session was registered; never the sentinel.
    pub handle: CSessionHandle,
    /// Which kind of session this is.
    pub session_type: CSessionType,
    /// The flattened request queue, front at the head.
    pub requests: VecDeque<CRequest>,
    /// The transport queue pair; present exactly for peer-to-peer sessions.
    pub transport: Option<CTransport>,
}

/// No queued record carries the sentinel tag, so an empty poll is
/// distinguishable from queued work.
pub open spec fn queue_wf(q: Seq<CRequest>) -> bool {
    forall|i: int| 0 <= i < q.len() ==> (#[trigger] q[i]).request_type != CRequestType::Empty
}

/// Every queued message is well formed.
pub open spec fn msgs_wf(q: Seq<CMessage>) -> bool {
    forall|i: int| 0 <= i < q.len() ==> (#[trigger] q[i]).wf()
}

/// Well-formedness of one registry entry.
pub open spec fn entry_wf(e: CSessionEntry) -> bool {
    &&& e.handle != INVALID_HANDLE
    &&& (e.session_type == CSessionType::P2P <==> e.transport is Some)
    &&& queue_wf(e.requests@)
    &&& match e.transport {
        Option::Some(t) => msgs_wf(t.outbound@) && msgs_wf(t.inbound@),
        Option::None => true,
    }
}

/// What one entry's outbound queue says, as endpoint/payload pairs.
pub open spec fn entry_outbound(e: CSessionEntry) -> Seq<(CAddressHandle, Seq<u8>)> {
    match e.transport {
        Option::Some(t) => t.outbound@.map_values(|m: CMessage| m.model()),
        Option::None => Seq::empty(),
    }
}

/// What one entry's inbound queue says, as endpoint/payload pairs.
pub open spec fn entry_inbound(e: CSessionEntry) -> Seq<(CAddressHandle, Seq<u8>)> {
    match e.transport {
        Option::Some(t) => t.inbound@.map_values(|m: CMessage| m.model()),
        Option::None => Seq::empty(),
    }
}

/// No two entries share a handle.
pub open spec fn handles_distinct(es: Seq<CSessionEntry>) -> bool {
    forall|i: int, j: int| 0 <= i < j < es.len() ==> es[i].handle != es[j].handle
}

/// Some entry carries this handle.
pub open spec fn seq_has(es: Seq<CSessionEntry>, h: CSessionHandle) -> bool {
    exists|i: int| 0 <= i < es.len() && (#[trigger] es[i]).handle == h
}

/// The index of the entry carrying this handle; meaningful when `seq_has`.
pub open spec fn seq_index(es: Seq<CSessionEntry>, h: CSessionHandle) -> int {
    choose|i: int| 0 <= i < es.len() && (#[trigger] es[i]).handle == h
}

/// An index that carries the handle is the index `seq_index` names.
proof fn lemma_index_agrees(es: Seq<CSessionEntry>, h: CSessionHandle, i: int)
    requires
        handles_distinct(es),
        0 <= i < es.len(),
        es[i].handle == h,
    ensures
        seq_has(es, h),
        seq_index(es, h) == i,
{
    assert(seq_has(es, h));
    let j = seq_index(es, h);
    assert(0 <= j < es.len() && es[j].handle == h);
    if i < j {
        assert(es[i].handle != es[j].handle);
    } else if j < i {
        assert(es[j].handle != es[i].handle);
    }
}

/// Replacing one entry by another with the same handle leaves every other
/// session untouched.
proof fn lemma_update_frame(pre: Seq<CSessionEntry>, post: Seq<CSessionEntry>, i: int)
    requires
        handles_distinct(pre),
        0 <= i < pre.len(),
        post == pre.update(i, post[i]),
        post[i].handle == pre[i].handle,
    ensures
        handles_distinct(post),
        seq_has(post, pre[i].handle),
        seq_index(post, pre[i].handle) == i,
        seq_index(pre, pre[i].handle) == i,
        forall|h2: CSessionHandle|
            h2 != pre[i].handle ==> (seq_has(post, h2) <==> seq_has(pre, h2)),
        forall|h2: CSessionHandle|
            h2 != pre[i].handle && seq_has(pre, h2) ==> post[seq_index(post, h2)] == pre[seq_index(
                pre,
                h2,
            )],
{
    assert(post.len() == pre.len());
    assert(forall|k: int| 0 <= k < post.len() ==> (#[trigger] post[k]).handle == pre[k].handle);
    lemma_index_agrees(pre, pre[i].handle, i);
    assert(handles_distinct(post));
    lemma_index_agrees(post, pre[i].handle, i);
    assert forall|h2: CSessionHandle| h2 != pre[i].handle implies (seq_has(post, h2) <==> seq_has(
        pre,
        h2,
    )) by {
        if seq_has(pre, h2) {
            let j = seq_index(pre, h2);
            assert(0 <= j < pre.len() && pre[j].handle == h2);
            assert(post[j].handle == h2);
            assert(seq_has(post, h2));
        }
        if seq_has(post, h2) {
            let j = seq_index(post, h2);
            assert(0 <= j < post.len() && post[j].handle == h2);
            assert(pre[j].handle == h2);
            assert(seq_has(pre, h2));
        }
    }
    assert forall|h2: CSessionHandle| h2 != pre[i].handle && seq_has(pre, h2) implies post[seq_index(
        post,
        h2,
    )] == pre[seq_index(pre, h2)] by {
        let j = seq_index(pre, h2);
        assert(0 <= j < pre.len() && pre[j].handle == h2);
        assert(post[j].handle == h2);
        lemma_index_agrees(post, h2, j);
        assert(j != i);
        assert(post[j] == pre[j]);
    }
}

/// Appending an entry with a fresh handle leaves every other session
/// untouched.
proof fn lemma_push_frame(pre: Seq<CSessionEntry>, post: Seq<CSessionEntry>, e: CSessionEntry)
    requires
        handles_distinct(pre),
        forall|k: int| 0 <= k < pre.len() ==> (#[trigger] pre[k]).handle != e.handle,
        post == pre.push(e),
    ensures
        handles_distinct(post),
        seq_has(post, e.handle),
        seq_index(post, e.handle) == pre.len(),
        forall|h2: CSessionHandle| h2 != e.handle ==> (seq_has(post, h2) <==> seq_has(pre, h2)),
        forall|h2: CSessionHandle|
            h2 != e.handle && seq_has(pre, h2) ==> post[seq_index(post, h2)] == pre[seq_index(
                pre,
                h2,
            )],
{
    assert(post.len() == pre.len() + 1);
    assert(forall|k: int| 0 <= k < pre.len() ==> post[k] == pre[k]);
    assert(post[pre.len() as int] == e);
    assert(handles_distinct(post));
    lemma_index_agrees(post, e.handle, pre.len() as int);
    assert forall|h2: CSessionHandle| h2 != e.handle implies (seq_has(post, h2) <==> seq_has(
        pre,
        h2,
    )) by {
        if seq_has(pre, h2) {
            let j = seq_index(pre, h2);
            assert(post[j].handle == h2);
            assert(seq_has(post, h2));
        }
        if seq_has(post, h2) {
            let j = seq_index(post, h2);
            assert(j < pre.len());
            assert(pre[j].handle == h2);
            assert(seq_has(pre, h2));
        }
    }
    assert forall|h2: CSessionHandle| h2 != e.handle && seq_has(pre, h2) implies post[seq_index(
        post,
        h2,
    )] == pre[seq_index(pre, h2)] by {
        let j = seq_index(pre, h2);
        assert(0 <= j < pre.len() && pre[j].handle == h2);
        assert(post[j].handle == h2);
        lemma_index_agrees(post, h2, j);
        lemma_index_agrees(pre, h2, j);
    }
}

/// The bridge: the staged builder settings, the handle registry, and every
/// live session's queues, as one explicitly owned object.
pub struct CBridge {
    /// The single staged configuration record.
    pub settings: CSessionBuilderSettings,
    /// The next handle `allocate` will issue; handles grow monotonically.
    pub next_handle: CSessionHandle,
    /// One entry per live session.
    pub entries: Vec<CSessionEntry>,
    /// Every handle `allocate` has ever issued.
    pub issued: Ghost<Set<CSessionHandle>>,
}

impl CBridge {
    /// Structural invariant of the bridge.
    pub open spec fn wf(self) -> bool {
        &&& self.next_handle >= 1
        &&& forall|i: int|
            0 <= i < self.entries@.len() ==> entry_wf(#[trigger] self.entries@[i])
                && self.entries@[i].handle < self.next_handle
        &&& handles_distinct(self.entries@)
        &&& forall|h: CSessionHandle|
            self.issued@.contains(h) ==> INVALID_HANDLE < h && h < self.next_handle
    }

    /// Every handle ever returned by `allocate`.
    pub open spec fn issued_handles(self) -> Set<CSessionHandle> {
        self.issued@
    }

    /// A session is registered under this handle.
    pub open spec fn has_session(self, h: CSessionHandle) -> bool {
        seq_has(self.entries@, h)
    }

    /// The entry registered under this handle; meaningful when `has_session`.
    pub open spec fn entry_of(self, h: CSessionHandle) -> CSessionEntry {
        self.entries@[seq_index(self.entries@, h)]
    }

    /// The kind of the session registered under this handle.
    pub open spec fn session_type_of(self, h: CSessionHandle) -> CSessionType {
        self.entry_of(h).session_type
    }

    /// The handle names a live peer-to-peer session.
    pub open spec fn is_p2p(self, h: CSessionHandle) -> bool {
        self.has_session(h) && self.session_type_of(h) == CSessionType::P2P
    }

    /// The flattened request queue of this handle, front first.
    pub open spec fn requests_of(self, h: CSessionHandle) -> Seq<CRequest> {
        self.entry_of(h).requests@
    }

    /// The outbound transport queue of this handle, front first.
    pub open spec fn outbound_of(self, h: CSessionHandle) -> Seq<(CAddressHandle, Seq<u8>)> {
        entry_outbound(self.entry_of(h))
    }

    /// The inbound transport queue of this handle, front first.
    pub open spec fn inbound_of(self, h: CSessionHandle) -> Seq<(CAddressHandle, Seq<u8>)> {
        entry_inbound(self.entry_of(h))
    }

    /// Nothing observable changed.
    pub open spec fn same_state(pre: CBridge, post: CBridge) -> bool {
        &&& post.settings == pre.settings
        &&& post.next_handle == pre.next_handle
        &&& post.issued@ == pre.issued@
        &&& post.entries@ == pre.entries@
    }

    /// The handle registry did not change.
    pub open spec fn registry_frame(pre: CBridge, post: CBridge) -> bool {
        &&& post.next_handle == pre.next_handle
        &&& post.issued@ == pre.issued@
    }

    /// Every session except `h` is exactly as it was.
    pub open spec fn others_preserved(pre: CBridge, post: CBridge, h: CSessionHandle) -> bool {
        &&& forall|h2: CSessionHandle|
            h2 != h ==> (post.has_session(h2) <==> pre.has_session(h2))
        &&& forall|h2: CSessionHandle|
            h2 != h && pre.has_session(h2) ==> post.entry_of(h2) == pre.entry_of(h2)
    }

    /// Builds an empty bridge: no sessions, default settings, and handles
    /// assigned monotonically starting at 1, so the first build can succeed.
    pub fn new() -> (b: CBridge)
        ensures
            b.wf(),
            is_default_settings(b.settings),
            b.next_handle == 1,
            b.issued_handles() == Set::<CSessionHandle>::empty(),
            forall|h: CSessionHandle| !b.has_session(h),
    {
        CBridge {
            settings: CSessionBuilderSettings::new(),
            next_handle: 1,
            entries: Vec::new(),
            issued: Ghost(Set::empty()),
        }
    }

    /// Issues the next session handle. Returns the sentinel only when the
    /// handle space is exhausted; a real handle is nonzero, was never issued
    /// before, and is not in use by any live session.
    pub fn allocate(&mut self) -> (h: CSessionHandle)
        requires
            old(self).wf(),
        ensures
            final(self).wf(),
            final(self).entries@ == old(self).entries@,
            final(self).settings == old(self).settings,
            (h != INVALID_HANDLE) <==> old(self).next_handle < CSessionHandle::MAX,
            h == INVALID_HANDLE ==> CBridge::same_state(*old(self), *final(self)),
            h != INVALID_HANDLE ==> {
                &&& !old(self).issued_handles().contains(h)
                &&& final(self).issued_handles() == old(self).issued_handles().insert(h)
                &&& h == old(self).next_handle
                &&& final(self).next_handle == old(self).next_handle + 1
                &&& !old(self).has_session(h)
                &&& !final(self).has_session(h)
            },
    {
        if self.next_handle == CSessionHandle::MAX {
            return INVALID_HANDLE;
        }
        let h = self.next_handle;
        self.next_handle = self.next_handle + 1;
        self.issued = Ghost(self.issued@.insert(h));
        proof {
            if seq_has(self.entries@, h) {
                let i = seq_index(self.entries@, h);
                assert(0 <= i < self.entries@.len() && self.entries@[i].handle == h);
            }
        }
        h
    }

    /// The staged configuration changed, but no session and no handle did.
    pub open spec fn only_settings_changed(pre: CBridge, post: CBridge) -> bool {
        &&& post.next_handle == pre.next_handle
        &&& post.issued@ == pre.issued@
        &&& post.entries@ == pre.entries@
    }

    /// Resets the staged settings to the defaults.
    pub fn builder_new(&mut self)
        ensures
            is_default_settings(final(self).settings),
            CBridge::only_settings_changed(*old(self), *final(self)),
            old(self).wf() ==> final(self).wf(),
    {
        self.settings = CSessionBuilderSettings::new();
    }

    /// Stages the simulation rate.
    pub fn builder_with_fps(&mut self, fps: usize)
        ensures
            final(self).settings == (CSessionBuilderSettings { fps, ..old(self).settings }),
            CBridge::only_settings_changed(*old(self), *final(self)),
            old(self).wf() ==> final(self).wf(),
    {
        self.settings.fps = fps;
    }

    /// Stages the prediction-window size.
    pub fn builder_with_max_prediction_window(&mut self, window: usize)
        ensures
            final(self).settings == (CSessionBuilderSettings {
                max_prediction: window,
                ..old(self).settings
            }),
            CBridge::only_settings_changed(*old(self), *final(self)),
            old(self).wf() ==> final(self).wf(),
    {
        self.settings.max_prediction = window;
    }

    /// Stages the number of players.
    pub fn builder_with_num_players(&mut self, num_players: usize)
        ensures
            final(self).settings == (CSessionBuilderSettings {
                num_players,
                ..old(self).settings
            }),
            CBridge::only_settings_changed(*old(self), *final(self)),
            old(self).wf() ==> final(self).wf(),
    {
        self.settings.num_players = num_players;
    }

    /// Stages the sparse-saving flag.
    pub fn builder_with_sparse_saving_mode(&mut self, sparse_saving: bool)
        ensures
            final(self).settings == (CSessionBuilderSettings {
                sparse_saving,
                ..old(self).settings
            }),
            CBridge::only_settings_changed(*old(self), *final(self)),
            old(self).wf() ==> final(self).wf(),
    {
        self.settings.sparse_saving = sparse_saving;
    }

    /// Stages the local input delay.
    pub fn builder_with_input_delay(&mut self, delay: usize)
        ensures
            final(self).settings == (CSessionBuilderSettings {
                input_delay: delay,
                ..old(self).settings
            }),
            CBridge::only_settings_changed(*old(self), *final(self)),
            old(self).wf() ==> final(self).wf(),
    {
        self.settings.input_delay = delay;
    }

    /// Stages the local bind port for native-socket sessions.
    pub fn builder_set_host_port(&mut self, port: u16)
        ensures
            final(self).settings == (CSessionBuilderSettings {
                host_port: port,
                ..old(self).settings
            }),
            CBridge::only_settings_changed(*old(self), *final(self)),
            old(self).wf() ==> final(self).wf(),
    {
        self.settings.host_port = port;
    }

    /// Appends a local player slot to the staged list.
    pub fn builder_add_local_player(&mut self, player_handle: CPlayerHandle)
        ensures
            final(self).settings.local_player_handles@ == old(
                self,
            ).settings.local_player_handles@.push(player_handle),
            final(self).settings.remote_player_handles@ == old(
                self,
            ).settings.remote_player_handles@,
            final(self).settings.fps == old(self).settings.fps,
            final(self).settings.max_prediction == old(self).settings.max_prediction,
            final(self).settings.num_players == old(self).settings.num_players,
            final(self).settings.sparse_saving == old(self).settings.sparse_saving,
            final(self).settings.host_port == old(self).settings.host_port,
            final(self).settings.input_delay == old(self).settings.input_delay,
            CBridge::only_settings_changed(*old(self), *final(self)),
            old(self).wf() ==> final(self).wf(),
    {
        self.settings.local_player_handles.push(player_handle);
    }

    /// Appends a remote player slot with its endpoint to the staged list.
    pub fn builder_add_remote_player(
        &mut self,
        player_handle: CPlayerHandle,
        addr_handle: CAddressHandle,
    )
        ensures
            final(self).settings.remote_player_handles@ == old(
                self,
            ).settings.remote_player_handles@.push((player_handle, addr_handle)),
            final(self).settings.local_player_handles@ == old(
                self,
            ).settings.local_player_handles@,
            final(self).settings.fps == old(self).settings.fps,
            final(self).settings.max_prediction == old(self).settings.max_prediction,
            final(self).settings.num_players == old(self).settings.num_players,
            final(self).settings.sparse_saving == old(self).settings.sparse_saving,
            final(self).settings.host_port == old(self).settings.host_port,
            final(self).settings.input_delay == old(self).settings.input_delay,
            CBridge::only_settings_changed(*old(self), *final(self)),
            old(self).wf() ==> final(self).wf(),
    {
        self.settings.remote_player_handles.push((player_handle, addr_handle));
    }

    /// Registers a freshly built session: allocates the handle and installs
    /// the entry with its empty queues. Shared tail of the two build paths.
    fn register_session(&mut self, session_type: CSessionType) -> (h: CSessionHandle)
        requires
            old(self).wf(),
        ensures
            final(self).wf(),
            (h != INVALID_HANDLE) <==> old(self).next_handle < CSessionHandle::MAX,
            h == INVALID_HANDLE ==> CBridge::same_state(*old(self), *final(self)),
            h != INVALID_HANDLE ==> {
                &&& h == old(self).next_handle
                &&& !old(self).has_session(h)
                &&& !old(self).issued_handles().contains(h)
                &&& final(self).issued_handles() == old(self).issued_handles().insert(h)
                &&& final(self).next_handle == old(self).next_handle + 1
                &&& final(self).has_session(h)
                &&& final(self).session_type_of(h) == session_type
                &&& final(self).requests_of(h) == Seq::<CRequest>::empty()
                &&& final(self).outbound_of(h) == Seq::<(CAddressHandle, Seq<u8>)>::empty()
                &&& final(self).inbound_of(h) == Seq::<(CAddressHandle, Seq<u8>)>::empty()
                &&& final(self).settings == old(self).settings
                &&& CBridge::others_preserved(*old(self), *final(self), h)
            },
    {
        let h = self.allocate();
        if h == INVALID_HANDLE {
            return INVALID_HANDLE;
        }
        let transport = match session_type {
            CSessionType::SyncTest => Option::None,
            CSessionType::P2P => Option::Some(
                CTransport { outbound: VecDeque::new(), inbound: VecDeque::new() },
            ),
        };
        let entry = CSessionEntry {
            handle: h,
            session_type,
            requests: VecDeque::new(),
            transport,
        };
        let ghost pre_push = self.entries@;
        let ghost entry_spec = entry;
        proof {
            assert(forall|k: int|
                0 <= k < pre_push.len() ==> (#[trigger] pre_push[k]).handle != entry_spec.handle);
        }
        self.entries.push(entry);
        proof {
            lemma_push_frame(pre_push, self.entries@, entry_spec);
            assert(entry_wf(entry_spec));
            assert(self.entry_of(h) == entry_spec);
            match entry_spec.transport {
                Option::Some(t) => {
                    assert(t.outbound@.map_values(|m: CMessage| m.model()) =~= Seq::<
                        (CAddressHandle, Seq<u8>),
                    >::empty());
                    assert(t.inbound@.map_values(|m: CMessage| m.model()) =~= Seq::<
                        (CAddressHandle, Seq<u8>),
                    >::empty());
                },
                Option::None => {},
            }
        }
        h
    }

    /// Consumes the staged settings and starts a sync-test session: a nonzero
    /// handle exactly when the engine accepts the settings for a sync test
    /// and the handle space is not exhausted; the sentinel, with nothing
    /// changed, otherwise. On success the staged settings reset to defaults.
    pub fn builder_start_synctest_session(&mut self) -> (h: CSessionHandle)
        requires
            old(self).wf(),
        ensures
            final(self).wf(),
            (h != INVALID_HANDLE) <==> (valid_synctest_settings(old(self).settings) && old(
                self,
            ).next_handle < CSessionHandle::MAX),
            h == INVALID_HANDLE ==> CBridge::same_state(*old(self), *final(self)),
            h != INVALID_HANDLE ==> {
                &&& h == old(self).next_handle
                &&& !old(self).has_session(h)
                &&& !old(self).issued_handles().contains(h)
                &&& final(self).issued_handles() == old(self).issued_handles().insert(h)
                &&& final(self).has_session(h)
                &&& final(self).session_type_of(h) == CSessionType::SyncTest
                &&& final(self).requests_of(h) == Seq::<CRequest>::empty()
                &&& is_default_settings(final(self).settings)
                &&& CBridge::others_preserved(*old(self), *final(self), h)
            },
    {
        if !self.settings.validate_synctest() {
            return INVALID_HANDLE;
        }
        let h = self.register_session(CSessionType::SyncTest);
        if h == INVALID_HANDLE {
            return INVALID_HANDLE;
        }
        self.settings = CSessionBuilderSettings::new();
        h
    }

    /// Consumes the staged settings and starts a peer-to-peer session: a
    /// nonzero handle exactly when the engine accepts the settings for a
    /// peer-to-peer session and the handle space is not exhausted; the
    /// sentinel, with nothing changed, otherwise. On success the session owns
    /// fresh, empty transport queues and the staged settings reset to
    /// defaults.
    pub fn builder_start_p2p_session(&mut self) -> (h: CSessionHandle)
        requires
            old(self).wf(),
        ensures
            final(self).wf(),
            (h != INVALID_HANDLE) <==> (valid_p2p_settings(old(self).settings) && old(
                self,
            ).next_handle < CSessionHandle::MAX),
            h == INVALID_HANDLE ==> CBridge::same_state(*old(self), *final(self)),
            h != INVALID_HANDLE ==> {
                &&& h == old(self).next_handle
                &&& !old(self).has_session(h)
                &&& !old(self).issued_handles().contains(h)
                &&& final(self).issued_handles() == old(self).issued_handles().insert(h)
                &&& final(self).has_session(h)
                &&& final(self).session_type_of(h) == CSessionType::P2P
                &&& final(self).requests_of(h) == Seq::<CRequest>::empty()
                &&& final(self).outbound_of(h) == Seq::<(CAddressHandle, Seq<u8>)>::empty()
                &&& final(self).inbound_of(h) == Seq::<(CAddressHandle, Seq<u8>)>::empty()
                &&& is_default_settings(final(self).settings)
                &&& CBridge::others_preserved(*old(self), *final(self), h)
            },
    {
        if !self.settings.validate_p2p() {
            return INVALID_HANDLE;
        }
        let h = self.register_session(CSessionType::P2P);
        if h == INVALID_HANDLE {
            return INVALID_HANDLE;
        }
        self.settings = CSessionBuilderSettings::new();
        h
    }

    /// Looks a handle up in the entry table.
    fn find_index(entries: &Vec<CSessionEntry>, handle: CSessionHandle) -> (r: Option<usize>)
        ensures
            match r {
                Option::Some(i) => i < entries@.len() && entries@[i as int].handle == handle,
                Option::None => !seq_has(entries@, handle),
            },
    {
        let mut i: usize = 0;
        while i < entries.len()
            invariant
                i <= entries@.len(),
                forall|k: int| 0 <= k < i ==> (#[trigger] entries@[k]).handle != handle,
            decreases entries@.len() - i,
        {
            if entries[i].handle == handle {
                return Option::Some(i);
            }
            i += 1;
        }
        proof {
            if seq_has(entries@, handle) {
                let k = seq_index(entries@, handle);
                assert(0 <= k < entries@.len() && entries@[k].handle == handle);
            }
        }
        Option::None
    }

    /// What a poll returns on a given bridge state: the front record where
    /// there is one, the sentinel otherwise.
    pub open spec fn poll_outcome(b: CBridge, h: CSessionHandle) -> CRequest {
        if b.has_session(h) && b.requests_of(h).len() > 0 {
            b.requests_of(h)[0]
        } else {
            CRequest::none_spec()
        }
    }

    /// Applies one engine advance to a session: appends the flattened records
    /// of the event batch, in emission order, to that session's queue. A
    /// handle that names no session is a no-op. An aborted engine tick simply
    /// never reaches this call, so the queue then stays unchanged.
    pub fn session_advance_frame(&mut self, handle: CSessionHandle, events: &Vec<CSessionEvent>)
        requires
            old(self).wf(),
        ensures
            final(self).wf(),
            !old(self).has_session(handle) ==> CBridge::same_state(*old(self), *final(self)),
            old(self).has_session(handle) ==> {
                &&& final(self).has_session(handle)
                &&& final(self).requests_of(handle) == old(self).requests_of(handle)
                    + batch_requests(events@)
                &&& final(self).session_type_of(handle) == old(self).session_type_of(handle)
                &&& final(self).outbound_of(handle) == old(self).outbound_of(handle)
                &&& final(self).inbound_of(handle) == old(self).inbound_of(handle)
                &&& final(self).settings == old(self).settings
                &&& CBridge::registry_frame(*old(self), *final(self))
                &&& CBridge::others_preserved(*old(self), *final(self), handle)
            },
    {
        let idx = match Self::find_index(&self.entries, handle) {
            Option::Some(i) => i,
            Option::None => {
                return;
            },
        };
        let ghost pre = *self;
        proof {
            lemma_index_agrees(pre.entries@, handle, idx as int);
        }
        let mut entry = self.entries.remove(idx);
        append_batch(&mut entry.requests, events);
        let ghost entry_spec = entry;
        self.entries.insert(idx, entry);
        proof {
            lemma_batch_requests_no_sentinel(events@);
            assert(self.entries@ =~= pre.entries@.update(idx as int, entry_spec));
            lemma_update_frame(pre.entries@, self.entries@, idx as int);
            assert(entry_wf(entry_spec)) by {
                let old_q = pre.entries@[idx as int].requests@;
                assert(queue_wf(entry_spec.requests@)) by {
                    assert forall|i: int| 0 <= i < entry_spec.requests@.len() implies (
                    #[trigger] entry_spec.requests@[i]).request_type != CRequestType::Empty by {
                        if i < old_q.len() {
                            assert(entry_spec.requests@[i] == old_q[i]);
                        } else {
                            assert(entry_spec.requests@[i] == batch_requests(events@)[i
                                - old_q.len()]);
                        }
                    }
                }
            }
        }
    }

    /// Pops and returns the front of a session's request queue; returns the
    /// sentinel record, changing nothing, when the queue is empty or the
    /// handle names no session.
    pub fn session_next_request(&mut self, handle: CSessionHandle) -> (r: CRequest)
        requires
            old(self).wf(),
        ensures
            final(self).wf(),
            r == CBridge::poll_outcome(*old(self), handle),
            !(old(self).has_session(handle) && old(self).requests_of(handle).len() > 0)
                ==> CBridge::same_state(*old(self), *final(self)),
            old(self).has_session(handle) && old(self).requests_of(handle).len() > 0 ==> {
                &&& final(self).has_session(handle)
                &&& final(self).requests_of(handle) == old(self).requests_of(handle).drop_first()
                &&& final(self).session_type_of(handle) == old(self).session_type_of(handle)
                &&& final(self).outbound_of(handle) == old(self).outbound_of(handle)
                &&& final(self).inbound_of(handle) == old(self).inbound_of(handle)
                &&& final(self).settings == old(self).settings
                &&& CBridge::registry_frame(*old(self), *final(self))
                &&& CBridge::others_preserved(*old(self), *final(self), handle)
            },
    {
        let idx = match Self::find_index(&self.entries, handle) {
            Option::Some(i) => i,
            Option::None => {
                return CRequest::new_none();
            },
        };
        proof {
            lemma_index_agrees(self.entries@, handle, idx as int);
        }
        if self.entries[idx].requests.len() == 0 {
            return CRequest::new_none();
        }
        let ghost pre = *self;
        let mut entry = self.entries.remove(idx);
        let r = match entry.requests.pop_front() {
            Option::Some(x) => x,
            Option::None => CRequest::new_none(),
        };
        let ghost entry_spec = entry;
        self.entries.insert(idx, entry);
        proof {
            assert(self.entries@ =~= pre.entries@.update(idx as int, entry_spec));
            lemma_update_frame(pre.entries@, self.entries@, idx as int);
        }
        r
    }

    /// Reports which kind of session, if any, a handle names.
    pub fn session_kind(&self, handle: CSessionHandle) -> (r: Option<CSessionType>)
        requires
            self.wf(),
        ensures
            match r {
                Option::Some(t) => self.has_session(handle) && t == self.session_type_of(handle),
                Option::None => !self.has_session(handle),
            },
    {
        match Self::find_index(&self.entries, handle) {
            Option::Some(i) => {
                proof {
                    lemma_index_agrees(self.entries@, handle, i as int);
                }
                Option::Some(self.entries[i].session_type)
            },
            Option::None => Option::None,
        }
    }

    /// Folds the engine's status answer into the caller-facing one: unknown
    /// handles and sync-test sessions always read as running; only a live
    /// peer-to-peer session reports the engine's state.
    pub fn session_current_state(&self, handle: CSessionHandle, p2p_state: CSessionState) -> (r:
        CSessionState)
        requires
            self.wf(),
        ensures
            r == (if self.is_p2p(handle) {
                p2p_state
            } else {
                CSessionState::Running
            }),
    {
        match Self::find_index(&self.entries, handle) {
            Option::Some(i) => {
                proof {
                    lemma_index_agrees(self.entries@, handle, i as int);
                }
                match self.entries[i].session_type {
                    CSessionType::P2P => p2p_state,
                    CSessionType::SyncTest => CSessionState::Running,
                }
            },
            Option::None => CSessionState::Running,
        }
    }

    /// Folds the engine's frames-ahead answer into the caller-facing one:
    /// unknown handles and sync-test sessions read as zero.
    pub fn session_frames_ahead(&self, handle: CSessionHandle, p2p_frames_ahead: i32) -> (r: i32)
        requires
            self.wf(),
        ensures
            r == (if self.is_p2p(handle) {
                p2p_frames_ahead
            } else {
                0i32
            }),
    {
        match Self::find_index(&self.entries, handle) {
            Option::Some(i) => {
                proof {
                    lemma_index_agrees(self.entries@, handle, i as int);
                }
                match self.entries[i].session_type {
                    CSessionType::P2P => p2p_frames_ahead,
                    CSessionType::SyncTest => 0,
                }
            },
            Option::None => 0,
        }
    }

    /// Appends a framed payload to a session's outbound queue. The append
    /// itself never fails; a payload over capacity is rejected here, at the
    /// framing step, leaving both queues untouched, as is a handle that names
    /// no peer-to-peer session.
    pub fn transport_send(
        &mut self,
        handle: CSessionHandle,
        addr: CAddressHandle,
        payload: &Vec<u8>,
    )
        requires
            old(self).wf(),
        ensures
            final(self).wf(),
            !(old(self).is_p2p(handle) && payload@.len() <= CMESSAGE_BUFFER_SIZE)
                ==> CBridge::same_state(*old(self), *final(self)),
            old(self).is_p2p(handle) && payload@.len() <= CMESSAGE_BUFFER_SIZE ==> {
                &&& final(self).has_session(handle)
                &&& final(self).outbound_of(handle) == old(self).outbound_of(handle).push(
                    (addr, payload@),
                )
                &&& final(self).inbound_of(handle) == old(self).inbound_of(handle)
                &&& final(self).requests_of(handle) == old(self).requests_of(handle)
                &&& final(self).session_type_of(handle) == old(self).session_type_of(handle)
                &&& final(self).settings == old(self).settings
                &&& CBridge::registry_frame(*old(self), *final(self))
                &&& CBridge::others_preserved(*old(self), *final(self), handle)
            },
    {
        if payload.len() > CMESSAGE_BUFFER_SIZE {
            return;
        }
        let idx = match Self::find_index(&self.entries, handle) {
            Option::Some(i) => i,
            Option::None => {
                return;
            },
        };
        let ghost pre = *self;
        proof {
            lemma_index_agrees(pre.entries@, handle, idx as int);
        }
        let mut entry = self.entries.remove(idx);
        match &mut entry.transport {
            Option::Some(t) => {
                let m = CMessage::new(addr, clone_bytes(payload));
                t.outbound.push_back(m);
            },
            Option::None => {},
        }
        let ghost entry_spec = entry;
        self.entries.insert(idx, entry);
        proof {
            assert(self.entries@ =~= pre.entries@.update(idx as int, entry_spec));
            lemma_update_frame(pre.entries@, self.entries@, idx as int);
            let pre_entry = pre.entries@[idx as int];
            match pre_entry.transport {
                Option::Some(t0) => {
                    match entry_spec.transport {
                        Option::Some(t1) => {
                            assert(t1.outbound@.map_values(|m: CMessage| m.model())
                                =~= t0.outbound@.map_values(|m: CMessage| m.model()).push(
                                (addr, payload@),
                            ));
                        },
                        Option::None => {},
                    }
                },
                Option::None => {
                    assert(self.entries@ =~= pre.entries@);
                },
            }
        }
    }

    /// Pops the next framed message for the caller to transmit; yields
    /// nothing, changing nothing, when the outbound queue is empty or the
    /// handle names no peer-to-peer session.
    pub fn transport_pull_outbound(&mut self, handle: CSessionHandle) -> (r: Option<CMessage>)
        requires
            old(self).wf(),
        ensures
            final(self).wf(),
            match r {
                Option::Some(m) => {
                    &&& old(self).is_p2p(handle)
                    &&& old(self).outbound_of(handle).len() > 0
                    &&& m.wf()
                    &&& m.model() == old(self).outbound_of(handle)[0]
                    &&& final(self).has_session(handle)
                    &&& final(self).outbound_of(handle) == old(self).outbound_of(
                        handle,
                    ).drop_first()
                    &&& final(self).inbound_of(handle) == old(self).inbound_of(handle)
                    &&& final(self).requests_of(handle) == old(self).requests_of(handle)
                    &&& final(self).session_type_of(handle) == old(self).session_type_of(handle)
                    &&& final(self).settings == old(self).settings
                    &&& CBridge::registry_frame(*old(self), *final(self))
                    &&& CBridge::others_preserved(*old(self), *final(self), handle)
                },
                Option::None => {
                    &&& !(old(self).is_p2p(handle) && old(self).outbound_of(handle).len() > 0)
                    &&& CBridge::same_state(*old(self), *final(self))
                },
            },
    {
        let idx = match Self::find_index(&self.entries, handle) {
            Option::Some(i) => i,
            Option::None => {
                return Option::None;
            },
        };
        let ghost pre = *self;
        proof {
            lemma_index_agrees(pre.entries@, handle, idx as int);
        }
        let mut entry = self.entries.remove(idx);
        let r = match &mut entry.transport {
            Option::Some(t) => if t.outbound.len() != 0 {
                t.outbound.pop_front()
            } else {
                Option::None
            },
            Option::None => Option::None,
        };
        let ghost entry_spec = entry;
        self.entries.insert(idx, entry);
        proof {
            assert(self.entries@ =~= pre.entries@.update(idx as int, entry_spec));
            lemma_update_frame(pre.entries@, self.entries@, idx as int);
            let pre_entry = pre.entries@[idx as int];
            match pre_entry.transport {
                Option::Some(t0) => {
                    match entry_spec.transport {
                        Option::Some(t1) => {
                            if t0.outbound@.len() > 0 {
                                assert(t1.outbound@.map_values(|m: CMessage| m.model())
                                    =~= t0.outbound@.map_values(|m: CMessage| m.model())
                                    .drop_first());
                                assert(t0.outbound@[0].wf());
                            } else {
                                assert(self.entries@ =~= pre.entries@);
                            }
                        },
                        Option::None => {},
                    }
                },
                Option::None => {
                    assert(self.entries@ =~= pre.entries@);
                },
            }
        }
        r
    }

    /// Appends a caller-delivered framed message to a session's inbound
    /// queue. A malformed message, or a handle that names no peer-to-peer
    /// session, is rejected without touching any queue.
    pub fn transport_push_inbound(&mut self, handle: CSessionHandle, msg: &CMessage)
        requires
            old(self).wf(),
        ensures
            final(self).wf(),
            !(old(self).is_p2p(handle) && msg.wf()) ==> CBridge::same_state(
                *old(self),
                *final(self),
            ),
            old(self).is_p2p(handle) && msg.wf() ==> {
                &&& final(self).has_session(handle)
                &&& final(self).inbound_of(handle) == old(self).inbound_of(handle).push(
                    msg.model(),
                )
                &&& final(self).outbound_of(handle) == old(self).outbound_of(handle)
                &&& final(self).requests_of(handle) == old(self).requests_of(handle)
                &&& final(self).session_type_of(handle) == old(self).session_type_of(handle)
                &&& final(self).settings == old(self).settings
                &&& CBridge::registry_frame(*old(self), *final(self))
                &&& CBridge::others_preserved(*old(self), *final(self), handle)
            },
    {
        if !msg.check_wf() {
            return;
        }
        let idx = match Self::find_index(&self.entries, handle) {
            Option::Some(i) => i,
            Option::None => {
                return;
            },
        };
        let ghost pre = *self;
        proof {
            lemma_index_agrees(pre.entries@, handle, idx as int);
        }
        let mut entry = self.entries.remove(idx);
        match &mut entry.transport {
            Option::Some(t) => {
                let m = CMessage::new(msg.addr, clone_bytes(&msg.bytes));
                t.inbound.push_back(m);
            },
            Option::None => {},
        }
        let ghost entry_spec = entry;
        self.entries.insert(idx, entry);
        proof {
            assert(self.entries@ =~= pre.entries@.update(idx as int, entry_spec));
            lemma_update_frame(pre.entries@, self.entries@, idx as int);
            let pre_entry = pre.entries@[idx as int];
            match pre_entry.transport {
                Option::Some(t0) => {
                    match entry_spec.transport {
                        Option::Some(t1) => {
                            assert(t1.inbound@.map_values(|m: CMessage| m.model())
                                =~= t0.inbound@.map_values(|m: CMessage| m.model()).push(
                                msg.model(),
                            ));
                        },
                        Option::None => {},
                    }
                },
                Option::None => {
                    assert(self.entries@ =~= pre.entries@);
                },
            }
        }
    }

    /// Drains and returns a session's whole inbound queue in first-in
    /// first-out order, for the engine to consume; yields nothing, changing
    /// nothing, for a handle that names no peer-to-peer session.
    pub fn transport_receive_all(&mut self, handle: CSessionHandle) -> (r: Vec<CMessage>)
        requires
            old(self).wf(),
        ensures
            final(self).wf(),
            !old(self).is_p2p(handle) ==> r@.len() == 0 && CBridge::same_state(
                *old(self),
                *final(self),
            ),
            old(self).is_p2p(handle) ==> {
                &&& r@.map_values(|m: CMessage| m.model()) == old(self).inbound_of(handle)
                &&& msgs_wf(r@)
                &&& final(self).has_session(handle)
                &&& final(self).inbound_of(handle) == Seq::<(CAddressHandle, Seq<u8>)>::empty()
                &&& final(self).outbound_of(handle) == old(self).outbound_of(handle)
                &&& final(self).requests_of(handle) == old(self).requests_of(handle)
                &&& final(self).session_type_of(handle) == old(self).session_type_of(handle)
                &&& final(self).settings == old(self).settings
                &&& CBridge::registry_frame(*old(self), *final(self))
                &&& CBridge::others_preserved(*old(self), *final(self), handle)
            },
    {
        let idx = match Self::find_index(&self.entries, handle) {
            Option::Some(i) => i,
            Option::None => {
                return Vec::new();
            },
        };
        let ghost pre = *self;
        proof {
            lemma_index_agrees(pre.entries@, handle, idx as int);
        }
        let mut entry = self.entries.remove(idx);
        let ghost pre_entry = pre.entries@[idx as int];
        proof {
            assert(entry_wf(pre_entry));
        }
        let mut out: Vec<CMessage> = Vec::new();
        match &mut entry.transport {
            Option::Some(t) => {
                let ghost init_in = t.inbound@;
                let ghost init_out = t.outbound;
                proof {
                    match pre_entry.transport {
                        Option::Some(t0) => {
                            assert(init_in == t0.inbound@);
                            assert(init_out == t0.outbound);
                            assert(msgs_wf(init_in));
                        },
                        Option::None => {},
                    }
                }
                while t.inbound.len() != 0
                    invariant
                        out@ + t.inbound@ == init_in,
                        t.outbound == init_out,
                    decreases t.inbound@.len(),
                {
                    match t.inbound.pop_front() {
                        Option::Some(m) => out.push(m),
                        Option::None => {},
                    }
                    proof {
                        assert(out@ + t.inbound@ =~= init_in);
                    }
                }
                proof {
                    assert(out@ =~= init_in);
                    assert(t.inbound@.len() == 0);
                    match pre_entry.transport {
                        Option::Some(t0) => {
                            assert(out@.map_values(|m: CMessage| m.model()) == t0.inbound@
                                .map_values(|m: CMessage| m.model()));
                            assert(msgs_wf(out@));
                        },
                        Option::None => {},
                    }
                }
            },
            Option::None => {},
        }
        let ghost entry_spec = entry;
        self.entries.insert(idx, entry);
        proof {
            assert(self.entries@ =~= pre.entries@.update(idx as int, entry_spec));
            lemma_update_frame(pre.entries@, self.entries@, idx as int);
            match pre_entry.transport {
                Option::Some(t0) => {
                    match entry_spec.transport {
                        Option::Some(t1) => {
                            assert(t1.inbound@.len() == 0);
                            assert(t1.outbound@ == t0.outbound@);
                            assert(entry_spec.requests@ == pre_entry.requests@);
                            assert(out@.map_values(|m: CMessage| m.model()) == t0.inbound@
                                .map_values(|m: CMessage| m.model()));
                            assert(t1.inbound@.map_values(|m: CMessage| m.model()) =~= Seq::<
                                (CAddressHandle, Seq<u8>),
                            >::empty());
                        },
                        Option::None => {},
                    }
                },
                Option::None => {
                    assert(self.entries@ =~= pre.entries@);
                },
            }
        }
        out
    }
}

/// Copies a byte payload.
fn clone_bytes(v: &Vec<u8>) -> (r: Vec<u8>)
    ensures
        r@ == v@,
{
    let mut r: Vec<u8> = Vec::new();
    let mut i: usize = 0;
    while i < v.len()
        invariant
            i <= v@.len(),
            r@ == v@.take(i as int),
        decreases v@.len() - i,
    {
        r.push(v[i]);
        proof {
            assert(v@.take(i as int).push(v@[i as int]) =~= v@.take(i as int + 1));
        }
        i += 1;
    }
    proof {
        assert(v@.take(v@.len() as int) =~= v@);
    }
    r
}

/// A poll returns the sentinel exactly when the handle's queue is absent or
/// empty: queued records never carry the sentinel tag. Since
/// `session_next_request` leaves the bridge unchanged whenever it returns the
/// sentinel, repeated polls keep returning it until an advance appends new
/// records.
pub proof fn lemma_poll_sentinel_iff_empty(b: CBridge, h: CSessionHandle)
    requires
        b.wf(),
    ensures
        (CBridge::poll_outcome(b, h) == CRequest::none_spec()) <==> (!b.has_session(h)
            || b.requests_of(h).len() == 0),
{
    if b.has_session(h) && b.requests_of(h).len() > 0 {
        let i = seq_index(b.entries@, h);
        assert(0 <= i < b.entries@.len() && b.entries@[i].handle == h);
        assert(entry_wf(b.entries@[i]));
        assert(b.requests_of(h)[0].request_type != CRequestType::Empty);
    }
}

/// Handles are never reissued. The issued set only ever grows — `allocate`
/// inserts into it and every other operation leaves it alone — and
/// `allocate` promises that a real handle lies outside it; so a handle
/// issued at any earlier state differs from every handle issued later.
pub proof fn lemma_issued_handles_distinct(s: CBridge, h1: CSessionHandle, h2: CSessionHandle)
    requires
        s.issued_handles().contains(h1),
        !s.issued_handles().contains(h2),
    ensures
        h1 != h2,
{
}

/// One engine tick on a drained queue: if the engine emitted save and load
/// events around one resolved-inputs event, the queue afterwards holds their
/// single records, in emission order, around the input/advance block — and
/// nothing else. Combined with `lemma_advance_block` this is the exact shape
/// a full drain yields after `session_advance_frame`.
pub proof fn lemma_tick_queue_shape(
    pre: CBridge,
    post: CBridge,
    h: CSessionHandle,
    before: Seq<CSessionEvent>,
    ev: CSessionEvent,
    after: Seq<CSessionEvent>,
)
    requires
        pre.requests_of(h).len() == 0,
        post.requests_of(h) == pre.requests_of(h) + batch_requests(before + seq![ev] + after),
        forall|i: int| 0 <= i < before.len() ==> is_state_event(#[trigger] before[i]),
        forall|i: int| 0 <= i < after.len() ==> is_state_event(#[trigger] after[i]),
        !is_state_event(ev),
    ensures
        post.requests_of(h) == before.map_values(|e: CSessionEvent| state_record(e))
            + event_requests(ev) + after.map_values(|e: CSessionEvent| state_record(e)),
{
    lemma_advance_emission_order(before, ev, after);
    assert(pre.requests_of(h) + batch_requests(before + seq![ev] + after) =~= batch_requests(
        before + seq![ev] + after,
    ));
}

/// Transport round trip: starting from empty queues, a payload within
/// capacity that is sent, pulled by the caller, delivered back unchanged, and
/// drained by the engine comes out byte-identical and tagged with the
/// original endpoint. The requires mirror, step for step, what
/// `transport_send`, `transport_pull_outbound`, `transport_push_inbound` and
/// `transport_receive_all` ensure on a peer-to-peer session.
pub proof fn lemma_transport_round_trip(
    b0: CBridge,
    b1: CBridge,
    b2: CBridge,
    b3: CBridge,
    h: CSessionHandle,
    addr: CAddressHandle,
    payload: Seq<u8>,
    m: CMessage,
    received: Seq<(CAddressHandle, Seq<u8>)>,
)
    requires
        payload.len() <= CMESSAGE_BUFFER_SIZE,
        b0.outbound_of(h).len() == 0,
        b0.inbound_of(h).len() == 0,
        b1.outbound_of(h) == b0.outbound_of(h).push((addr, payload)),
        b1.inbound_of(h) == b0.inbound_of(h),
        m.model() == b1.outbound_of(h)[0],
        b2.inbound_of(h) == b1.inbound_of(h),
        b3.inbound_of(h) == b2.inbound_of(h).push(m.model()),
        received == b3.inbound_of(h),
    ensures
        m.model() == (addr, payload),
        received == seq![(addr, payload)],
{
    assert(b1.outbound_of(h)[0] == (addr, payload));
    assert(received =~= seq![(addr, payload)]);
}

} // verus!
