//! Peer discovery registry.
//!
//! The mDNS daemon itself (publishing, browsing, sockets) lives outside the
//! library; resolved advertisements arrive here as plain [`ServiceRecord`]
//! values. This module owns the registry rules: parsing a capability record,
//! upserting a peer (never this node itself), the best-effort removal
//! correlation by name, and the passive liveness sweep.

use vstd::prelude::*;
use crate::config::Config;
use crate::sequtil::{
    keep_where,
    lemma_keep_where_all,
    lemma_keep_where_distributes_add,
    lemma_keep_where_elements,
    lemma_keep_where_len,
    lemma_keep_where_pred,
    lemma_keep_where_remove_one,
    lemma_keep_where_singleton,
    lemma_keep_where_unique_by,
    unique_by,
};
use crate::strutil::{contains_seq, first_segment, service_base_name, split_on, split_string,
    str_contains, str_eq, strip_leading};

verus! {

/// Capabilities a peer advertises.
#[derive(Debug)]
pub struct PeerCapabilities {
    pub can_host_mouse: bool,
    pub can_capture_windows: bool,
    pub can_render_streams: bool,
    pub video_codecs: Vec<String>,
}

/// A discovered peer: identity, address and capabilities, plus the timestamp
/// of the advertisement that most recently refreshed the entry.
#[derive(Debug)]
pub struct PeerDevice {
    pub node_id: String,
    pub node_name: String,
    pub os_type: String,
    pub ip_address: String,
    pub control_port: u16,
    pub capabilities: PeerCapabilities,
    pub last_seen: u64,
}

/// A registry change notification.
#[derive(Debug)]
pub enum DiscoveryEvent {
    PeerDiscovered(PeerDevice),
    PeerUpdated(PeerDevice),
    PeerLost(String),
}

/// A resolved advertisement, reduced to plain values: the full service
/// instance name, the resolved addresses, the control port and the TXT
/// properties in record order.
#[derive(Debug)]
pub struct ServiceRecord {
    pub fullname: String,
    pub addresses: Vec<String>,
    pub port: u16,
    pub properties: Vec<(String, String)>,
}

/// Two capability sets carry the same values.
pub open spec fn caps_like(a: PeerCapabilities, b: PeerCapabilities) -> bool {
    &&& a.can_host_mouse == b.can_host_mouse
    &&& a.can_capture_windows == b.can_capture_windows
    &&& a.can_render_streams == b.can_render_streams
    &&& a.video_codecs@ == b.video_codecs@
}

/// Two peer entries carry the same values.
pub open spec fn peer_like(a: PeerDevice, b: PeerDevice) -> bool {
    &&& a.node_id@ == b.node_id@
    &&& a.node_name@ == b.node_name@
    &&& a.os_type@ == b.os_type@
    &&& a.ip_address@ == b.ip_address@
    &&& a.control_port == b.control_port
    &&& caps_like(a.capabilities, b.capabilities)
    &&& a.last_seen == b.last_seen
}

/// Some registry entry carries this identity.
pub open spec fn has_peer(reg: Seq<PeerDevice>, id: Seq<char>) -> bool {
    exists|i: int| 0 <= i < reg.len() && (#[trigger] reg[i]).node_id@ == id
}

/// Registry identities are pairwise distinct.
pub open spec fn peers_unique(reg: Seq<PeerDevice>) -> bool {
    unique_by(reg, |p: PeerDevice| p.node_id@)
}

/// The registry without any entry carrying `id`.
pub open spec fn spec_remove_peer(reg: Seq<PeerDevice>, id: Seq<char>) -> Seq<PeerDevice> {
    keep_where(reg, |p: PeerDevice| p.node_id@ != id)
}

/// The registry after a resolution of `p`: any previous entry for the same
/// identity is replaced, otherwise `p` is appended.
pub open spec fn spec_upsert_peer(reg: Seq<PeerDevice>, p: PeerDevice) -> Seq<PeerDevice> {
    spec_remove_peer(reg, p.node_id@).push(p)
}

/// The entry has not been refreshed within the TTL at `now_ms`.
pub open spec fn peer_stale(p: PeerDevice, now_ms: u64, ttl_ms: u64) -> bool {
    now_ms > p.last_seen + ttl_ms
}

/// The registry after a liveness sweep: exactly the fresh entries, in order.
pub open spec fn spec_sweep_peers(reg: Seq<PeerDevice>, now_ms: u64, ttl_ms: u64) -> Seq<
    PeerDevice,
> {
    keep_where(reg, |p: PeerDevice| !peer_stale(p, now_ms, ttl_ms))
}

/// The entries a liveness sweep evicts, in order.
pub open spec fn spec_stale_peers(reg: Seq<PeerDevice>, now_ms: u64, ttl_ms: u64) -> Seq<
    PeerDevice,
> {
    keep_where(reg, |p: PeerDevice| peer_stale(p, now_ms, ttl_ms))
}

/// The value of the first property with this key, if any.
pub open spec fn spec_lookup_prop(props: Seq<(String, String)>, key: Seq<char>) -> Option<
    Seq<char>,
>
    decreases props.len(),
{
    if props.len() == 0 {
        None
    } else if props[0].0@ == key {
        Some(props[0].1@)
    } else {
        spec_lookup_prop(props.drop_first(), key)
    }
}

fn clone_string_vec(v: &Vec<String>) -> (r: Vec<String>)
    ensures
        r@ == v@,
{
    let mut r: Vec<String> = Vec::new();
    let mut i: usize = 0;
    proof {
        assert(r@ =~= v@.subrange(0, 0));
    }
    while i < v.len()
        invariant
            i <= v@.len(),
            r@ == v@.subrange(0, i as int),
        decreases v@.len() - i,
    {
        r.push(v[i].clone());
        proof {
            assert(r@ =~= v@.subrange(0, i + 1 as int));
        }
        i = i + 1;
    }
    proof {
        assert(v@.subrange(0, v@.len() as int) =~= v@);
    }
    r
}

impl Clone for PeerCapabilities {
    fn clone(&self) -> (r: Self)
        ensures
            caps_like(r, *self),
    {
        PeerCapabilities {
            can_host_mouse: self.can_host_mouse,
            can_capture_windows: self.can_capture_windows,
            can_render_streams: self.can_render_streams,
            video_codecs: clone_string_vec(&self.video_codecs),
        }
    }
}

impl Clone for PeerDevice {
    fn clone(&self) -> (r: Self)
        ensures
            peer_like(r, *self),
    {
        PeerDevice {
            node_id: self.node_id.clone(),
            node_name: self.node_name.clone(),
            os_type: self.os_type.clone(),
            ip_address: self.ip_address.clone(),
            control_port: self.control_port,
            capabilities: self.capabilities.clone(),
            last_seen: self.last_seen,
        }
    }
}

/// Looks up the first property with this key, returning an owned copy of its
/// value.
#[verifier::loop_isolation(false)]
pub fn lookup_prop(props: &Vec<(String, String)>, key: &str) -> (r: Option<String>)
    ensures
        match r {
            Some(v) => spec_lookup_prop(props@, key@) == Some(v@),
            None => spec_lookup_prop(props@, key@) is None,
        },
{
    let n = props.len();
    let mut i: usize = 0;
    proof {
        assert(props@.subrange(0, n as int) =~= props@);
    }
    while i < n
        invariant
            n == props@.len(),
            i <= n,
            spec_lookup_prop(props@, key@) == spec_lookup_prop(
                props@.subrange(i as int, n as int),
                key@,
            ),
        decreases n - i,
    {
        let ghost suffix = props@.subrange(i as int, n as int);
        proof {
            assert(suffix.len() > 0);
            assert(suffix[0] == props@[i as int]);
            assert(suffix.drop_first() =~= props@.subrange(i as int + 1, n as int));
        }
        if str_eq(props[i].0.as_str(), key) {
            let v = props[i].1.clone();
            return Some(v);
        }
        i = i + 1;
    }
    proof {
        assert(props@.subrange(n as int, n as int) =~= Seq::<(String, String)>::empty());
    }
    None
}

/// Whether the property with this key is present with the exact value
/// `"true"`; a missing key or any other value counts as `false`.
pub fn prop_is_true(props: &Vec<(String, String)>, key: &str) -> (r: bool)
    ensures
        r == (spec_lookup_prop(props@, key@) == Some("true"@)),
{
    match lookup_prop(props, key) {
        Some(v) => str_eq(v.as_str(), "true"),
        None => false,
    }
}

/// Parses a resolved advertisement into a peer entry.
///
/// Returns `None` — the advertisement is skipped without affecting other
/// peers — exactly when the record has no `node_id` property, carries this
/// node's own identity, has no `os_type` property, or resolved to no address.
pub fn parse_service_info(record: &ServiceRecord, our_node_id: &str, now_ms: u64) -> (r: Option<
    PeerDevice,
>)
    ensures
        r is Some <==> ({
            &&& spec_lookup_prop(record.properties@, "node_id"@) is Some
            &&& (spec_lookup_prop(record.properties@, "node_id"@) matches Some(idv) ==> idv
                != our_node_id@)
            &&& spec_lookup_prop(record.properties@, "os_type"@) is Some
            &&& record.addresses@.len() > 0
        }),
        match r {
            Some(p) => {
                &&& spec_lookup_prop(record.properties@, "node_id"@) matches Some(idv)
                    && p.node_id@ == idv
                &&& p.node_id@ != our_node_id@
                &&& p.node_name@ == strip_leading(first_segment(record.fullname@, '.'), '_')
                &&& spec_lookup_prop(record.properties@, "os_type"@) matches Some(osv)
                    && p.os_type@ == osv
                &&& p.ip_address@ == record.addresses@[0]@
                &&& p.control_port == record.port
                &&& p.last_seen == now_ms
                &&& p.capabilities.can_host_mouse == (spec_lookup_prop(
                    record.properties@,
                    "can_host_mouse"@,
                ) == Some("true"@))
                &&& p.capabilities.can_capture_windows == (spec_lookup_prop(
                    record.properties@,
                    "can_capture_windows"@,
                ) == Some("true"@))
                &&& p.capabilities.can_render_streams == (spec_lookup_prop(
                    record.properties@,
                    "can_render_streams"@,
                ) == Some("true"@))
                &&& match spec_lookup_prop(record.properties@, "video_codecs"@) {
                    Some(cv) => {
                        &&& p.capabilities.video_codecs@.len() == split_on(cv, ',').len()
                        &&& forall|k: int|
                            0 <= k < p.capabilities.video_codecs@.len() ==> (
                            #[trigger] p.capabilities.video_codecs@[k])@ == split_on(cv, ',')[k]
                    },
                    None => p.capabilities.video_codecs@.len() == 0,
                }
            },
            None => true,
        },
{
    let node_id = match lookup_prop(&record.properties, "node_id") {
        Some(v) => v,
        None => {
            return None;
        },
    };
    if str_eq(node_id.as_str(), our_node_id) {
        return None;
    }
    let os_type = match lookup_prop(&record.properties, "os_type") {
        Some(v) => v,
        None => {
            return None;
        },
    };
    if record.addresses.len() == 0 {
        return None;
    }
    let ip_address = record.addresses[0].clone();
    let node_name = service_base_name(record.fullname.as_str());
    let can_host_mouse = prop_is_true(&record.properties, "can_host_mouse");
    let can_capture_windows = prop_is_true(&record.properties, "can_capture_windows");
    let can_render_streams = prop_is_true(&record.properties, "can_render_streams");
    let video_codecs = match lookup_prop(&record.properties, "video_codecs") {
        Some(v) => split_string(v.as_str(), ','),
        None => Vec::new(),
    };
    Some(
        PeerDevice {
            node_id,
            node_name,
            os_type,
            ip_address,
            control_port: record.port,
            capabilities: PeerCapabilities {
                can_host_mouse,
                can_capture_windows,
                can_render_streams,
                video_codecs,
            },
            last_seen: now_ms,
        },
    )
}

/// Upserting registers the identity, keeps identities unique and grows the
/// registry by at most the one entry.
pub proof fn lemma_upsert_registers_peer(reg: Seq<PeerDevice>, p: PeerDevice)
    requires
        peers_unique(reg),
    ensures
        peers_unique(spec_upsert_peer(reg, p)),
        has_peer(spec_upsert_peer(reg, p), p.node_id@),
        spec_upsert_peer(reg, p).len() <= reg.len() + 1,
{
    let pred = |x: PeerDevice| x.node_id@ != p.node_id@;
    let key = |x: PeerDevice| x.node_id@;
    let kept = keep_where(reg, pred);
    lemma_keep_where_pred(reg, pred);
    lemma_keep_where_unique_by(reg, pred, key);
    lemma_keep_where_len(reg, pred);
    let out = spec_upsert_peer(reg, p);
    assert(out[out.len() - 1].node_id@ == p.node_id@);
    assert forall|a: int, b: int| 0 <= a < b < out.len() implies key(out[a]) != key(out[b]) by {
        if b == out.len() - 1 {
            assert(pred(kept[a]));
        } else {
            assert(key(kept[a]) != key(kept[b]));
        }
    }
}

/// Resolving the same identity twice yields one discovery and then an
/// update: after the first upsert the identity is registered, so the second
/// resolution of the same identity is reported against an existing entry,
/// never as a second discovery.
pub proof fn lemma_second_resolution_is_update(
    reg: Seq<PeerDevice>,
    p: PeerDevice,
    q: PeerDevice,
)
    requires
        peers_unique(reg),
        q.node_id@ == p.node_id@,
    ensures
        has_peer(spec_upsert_peer(reg, p), q.node_id@),
        peers_unique(spec_upsert_peer(reg, p)),
{
    lemma_upsert_registers_peer(reg, p);
}

/// The discovery registry: this node's identity and the known peers. The
/// invariant keeps identities unique and this node's own identity out of the
/// registry.
pub struct DiscoveryService {
    pub config: Config,
    pub node_id: String,
    pub node_name: String,
    pub peers: Vec<PeerDevice>,
}

impl DiscoveryService {
    /// Registry invariant: identities are pairwise distinct and this node's
    /// own identity is never registered.
    pub open spec fn wf(&self) -> bool {
        &&& peers_unique(self.peers@)
        &&& !has_peer(self.peers@, self.node_id@)
    }

    /// A fresh registry. The node's identity is an explicit input so that
    /// discovery behaviour is deterministic for a given identity.
    pub fn new(config: Config, node_name: String, node_id: String) -> (r: Self)
        ensures
            r.wf(),
            r.peers@.len() == 0,
            r.config == config,
            r.node_name == node_name,
            r.node_id == node_id,
    {
        DiscoveryService { config, node_id, node_name, peers: Vec::new() }
    }

    /// Whether the registry holds an entry for this identity.
    pub fn contains_peer_id(&self, node_id: &str) -> (r: bool)
        ensures
            r == has_peer(self.peers@, node_id@),
    {
        let n = self.peers.len();
        let mut i: usize = 0;
        while i < n
            invariant
                n == self.peers@.len(),
                i <= n,
                forall|j: int| 0 <= j < i ==> (#[trigger] self.peers@[j]).node_id@ != node_id@,
            decreases n - i,
        {
            if str_eq(self.peers[i].node_id.as_str(), node_id) {
                proof {
                    assert(self.peers@[i as int].node_id@ == node_id@);
                }
                return true;
            }
            i = i + 1;
        }
        false
    }

    /// Removes the entry carrying `node_id`, if any. Identities are unique,
    /// so at most one entry is removed, in place.
    #[verifier::loop_isolation(false)]
    fn remove_where_peer_id(&mut self, node_id: &str)
        requires
            peers_unique(old(self).peers@),
        ensures
            final(self).peers@ == spec_remove_peer(old(self).peers@, node_id@),
            final(self).config == old(self).config,
            final(self).node_id == old(self).node_id,
            final(self).node_name == old(self).node_name,
    {
        let ghost old_view = self.peers@;
        let ghost pred = |p: PeerDevice| p.node_id@ != node_id@;
        let ghost key = |p: PeerDevice| p.node_id@;
        let n = self.peers.len();
        let mut i: usize = 0;
        while i < n
            invariant
                n == old_view.len(),
                i <= n,
                self.peers@ == old_view,
                self.config == old(self).config,
                self.node_id == old(self).node_id,
                self.node_name == old(self).node_name,
                forall|j: int| 0 <= j < i ==> (#[trigger] old_view[j]).node_id@ != node_id@,
            decreases n - i,
        {
            if str_eq(self.peers[i].node_id.as_str(), node_id) {
                self.peers.remove(i);
                proof {
                    assert forall|j: int| 0 <= j < old_view.len() && j != i implies pred(
                        old_view[j],
                    ) by {
                        if j < i {
                            assert(old_view[j].node_id@ != node_id@);
                        } else {
                            assert(key(old_view[i as int]) != key(old_view[j]));
                        }
                    }
                    assert(!pred(old_view[i as int]));
                    lemma_keep_where_remove_one(old_view, pred, i as int);
                }
                return;
            }
            i = i + 1;
        }
        proof {
            assert forall|j: int| 0 <= j < old_view.len() implies pred(#[trigger] old_view[j]) by {
                assert(old_view[j].node_id@ != node_id@);
            }
            lemma_keep_where_all(old_view, pred);
        }
    }

    /// Applies one resolved peer record to the registry.
    ///
    /// An advertisement carrying this node's own identity is discarded: it is
    /// never inserted, and no event is reported. Otherwise a new identity is
    /// inserted and reported as `PeerDiscovered`; a known identity has its
    /// entry overwritten (refreshing `last_seen`) and is reported as
    /// `PeerUpdated`.
    pub fn upsert_peer(&mut self, peer: PeerDevice) -> (r: Option<DiscoveryEvent>)
        requires
            old(self).wf(),
        ensures
            final(self).wf(),
            final(self).config == old(self).config,
            final(self).node_id == old(self).node_id,
            final(self).node_name == old(self).node_name,
            peer.node_id@ == old(self).node_id@ ==> *final(self) == *old(self) && r is None,
            peer.node_id@ != old(self).node_id@ ==> {
                &&& final(self).peers@ == spec_upsert_peer(old(self).peers@, peer)
                &&& has_peer(final(self).peers@, peer.node_id@)
                &&& has_peer(old(self).peers@, peer.node_id@) ==> (r matches Some(
                    DiscoveryEvent::PeerUpdated(q),
                ) && peer_like(q, peer))
                &&& !has_peer(old(self).peers@, peer.node_id@) ==> (r matches Some(
                    DiscoveryEvent::PeerDiscovered(q),
                ) && peer_like(q, peer))
            },
    {
        if str_eq(peer.node_id.as_str(), self.node_id.as_str()) {
            return None;
        }
        let existed = self.contains_peer_id(peer.node_id.as_str());
        let reported = peer.clone();
        let ghost old_view = self.peers@;
        self.remove_where_peer_id(peer.node_id.as_str());
        self.peers.push(peer);
        proof {
            lemma_upsert_registers_peer(old_view, peer);
            let pred = |p: PeerDevice| p.node_id@ != peer.node_id@;
            lemma_keep_where_elements(old_view, pred);
            let out = self.peers@;
            assert forall|k: int| 0 <= k < out.len() implies (#[trigger] out[k]).node_id@
                != self.node_id@ by {
                if k < out.len() - 1 {
                    let j = choose|j: int|
                        0 <= j < old_view.len() && #[trigger] old_view[j] == keep_where(
                            old_view,
                            pred,
                        )[k];
                    assert(old_view[j].node_id@ != self.node_id@);
                }
            }
        }
        if existed {
            Some(DiscoveryEvent::PeerUpdated(reported))
        } else {
            Some(DiscoveryEvent::PeerDiscovered(reported))
        }
    }

    /// Handles a removal notice, which carries only a service name: the
    /// registry entry whose `node_name` occurs in the removed name — a
    /// best-effort correlation, not a guaranteed one — is removed and
    /// reported as `PeerLost` with its identity; with no matching entry the
    /// registry is untouched.
    #[verifier::loop_isolation(false)]
    pub fn on_service_removed(&mut self, fullname: &str) -> (r: Option<DiscoveryEvent>)
        requires
            old(self).wf(),
        ensures
            final(self).wf(),
            final(self).config == old(self).config,
            final(self).node_id == old(self).node_id,
            final(self).node_name == old(self).node_name,
            match r {
                None => final(self).peers@ == old(self).peers@ && forall|i: int|
                    0 <= i < old(self).peers@.len() ==> !contains_seq(
                        fullname@,
                        (#[trigger] old(self).peers@[i]).node_name@,
                    ),
                Some(e) => match e {
                    DiscoveryEvent::PeerLost(id) => exists|i: int|
                        {
                            &&& 0 <= i < old(self).peers@.len()
                            &&& contains_seq(
                                fullname@,
                                (#[trigger] old(self).peers@[i]).node_name@,
                            )
                            &&& forall|j: int|
                                0 <= j < i ==> !contains_seq(
                                    fullname@,
                                    (#[trigger] old(self).peers@[j]).node_name@,
                                )
                            &&& id@ == old(self).peers@[i].node_id@
                            &&& final(self).peers@ == spec_remove_peer(old(self).peers@, id@)
                        },
                    _ => false,
                },
            },
    {
        let ghost old_view = self.peers@;
        let n = self.peers.len();
        let mut i: usize = 0;
        while i < n
            invariant
                n == old_view.len(),
                i <= n,
                self.peers@ == old_view,
                self.config == old(self).config,
                self.node_id == old(self).node_id,
                self.node_name == old(self).node_name,
                forall|j: int|
                    0 <= j < i ==> !contains_seq(fullname@, (#[trigger] old_view[j]).node_name@),
            decreases n - i,
        {
            if str_contains(fullname, self.peers[i].node_name.as_str()) {
                let id = self.peers[i].node_id.clone();
                proof {
                    assert(id@ == old_view[i as int].node_id@);
                }
                self.remove_where_peer_id(id.as_str());
                proof {
                    let pred = |p: PeerDevice| p.node_id@ != id@;
                    lemma_keep_where_pred(old_view, pred);
                    lemma_keep_where_unique_by(old_view, pred, |p: PeerDevice| p.node_id@);
                    lemma_keep_where_elements(old_view, pred);
                    assert forall|k: int| 0 <= k < self.peers@.len() implies (
                    #[trigger] self.peers@[k]).node_id@ != self.node_id@ by {
                        let j = choose|j: int|
                            0 <= j < old_view.len() && #[trigger] old_view[j] == keep_where(
                                old_view,
                                pred,
                            )[k];
                        assert(old_view[j].node_id@ != self.node_id@);
                    }
                }
                return Some(DiscoveryEvent::PeerLost(id));
            }
            i = i + 1;
        }
        None
    }

    /// A snapshot of the peer with this identity, if registered.
    pub fn get_peer(&self, node_id: &str) -> (r: Option<PeerDevice>)
        requires
            self.wf(),
        ensures
            r is Some <==> has_peer(self.peers@, node_id@),
            match r {
                Some(p) => p.node_id@ == node_id@ && exists|i: int|
                    0 <= i < self.peers@.len() && peer_like(p, #[trigger] self.peers@[i]),
                None => true,
            },
    {
        let n = self.peers.len();
        let mut i: usize = 0;
        while i < n
            invariant
                n == self.peers@.len(),
                i <= n,
                forall|j: int| 0 <= j < i ==> (#[trigger] self.peers@[j]).node_id@ != node_id@,
            decreases n - i,
        {
            if str_eq(self.peers[i].node_id.as_str(), node_id) {
                let found = self.peers[i].clone();
                proof {
                    assert(self.peers@[i as int].node_id@ == node_id@);
                    assert(peer_like(found, self.peers@[i as int]));
                }
                return Some(found);
            }
            i = i + 1;
        }
        None
    }

    /// A snapshot of all registered peers, in registry order.
    pub fn get_peers(&self) -> (r: Vec<PeerDevice>)
        ensures
            r@.len() == self.peers@.len(),
            forall|i: int|
                0 <= i < r@.len() ==> peer_like(#[trigger] r@[i], self.peers@[i]),
    {
        let n = self.peers.len();
        let mut r: Vec<PeerDevice> = Vec::new();
        let mut i: usize = 0;
        while i < n
            invariant
                n == self.peers@.len(),
                i <= n,
                r@.len() == i,
                forall|j: int| 0 <= j < i ==> peer_like(#[trigger] r@[j], self.peers@[j]),
            decreases n - i,
        {
            r.push(self.peers[i].clone());
            i = i + 1;
        }
        r
    }

    /// One pass of the passive liveness sweep: evicts, in place, every entry
    /// whose advertisement has not been refreshed within `ttl_ms` at
    /// `now_ms`, and returns the identities of the evicted peers in registry
    /// order.
    #[verifier::loop_isolation(false)]
    pub fn sweep_stale(&mut self, now_ms: u64, ttl_ms: u64) -> (lost: Vec<String>)
        requires
            old(self).wf(),
        ensures
            final(self).wf(),
            final(self).config == old(self).config,
            final(self).node_id == old(self).node_id,
            final(self).node_name == old(self).node_name,
            final(self).peers@ == spec_sweep_peers(old(self).peers@, now_ms, ttl_ms),
            lost@.len() == spec_stale_peers(old(self).peers@, now_ms, ttl_ms).len(),
            forall|k: int|
                0 <= k < lost@.len() ==> (#[trigger] lost@[k])@ == spec_stale_peers(
                    old(self).peers@,
                    now_ms,
                    ttl_ms,
                )[k].node_id@,
    {
        let ghost old_view = self.peers@;
        let ghost keep_pred = |p: PeerDevice| !peer_stale(p, now_ms, ttl_ms);
        let ghost stale_pred = |p: PeerDevice| peer_stale(p, now_ms, ttl_ms);
        let n = self.peers.len();
        let mut lost: Vec<String> = Vec::new();
        let mut i: usize = 0;
        let ghost mut j: int = 0;
        proof {
            assert(old_view.subrange(0, 0) =~= Seq::<PeerDevice>::empty());
            assert(old_view.subrange(0, n as int) =~= old_view);
            assert(self.peers@ =~= keep_where(old_view.subrange(0, 0), keep_pred)
                + old_view.subrange(0, n as int));
        }
        while i < self.peers.len()
            invariant
                0 <= j <= n,
                n == old_view.len(),
                i as int == keep_where(old_view.subrange(0, j), keep_pred).len(),
                self.peers@ == keep_where(old_view.subrange(0, j), keep_pred)
                    + old_view.subrange(j, n as int),
                lost@.len() == keep_where(old_view.subrange(0, j), stale_pred).len(),
                forall|k: int|
                    0 <= k < lost@.len() ==> (#[trigger] lost@[k])@ == keep_where(
                        old_view.subrange(0, j),
                        stale_pred,
                    )[k].node_id@,
                self.config == old(self).config,
                self.node_id == old(self).node_id,
                self.node_name == old(self).node_name,
            decreases n - j,
        {
            proof {
                assert(j < n);
                assert(old_view.subrange(j, n as int)[0] == old_view[j]);
                assert(self.peers@[i as int] == old_view[j]);
                assert(old_view.subrange(0, j + 1) =~= old_view.subrange(0, j) + seq![
                    old_view[j],
                ]);
                lemma_keep_where_distributes_add(
                    old_view.subrange(0, j),
                    seq![old_view[j]],
                    keep_pred,
                );
                lemma_keep_where_distributes_add(
                    old_view.subrange(0, j),
                    seq![old_view[j]],
                    stale_pred,
                );
                assert(seq![old_view[j]].drop_first() =~= Seq::<PeerDevice>::empty());
            }
            let last_seen = self.peers[i].last_seen;
            let stale = now_ms > last_seen && now_ms - last_seen > ttl_ms;
            proof {
                assert(stale == peer_stale(old_view[j], now_ms, ttl_ms));
            }
            if stale {
                let id = self.peers[i].node_id.clone();
                proof {
                    assert(id@ == old_view[j].node_id@);
                    lemma_keep_where_singleton(old_view[j], stale_pred);
                    lemma_keep_where_singleton(old_view[j], keep_pred);
                }
                lost.push(id);
                self.peers.remove(i);
                proof {
                    assert(self.peers@ =~= keep_where(old_view.subrange(0, j + 1), keep_pred)
                        + old_view.subrange(j + 1, n as int));
                    j = j + 1;
                }
            } else {
                proof {
                    lemma_keep_where_singleton(old_view[j], keep_pred);
                    lemma_keep_where_singleton(old_view[j], stale_pred);
                    assert(self.peers@ =~= keep_where(old_view.subrange(0, j + 1), keep_pred)
                        + old_view.subrange(j + 1, n as int));
                    j = j + 1;
                }
                i = i + 1;
            }
        }
        proof {
            assert(j == n);
            assert(old_view.subrange(0, j) =~= old_view);
            assert(old_view.subrange(j, n as int) =~= Seq::<PeerDevice>::empty());
            assert(self.peers@ =~= keep_where(old_view, keep_pred));
            lemma_keep_where_unique_by(old_view, keep_pred, |p: PeerDevice| p.node_id@);
            lemma_keep_where_elements(old_view, keep_pred);
            assert forall|k: int| 0 <= k < self.peers@.len() implies (
            #[trigger] self.peers@[k]).node_id@ != self.node_id@ by {
                let jj = choose|jj: int|
                    0 <= jj < old_view.len() && #[trigger] old_view[jj] == keep_where(
                        old_view,
                        keep_pred,
                    )[k];
                assert(old_view[jj].node_id@ != self.node_id@);
            }
        }
        lost
    }

    /// The TXT properties this node advertises: its identity, platform and
    /// capability flags, with the supported codecs as a comma-separated list.
    pub fn advertisement_properties(&self) -> (r: Vec<(String, String)>)
        ensures
            r@.len() == 6,
            r@[0].0@ == "node_id"@ && r@[0].1@ == self.node_id@,
            r@[1].0@ == "os_type"@ && r@[1].1@ == "linux"@,
            r@[2].0@ == "can_host_mouse"@ && r@[2].1@ == "true"@,
            r@[3].0@ == "can_capture_windows"@ && r@[3].1@ == "true"@,
            r@[4].0@ == "can_render_streams"@ && r@[4].1@ == "true"@,
            r@[5].0@ == "video_codecs"@ && r@[5].1@ == "h264,h265"@,
    {
        let mut r: Vec<(String, String)> = Vec::new();
        r.push((String::from_str("node_id"), self.node_id.clone()));
        r.push((String::from_str("os_type"), String::from_str("linux")));
        r.push((String::from_str("can_host_mouse"), String::from_str("true")));
        r.push((String::from_str("can_capture_windows"), String::from_str("true")));
        r.push((String::from_str("can_render_streams"), String::from_str("true")));
        r.push((String::from_str("video_codecs"), String::from_str("h264,h265")));
        r
    }

    /// The service instance name this node publishes.
    pub fn service_instance_name(&self) -> (r: String)
        ensures
            r@ == self.node_name@ + "._mirage"@,
    {
        let base = self.node_name.clone();
        base.concat("._mirage")
    }
}

/// The mDNS service type label under which every node advertises.
pub fn service_type() -> (r: &'static str)
    ensures
        r@ == "_mirage._tcp.local."@,
{
    "_mirage._tcp.local."
}

} // verus!
