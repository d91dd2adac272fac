//! The rendezvous relay: anonymous endpoints present matching
//! credentials and are paired for a raw byte exchange.  This module
//! holds the relay handshake messages and their wire form, the wait
//! slots with their two-minute time-to-live, the pairing decision, and
//! the table of live pairs behind the stats snapshot.

use crate::model::{StatResponse, StreamingClientStat, CLIENTS_SNAPSHOT_CAPACITY};
use crate::serializer::{
    read_bytes_field, read_i64, spec_bytes_field, spec_i64_bytes, spec_parse_bytes,
    spec_parse_i64, write_bytes_field, write_i64,
};
use vstd::prelude::*;

verus! {

/// How long an unmatched wait slot lives, in milliseconds.
pub const RELAY_WAIT_TTL_MS: u64 = 120 * 1000;

/// How long the relay waits for an endpoint's handshake, in
/// milliseconds.
pub const HANDSHAKE_READ_TIMEOUT_MS: u64 = 10 * 1000;

/// Whether a handshake read begun at `started_ms` has outlived its
/// deadline at `now_ms`: if so, the connection is closed.
pub fn handshake_deadline_exceeded(started_ms: u64, now_ms: u64) -> (r: bool)
    ensures
        r == (now_ms >= started_ms + HANDSHAKE_READ_TIMEOUT_MS),
{
    if now_ms < HANDSHAKE_READ_TIMEOUT_MS {
        false
    } else {
        started_ms <= now_ms - HANDSHAKE_READ_TIMEOUT_MS
    }
}

/// An endpoint's opening message on the relay port.
#[derive(Debug, PartialEq, Eq, Clone)]
pub struct EndPointHandshakeRequest {
    pub visit_credentials: Vec<u8>,
    pub device_id: i64,
}

/// The relay's answer: who the endpoint was paired with.
#[derive(Debug, PartialEq, Eq, Clone)]
pub struct EndPointHandshakeResponse {
    pub remote_device_id: i64,
}

/// Encoding of a relay handshake request.
pub open spec fn spec_handshake_request_bytes(credentials: Seq<u8>, device_id: i64) -> Seq<u8> {
    spec_bytes_field(credentials) + spec_i64_bytes(device_id)
}

/// Encoding of a relay handshake response.
pub open spec fn spec_handshake_response_bytes(remote_device_id: i64) -> Seq<u8> {
    spec_i64_bytes(remote_device_id)
}

/// Encodes a relay handshake request as one frame payload.
pub fn encode_handshake_request(req: &EndPointHandshakeRequest) -> (r: Vec<u8>)
    ensures
        r@ == spec_handshake_request_bytes(req.visit_credentials@, req.device_id),
{
    let mut out: Vec<u8> = Vec::new();
    write_bytes_field(&mut out, &req.visit_credentials);
    write_i64(&mut out, req.device_id);
    proof {
        assert(out@ =~= spec_handshake_request_bytes(req.visit_credentials@, req.device_id));
    }
    out
}

/// Decodes a relay handshake request from one whole frame payload.
/// Succeeds exactly on the encoding of some handshake request.
pub fn decode_handshake_request(buf: &Vec<u8>) -> (r: Option<EndPointHandshakeRequest>)
    ensures
        match r {
            Some(req) => buf@ == spec_handshake_request_bytes(
                req.visit_credentials@,
                req.device_id,
            ),
            None => forall|c: Seq<u8>, d: i64|
                buf@ != #[trigger] spec_handshake_request_bytes(c, d),
        },
{
    let blen = buf.len();
    let parsed = {
        match read_bytes_field(buf, 0) {
            Some((credentials, p)) => match read_i64(buf, p) {
                Some((device_id, end)) => if end == blen {
                    Some((credentials, p, device_id, end))
                } else {
                    None
                },
                None => None,
            },
            None => None,
        }
    };
    match parsed {
        Some((credentials, p, device_id, end)) => {
            proof {
                crate::serializer::lemma_parse_bytes_sound(buf@, 0);
                crate::serializer::lemma_parse_i64_sound(buf@, p as int);
                assert(buf@ =~= buf@.subrange(0, p as int) + buf@.subrange(
                    p as int,
                    end as int,
                ));
            }
            Some(EndPointHandshakeRequest { visit_credentials: credentials, device_id })
        },
        None => {
            proof {
                assert forall|c: Seq<u8>, d: i64|
                    buf@ != #[trigger] spec_handshake_request_bytes(c, d) by {
                    if buf@ == spec_handshake_request_bytes(c, d) {
                        lemma_handshake_request_parses(buf@, c, d);
                    }
                }
            }
            None
        },
    }
}

/// The encoding of a handshake request parses back to its parts and
/// spans the whole buffer.
proof fn lemma_handshake_request_parses(s: Seq<u8>, c: Seq<u8>, d: i64)
    requires
        s == spec_handshake_request_bytes(c, d),
        s.len() <= usize::MAX,
    ensures
        crate::serializer::spec_parse_bytes(s, 0) == Some(
            (c, spec_bytes_field(c).len() as int),
        ),
        crate::serializer::spec_parse_i64(s, spec_bytes_field(c).len() as int) == Some(
            (d, s.len() as int),
        ),
{
    let bf = spec_bytes_field(c);
    crate::serializer::lemma_varint_len(c.len() as u64);
    assert(s.subrange(0, bf.len() as int) =~= bf);
    crate::serializer::lemma_parse_bytes_roundtrip(s, 0, c);
    assert(s.subrange(bf.len() as int, bf.len() as int + spec_i64_bytes(d).len() as int)
        =~= spec_i64_bytes(d));
    crate::serializer::lemma_parse_i64_roundtrip(s, bf.len() as int, d);
}

/// Encodes a relay handshake response as one frame payload.
pub fn encode_handshake_response(resp: &EndPointHandshakeResponse) -> (r: Vec<u8>)
    ensures
        r@ == spec_handshake_response_bytes(resp.remote_device_id),
{
    let mut out: Vec<u8> = Vec::new();
    write_i64(&mut out, resp.remote_device_id);
    out
}

/// Decodes a relay handshake response from one whole frame payload.
/// Succeeds exactly on the encoding of some handshake response.
pub fn decode_handshake_response(buf: &Vec<u8>) -> (r: Option<EndPointHandshakeResponse>)
    ensures
        match r {
            Some(resp) => buf@ == spec_handshake_response_bytes(resp.remote_device_id),
            None => forall|d: i64| buf@ != #[trigger] spec_handshake_response_bytes(d),
        },
{
    let blen = buf.len();
    let parsed = match read_i64(buf, 0) {
        Some((remote_device_id, end)) => if end == blen {
            Some(remote_device_id)
        } else {
            None
        },
        None => None,
    };
    match parsed {
        Some(remote_device_id) => {
            proof {
                crate::serializer::lemma_parse_i64_sound(buf@, 0);
                assert(buf@ =~= buf@.subrange(0, buf@.len() as int));
            }
            Some(EndPointHandshakeResponse { remote_device_id })
        },
        None => {
            proof {
                assert forall|d: i64| buf@ != #[trigger] spec_handshake_response_bytes(d) by {
                    if buf@ == spec_handshake_response_bytes(d) {
                        assert(buf@.subrange(0, spec_i64_bytes(d).len() as int) =~= spec_i64_bytes(
                            d,
                        ));
                        crate::serializer::lemma_parse_i64_roundtrip(buf@, 0, d);
                    }
                }
            }
            None
        },
    }
}

/// The handshake replies owed to a fresh pair: each side learns the
/// other's device ID.
pub fn pair_handshake_replies(active_device_id: i64, passive_device_id: i64) -> (r: (
    EndPointHandshakeResponse,
    EndPointHandshakeResponse,
))
    ensures
        r.0.remote_device_id == passive_device_id,
        r.1.remote_device_id == active_device_id,
{
    (
        EndPointHandshakeResponse { remote_device_id: passive_device_id },
        EndPointHandshakeResponse { remote_device_id: active_device_id },
    )
}

/// Whether two byte strings are equal.
pub fn bytes_eq(a: &Vec<u8>, b: &Vec<u8>) -> (r: bool)
    ensures
        r == (a@ == b@),
{
    if a.len() != b.len() {
        proof {
            assert(a@ != b@);
        }
        return false;
    }
    let mut i: usize = 0;
    while i < a.len()
        invariant
            0 <= i <= a@.len(),
            a@.len() == b@.len(),
            forall|j: int| 0 <= j < i ==> a@[j] == b@[j],
        decreases a@.len() - i,
    {
        if a[i] != b[i] {
            return false;
        }
        i += 1;
    }
    proof {
        assert(a@ =~= b@);
    }
    true
}

/// An endpoint waiting at the relay for a partner with the same
/// credentials.  `stream_token` stands for its connection.
#[derive(Debug, PartialEq, Eq, Clone)]
pub struct WaitSlot {
    pub visit_credentials: Vec<u8>,
    pub device_id: i64,
    pub stream_token: u64,
    pub inserted_at_ms: u64,
}

/// What the relay does with an arriving endpoint.
#[derive(Debug, PartialEq, Eq, Clone)]
pub enum RelayAction {
    /// No partner yet: the endpoint now waits, and its slot expires in
    /// two minutes unless matched.
    Wait,
    /// A partner was waiting: pair the two connections.  The newcomer
    /// is the active side.
    Pair {
        active_device_id: i64,
        active_stream: u64,
        passive_device_id: i64,
        passive_stream: u64,
    },
}

/// The endpoints waiting for a partner, each under its credentials.
pub struct WaitingClients {
    slots: Vec<WaitSlot>,
}

impl WaitingClients {
    /// The wait slots, in arrival order.
    pub closed spec fn spec_slots(&self) -> Seq<WaitSlot> {
        self.slots@
    }

    /// Whether some slot waits under the given credentials.
    pub open spec fn spec_has(&self, credentials: Seq<u8>) -> bool {
        exists|i: int|
            0 <= i < self.spec_slots().len() && self.spec_slots()[i].visit_credentials@
                == credentials
    }

    /// At most one slot per credentials.
    pub open spec fn wf(&self) -> bool {
        forall|i: int, j: int|
            0 <= i < j < self.spec_slots().len() ==> self.spec_slots()[i].visit_credentials@
                != self.spec_slots()[j].visit_credentials@
    }

    /// An empty wait table.
    pub fn new() -> (r: WaitingClients)
        ensures
            r.spec_slots() == Seq::<WaitSlot>::empty(),
            r.wf(),
    {
        WaitingClients { slots: Vec::new() }
    }

    /// Removes and returns the slot waiting under the given
    /// credentials, if any.
    pub fn take_waiting(&mut self, credentials: &Vec<u8>) -> (r: Option<WaitSlot>)
        requires
            old(self).wf(),
        ensures
            final(self).wf(),
            match r {
                Some(slot) => old(self).spec_has(credentials@) && slot.visit_credentials@
                    == credentials@ && (exists|i: int|
                    0 <= i < old(self).spec_slots().len() && old(self).spec_slots()[i] == slot
                        && final(self).spec_slots() == old(self).spec_slots().remove(i)),
                None => !old(self).spec_has(credentials@) && final(self).spec_slots() == old(self).spec_slots(),
            },
            !final(self).spec_has(credentials@),
    {
        let mut i: usize = 0;
        while i < self.slots.len()
            invariant
                0 <= i <= self.spec_slots().len(),
                self.wf(),
                *self == *old(self),
                forall|j: int| 0 <= j < i ==> self.spec_slots()[j].visit_credentials@ != credentials@,
            decreases self.spec_slots().len() - i,
        {
            if bytes_eq(&self.slots[i].visit_credentials, credentials) {
                let slot = self.slots.remove(i);
                proof {
                    assert(old(self).spec_slots()[i as int] == slot);
                    assert(self.spec_slots() =~= old(self).spec_slots().remove(i as int));
                    assert forall|j: int|
                        0 <= j < self.spec_slots().len() implies self.spec_slots()[j].visit_credentials@
                        != credentials@ by {
                        if j < i {
                            assert(self.spec_slots()[j] == old(self).spec_slots()[j]);
                        } else {
                            assert(self.spec_slots()[j] == old(self).spec_slots()[j + 1]);
                        }
                    }
                }
                return Some(slot);
            }
            i += 1;
        }
        None
    }

    /// The per-slot expiry timer's removal: drops the slot under these
    /// credentials only when it is still the given insertion (same
    /// stream token), so a slot re-created under the same credentials
    /// by a later endpoint is left alone.  Returns whether the slot
    /// was removed.
    pub fn expire_slot(&mut self, credentials: &Vec<u8>, stream_token: u64) -> (r: bool)
        requires
            old(self).wf(),
        ensures
            final(self).wf(),
            r ==> (exists|i: int|
                #![trigger old(self).spec_slots()[i]]
                0 <= i < old(self).spec_slots().len() && old(
                    self,
                ).spec_slots()[i].visit_credentials@ == credentials@ && old(
                    self,
                ).spec_slots()[i].stream_token == stream_token && final(self).spec_slots() == old(
                    self,
                ).spec_slots().remove(i)) && !final(self).spec_has(credentials@),
            !r ==> *final(self) == *old(self) && (forall|i: int|
                0 <= i < old(self).spec_slots().len() && (#[trigger] old(
                    self,
                ).spec_slots()[i]).visit_credentials@ == credentials@ ==> old(
                    self,
                ).spec_slots()[i].stream_token != stream_token),
    {
        let mut i: usize = 0;
        while i < self.slots.len()
            invariant
                0 <= i <= self.spec_slots().len(),
                self.wf(),
                *self == *old(self),
                forall|j: int| 0 <= j < i ==> (#[trigger] self.spec_slots()[j]).visit_credentials@
                    != credentials@,
            decreases self.spec_slots().len() - i,
        {
            if bytes_eq(&self.slots[i].visit_credentials, credentials) {
                if self.slots[i].stream_token == stream_token {
                    let slot = self.slots.remove(i);
                    proof {
                        assert(old(self).spec_slots()[i as int] == slot);
                        assert(self.spec_slots() =~= old(self).spec_slots().remove(i as int));
                        assert forall|j: int|
                            0 <= j < self.spec_slots().len() implies self.spec_slots()[j].visit_credentials@
                            != credentials@ by {
                            if j < i {
                                assert(self.spec_slots()[j] == old(self).spec_slots()[j]);
                            } else {
                                assert(self.spec_slots()[j] == old(self).spec_slots()[j + 1]);
                            }
                        }
                    }
                    return true;
                } else {
                    proof {
                        assert forall|k: int|
                            0 <= k < old(self).spec_slots().len() && (#[trigger] old(
                                self,
                            ).spec_slots()[k]).visit_credentials@ == credentials@ implies old(
                            self,
                        ).spec_slots()[k].stream_token != stream_token by {
                            if k < i as int {
                            } else if k > i as int {
                                assert(old(self).spec_slots()[i as int].visit_credentials@ != old(
                                    self,
                                ).spec_slots()[k].visit_credentials@);
                            }
                        }
                    }
                    return false;
                }
            }
            i += 1;
        }
        false
    }

    /// Handles one endpoint's relay handshake: pairs it with the
    /// waiting partner holding the same credentials, or inserts a wait
    /// slot that expires in two minutes unless matched.
    pub fn on_endpoint_handshake(
        &mut self,
        req: &EndPointHandshakeRequest,
        stream_token: u64,
        now_ms: u64,
    ) -> (r: RelayAction)
        requires
            old(self).wf(),
        ensures
            final(self).wf(),
            match r {
                RelayAction::Pair {
                    active_device_id,
                    active_stream,
                    passive_device_id,
                    passive_stream,
                } => ({
                    &&& old(self).spec_has(req.visit_credentials@)
                    &&& active_device_id == req.device_id
                    &&& active_stream == stream_token
                    &&& (exists|i: int|
                        #![trigger old(self).spec_slots()[i]]
                        0 <= i < old(self).spec_slots().len() && old(self).spec_slots()[i].visit_credentials@ == req.visit_credentials@ && old(self).spec_slots()[i].device_id == passive_device_id && old(self).spec_slots()[i].stream_token == passive_stream && final(self).spec_slots() == old(self).spec_slots().remove(i))
                    &&& !final(self).spec_has(req.visit_credentials@)
                }),
                RelayAction::Wait => ({
                    let slots = final(self).spec_slots();
                    let last = slots[slots.len() - 1];
                    &&& !old(self).spec_has(req.visit_credentials@)
                    &&& slots.len() == old(self).spec_slots().len() + 1
                    &&& slots.drop_last() == old(self).spec_slots()
                    &&& last.visit_credentials@ == req.visit_credentials@
                    &&& last.device_id == req.device_id
                    &&& last.stream_token == stream_token
                    &&& last.inserted_at_ms == now_ms
                }),
            },
    {
        match self.take_waiting(&req.visit_credentials) {
            Some(slot) => RelayAction::Pair {
                active_device_id: req.device_id,
                active_stream: stream_token,
                passive_device_id: slot.device_id,
                passive_stream: slot.stream_token,
            },
            None => {
                let slot = WaitSlot {
                    visit_credentials: crate::service::desktop_connect_offer_auth::clone_bytes(
                        &req.visit_credentials,
                    ),
                    device_id: req.device_id,
                    stream_token,
                    inserted_at_ms: now_ms,
                };
                proof {
                    assert(slot.visit_credentials@ =~= req.visit_credentials@);
                }
                self.slots.push(slot);
                proof {
                    assert(self.spec_slots().drop_last() =~= old(self).spec_slots());
                    assert forall|i: int, j: int|
                        0 <= i < j < self.spec_slots().len() implies (#[trigger] self.spec_slots()[i]).visit_credentials@
                        != (#[trigger] self.spec_slots()[j]).visit_credentials@ by {
                        if j < self.spec_slots().len() - 1 {
                            assert(old(self).spec_slots()[i] == self.spec_slots()[i]);
                            assert(old(self).spec_slots()[j] == self.spec_slots()[j]);
                        } else {
                            assert(old(self).spec_slots()[i] == self.spec_slots()[i]);
                            assert(!old(self).spec_has(req.visit_credentials@));
                        }
                    }
                }
                RelayAction::Wait
            },
        }
    }

    /// Drops every slot that has waited two minutes or more without a
    /// partner.  Younger slots survive; nothing else changes.
    #[verifier::rlimit(100)]
    pub fn expire_due(&mut self, now_ms: u64)
        requires
            old(self).wf(),
        ensures
            final(self).wf(),
            forall|j: int|
                0 <= j < final(self).spec_slots().len() ==> (#[trigger] final(self).spec_slots()[j]).inserted_at_ms
                    + RELAY_WAIT_TTL_MS > now_ms && old(self).spec_slots().contains(
                    final(self).spec_slots()[j],
                ),
            forall|i: int|
                0 <= i < old(self).spec_slots().len() && (#[trigger] old(self).spec_slots()[i]).inserted_at_ms
                    + RELAY_WAIT_TTL_MS > now_ms ==> final(self).spec_slots().contains(
                    old(self).spec_slots()[i],
                ),
    {
        let ghost orig = self.slots@;
        let mut kept: Vec<WaitSlot> = Vec::new();
        while self.slots.len() > 0
            invariant
                orig == old(self).spec_slots(),
                self.slots@.len() <= orig.len(),
                self.slots@ == orig.subrange(orig.len() - self.slots@.len(), orig.len() as int),
                forall|i: int, j: int|
                    0 <= i < j < orig.len() ==> (#[trigger] orig[i]).visit_credentials@ != (
                    #[trigger] orig[j]).visit_credentials@,
                forall|j: int|
                    0 <= j < kept@.len() ==> (#[trigger] kept@[j]).inserted_at_ms
                        + RELAY_WAIT_TTL_MS > now_ms && orig.subrange(
                        0,
                        orig.len() - self.slots@.len(),
                    ).contains(kept@[j]),
                forall|k: int|
                    0 <= k < orig.len() - self.slots@.len() && (#[trigger] orig[k]).inserted_at_ms
                        + RELAY_WAIT_TTL_MS > now_ms ==> kept@.contains(orig[k]),
                forall|j1: int, j2: int|
                    0 <= j1 < j2 < kept@.len() ==> (#[trigger] kept@[j1]).visit_credentials@ != (
                    #[trigger] kept@[j2]).visit_credentials@,
            decreases self.slots@.len(),
        {
            let ghost k = orig.len() - self.slots@.len();
            let ghost kept0 = kept@;
            let s = self.slots.remove(0);
            proof {
                assert(s == orig[k as int]);
                assert(self.slots@ =~= orig.subrange(k as int + 1, orig.len() as int));
            }
            let fresh: bool = if s.inserted_at_ms > u64::MAX - RELAY_WAIT_TTL_MS {
                true
            } else {
                now_ms < s.inserted_at_ms + RELAY_WAIT_TTL_MS
            };
            proof {
                assert(fresh == (orig[k as int].inserted_at_ms + RELAY_WAIT_TTL_MS > now_ms));
            }
            if fresh {
                proof {
                    assert forall|j: int|
                        0 <= j < kept@.len() implies (#[trigger] kept@[j]).visit_credentials@
                        != s.visit_credentials@ by {
                        let pre = orig.subrange(0, k as int);
                        assert(pre.contains(kept@[j]));
                        let k0 = choose|k0: int| 0 <= k0 < pre.len() && pre[k0] == kept@[j];
                        assert(orig[k0] == kept@[j]);
                        assert(orig[k0].visit_credentials@ != orig[k as int].visit_credentials@);
                    }
                }
                kept.push(s);
                proof {
                    lemma_kept_after_push(kept0, kept@, orig, k, now_ms);
                }
            } else {
                proof {
                    assert forall|kk: int|
                        0 <= kk < k + 1 && (#[trigger] orig[kk]).inserted_at_ms
                            + RELAY_WAIT_TTL_MS > now_ms implies kept@.contains(orig[kk]) by {
                        assert(kk < k);
                    }
                }
            }
            proof {
                assert forall|j: int|
                    0 <= j < kept@.len() implies orig.subrange(0, k + 1).contains(
                    #[trigger] kept@[j],
                ) by {
                    if fresh && j == kept@.len() - 1 {
                        assert(orig.subrange(0, k + 1)[k as int] == kept@[j]);
                    } else {
                        let pre = orig.subrange(0, k as int);
                        assert(pre.contains(kept@[j]));
                        let k0 = choose|k0: int| 0 <= k0 < pre.len() && pre[k0] == kept@[j];
                        assert(orig.subrange(0, k + 1)[k0] == kept@[j]);
                    }
                }
            }
        }
        proof {
            assert(orig.subrange(0, orig.len() as int) =~= orig);
        }
        self.slots = kept;
    }
}

/// A wait slot that is never matched is removed within the
/// time-to-live: once an endpoint began waiting at `now_ms` (the
/// wait table then being `w1`), any sweep at `sweep_ms`, two minutes
/// or more later, leaves a table (`w2`) with no slot under its
/// credentials.  The hypotheses are exactly what
/// [`WaitingClients::on_endpoint_handshake`]'s wait outcome and
/// [`WaitingClients::expire_due`] ensure.
pub proof fn lemma_unmatched_slot_expires(
    w0: WaitingClients,
    w1: WaitingClients,
    w2: WaitingClients,
    credentials: Seq<u8>,
    now_ms: u64,
    sweep_ms: u64,
)
    requires
        w0.wf(),
        !w0.spec_has(credentials),
        w1.spec_slots().len() == w0.spec_slots().len() + 1,
        w1.spec_slots().drop_last() == w0.spec_slots(),
        w1.spec_slots()[w1.spec_slots().len() - 1].visit_credentials@ == credentials,
        w1.spec_slots()[w1.spec_slots().len() - 1].inserted_at_ms == now_ms,
        forall|j: int|
            0 <= j < w2.spec_slots().len() ==> (#[trigger] w2.spec_slots()[j]).inserted_at_ms
                + RELAY_WAIT_TTL_MS > sweep_ms && w1.spec_slots().contains(w2.spec_slots()[j]),
        sweep_ms >= now_ms + RELAY_WAIT_TTL_MS,
    ensures
        !w2.spec_has(credentials),
{
    assert forall|j: int|
        0 <= j < w2.spec_slots().len() implies (#[trigger] w2.spec_slots()[j]).visit_credentials@
        != credentials by {
        let s = w2.spec_slots()[j];
        let i = choose|i: int| 0 <= i < w1.spec_slots().len() && w1.spec_slots()[i] == s;
        if i == w1.spec_slots().len() - 1 {
            assert(s.inserted_at_ms == now_ms);
        } else {
            assert(w0.spec_slots()[i] == w1.spec_slots().drop_last()[i]);
            if s.visit_credentials@ == credentials {
                assert(w0.spec_slots()[i].visit_credentials@ == credentials);
            }
        }
    }
}

/// Pushing a retained slot keeps every previously retained slot.
proof fn lemma_kept_after_push(
    kept0: Seq<WaitSlot>,
    kept1: Seq<WaitSlot>,
    orig: Seq<WaitSlot>,
    k: int,
    now_ms: u64,
)
    requires
        0 <= k < orig.len(),
        kept1 == kept0.push(orig[k]),
        forall|kk: int|
            0 <= kk < k && (#[trigger] orig[kk]).inserted_at_ms + RELAY_WAIT_TTL_MS > now_ms
                ==> kept0.contains(orig[kk]),
    ensures
        forall|kk: int|
            0 <= kk < k + 1 && (#[trigger] orig[kk]).inserted_at_ms + RELAY_WAIT_TTL_MS > now_ms
                ==> kept1.contains(orig[kk]),
{
    assert forall|kk: int|
        0 <= kk < k + 1 && (#[trigger] orig[kk]).inserted_at_ms + RELAY_WAIT_TTL_MS > now_ms
            implies kept1.contains(orig[kk]) by {
        if kk < k {
            let j0 = choose|j0: int| 0 <= j0 < kept0.len() && kept0[j0] == orig[kk];
            assert(kept1[j0] == orig[kk]);
        } else {
            assert(kept1[kept1.len() - 1] == orig[k]);
        }
    }
}

/// One relay accept step: decodes the endpoint's handshake from its
/// first frame payload and consults the wait slots.  A payload that
/// encodes no handshake closes the connection (`None`); otherwise the
/// endpoint is paired with the waiting partner holding the same
/// credentials, or waits itself.
pub fn serve(
    waiting: &mut WaitingClients,
    frame_payload: &Vec<u8>,
    stream_token: u64,
    now_ms: u64,
) -> (r: Option<(EndPointHandshakeRequest, RelayAction)>)
    requires
        old(waiting).wf(),
    ensures
        final(waiting).wf(),
        match r {
            Some((req, action)) => frame_payload@ == spec_handshake_request_bytes(
                req.visit_credentials@,
                req.device_id,
            ) && match action {
                RelayAction::Pair {
                    active_device_id,
                    active_stream,
                    passive_device_id,
                    passive_stream,
                } => ({
                    &&& old(waiting).spec_has(req.visit_credentials@)
                    &&& active_device_id == req.device_id
                    &&& active_stream == stream_token
                    &&& (exists|i: int|
                        #![trigger old(waiting).spec_slots()[i]]
                        0 <= i < old(waiting).spec_slots().len() && old(waiting).spec_slots()[i].visit_credentials@ == req.visit_credentials@ && old(waiting).spec_slots()[i].device_id == passive_device_id && old(waiting).spec_slots()[i].stream_token == passive_stream && final(waiting).spec_slots() == old(waiting).spec_slots().remove(i))
                    &&& !final(waiting).spec_has(req.visit_credentials@)
                }),
                RelayAction::Wait => ({
                    let slots = final(waiting).spec_slots();
                    let last = slots[slots.len() - 1];
                    &&& !old(waiting).spec_has(req.visit_credentials@)
                    &&& slots.len() == old(waiting).spec_slots().len() + 1
                    &&& slots.drop_last() == old(waiting).spec_slots()
                    &&& last.visit_credentials@ == req.visit_credentials@
                    &&& last.device_id == req.device_id
                    &&& last.stream_token == stream_token
                    &&& last.inserted_at_ms == now_ms
                }),
            },
            None => (forall|c: Seq<u8>, d: i64|
                frame_payload@ != #[trigger] spec_handshake_request_bytes(c, d)) && *final(waiting) == *old(waiting),
        },
{
    let req = match decode_handshake_request(frame_payload) {
        Some(req) => req,
        None => {
            return None;
        },
    };
    let action = waiting.on_endpoint_handshake(&req, stream_token, now_ms);
    Some((req, action))
}

/// The live relay pairs, keyed by their two device IDs, behind the
/// stats snapshot.
pub struct StreamingClients {
    pairs: Vec<StreamingClientStat>,
}

impl StreamingClients {
    /// The live pair descriptors, in insertion order.
    pub closed spec fn spec_pairs(&self) -> Seq<StreamingClientStat> {
        self.pairs@
    }

    /// Whether a pair with these device IDs is live.
    pub open spec fn spec_has_pair(&self, active: i64, passive: i64) -> bool {
        exists|i: int|
            0 <= i < self.spec_pairs().len() && (#[trigger] self.spec_pairs()[i]).active_device_id
                == active && self.spec_pairs()[i].passive_device_id == passive
    }

    /// An empty table.
    pub fn new() -> (r: StreamingClients)
        ensures
            r.spec_pairs() == Seq::<StreamingClientStat>::empty(),
    {
        StreamingClients { pairs: Vec::new() }
    }

    /// Records a live pair.  Last writer wins: an existing descriptor
    /// under the same two device IDs is replaced, and every pair under
    /// other device IDs survives.
    pub fn insert(&mut self, stat: StreamingClientStat)
        ensures
            final(self).spec_has_pair(stat.active_device_id, stat.passive_device_id),
            forall|i: int|
                0 <= i < final(self).spec_pairs().len() ==> (#[trigger] final(self).spec_pairs()[i]
                    == stat || old(self).spec_pairs().contains(final(self).spec_pairs()[i])),
            forall|k: int|
                0 <= k < old(self).spec_pairs().len() && !((#[trigger] old(self).spec_pairs()[k]).active_device_id
                    == stat.active_device_id && old(self).spec_pairs()[k].passive_device_id
                    == stat.passive_device_id) ==> final(self).spec_pairs().contains(
                    old(self).spec_pairs()[k],
                ),
    {
        self.remove(stat.active_device_id, stat.passive_device_id);
        let ghost mid = self.spec_pairs();
        self.pairs.push(stat);
        proof {
            assert(self.spec_pairs()[mid.len() as int] == stat);
            assert forall|k: int|
                0 <= k < old(self).spec_pairs().len() && !((#[trigger] old(self).spec_pairs()[k]).active_device_id
                    == stat.active_device_id && old(self).spec_pairs()[k].passive_device_id
                    == stat.passive_device_id) implies self.spec_pairs().contains(
                old(self).spec_pairs()[k],
            ) by {
                assert(mid.contains(old(self).spec_pairs()[k]));
                let j0 = choose|j0: int|
                    0 <= j0 < mid.len() && mid[j0] == old(self).spec_pairs()[k];
                assert(self.spec_pairs()[j0] == mid[j0]);
            }
        }
    }

    /// Drops the pair with these device IDs, if recorded.  Dropping an
    /// absent pair changes nothing; every other descriptor survives.
    #[verifier::rlimit(100)]
    pub fn remove(&mut self, active: i64, passive: i64)
        ensures
            !final(self).spec_has_pair(active, passive),
            forall|i: int|
                0 <= i < final(self).spec_pairs().len() ==> old(self).spec_pairs().contains(
                    #[trigger] final(self).spec_pairs()[i],
                ),
            forall|k: int|
                0 <= k < old(self).spec_pairs().len() && !((#[trigger] old(self).spec_pairs()[k]).active_device_id
                    == active && old(self).spec_pairs()[k].passive_device_id == passive)
                    ==> final(self).spec_pairs().contains(old(self).spec_pairs()[k]),
    {
        let ghost orig = self.pairs@;
        let mut kept: Vec<StreamingClientStat> = Vec::new();
        while self.pairs.len() > 0
            invariant
                orig == old(self).spec_pairs(),
                self.pairs@.len() <= orig.len(),
                self.pairs@ == orig.subrange(orig.len() - self.pairs@.len(), orig.len() as int),
                forall|j: int|
                    0 <= j < kept@.len() ==> !((#[trigger] kept@[j]).active_device_id == active
                        && kept@[j].passive_device_id == passive) && orig.subrange(
                        0,
                        orig.len() - self.pairs@.len(),
                    ).contains(kept@[j]),
                forall|k: int|
                    0 <= k < orig.len() - self.pairs@.len() && !((#[trigger] orig[k]).active_device_id
                        == active && orig[k].passive_device_id == passive) ==> kept@.contains(
                        orig[k],
                    ),
            decreases self.pairs@.len(),
        {
            let ghost k = orig.len() - self.pairs@.len();
            let ghost kept0 = kept@;
            let s = self.pairs.remove(0);
            proof {
                assert(s == orig[k as int]);
                assert(self.pairs@ =~= orig.subrange(k as int + 1, orig.len() as int));
            }
            let keep = !(s.active_device_id == active && s.passive_device_id == passive);
            if keep {
                kept.push(s);
            }
            proof {
                assert forall|kk: int|
                    0 <= kk < k + 1 && !((#[trigger] orig[kk]).active_device_id == active
                        && orig[kk].passive_device_id == passive) implies kept@.contains(
                    orig[kk],
                ) by {
                    if kk < k {
                        let j0 = choose|j0: int| 0 <= j0 < kept0.len() && kept0[j0] == orig[kk];
                        assert(kept@[j0] == orig[kk]);
                    } else {
                        assert(kept@[kept@.len() - 1] == orig[k as int]);
                    }
                }
                assert forall|j: int|
                    0 <= j < kept@.len() implies orig.subrange(0, k + 1).contains(
                    #[trigger] kept@[j],
                ) by {
                    if keep && j == kept@.len() - 1 {
                        assert(orig.subrange(0, k + 1)[k as int] == kept@[j]);
                    } else {
                        let pre = orig.subrange(0, k as int);
                        assert(pre.contains(kept@[j]));
                        let k0 = choose|k0: int| 0 <= k0 < pre.len() && pre[k0] == kept@[j];
                        assert(orig.subrange(0, k + 1)[k0] == kept@[j]);
                    }
                }
            }
        }
        proof {
            assert(orig.subrange(0, orig.len() as int) =~= orig);
        }
        self.pairs = kept;
    }

    /// A snapshot of up to `cap` live pair descriptors, by early
    /// truncation.
    pub fn snapshot(&self, cap: usize) -> (r: Vec<StreamingClientStat>)
        ensures
            r@.len() <= cap,
            r@.len() == vstd::math::min(self.spec_pairs().len() as int, cap as int),
            forall|j: int| 0 <= j < r@.len() ==> r@[j] == self.spec_pairs()[j],
    {
        let mut out: Vec<StreamingClientStat> = Vec::new();
        let mut i: usize = 0;
        while i < self.pairs.len() && i < cap
            invariant
                0 <= i <= self.spec_pairs().len(),
                i <= cap,
                out@.len() == i,
                forall|j: int| 0 <= j < i ==> out@[j] == self.spec_pairs()[j],
            decreases self.spec_pairs().len() - i,
        {
            out.push(self.pairs[i].duplicate());
            i += 1;
        }
        out
    }
}

/// Assembles the stats endpoint's answer: the published byte counter
/// and at most ten live pair descriptors.
pub fn build_stat_response(bytes_transferred: u64, streaming: &StreamingClients) -> (r:
    StatResponse)
    ensures
        r.bytes_transferred == bytes_transferred,
        r.client_snapshot@.len() <= CLIENTS_SNAPSHOT_CAPACITY,
        forall|j: int|
            0 <= j < r.client_snapshot@.len() ==> r.client_snapshot@[j] == streaming.spec_pairs()[j],
{
    StatResponse {
        bytes_transferred,
        client_snapshot: streaming.snapshot(CLIENTS_SNAPSHOT_CAPACITY),
    }
}

} // verus!
