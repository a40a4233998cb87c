//! The `/dev/fuse` device: the queue of requests between the filesystem and
//! the daemon that serves it.
//!
//! A filesystem operation submits a request and keeps its ticket. The daemon
//! reads requests from the device, oldest first, and writes replies to it; a
//! reply completes the request whose number it carries. The filesystem
//! operation looks its ticket up until the request is complete.
use vstd::prelude::*;

use std::collections::BTreeMap;

use crate::abi::{FuseInHeader, FuseOutHeader, FUSE_IN_HEADER_SIZE, FUSE_OUT_HEADER_SIZE};
use crate::error::{VfsError, VfsResult};

verus! {

/// A request to the daemon, with the reply once there is one.
pub struct FuseRequest {
    /// The header.
    pub header: FuseInHeader,
    /// The arguments that follow the header.
    pub in_data: Vec<u8>,
    /// The header of the reply.
    pub out_header: Option<FuseOutHeader>,
    /// What follows the header of the reply.
    pub out_data: Vec<u8>,
    /// Whether the daemon has replied.
    pub completed: bool,
}

/// What a [`FuseRequest`] holds.
#[verifier::ext_equal]
pub struct RequestView {
    /// The header.
    pub header: FuseInHeader,
    /// The arguments that follow the header.
    pub in_data: Seq<u8>,
    /// The header of the reply.
    pub out_header: Option<FuseOutHeader>,
    /// What follows the header of the reply.
    pub out_data: Seq<u8>,
    /// Whether the daemon has replied.
    pub completed: bool,
}

impl View for FuseRequest {
    type V = RequestView;

    open spec fn view(&self) -> RequestView {
        RequestView {
            header: self.header,
            in_data: self.in_data@,
            out_header: self.out_header,
            out_data: self.out_data@,
            completed: self.completed,
        }
    }
}

impl RequestView {
    /// A request that nobody has answered.
    pub open spec fn fresh(header: FuseInHeader, in_data: Seq<u8>) -> RequestView {
        RequestView {
            header,
            in_data,
            out_header: None,
            out_data: Seq::empty(),
            completed: false,
        }
    }

    /// The request as the daemon reads it.
    pub open spec fn wire(self) -> Seq<u8> {
        self.header.bytes() + self.in_data
    }

    /// The request with a reply.
    pub open spec fn answered(self, out_header: FuseOutHeader, out_data: Seq<u8>) -> RequestView {
        RequestView { out_header: Some(out_header), out_data, completed: true, ..self }
    }
}

/// The requests of a connection.
pub struct FuseConnectionState {
    /// The requests that somebody waits for, by ticket.
    pub requests: Vec<Option<FuseRequest>>,
    /// The tickets of the requests that the daemon has not read, oldest first.
    pub pending: Vec<usize>,
    /// The tickets of the requests that the daemon has read, by request number.
    pub processing: BTreeMap<u64, usize>,
    /// Whether the connection has been shut down.
    pub aborted: bool,
}

/// What a [`FuseConnectionState`] holds.
#[verifier::ext_equal]
pub struct StateView {
    /// The requests that somebody waits for, by ticket.
    pub requests: Seq<Option<RequestView>>,
    /// The tickets of the requests that the daemon has not read, oldest first.
    pub pending: Seq<usize>,
    /// The tickets of the requests that the daemon has read, by request number.
    pub processing: Map<u64, usize>,
    /// Whether the connection has been shut down.
    pub aborted: bool,
}

/// What a slot for a request holds.
pub open spec fn slot_view(slot: Option<FuseRequest>) -> Option<RequestView> {
    match slot {
        Some(r) => Some(r@),
        None => None,
    }
}

impl View for FuseConnectionState {
    type V = StateView;

    open spec fn view(&self) -> StateView {
        StateView {
            requests: self.requests@.map_values(|slot: Option<FuseRequest>| slot_view(slot)),
            pending: self.pending@,
            processing: self.processing@,
            aborted: self.aborted,
        }
    }
}

/// The tickets other than `ticket`.
pub open spec fn other_than(ticket: usize) -> spec_fn(usize) -> bool {
    |t: usize| t != ticket
}

impl StateView {
    /// A connection without requests.
    pub open spec fn empty() -> StateView {
        StateView {
            requests: Seq::empty(),
            pending: Seq::empty(),
            processing: Map::empty(),
            aborted: false,
        }
    }

    /// Somebody waits for the request with this ticket.
    pub open spec fn live(self, ticket: usize) -> bool {
        ticket < self.requests.len() && self.requests[ticket as int] is Some
    }

    /// The request with this ticket.
    pub open spec fn request(self, ticket: usize) -> RequestView {
        self.requests[ticket as int]->0
    }

    /// The tickets in the queues belong to unanswered requests; no ticket is
    /// queued twice; a request being processed stands under its own number.
    pub open spec fn wf(self) -> bool {
        &&& self.pending.no_duplicates()
        &&& forall|i: int|
            0 <= i < self.pending.len() ==> self.live(#[trigger] self.pending[i])
                && !self.request(self.pending[i]).completed
        &&& forall|u: u64| #[trigger]
            self.processing.contains_key(u) ==> {
                &&& self.live(self.processing[u])
                &&& self.request(self.processing[u]).header.unique == u
                &&& !self.request(self.processing[u]).completed
                &&& !self.pending.contains(self.processing[u])
            }
        &&& forall|t: usize| #[trigger]
            self.live(t) && self.request(t).completed ==> self.request(t).out_header is Some
    }

    /// A new request was queued under `ticket`.
    pub open spec fn submitted(self, ticket: usize, request: RequestView) -> StateView {
        StateView {
            requests: if ticket < self.requests.len() {
                self.requests.update(ticket as int, Some(request))
            } else {
                self.requests.push(Some(request))
            },
            pending: self.pending.push(ticket),
            ..self
        }
    }

    /// The oldest unread request was taken off the queue.
    pub open spec fn dropped(self) -> StateView {
        StateView { pending: self.pending.drop_first(), ..self }
    }

    /// The oldest unread request was handed to the daemon.
    pub open spec fn delivered(self) -> StateView {
        let ticket = self.pending[0];
        StateView {
            processing: self.processing.insert(self.request(ticket).header.unique, ticket),
            ..self.dropped()
        }
    }

    /// The daemon replied. A reply to a request that is not being processed
    /// changes nothing.
    pub open spec fn replied(self, out_header: FuseOutHeader, out_data: Seq<u8>) -> StateView {
        if self.processing.contains_key(out_header.unique) {
            let ticket = self.processing[out_header.unique];
            StateView {
                requests: self.requests.update(
                    ticket as int,
                    Some(self.request(ticket).answered(out_header, out_data)),
                ),
                processing: self.processing.remove(out_header.unique),
                ..self
            }
        } else {
            self
        }
    }

    /// Nobody waits for the request with this ticket any more.
    pub open spec fn released(self, ticket: usize) -> StateView {
        StateView { requests: self.requests.update(ticket as int, None), ..self }
    }

    /// The request with this ticket and number was withdrawn.
    pub open spec fn withdrawn(self, ticket: usize, unique: u64) -> StateView {
        StateView {
            pending: self.pending.filter(other_than(ticket)),
            processing: self.processing.remove(unique),
            ..self.released(ticket)
        }
    }
}

/// Queueing a request under an unused ticket keeps the queues consistent.
pub proof fn law_submitted_wf(s: StateView, ticket: usize, request: RequestView)
    requires
        s.wf(),
        !s.live(ticket),
        ticket <= s.requests.len(),
        !request.completed,
    ensures
        s.submitted(ticket, request).wf(),
{
    let next = s.submitted(ticket, request);
    assert forall|t: usize| s.live(t) implies next.live(t) && next.request(t) == s.request(t) by {}
    assert forall|t: usize| next.live(t) && t != ticket implies s.live(t) && next.request(t)
        == s.request(t) by {}
    assert(next.live(ticket) && next.request(ticket) == request);
    assert forall|i: int| 0 <= i < next.pending.len() implies next.live(#[trigger] next.pending[i])
        && !next.request(next.pending[i]).completed by {
        if i < s.pending.len() {
            assert(next.pending[i] == s.pending[i]);
        }
    }
    assert(!s.pending.contains(ticket));
    assert(next.pending.no_duplicates());
    assert forall|u: u64| #[trigger] next.processing.contains_key(u) implies {
        &&& next.live(next.processing[u])
        &&& next.request(next.processing[u]).header.unique == u
        &&& !next.request(next.processing[u]).completed
        &&& !next.pending.contains(next.processing[u])
    } by {
        assert(s.processing.contains_key(u));
        assert(s.processing[u] != ticket);
        if next.pending.contains(next.processing[u]) {
            let i = choose|i: int|
                0 <= i < next.pending.len() && next.pending[i] == next.processing[u];
            assert(s.pending[i] == s.processing[u]);
        }
    }
}

/// Taking the oldest unread request off the queue keeps the queues consistent.
pub proof fn law_dropped_wf(s: StateView)
    requires
        s.wf(),
        s.pending.len() > 0,
    ensures
        s.dropped().wf(),
        !s.dropped().pending.contains(s.pending[0]),
{
    let next = s.dropped();
    assert forall|i: int| 0 <= i < next.pending.len() implies #[trigger] next.pending[i]
        == s.pending[i + 1] by {}
    assert forall|t: usize| next.pending.contains(t) implies s.pending.contains(t) by {
        let i = choose|i: int| 0 <= i < next.pending.len() && next.pending[i] == t;
        assert(s.pending[i + 1] == t);
    }
    assert forall|i: int| 0 <= i < next.pending.len() implies next.live(#[trigger] next.pending[i])
        && !next.request(next.pending[i]).completed by {
        assert(s.live(s.pending[i + 1]));
    }
    assert forall|t: usize| #[trigger] next.live(t) && next.request(t).completed implies next.request(
        t,
    ).out_header is Some by {
        assert(s.live(t));
    }
}

/// Handing the oldest unread request to the daemon keeps the queues consistent.
pub proof fn law_delivered_wf(s: StateView)
    requires
        s.wf(),
        s.pending.len() > 0,
    ensures
        s.delivered().wf(),
{
    law_dropped_wf(s);
    let mid = s.dropped();
    let next = s.delivered();
    let ticket = s.pending[0];
    assert(s.live(ticket));
    assert forall|u: u64| #[trigger] next.processing.contains_key(u) implies {
        &&& next.live(next.processing[u])
        &&& next.request(next.processing[u]).header.unique == u
        &&& !next.request(next.processing[u]).completed
        &&& !next.pending.contains(next.processing[u])
    } by {
        if u != s.request(ticket).header.unique {
            assert(mid.processing.contains_key(u));
        }
    }
    assert forall|i: int| 0 <= i < next.pending.len() implies next.live(#[trigger] next.pending[i])
        && !next.request(next.pending[i]).completed by {
        assert(mid.live(mid.pending[i]));
    }
    assert forall|t: usize| #[trigger] next.live(t) && next.request(t).completed implies next.request(
        t,
    ).out_header is Some by {
        assert(s.live(t));
    }
}

/// A reply, whether to a request being processed or not, keeps the queues consistent.
pub proof fn law_replied_wf(s: StateView, out_header: FuseOutHeader, out_data: Seq<u8>)
    requires
        s.wf(),
    ensures
        s.replied(out_header, out_data).wf(),
{
    let next = s.replied(out_header, out_data);
    if s.processing.contains_key(out_header.unique) {
        let ticket = s.processing[out_header.unique];
        assert forall|t: usize| t != ticket implies next.live(t) == s.live(t) && (s.live(t)
            ==> next.request(t) == s.request(t)) by {}
        assert forall|i: int| 0 <= i < next.pending.len() implies next.live(
            #[trigger] next.pending[i],
        ) && !next.request(next.pending[i]).completed by {
            assert(s.live(s.pending[i]));
            assert(s.pending.contains(s.pending[i]));
        }
        assert forall|u: u64| #[trigger] next.processing.contains_key(u) implies {
            &&& next.live(next.processing[u])
            &&& next.request(next.processing[u]).header.unique == u
            &&& !next.request(next.processing[u]).completed
            &&& !next.pending.contains(next.processing[u])
        } by {
            assert(s.processing.contains_key(u));
            assert(s.processing[u] != ticket);
        }
        assert forall|t: usize| #[trigger] next.live(t) && next.request(
            t,
        ).completed implies next.request(t).out_header is Some by {
            assert(s.live(t));
        }
    }
}

/// Withdrawing a request keeps the queues consistent, and leaves its ticket
/// in none of them.
pub proof fn law_withdrawn_wf(s: StateView, ticket: usize, unique: u64)
    requires
        s.wf(),
        s.live(ticket),
        s.request(ticket).header.unique == unique,
    ensures
        s.withdrawn(ticket, unique).wf(),
        !s.withdrawn(ticket, unique).live(ticket),
        !s.withdrawn(ticket, unique).pending.contains(ticket),
        !s.withdrawn(ticket, unique).processing.contains_value(ticket),
{
    let next = s.withdrawn(ticket, unique);
    lemma_filter_distinct(s.pending, other_than(ticket));
    assert forall|t: usize| t != ticket implies next.live(t) == s.live(t) && (s.live(t)
        ==> next.request(t) == s.request(t)) by {}
    assert forall|i: int| 0 <= i < next.pending.len() implies next.live(#[trigger] next.pending[i])
        && !next.request(next.pending[i]).completed by {
        let t = next.pending[i];
        assert(next.pending.contains(t));
        assert(s.pending.contains(t) && t != ticket);
        let k = choose|k: int| 0 <= k < s.pending.len() && s.pending[k] == t;
        assert(s.live(s.pending[k]));
    }
    assert forall|u: u64| #[trigger] next.processing.contains_key(u) implies {
        &&& next.processing[u] != ticket
        &&& next.live(next.processing[u])
        &&& next.request(next.processing[u]).header.unique == u
        &&& !next.request(next.processing[u]).completed
        &&& !next.pending.contains(next.processing[u])
    } by {
        assert(s.processing.contains_key(u));
        assert(s.processing[u] != ticket);
        if next.pending.contains(next.processing[u]) {
            assert(s.pending.contains(s.processing[u]));
        }
    }
    assert forall|t: usize| #[trigger] next.live(t) && next.request(t).completed implies next.request(
        t,
    ).out_header is Some by {
        assert(s.live(t));
    }
}

/// Giving up the ticket of an answered request keeps the queues consistent.
pub proof fn law_released_wf(s: StateView, ticket: usize)
    requires
        s.wf(),
        s.live(ticket),
        s.request(ticket).completed,
    ensures
        s.released(ticket).wf(),
{
    let next = s.released(ticket);
    assert forall|t: usize| t != ticket implies next.live(t) == s.live(t) && (s.live(t)
        ==> next.request(t) == s.request(t)) by {}
    assert forall|i: int| 0 <= i < next.pending.len() implies next.live(#[trigger] next.pending[i])
        && !next.request(next.pending[i]).completed by {
        assert(s.live(s.pending[i]));
    }
    assert forall|u: u64| #[trigger] next.processing.contains_key(u) implies {
        &&& next.live(next.processing[u])
        &&& next.request(next.processing[u]).header.unique == u
        &&& !next.request(next.processing[u]).completed
        &&& !next.pending.contains(next.processing[u])
    } by {
        assert(s.processing.contains_key(u));
    }
    assert forall|t: usize| #[trigger] next.live(t) && next.request(t).completed implies next.request(
        t,
    ).out_header is Some by {
        assert(s.live(t));
    }
}

/// The state after the daemon read `n` requests.
pub open spec fn after_reads(s: StateView, n: nat) -> StateView
    decreases n,
{
    if n == 0 {
        s
    } else {
        after_reads(s.delivered(), (n - 1) as nat)
    }
}

/// Requests are read in the order in which they were queued: after `n` reads
/// the queue lacks its first `n` requests and nothing else.
pub proof fn law_first_in_first_out(s: StateView, n: nat)
    requires
        n <= s.pending.len(),
    ensures
        after_reads(s, n).pending == s.pending.skip(n as int),
        after_reads(s, n).requests == s.requests,
        after_reads(s, n).aborted == s.aborted,
    decreases n,
{
    if n == 0 {
        assert(s.pending.skip(0) =~= s.pending);
    } else {
        law_first_in_first_out(s.delivered(), (n - 1) as nat);
        assert(s.pending.drop_first().skip(n - 1) =~= s.pending.skip(n as int));
    }
}

/// A request that has been read is not read again.
pub proof fn law_read_once(s: StateView)
    requires
        s.wf(),
        s.pending.len() > 0,
    ensures
        !s.delivered().pending.contains(s.pending[0]),
{
    law_dropped_wf(s);
}

/// The daemon reads the header and the arguments that were submitted.
pub proof fn law_daemon_reads_what_was_sent(request: RequestView)
    ensures
        FuseInHeader::decode(request.wire()) == request.header,
        request.wire().skip(FUSE_IN_HEADER_SIZE as int) == request.in_data,
        request.wire().len() == FUSE_IN_HEADER_SIZE + request.in_data.len(),
{
    crate::abi::law_in_header_round_trip(request.header);
    assert(request.wire().skip(FUSE_IN_HEADER_SIZE as int) =~= request.in_data);
}

/// A reply that the daemon writes to the device is read as it was written.
pub proof fn law_kernel_reads_what_was_replied(out_header: FuseOutHeader, out_data: Seq<u8>)
    ensures
        ({
            let reply = out_header.bytes() + out_data;
            &&& reply.len() == FUSE_OUT_HEADER_SIZE + out_data.len()
            &&& FuseOutHeader::decode(reply) == out_header
            &&& reply.skip(FUSE_OUT_HEADER_SIZE as int) == out_data
        }),
{
    crate::abi::law_out_header_round_trip(out_header);
    assert((out_header.bytes() + out_data).skip(FUSE_OUT_HEADER_SIZE as int) =~= out_data);
}

/// A reply completes the request that carries its number, with the reply's
/// contents, and no other request.
pub proof fn law_reply_reaches_its_sender(
    s: StateView,
    out_header: FuseOutHeader,
    out_data: Seq<u8>,
    ticket: usize,
)
    requires
        s.wf(),
        s.processing.contains_key(out_header.unique),
        s.live(ticket),
    ensures
        s.replied(out_header, out_data).live(ticket),
        s.replied(out_header, out_data).request(ticket) == (if ticket
            == s.processing[out_header.unique] {
            s.request(ticket).answered(out_header, out_data)
        } else {
            s.request(ticket)
        }),
        s.request(s.processing[out_header.unique]).header.unique == out_header.unique,
{
}

/// A reply that carries the number of no request in progress changes nothing.
/// A second reply to one request is such a reply.
pub proof fn law_unknown_reply_ignored(
    s: StateView,
    first: FuseOutHeader,
    first_data: Seq<u8>,
    second: FuseOutHeader,
    second_data: Seq<u8>,
)
    requires
        first.unique == second.unique,
    ensures
        !s.processing.contains_key(first.unique) ==> s.replied(first, first_data) == s,
        s.replied(first, first_data).replied(second, second_data) == s.replied(first, first_data),
{
}

/// A reply to a withdrawn request changes nothing.
pub proof fn law_late_reply_ignored(
    s: StateView,
    ticket: usize,
    out_header: FuseOutHeader,
    out_data: Seq<u8>,
)
    ensures
        s.withdrawn(ticket, out_header.unique).replied(out_header, out_data) == s.withdrawn(
            ticket,
            out_header.unique,
        ),
{
}

/// The sender's ticket stays good, for the same header and arguments, whatever
/// happens to other requests and whatever the daemon does.
pub proof fn law_ticket_stays_good(
    s: StateView,
    ticket: usize,
    other: usize,
    request: RequestView,
    out_header: FuseOutHeader,
    out_data: Seq<u8>,
)
    requires
        s.wf(),
        s.live(ticket),
        other != ticket,
        other <= s.requests.len(),
    ensures
        s.submitted(other, request).live(ticket),
        s.submitted(other, request).request(ticket) == s.request(ticket),
        s.live(other) ==> s.released(other).live(ticket) && s.released(other).request(ticket)
            == s.request(ticket),
        s.live(other) ==> s.withdrawn(other, s.request(other).header.unique).live(ticket)
            && s.withdrawn(other, s.request(other).header.unique).request(ticket) == s.request(
            ticket,
        ),
        s.pending.len() > 0 ==> s.dropped().live(ticket) && s.dropped().request(ticket)
            == s.request(ticket),
        s.pending.len() > 0 ==> s.delivered().live(ticket) && s.delivered().request(ticket)
            == s.request(ticket),
        s.replied(out_header, out_data).live(ticket),
        s.replied(out_header, out_data).request(ticket).header == s.request(ticket).header,
        s.replied(out_header, out_data).request(ticket).in_data == s.request(ticket).in_data,
{
}

impl StateView {
    /// The requests have different numbers, all below `next`.
    pub open spec fn numbered(self, next: int) -> bool {
        &&& forall|t: usize| #[trigger]
            self.live(t) ==> self.request(t).header.unique < next
        &&& forall|t: usize, v: usize|
            #![trigger self.live(t), self.live(v)]
            self.live(t) && self.live(v) && self.request(t).header.unique == self.request(
                v,
            ).header.unique ==> t == v
    }
}

/// As long as the counter has not wrapped around, requests have different
/// numbers, whatever is done with the connection.
pub proof fn law_numbers_stay_distinct(
    s: StateView,
    next: int,
    ticket: usize,
    request: RequestView,
    out_header: FuseOutHeader,
    out_data: Seq<u8>,
)
    requires
        s.wf(),
        s.numbered(next),
        ticket <= s.requests.len(),
    ensures
        !s.live(ticket) && request.header.unique == next ==> s.submitted(ticket, request).numbered(
            next + 1,
        ),
        s.pending.len() > 0 ==> s.dropped().numbered(next) && s.delivered().numbered(next),
        s.replied(out_header, out_data).numbered(next),
        s.live(ticket) ==> s.released(ticket).numbered(next),
        s.live(ticket) ==> s.withdrawn(ticket, s.request(ticket).header.unique).numbered(next),
{
    if !s.live(ticket) && request.header.unique == next {
        let after = s.submitted(ticket, request);
        assert forall|t: usize| #[trigger] after.live(t) implies if t == ticket {
            after.request(t).header.unique == next
        } else {
            s.live(t) && after.request(t) == s.request(t)
        } by {}
    }
    if s.pending.len() > 0 {
        lemma_numbered_kept(s, s.dropped(), next);
        lemma_numbered_kept(s, s.delivered(), next);
    }
    if s.processing.contains_key(out_header.unique) {
        assert(s.live(s.processing[out_header.unique]));
    }
    lemma_numbered_kept(s, s.replied(out_header, out_data), next);
    if s.live(ticket) {
        lemma_numbered_kept(s, s.released(ticket), next);
        lemma_numbered_kept(s, s.withdrawn(ticket, s.request(ticket).header.unique), next);
    }
}

/// A state whose requests are among those of another, with the same headers,
/// is numbered if the other is.
proof fn lemma_numbered_kept(s: StateView, after: StateView, next: int)
    requires
        s.numbered(next),
        forall|t: usize| #[trigger]
            after.live(t) ==> s.live(t) && after.request(t).header == s.request(t).header,
    ensures
        after.numbered(next),
{
    assert forall|t: usize| #[trigger] after.live(t) implies after.request(t).header.unique
        < next by {
        assert(s.live(t));
    }
    assert forall|t: usize, v: usize|
        #![trigger after.live(t), after.live(v)]
        after.live(t) && after.live(v) && after.request(t).header.unique == after.request(
            v,
        ).header.unique implies t == v by {
        assert(s.live(t) && s.live(v));
    }
}

/// With different numbers, handing a request to the daemon displaces none that
/// it is already processing.
pub proof fn law_delivery_displaces_nothing(s: StateView, next: int)
    requires
        s.wf(),
        s.numbered(next),
        s.pending.len() > 0,
    ensures
        !s.processing.contains_key(s.request(s.pending[0]).header.unique),
{
    let ticket = s.pending[0];
    let number = s.request(ticket).header.unique;
    assert(s.live(ticket));
    if s.processing.contains_key(number) {
        assert(s.live(s.processing[number]));
        assert(s.pending.contains(s.processing[number]));
    }
}

/// A request that the daemon has read stays in progress under its number until
/// it is answered or withdrawn, whatever happens to other requests.
pub proof fn law_in_progress_until_answered(
    s: StateView,
    next: int,
    unique: u64,
    other: usize,
    request: RequestView,
    out_header: FuseOutHeader,
    out_data: Seq<u8>,
)
    requires
        s.wf(),
        s.numbered(next),
        s.processing.contains_key(unique),
        other != s.processing[unique],
        out_header.unique != unique,
    ensures
        s.submitted(other, request).processing == s.processing,
        s.pending.len() > 0 ==> s.dropped().processing == s.processing,
        s.pending.len() > 0 ==> s.delivered().processing.contains_key(unique)
            && s.delivered().processing[unique] == s.processing[unique],
        s.replied(out_header, out_data).processing.contains_key(unique),
        s.replied(out_header, out_data).processing[unique] == s.processing[unique],
        s.live(other) ==> s.released(other).processing == s.processing,
        s.live(other) ==> ({
            let after = s.withdrawn(other, s.request(other).header.unique);
            after.processing.contains_key(unique) && after.processing[unique]
                == s.processing[unique]
        }),
{
    let ticket = s.processing[unique];
    assert(s.live(ticket));
    if s.pending.len() > 0 {
        law_delivery_displaces_nothing(s, next);
    }
    if s.live(other) {
        assert(s.request(other).header.unique != unique);
    }
}

/// What a request and a connection are seen to hold is what they hold.
pub proof fn law_views(request: FuseRequest, state: FuseConnectionState, i: int)
    ensures
        request@.header == request.header,
        request@.in_data == request.in_data@,
        request@.out_header == request.out_header,
        request@.out_data == request.out_data@,
        request@.completed == request.completed,
        state@.requests.len() == state.requests@.len(),
        0 <= i < state.requests@.len() ==> (state@.requests[i] is Some <==> state.requests@[i] is Some),
        0 <= i < state.requests@.len() && state.requests@[i] is Some ==> state@.requests[i]->0
            == (state.requests@[i]->0)@,
        state@.pending == state.pending@,
        state@.processing == state.processing@,
        state@.aborted == state.aborted,
{
}

/// A new request has the header and the arguments it was made with, and no
/// reply. A reply adds its header and contents, and changes nothing else.
pub proof fn law_request_and_reply(
    header: FuseInHeader,
    in_data: Seq<u8>,
    out_header: FuseOutHeader,
    out_data: Seq<u8>,
)
    ensures
        ({
            let fresh = RequestView::fresh(header, in_data);
            let answered = fresh.answered(out_header, out_data);
            &&& fresh.header == header
            &&& fresh.in_data == in_data
            &&& fresh.out_header is None
            &&& fresh.out_data.len() == 0
            &&& !fresh.completed
            &&& answered.header == header
            &&& answered.in_data == in_data
            &&& answered.out_header == Some(out_header)
            &&& answered.out_data == out_data
            &&& answered.completed
        }),
{
}

/// Queueing a request puts it last among the unread ones and touches nothing else.
pub proof fn law_queued_last(s: StateView, ticket: usize, request: RequestView, i: int, t: usize)
    requires
        ticket <= s.requests.len(),
    ensures
        ({
            let next = s.submitted(ticket, request);
            &&& next.pending.len() == s.pending.len() + 1
            &&& next.pending[s.pending.len() as int] == ticket
            &&& 0 <= i < s.pending.len() ==> next.pending[i] == s.pending[i]
            &&& next.live(ticket)
            &&& next.request(ticket) == request
            &&& t != ticket ==> (next.live(t) <==> s.live(t))
            &&& t != ticket && s.live(t) ==> next.request(t) == s.request(t)
            &&& next.processing == s.processing
            &&& next.aborted == s.aborted
        }),
{
}

/// Taking the oldest unread request off the queue leaves the others in their
/// order. Handing it to the daemon does the same, and puts it in progress under
/// its number; whatever else is in progress stays.
pub proof fn law_oldest_is_taken(s: StateView, i: int, unique: u64)
    requires
        s.pending.len() > 0,
    ensures
        ({
            let number = s.request(s.pending[0]).header.unique;
            let dropped = s.dropped();
            let delivered = s.delivered();
            &&& dropped.pending.len() == s.pending.len() - 1
            &&& 0 <= i < s.pending.len() - 1 ==> dropped.pending[i] == s.pending[i + 1]
            &&& dropped.requests == s.requests
            &&& dropped.processing == s.processing
            &&& dropped.aborted == s.aborted
            &&& delivered.pending == dropped.pending
            &&& delivered.requests == s.requests
            &&& delivered.aborted == s.aborted
            &&& delivered.processing.contains_key(number)
            &&& delivered.processing[number] == s.pending[0]
            &&& unique != number ==> (delivered.processing.contains_key(unique)
                <==> s.processing.contains_key(unique))
            &&& unique != number && s.processing.contains_key(unique)
                ==> delivered.processing[unique] == s.processing[unique]
        }),
{
}

/// A reply to a request in progress completes it with the reply's header and
/// contents and ends its progress. Whatever is unread stays unread, and whatever
/// else is in progress stays so.
pub proof fn law_reply_completes(
    s: StateView,
    out_header: FuseOutHeader,
    out_data: Seq<u8>,
    t: usize,
    unique: u64,
)
    requires
        s.wf(),
    ensures
        ({
            let next = s.replied(out_header, out_data);
            let known = s.processing.contains_key(out_header.unique);
            let ticket = s.processing[out_header.unique];
            &&& next.pending == s.pending
            &&& next.aborted == s.aborted
            &&& next.live(t) <==> s.live(t)
            &&& s.live(t) ==> next.request(t).header == s.request(t).header
            &&& s.live(t) ==> next.request(t).in_data == s.request(t).in_data
            &&& known ==> next.live(ticket)
            &&& known ==> next.request(ticket).completed
            &&& known ==> next.request(ticket).out_header == Some(out_header)
            &&& known ==> next.request(ticket).out_data == out_data
            &&& s.live(t) && !(known && t == ticket) ==> next.request(t) == s.request(t)
            &&& next.processing.contains_key(unique) <==> s.processing.contains_key(unique)
                && unique != out_header.unique
            &&& next.processing.contains_key(unique) ==> next.processing[unique]
                == s.processing[unique]
        }),
{
    if s.processing.contains_key(out_header.unique) {
        assert(s.live(s.processing[out_header.unique]));
    }
}

/// Giving up a ticket frees it and nothing else. Withdrawing a request also
/// takes it out of the unread requests, which keep their order, and out of those
/// in progress.
pub proof fn law_ticket_is_freed(s: StateView, ticket: usize, unique: u64, t: usize, other: u64)
    requires
        s.pending.no_duplicates(),
        s.live(ticket),
    ensures
        ({
            let released = s.released(ticket);
            let withdrawn = s.withdrawn(ticket, unique);
            &&& !released.live(ticket)
            &&& t != ticket ==> (released.live(t) <==> s.live(t))
            &&& t != ticket && s.live(t) ==> released.request(t) == s.request(t)
            &&& released.pending == s.pending
            &&& released.processing == s.processing
            &&& released.aborted == s.aborted
            &&& withdrawn.requests == released.requests
            &&& withdrawn.aborted == s.aborted
            &&& !withdrawn.processing.contains_key(unique)
            &&& other != unique ==> (withdrawn.processing.contains_key(other)
                <==> s.processing.contains_key(other))
            &&& other != unique && s.processing.contains_key(other)
                ==> withdrawn.processing[other] == s.processing[other]
            &&& !s.pending.contains(ticket) ==> withdrawn.pending == s.pending
            &&& forall|i: int|
                0 <= i < s.pending.len() && #[trigger] s.pending[i] == ticket ==> withdrawn.pending
                    == s.pending.take(i) + s.pending.skip(i + 1)
        }),
{
    if !s.pending.contains(ticket) {
        lemma_filter_all(s.pending, ticket);
    }
    assert forall|i: int| 0 <= i < s.pending.len() && #[trigger] s.pending[i] == ticket implies s.withdrawn(
        ticket,
        unique,
    ).pending == s.pending.take(i) + s.pending.skip(i + 1) by {
        let front = s.pending.take(i);
        let back = s.pending.skip(i + 1);
        assert forall|k: int| 0 <= k < back.len() implies #[trigger] back[k] != ticket by {
            assert(back[k] == s.pending[i + 1 + k]);
        }
        lemma_filter_all(front, ticket);
        lemma_filter_all(back, ticket);
        let one = seq![ticket];
        assert(one.filter(other_than(ticket)) =~= Seq::<usize>::empty()) by {
            reveal(Seq::filter);
            assert(one.drop_last() =~= Seq::<usize>::empty());
            lemma_filter_all(Seq::empty(), ticket);
        }
        assert(s.pending =~= (front + one) + back);
        Seq::filter_distributes_over_add(front + one, back, other_than(ticket));
        Seq::filter_distributes_over_add(front, one, other_than(ticket));
        assert(front + Seq::<usize>::empty() =~= front);
    }
}

/// A filter that every element meets keeps them all.
proof fn lemma_filter_all(s: Seq<usize>, ticket: usize)
    requires
        forall|i: int| 0 <= i < s.len() ==> #[trigger] s[i] != ticket,
    ensures
        s.filter(other_than(ticket)) == s,
    decreases s.len(),
{
    reveal(Seq::filter);
    if s.len() > 0 {
        lemma_filter_all(s.drop_last(), ticket);
        assert(s.drop_last().push(s.last()) =~= s);
    } else {
        assert(s.filter(other_than(ticket)) =~= s);
    }
}

/// What a filter keeps: the elements that meet the predicate, none of them twice.
proof fn lemma_filter_distinct(s: Seq<usize>, keep: spec_fn(usize) -> bool)
    requires
        s.no_duplicates(),
    ensures
        s.filter(keep).no_duplicates(),
        forall|t: usize| #[trigger]
            s.filter(keep).contains(t) <==> s.contains(t) && keep(t),
    decreases s.len(),
{
    reveal(Seq::filter);
    if s.len() > 0 {
        let front = s.drop_last();
        let last = s.last();
        lemma_filter_distinct(front, keep);
        let kept = front.filter(keep);
        assert(!front.contains(last));
        assert forall|t: usize| #[trigger]
            s.filter(keep).contains(t) <==> s.contains(t) && keep(t) by {
            if s.contains(t) && keep(t) {
                if t == last {
                    assert(s.filter(keep) == kept.push(last));
                    assert(kept.push(last)[kept.len() as int] == t);
                } else {
                    let k = choose|k: int| 0 <= k < s.len() && s[k] == t;
                    assert(front[k] == t);
                    assert(kept.contains(t));
                    let j = choose|j: int| 0 <= j < kept.len() && kept[j] == t;
                    assert(s.filter(keep)[j] == t);
                }
            }
            if s.filter(keep).contains(t) {
                let j = choose|j: int| 0 <= j < s.filter(keep).len() && s.filter(keep)[j] == t;
                if j < kept.len() {
                    assert(kept[j] == t);
                    assert(kept.contains(t));
                    assert(front.contains(t));
                    let k = choose|k: int| 0 <= k < front.len() && front[k] == t;
                    assert(s[k] == t);
                } else {
                    assert(s[s.len() - 1] == t);
                }
            }
        }
        assert(s.filter(keep).no_duplicates()) by {
            if keep(last) {
                assert(!kept.contains(last));
                assert(s.filter(keep) == kept.push(last));
            }
        }
    }
}

impl FuseConnectionState {
    /// The queues are consistent.
    pub open spec fn wf(&self) -> bool {
        self@.wf()
    }

    /// A connection without requests.
    pub fn new() -> (state: FuseConnectionState)
        ensures
            state@ == StateView::empty(),
            state.wf(),
    {
        let state = FuseConnectionState {
            requests: Vec::new(),
            pending: Vec::new(),
            processing: BTreeMap::new(),
            aborted: false,
        };
        assert(state@ =~= StateView::empty());
        state
    }

    /// Queues a request and gives its ticket.
    pub fn submit(&mut self, header: FuseInHeader, in_data: Vec<u8>) -> (ticket: usize)
        requires
            old(self).wf(),
        ensures
            !old(self)@.live(ticket),
            ticket <= old(self)@.requests.len(),
            final(self)@ == old(self)@.submitted(ticket, RequestView::fresh(header, in_data@)),
            final(self).wf(),
    {
        let request = FuseRequest {
            header,
            in_data,
            out_header: None,
            out_data: Vec::new(),
            completed: false,
        };
        let mut ticket: usize = 0;
        while ticket < self.requests.len() && self.requests[ticket].is_some()
            invariant
                ticket <= self.requests@.len(),
            decreases self.requests@.len() - ticket,
        {
            ticket = ticket + 1;
        }
        let ghost start = self@;
        if ticket < self.requests.len() {
            self.requests[ticket] = Some(request);
        } else {
            self.requests.push(Some(request));
        }
        self.pending.push(ticket);
        proof {
            let view = RequestView::fresh(header, request.in_data@);
            assert(self@ =~= start.submitted(ticket, view));
            law_submitted_wf(start, ticket, view);
        }
        ticket
    }

    /// Takes a reply in. A reply to a request that is not being processed is ignored.
    pub fn reply(&mut self, out_header: FuseOutHeader, out_data: Vec<u8>)
        requires
            old(self).wf(),
        ensures
            final(self)@ == old(self)@.replied(out_header, out_data@),
            final(self).wf(),
    {
        let ghost start = self@;
        proof {
            law_replied_wf(start, out_header, out_data@);
        }
        if let Some(ticket) = self.processing.remove(&out_header.unique) {
            assert(start.processing.contains_key(out_header.unique));
            assert(start.live(ticket));
            let ghost data = out_data@;
            if let Some(mut request) = self.requests[ticket].take() {
                request.out_header = Some(out_header);
                request.out_data = out_data;
                request.completed = true;
                self.requests[ticket] = Some(request);
            }
            assert(self@ =~= start.replied(out_header, data));
        } else {
            assert(self.processing@ =~= start.processing);
            assert(self@ =~= start);
        }
    }

    /// Withdraws a request that nobody has answered.
    pub fn withdraw(&mut self, ticket: usize, unique: u64)
        requires
            old(self).wf(),
            old(self)@.live(ticket),
            old(self)@.request(ticket).header.unique == unique,
        ensures
            final(self)@ == old(self)@.withdrawn(ticket, unique),
            final(self).wf(),
    {
        let ghost start = self@;
        proof {
            law_withdrawn_wf(start, ticket, unique);
        }
        let mut kept: Vec<usize> = Vec::new();
        let mut i: usize = 0;
        assert(self.pending@.take(0).filter(other_than(ticket)) =~= Seq::<usize>::empty()) by {
            reveal(Seq::filter);
        }
        while i < self.pending.len()
            invariant
                i <= self.pending@.len(),
                kept@ == self.pending@.take(i as int).filter(other_than(ticket)),
            decreases self.pending@.len() - i,
        {
            proof {
                reveal(Seq::filter);
                assert(self.pending@.take(i + 1).drop_last() =~= self.pending@.take(i as int));
            }
            if self.pending[i] != ticket {
                kept.push(self.pending[i]);
            }
            i = i + 1;
        }
        assert(self.pending@.take(i as int) =~= self.pending@);
        self.pending = kept;
        self.processing.remove(&unique);
        self.requests[ticket] = None;
        assert(self@ =~= start.withdrawn(ticket, unique));
    }

    /// Hands out an answered request and frees its ticket.
    pub fn release(&mut self, ticket: usize) -> (request: FuseRequest)
        requires
            old(self).wf(),
            old(self)@.live(ticket),
            old(self)@.request(ticket).completed,
        ensures
            request@ == old(self)@.request(ticket),
            final(self)@ == old(self)@.released(ticket),
            final(self).wf(),
    {
        let ghost start = self@;
        proof {
            law_released_wf(start, ticket);
        }
        let request: FuseRequest = self.requests[ticket].take().unwrap();
        assert(self@ =~= start.released(ticket));
        request
    }

    /// Whether the daemon has replied to the request with this ticket.
    pub fn is_completed(&self, ticket: usize) -> (completed: bool)
        requires
            self@.live(ticket),
        ensures
            completed == self@.request(ticket).completed,
    {
        match &self.requests[ticket] {
            Some(request) => request.completed,
            None => false,
        }
    }
}

/// A connection between a FUSE filesystem and its daemon.
pub struct FuseConnection {
    /// The requests.
    pub state: FuseConnectionState,
    /// The number of the next request.
    pub unique_counter: u64,
}

impl FuseConnection {
    /// The queues are consistent.
    pub open spec fn wf(&self) -> bool {
        self.state.wf()
    }

    /// A connection without requests; the first request gets number one.
    pub fn new() -> (conn: FuseConnection)
        ensures
            conn.state@ == StateView::empty(),
            conn.unique_counter == 1,
            conn.wf(),
    {
        FuseConnection { state: FuseConnectionState::new(), unique_counter: 1 }
    }

    /// Gives the number of the next request and counts on. The counter wraps
    /// around after the largest number.
    pub fn next_unique(&mut self) -> (unique: u64)
        ensures
            unique == old(self).unique_counter,
            final(self).unique_counter == (old(self).unique_counter + 1) % 0x1_0000_0000_0000_0000,
            unique < u64::MAX ==> final(self).unique_counter == unique + 1,
            unique == u64::MAX ==> final(self).unique_counter == 0,
            final(self).state == old(self).state,
    {
        let unique: u64 = self.unique_counter;
        self.unique_counter = unique.wrapping_add(1);
        unique
    }
}

/// The number of the request after `n` others, if the first of them had number `first`.
pub open spec fn nth_unique(first: u64, n: nat) -> int {
    (first + n) % 0x1_0000_0000_0000_0000
}

/// The numbers that [`FuseConnection::next_unique`] gives out one after the
/// other repeat only after the counter has gone all the way round.
pub proof fn law_unique_numbers_repeat_late(first: u64, i: nat, j: nat)
    requires
        i < j < i + 0x1_0000_0000_0000_0000,
    ensures
        nth_unique(first, 0) == first,
        nth_unique(first, i + 1) == (nth_unique(first, i) + 1) % 0x1_0000_0000_0000_0000,
        nth_unique(first, i) != nth_unique(first, j),
{
    let m = 0x1_0000_0000_0000_0000int;
    vstd::arithmetic::div_mod::lemma_fundamental_div_mod(first + i, m);
    vstd::arithmetic::div_mod::lemma_fundamental_div_mod(first + j, m);
    vstd::arithmetic::div_mod::lemma_add_mod_noop(first + i, 1, m);
    vstd::arithmetic::div_mod::lemma_small_mod(first as nat, m as nat);
    vstd::arithmetic::div_mod::lemma_small_mod(1, m as nat);
}

/// What came of a read of the device.
#[derive(Debug, Clone, Copy, PartialEq, Eq)]
pub enum DevRead {
    /// The read is over.
    Ready(VfsResult<usize>),
    /// There is nothing to read yet: wait, and read again.
    Wait,
}

/// What a file is ready for.
#[derive(Debug, Clone, Copy, PartialEq, Eq, Structural)]
pub struct IoEvents {
    /// A read will not block.
    pub readable: bool,
    /// A write will not block.
    pub writable: bool,
    /// There is an error.
    pub error: bool,
    /// The other side is gone.
    pub hangup: bool,
}

/// The device through which the daemon reads requests and writes replies.
pub struct FuseDev {
    /// The connection.
    pub conn: FuseConnection,
}

/// `buf` with its front overwritten by `data`.
pub open spec fn overwritten(buf: Seq<u8>, data: Seq<u8>) -> Seq<u8> {
    data + buf.skip(data.len() as int)
}

/// Overwriting puts the data at the front, whole and unchanged, and leaves the
/// length and the rest as they were.
pub proof fn law_overwritten(buf: Seq<u8>, data: Seq<u8>, i: int)
    requires
        data.len() <= buf.len(),
    ensures
        overwritten(buf, data).len() == buf.len(),
        overwritten(buf, data).take(data.len() as int) == data,
        0 <= i < data.len() ==> overwritten(buf, data)[i] == data[i],
        data.len() <= i < buf.len() ==> overwritten(buf, data)[i] == buf[i],
{
    assert(overwritten(buf, data).take(data.len() as int) =~= data);
}

/// Copies `data` to `buf`, from `at` on.
pub fn copy_at(buf: &mut [u8], at: usize, data: &[u8])
    requires
        at + data@.len() <= old(buf)@.len(),
    ensures
        final(buf)@ == old(buf)@.take(at as int) + data@ + old(buf)@.skip(at + data@.len()),
        final(buf)@.len() == old(buf)@.len(),
        forall|i: int|
            0 <= i < old(buf)@.len() ==> #[trigger] final(buf)@[i] == (if at <= i < at
                + data@.len() {
                data@[i - at]
            } else {
                old(buf)@[i]
            }),
{
    let ghost start = buf@;
    let len: usize = buf.len();
    let mut i: usize = 0;
    while i < data.len()
        invariant
            i <= data@.len(),
            len == start.len(),
            at + data@.len() <= len,
            buf@ =~= start.take(at as int) + data@.take(i as int) + start.skip(at + i),
        decreases data@.len() - i,
    {
        buf[at + i] = data[i];
        i = i + 1;
    }
    assert(data@.take(i as int) =~= data@);
}

impl FuseDev {
    /// The queues are consistent.
    pub open spec fn wf(&self) -> bool {
        self.conn.wf()
    }

    /// What a read with a buffer of `room` bytes gives.
    pub open spec fn read_result(s: StateView, room: nat) -> DevRead {
        if s.aborted {
            DevRead::Ready(Ok(0))
        } else if s.pending.len() == 0 {
            DevRead::Wait
        } else if room < s.request(s.pending[0]).wire().len() {
            DevRead::Ready(Err(VfsError::InvalidInput))
        } else {
            DevRead::Ready(Ok(s.request(s.pending[0]).wire().len() as usize))
        }
    }

    /// Reads the oldest unread request into `buf`.
    ///
    /// On a connection that has been shut down the read gives zero bytes. If
    /// the buffer is too small for the request, the read fails and the request
    /// is not offered again.
    pub fn read_at(&mut self, buf: &mut [u8], _offset: u64) -> (result: DevRead)
        requires
            old(self).wf(),
        ensures
            final(self).wf(),
            final(self).conn.unique_counter == old(self).conn.unique_counter,
            result == Self::read_result(old(self).conn.state@, old(buf)@.len()),
            ({
                let s = old(self).conn.state@;
                let request = s.request(s.pending[0]);
                if s.aborted || s.pending.len() == 0 {
                    &&& final(self).conn.state@ == s
                    &&& final(buf)@ == old(buf)@
                } else if old(buf)@.len() < request.wire().len() {
                    &&& final(self).conn.state@ == s.dropped()
                    &&& final(buf)@ == old(buf)@
                } else {
                    &&& final(self).conn.state@ == s.delivered()
                    &&& final(buf)@ == overwritten(old(buf)@, request.wire())
                }
            }),
            ({
                let s = old(self).conn.state@;
                let request = s.request(s.pending[0]);
                let need = FUSE_IN_HEADER_SIZE + request.in_data.len();
                if s.aborted {
                    result == DevRead::Ready(Ok(0))
                } else if s.pending.len() == 0 {
                    result == DevRead::Wait
                } else if old(buf)@.len() < need {
                    result == DevRead::Ready(Err(VfsError::InvalidInput))
                } else {
                    &&& result matches DevRead::Ready(Ok(n))
                    &&& n == need
                    &&& final(buf)@.len() == old(buf)@.len()
                    &&& final(buf)@.take(n as int) == request.header.bytes() + request.in_data
                    &&& final(buf)@.skip(n as int) == old(buf)@.skip(n as int)
                }
            }),
    {
        let ghost s = self.conn.state@;
        let ghost start = buf@;
        proof {
            law_daemon_reads_what_was_sent(s.request(s.pending[0]));
        }
        if self.conn.state.aborted {
            return DevRead::Ready(Ok(0));
        }
        if self.conn.state.pending.len() == 0 {
            return DevRead::Wait;
        }
        proof {
            law_dropped_wf(s);
            law_delivered_wf(s);
            assert(s.live(s.pending[0]));
        }
        let ticket: usize = self.conn.state.pending.remove(0);
        assert(self.conn.state.pending@ =~= s.pending.drop_first());
        let unique: u64;
        let total: usize;
        match &self.conn.state.requests[ticket] {
            Some(request) => {
                let header_bytes: Vec<u8> = request.header.to_bytes();
                if buf.len() < FUSE_IN_HEADER_SIZE || buf.len() - FUSE_IN_HEADER_SIZE
                    < request.in_data.len() {
                    assert(self.conn.state@ =~= s.dropped());
                    return DevRead::Ready(Err(VfsError::InvalidInput));
                }
                let ghost before = buf@;
                copy_at(buf, 0, header_bytes.as_slice());
                copy_at(buf, FUSE_IN_HEADER_SIZE, request.in_data.as_slice());
                assert(buf@ =~= overwritten(before, request@.wire()));
                unique = request.header.unique;
                total = FUSE_IN_HEADER_SIZE + request.in_data.len();
                assert(buf@.take(total as int) =~= request@.wire());
                assert(buf@.skip(total as int) =~= start.skip(total as int));
            },
            None => {
                return DevRead::Wait;
            },
        }
        self.conn.state.processing.insert(unique, ticket);
        assert(self.conn.state@ =~= s.delivered());
        DevRead::Ready(Ok(total))
    }

    /// Whether a reader has to wait: there is no request, and the connection
    /// has not been shut down.
    pub fn must_wait(&self) -> (wait: bool)
        ensures
            wait == (Self::read_result(self.conn.state@, 0) == DevRead::Wait),
            wait == (self.conn.state@.pending.len() == 0 && !self.conn.state@.aborted),
    {
        self.conn.state.pending.len() == 0 && !self.conn.state.aborted
    }

    /// What a reader whose wait has ended does: read again, or give up if the
    /// wait was cut short.
    pub fn after_wait(interrupted: bool) -> (next: VfsResult<()>)
        ensures
            next == (if interrupted {
                Err(VfsError::Interrupted)
            } else {
                Ok(())
            }),
    {
        if interrupted {
            Err(VfsError::Interrupted)
        } else {
            Ok(())
        }
    }

    /// Takes the reply in `buf` in.
    pub fn write_at(&mut self, buf: &[u8], _offset: u64) -> (written: VfsResult<usize>)
        requires
            old(self).wf(),
        ensures
            final(self).wf(),
            final(self).conn.unique_counter == old(self).conn.unique_counter,
            if buf@.len() < FUSE_OUT_HEADER_SIZE {
                &&& written == Err::<usize, VfsError>(VfsError::InvalidInput)
                &&& final(self).conn.state@ == old(self).conn.state@
            } else {
                &&& written == Ok::<usize, VfsError>(buf@.len() as usize)
                &&& final(self).conn.state@ == old(self).conn.state@.replied(
                    FuseOutHeader::decode(buf@),
                    buf@.skip(FUSE_OUT_HEADER_SIZE as int),
                )
            },
            written matches Ok(n) ==> n == buf@.len(),
            ({
                let s = old(self).conn.state@;
                let out_header = FuseOutHeader::decode(buf@);
                let ticket = s.processing[out_header.unique];
                buf@.len() >= FUSE_OUT_HEADER_SIZE && s.processing.contains_key(out_header.unique)
                    ==> {
                    &&& final(self).conn.state@.live(ticket)
                    &&& final(self).conn.state@.request(ticket).completed
                    &&& final(self).conn.state@.request(ticket).out_header == Some(out_header)
                    &&& final(self).conn.state@.request(ticket).out_data == buf@.skip(
                        FUSE_OUT_HEADER_SIZE as int,
                    )
                }
            }),
    {
        if buf.len() < FUSE_OUT_HEADER_SIZE {
            return Err(VfsError::InvalidInput);
        }
        let out_header: FuseOutHeader = FuseOutHeader::from_bytes(buf, 0);
        assert(buf@.skip(0) =~= buf@);
        let out_data: Vec<u8> = vstd::slice::slice_to_vec(
            vstd::slice::slice_subrange(buf, FUSE_OUT_HEADER_SIZE, buf.len()),
        );
        assert(out_data@ =~= buf@.skip(FUSE_OUT_HEADER_SIZE as int));
        self.conn.state.reply(out_header, out_data);
        Ok(buf.len())
    }

    /// What the daemon can do with the device without blocking. It can always
    /// write a reply.
    pub fn poll(&self) -> (events: IoEvents)
        ensures
            events.readable == (self.conn.state@.aborted || self.conn.state@.pending.len() > 0),
            events.writable,
            events.error == self.conn.state@.aborted,
            events.hangup == self.conn.state@.aborted,
            events.readable == (Self::read_result(self.conn.state@, 0) != DevRead::Wait),
    {
        let mut events = IoEvents { readable: false, writable: false, error: false, hangup: false };
        if self.conn.state.aborted {
            events.readable = true;
            events.error = true;
            events.hangup = true;
        } else if self.conn.state.pending.len() > 0 {
            events.readable = true;
        }
        events.writable = true;
        events
    }
}

/// What a read of the device gives: nothing on a connection that has been shut
/// down, a wait if there is no request, an error if the header and the arguments
/// of the oldest request do not fit the buffer, and else their length. The
/// buffer then starts with the header, and the arguments follow it.
pub proof fn law_device_read(s: StateView, buf: Seq<u8>)
    requires
        buf.len() <= usize::MAX,
    ensures
        ({
            let room = buf.len();
            let request = s.request(s.pending[0]);
            let need = 40 + request.in_data.len();
            let after = overwritten(buf, request.wire());
            &&& s.aborted ==> FuseDev::read_result(s, room) == DevRead::Ready(Ok(0))
            &&& !s.aborted && s.pending.len() == 0 ==> FuseDev::read_result(s, room)
                == DevRead::Wait
            &&& !s.aborted && s.pending.len() > 0 && room < need ==> FuseDev::read_result(s, room)
                == DevRead::Ready(Err(VfsError::InvalidInput))
            &&& !s.aborted && s.pending.len() > 0 && room >= need ==> {
                &&& FuseDev::read_result(s, room) matches DevRead::Ready(Ok(n))
                &&& n == need
                &&& FuseInHeader::decode(after) == request.header
                &&& after.subrange(40, n as int) == request.in_data
            }
        }),
{
    let request = s.request(s.pending[0]);
    law_daemon_reads_what_was_sent(request);
    crate::abi::law_in_header_round_trip(request.header);
    let rest = request.in_data + buf.skip(request.wire().len() as int);
    let after = overwritten(buf, request.wire());
    assert(after =~= request.header.bytes() + rest);
    if buf.len() >= 40 + request.in_data.len() {
        assert(after.subrange(40, (40 + request.in_data.len()) as int) =~= request.in_data);
    }
}

} // verus!
