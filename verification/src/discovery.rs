//! Discovery coordinator: one bounded broadcast-then-listen cycle.
//!
//! A cycle begins with one broadcast discovery request and then listens
//! until its deadline. Each received datagram that parses as a discovery
//! reply upserts the registry and yields the record for a notification;
//! any other datagram is ignored and listening goes on. A second cycle
//! cannot begin while one is listening. The sockets live outside the
//! crate: the caller sends the request bytes, hands received datagrams
//! in, and reports the timeout that ends the cycle.

use crate::codec::{decode, spec_decode, spec_encode, spec_encoded_len, Message};
use crate::frame::{
    build, frame_target, pack, spec_frame_target, spec_header, spec_pack, spec_strip_header,
    strip_header, BuildOptions, SOURCE_IDENTIFIER,
};
use crate::registry::{spec_upsert, DeviceRecord, NetAddress, Registry};
use vstd::prelude::*;

verus! {

/// How long one discovery cycle listens, in milliseconds.
pub const DISCOVERY_TIMEOUT_MS: u64 = 2000;

/// Why a discovery cycle could not begin.
#[derive(Clone, Copy, Debug, PartialEq, Eq, Structural)]
pub enum DiscoveryError {
    /// A cycle is already listening; it is not queued or retried.
    DiscoveryInProgress,
}

/// Where the coordinator stands.
#[derive(Clone, Copy, Debug, PartialEq, Eq, Structural)]
pub enum DiscoveryPhase {
    /// No cycle in flight.
    Idle,
    /// A cycle is listening for replies until its deadline.
    Listening,
}

/// The discovery coordinator: its phase and, while listening, the time
/// at which the cycle ends.
#[derive(Clone, Copy, Debug, PartialEq, Eq, Structural)]
pub struct Discovery {
    pub phase: DiscoveryPhase,
    pub deadline: u64,
}

/// The options every discovery request is built with: broadcast, the
/// fixed source identifier, a reply asked for.
pub open spec fn spec_discovery_options() -> BuildOptions {
    BuildOptions { target: None, source: SOURCE_IDENTIFIER, response_required: true, sequence: 0 }
}

/// The bytes of the one broadcast frame a cycle sends.
pub open spec fn spec_discovery_request() -> Seq<u8> {
    spec_pack(
        spec_header(spec_discovery_options(), spec_encoded_len(Message::GetService)),
        spec_encode(Message::GetService),
    )
}

/// What a received datagram discovers: the device record it names, when
/// its frame parses and its payload decodes to a discovery reply, and
/// nothing otherwise. The record pairs the identity the frame names with
/// the address the datagram came from.
pub open spec fn spec_discovered(b: Seq<u8>, source: NetAddress, now: u64) -> Option<
    DeviceRecord,
> {
    match spec_frame_target(b) {
        Err(_) => None,
        Ok(target) => match spec_strip_header(b) {
            Err(_) => None,
            Ok(body) => match spec_decode(body) {
                Ok(Message::StateService { .. }) => Some(
                    DeviceRecord { identity: target, address: source, last_seen: now },
                ),
                _ => None,
            },
        },
    }
}

/// Milliseconds left until a deadline; zero once it has passed.
pub open spec fn spec_remaining(deadline: u64, now: u64) -> u64 {
    if now < deadline {
        (deadline - now) as u64
    } else {
        0
    }
}

/// The registry a whole listening cycle leaves, folding the received
/// datagrams in arrival order.
pub open spec fn spec_cycle(
    reg: Seq<DeviceRecord>,
    datagrams: Seq<(Seq<u8>, NetAddress, u64)>,
) -> Seq<DeviceRecord>
    decreases datagrams.len(),
{
    if datagrams.len() == 0 {
        reg
    } else {
        let d = datagrams.first();
        let next = match spec_discovered(d.0, d.1, d.2) {
            Some(rec) => spec_upsert(reg, rec),
            None => reg,
        };
        spec_cycle(next, datagrams.drop_first())
    }
}

impl Discovery {
    /// A coordinator with no cycle in flight.
    pub fn new() -> (r: Discovery)
        ensures
            r.phase is Idle,
    {
        Discovery { phase: DiscoveryPhase::Idle, deadline: 0 }
    }

    /// Begins a cycle: hands back the broadcast request to send and
    /// starts listening until `now` plus the timeout. While a cycle is
    /// listening, fails with `DiscoveryInProgress` and changes nothing.
    pub fn begin(&mut self, now: u64) -> (r: Result<Vec<u8>, DiscoveryError>)
        requires
            now <= u64::MAX - DISCOVERY_TIMEOUT_MS,
        ensures
            old(self).phase is Listening ==> r == Err::<Vec<u8>, DiscoveryError>(
                DiscoveryError::DiscoveryInProgress,
            ) && *final(self) == *old(self),
            old(self).phase is Idle ==> {
                &&& r is Ok
                &&& (r matches Ok(bytes) ==> bytes@ == spec_discovery_request())
                &&& final(self).phase is Listening
                &&& final(self).deadline == now + DISCOVERY_TIMEOUT_MS
            },
    {
        match self.phase {
            DiscoveryPhase::Listening => Err(DiscoveryError::DiscoveryInProgress),
            DiscoveryPhase::Idle => {
                let options = BuildOptions {
                    target: None,
                    source: SOURCE_IDENTIFIER,
                    response_required: true,
                    sequence: 0,
                };
                let frame = build(&options, &Message::GetService).unwrap();
                self.phase = DiscoveryPhase::Listening;
                self.deadline = now + DISCOVERY_TIMEOUT_MS;
                Ok(pack(&frame))
            },
        }
    }

    /// Milliseconds of the cycle's budget left at `now`; the bounded
    /// receive never waits longer than this.
    pub fn remaining_ms(&self, now: u64) -> (r: u64)
        ensures
            r == spec_remaining(self.deadline, now),
    {
        if now < self.deadline {
            self.deadline - now
        } else {
            0
        }
    }

    /// Ends the cycle, on timeout expiry or on a transport error; zero
    /// replies is not an error.
    pub fn finish(&mut self)
        ensures
            final(self).phase is Idle,
            final(self).deadline == old(self).deadline,
    {
        self.phase = DiscoveryPhase::Idle;
    }
}

/// Handles one received datagram: a frame whose payload decodes to a
/// discovery reply upserts the registry and is returned for a
/// notification; a truncated frame, an unknown or malformed payload, or
/// any other message leaves the registry as it was and is ignored.
pub fn handle_datagram(registry: &mut Registry, b: &[u8], source: NetAddress, now: u64) -> (r:
    Option<DeviceRecord>)
    requires
        old(registry).wf(),
    ensures
        final(registry).wf(),
        r == spec_discovered(b@, source, now),
        match spec_discovered(b@, source, now) {
            Some(rec) => final(registry)@ == spec_upsert(old(registry)@, rec),
            None => final(registry)@ == old(registry)@,
        },
{
    let target = match frame_target(b) {
        Ok(target) => target,
        Err(_) => {
            return None;
        },
    };
    let body = match strip_header(b) {
        Ok(body) => body,
        Err(_) => {
            return None;
        },
    };
    match decode(body.as_slice()) {
        Ok(Message::StateService { .. }) => {
            let rec = DeviceRecord { identity: target, address: source, last_seen: now };
            registry.upsert(target, source, now);
            Some(rec)
        },
        _ => None,
    }
}

/// The timeout bounds the wait: at any instant at or after the cycle
/// began, the remaining budget is at most the timeout, so the bounded
/// receive never outlives the deadline by more than one wait.
pub proof fn lemma_budget_bounded(start: u64, now: u64)
    requires
        start <= u64::MAX - DISCOVERY_TIMEOUT_MS,
        start <= now,
    ensures
        spec_remaining((start + DISCOVERY_TIMEOUT_MS) as u64, now) <= DISCOVERY_TIMEOUT_MS,
{
}

/// A cycle in which no datagram parses as a discovery reply — in
/// particular one against a socket with no responder — yields zero
/// registry updates.
pub proof fn lemma_cycle_without_replies(
    reg: Seq<DeviceRecord>,
    datagrams: Seq<(Seq<u8>, NetAddress, u64)>,
)
    requires
        forall|i: int|
            0 <= i < datagrams.len() ==> spec_discovered(
                datagrams[i].0,
                datagrams[i].1,
                datagrams[i].2,
            ) is None,
    ensures
        spec_cycle(reg, datagrams) == reg,
    decreases datagrams.len(),
{
    if datagrams.len() > 0 {
        assert(forall|i: int|
            0 <= i < datagrams.drop_first().len() ==> datagrams.drop_first()[i] == datagrams[i
                + 1]);
        lemma_cycle_without_replies(reg, datagrams.drop_first());
    }
}

} // verus!
