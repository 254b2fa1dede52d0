//! Command dispatcher: one logical command to every registered device.
//!
//! Dispatch plans one targeted frame per device of a registry snapshot,
//! each asking for an acknowledgment. The caller sends each planned
//! frame and reports the outcomes; the report pairs every device with
//! its own outcome, so one unreachable device never hides the others.

use crate::codec::{spec_encode, spec_encoded_len, Message};
use crate::frame::{
    build, pack, spec_header, spec_pack, BuildOptions, SOURCE_IDENTIFIER,
};
use crate::registry::{DeviceRecord, NetAddress};
use vstd::prelude::*;

verus! {

/// A logical command to every known device.
#[derive(Clone, Copy, Debug, PartialEq, Eq, Structural)]
pub enum Command {
    /// Power on: the protocol's full-brightness sentinel level,
    /// immediate.
    PowerOn,
    /// Power off: level zero, over one millisecond.
    PowerOff,
    /// Set the color; kelvin zero, immediate.
    SetColor { hue: u16, saturation: u16, brightness: u16 },
}

/// Why a dispatch could not start.
#[derive(Clone, Copy, Debug, PartialEq, Eq, Structural)]
pub enum DispatchError {
    /// The snapshot named no device to send to.
    NoDevices,
}

/// How one device's send went. Per-device failures are isolated: they
/// are recorded here and never abort the rest of a dispatch.
#[derive(Clone, Debug)]
pub enum SendOutcome {
    /// The frame left for the device's address.
    Sent,
    /// The send to this one device failed; the reason names the cause.
    Failed { reason: String },
}

/// One planned unicast: which device, where, and the exact frame bytes.
#[derive(Debug)]
pub struct PlannedSend {
    pub identity: u64,
    pub address: NetAddress,
    pub bytes: Vec<u8>,
}

/// Per-device outcomes of one dispatch, in snapshot order.
#[derive(Debug)]
pub struct DispatchReport {
    pub outcomes: Vec<(u64, SendOutcome)>,
}

/// The message a command stands for.
pub open spec fn spec_message_for(c: Command) -> Message {
    match c {
        Command::PowerOn => Message::SetPower { level: 65535, duration: 0 },
        Command::PowerOff => Message::SetPower { level: 0, duration: 1 },
        Command::SetColor { hue, saturation, brightness } => Message::SetColor {
            hue,
            saturation,
            brightness,
            kelvin: 0,
            duration: 0,
        },
    }
}

/// The options a command frame is built with: targeted at the one
/// device, the fixed source identifier, an acknowledgment asked for.
pub open spec fn spec_command_options(identity: u64) -> BuildOptions {
    BuildOptions {
        target: Some(identity),
        source: SOURCE_IDENTIFIER,
        response_required: true,
        sequence: 0,
    }
}

/// The exact bytes of the frame a command sends to one device.
pub open spec fn spec_planned_bytes(c: Command, identity: u64) -> Seq<u8> {
    spec_pack(
        spec_header(spec_command_options(identity), spec_encoded_len(spec_message_for(c))),
        spec_encode(spec_message_for(c)),
    )
}

/// The message a command stands for.
pub fn message_for(c: &Command) -> (m: Message)
    ensures
        m == spec_message_for(*c),
{
    match c {
        Command::PowerOn => Message::SetPower { level: 65535, duration: 0 },
        Command::PowerOff => Message::SetPower { level: 0, duration: 1 },
        Command::SetColor { hue, saturation, brightness } => Message::SetColor {
            hue: *hue,
            saturation: *saturation,
            brightness: *brightness,
            kelvin: 0,
            duration: 0,
        },
    }
}

/// Plans a dispatch: one targeted frame per device of the snapshot, in
/// snapshot order. Fails only when the snapshot is empty; nothing about
/// any single device can fail a plan.
#[verifier::loop_isolation(false)]
pub fn plan_dispatch(command: &Command, snapshot: &Vec<DeviceRecord>) -> (r: Result<
    Vec<PlannedSend>,
    DispatchError,
>)
    ensures
        r is Ok <==> snapshot@.len() > 0,
        r matches Err(e) ==> e == DispatchError::NoDevices,
        r matches Ok(plan) ==> {
            &&& plan@.len() == snapshot@.len()
            &&& forall|i: int|
                0 <= i < plan@.len() ==> {
                    &&& (#[trigger] plan@[i]).identity == snapshot@[i].identity
                    &&& plan@[i].address == snapshot@[i].address
                    &&& plan@[i].bytes@ == spec_planned_bytes(*command, snapshot@[i].identity)
                }
        },
{
    if snapshot.len() == 0 {
        return Err(DispatchError::NoDevices);
    }
    let m = message_for(command);
    let mut plan: Vec<PlannedSend> = Vec::new();
    let mut i: usize = 0;
    while i < snapshot.len()
        invariant
            i <= snapshot@.len(),
            plan@.len() == i,
            forall|j: int|
                0 <= j < i ==> {
                    &&& (#[trigger] plan@[j]).identity == snapshot@[j].identity
                    &&& plan@[j].address == snapshot@[j].address
                    &&& plan@[j].bytes@ == spec_planned_bytes(*command, snapshot@[j].identity)
                },
        decreases snapshot@.len() - i,
    {
        let device = snapshot[i];
        let options = BuildOptions {
            target: Some(device.identity),
            source: SOURCE_IDENTIFIER,
            response_required: true,
            sequence: 0,
        };
        let frame = build(&options, &m).unwrap();
        let bytes = pack(&frame);
        plan.push(PlannedSend { identity: device.identity, address: device.address, bytes });
        i = i + 1;
    }
    Ok(plan)
}

/// How many outcomes say the frame left.
pub open spec fn count_sent(s: Seq<(u64, SendOutcome)>) -> nat
    decreases s.len(),
{
    if s.len() == 0 {
        0
    } else {
        count_sent(s.drop_last()) + if s.last().1 is Sent {
            1nat
        } else {
            0nat
        }
    }
}

/// How many outcomes say the send failed.
pub open spec fn count_failed(s: Seq<(u64, SendOutcome)>) -> nat
    decreases s.len(),
{
    if s.len() == 0 {
        0
    } else {
        count_failed(s.drop_last()) + if s.last().1 is Failed {
            1nat
        } else {
            0nat
        }
    }
}

/// Every outcome is a success or an isolated failure: the two counts
/// partition the report.
pub proof fn lemma_outcome_partition(s: Seq<(u64, SendOutcome)>)
    ensures
        count_sent(s) + count_failed(s) == s.len(),
    decreases s.len(),
{
    if s.len() > 0 {
        lemma_outcome_partition(s.drop_last());
    }
}

/// Pairs each planned device with the outcome of its own send, in plan
/// order. Assembling a report cannot fail, whatever the outcomes were.
#[verifier::loop_isolation(false)]
pub fn assemble_report(plan: &Vec<PlannedSend>, outcomes: Vec<SendOutcome>) -> (r: DispatchReport)
    requires
        outcomes@.len() == plan@.len(),
    ensures
        r.outcomes@.len() == plan@.len(),
        forall|i: int|
            0 <= i < plan@.len() ==> (#[trigger] r.outcomes@[i]).0 == plan@[i].identity
                && r.outcomes@[i].1 == outcomes@[i],
{
    let ghost all = outcomes@;
    let mut rest = outcomes;
    let mut paired: Vec<(u64, SendOutcome)> = Vec::new();
    let mut i: usize = 0;
    while i < plan.len()
        invariant
            i <= plan@.len(),
            rest@ == all.subrange(i as int, all.len() as int),
            paired@.len() == i,
            forall|j: int|
                0 <= j < i ==> (#[trigger] paired@[j]).0 == plan@[j].identity && paired@[j].1
                    == all[j],
        decreases plan@.len() - i,
    {
        let o = rest.remove(0);
        proof {
            assert(all.subrange(i as int, all.len() as int).remove(0) =~= all.subrange(
                i + 1,
                all.len() as int,
            ));
            assert(o == all[i as int]);
        }
        paired.push((plan[i].identity, o));
        i = i + 1;
    }
    DispatchReport { outcomes: paired }
}

impl DispatchReport {
    /// How many devices the command reached.
    #[verifier::loop_isolation(false)]
    pub fn successes(&self) -> (r: usize)
        ensures
            r == count_sent(self.outcomes@),
    {
        let mut r: usize = 0;
        let mut i: usize = 0;
        while i < self.outcomes.len()
            invariant
                i <= self.outcomes@.len(),
                r <= i,
                r == count_sent(self.outcomes@.subrange(0, i as int)),
            decreases self.outcomes@.len() - i,
        {
            match &self.outcomes[i].1 {
                SendOutcome::Sent => {
                    r = r + 1;
                },
                SendOutcome::Failed { .. } => {},
            }
            proof {
                let pre = self.outcomes@.subrange(0, i as int);
                let post = self.outcomes@.subrange(0, i + 1);
                assert(post.drop_last() =~= pre);
                assert(post.last() == self.outcomes@[i as int]);
            }
            i = i + 1;
        }
        proof {
            assert(self.outcomes@.subrange(0, self.outcomes@.len() as int) =~= self.outcomes@);
        }
        r
    }

    /// How many sends failed, each isolated to its own device.
    #[verifier::loop_isolation(false)]
    pub fn failures(&self) -> (r: usize)
        ensures
            r == count_failed(self.outcomes@),
    {
        let mut r: usize = 0;
        let mut i: usize = 0;
        while i < self.outcomes.len()
            invariant
                i <= self.outcomes@.len(),
                r <= i,
                r == count_failed(self.outcomes@.subrange(0, i as int)),
            decreases self.outcomes@.len() - i,
        {
            match &self.outcomes[i].1 {
                SendOutcome::Failed { .. } => {
                    r = r + 1;
                },
                SendOutcome::Sent => {},
            }
            proof {
                let pre = self.outcomes@.subrange(0, i as int);
                let post = self.outcomes@.subrange(0, i + 1);
                assert(post.drop_last() =~= pre);
                assert(post.last() == self.outcomes@[i as int]);
            }
            i = i + 1;
        }
        proof {
            assert(self.outcomes@.subrange(0, self.outcomes@.len() as int) =~= self.outcomes@);
        }
        r
    }
}

} // verus!
