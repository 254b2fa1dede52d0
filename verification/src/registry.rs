//! Device registry: the discovered devices, keyed by identity.
//!
//! A record holds a device's immutable 64-bit identity, the network
//! address it last answered from, and when it was last seen. The
//! registry never holds two records with one identity: an upsert with a
//! known identity replaces that record whole, one with a new identity
//! appends. Records are never removed; staleness is the caller's policy.

use vstd::pervasive::VecAdditionalExecFns;
use vstd::prelude::*;

verus! {

/// An IPv4 network address as plain values: the address as one 32-bit
/// number, most significant octet first, and the UDP port.
#[derive(Clone, Copy, Debug, PartialEq, Eq, Structural)]
pub struct NetAddress {
    pub ip: u32,
    pub port: u16,
}

/// The address a dotted quad writes.
pub open spec fn spec_ip_of_octets(a: u8, b: u8, c: u8, d: u8) -> u32 {
    (a * 0x1000000 + b * 0x10000 + c * 0x100 + d) as u32
}

impl NetAddress {
    /// The address a dotted quad and a port write.
    pub fn from_octets(a: u8, b: u8, c: u8, d: u8, port: u16) -> (r: NetAddress)
        ensures
            r.ip == spec_ip_of_octets(a, b, c, d),
            r.port == port,
    {
        let ip: u32 = (a as u32) * 0x1000000 + (b as u32) * 0x10000 + (c as u32) * 0x100 + (
        d as u32);
        NetAddress { ip, port }
    }

    /// The four octets of the address, most significant first.
    pub fn octets(&self) -> (r: (u8, u8, u8, u8))
        ensures
            self.ip == spec_ip_of_octets(r.0, r.1, r.2, r.3),
    {
        let a = (self.ip / 0x1000000) as u8;
        let b = ((self.ip / 0x10000) % 0x100) as u8;
        let c = ((self.ip / 0x100) % 0x100) as u8;
        let d = (self.ip % 0x100) as u8;
        (a, b, c, d)
    }
}

/// One discovered device: identity, where it answered from, and when.
#[derive(Clone, Copy, Debug, PartialEq, Eq, Structural)]
pub struct DeviceRecord {
    pub identity: u64,
    pub address: NetAddress,
    pub last_seen: u64,
}

/// Whether some record in the sequence carries the identity.
pub open spec fn contains_identity(s: Seq<DeviceRecord>, identity: u64) -> bool {
    exists|i: int| 0 <= i < s.len() && s[i].identity == identity
}

/// How many records in the sequence carry the identity.
pub open spec fn count_identity(s: Seq<DeviceRecord>, identity: u64) -> nat
    decreases s.len(),
{
    if s.len() == 0 {
        0
    } else {
        (if s.first().identity == identity {
            1nat
        } else {
            0nat
        }) + count_identity(s.drop_first(), identity)
    }
}

/// No two records carry one identity.
pub open spec fn identities_unique(s: Seq<DeviceRecord>) -> bool {
    forall|i: int, j: int|
        0 <= i < s.len() && 0 <= j < s.len() && i != j ==> s[i].identity != s[j].identity
}

/// What an upsert leaves: the record replaces the first one with its
/// identity, or is appended when none carries it.
pub open spec fn spec_upsert(s: Seq<DeviceRecord>, r: DeviceRecord) -> Seq<DeviceRecord>
    decreases s.len(),
{
    if s.len() == 0 {
        seq![r]
    } else if s.first().identity == r.identity {
        seq![r] + s.drop_first()
    } else {
        seq![s.first()] + spec_upsert(s.drop_first(), r)
    }
}

/// The first record carrying the identity, if any.
pub open spec fn spec_lookup(s: Seq<DeviceRecord>, identity: u64) -> Option<DeviceRecord>
    decreases s.len(),
{
    if s.len() == 0 {
        None
    } else if s.first().identity == identity {
        Some(s.first())
    } else {
        spec_lookup(s.drop_first(), identity)
    }
}

/// The discovered devices, in discovery order, identities unique.
#[derive(Debug)]
pub struct Registry {
    records: Vec<DeviceRecord>,
}

impl View for Registry {
    type V = Seq<DeviceRecord>;

    closed spec fn view(&self) -> Seq<DeviceRecord> {
        self.records@
    }
}

impl Registry {
    /// The registry's invariant: no identity twice.
    pub open spec fn wf(&self) -> bool {
        identities_unique(self@)
    }

    /// An empty registry.
    pub fn new() -> (r: Registry)
        ensures
            r@ == Seq::<DeviceRecord>::empty(),
            r.wf(),
    {
        Registry { records: Vec::new() }
    }

    /// How many devices are known.
    pub fn len(&self) -> (r: usize)
        ensures
            r == self@.len(),
    {
        self.records.len()
    }

    /// Inserts the record, or replaces the record of its identity whole.
    /// Returns whether the identity was new.
    #[verifier::loop_isolation(false)]
    pub fn upsert(&mut self, identity: u64, address: NetAddress, last_seen: u64) -> (is_new: bool)
        requires
            old(self).wf(),
        ensures
            final(self).wf(),
            is_new == !contains_identity(old(self)@, identity),
            final(self)@ == spec_upsert(
                old(self)@,
                DeviceRecord { identity, address, last_seen },
            ),
            spec_lookup(final(self)@, identity) == Some(
                DeviceRecord { identity, address, last_seen },
            ),
    {
        let r = DeviceRecord { identity, address, last_seen };
        let n = self.records.len();
        let mut i: usize = 0;
        while i < n
            invariant
                n == self.records@.len(),
                i <= n,
                self.records@ == old(self).records@,
                forall|j: int| 0 <= j < i ==> self.records@[j].identity != identity,
            decreases n - i,
        {
            if self.records[i].identity == identity {
                self.records.set(i, r);
                proof {
                    lemma_upsert_found(old(self)@, r, i as int);
                    lemma_unique_update(old(self)@, r, i as int);
                    lemma_lookup_at(self@, r, i as int);
                }
                return false;
            }
            i = i + 1;
        }
        self.records.push(r);
        proof {
            lemma_upsert_fresh(old(self)@, r);
            assert(identities_unique(self@));
            lemma_lookup_at(self@, r, old(self)@.len() as int);
        }
        true
    }

    /// The record of an identity, if the device is known.
    #[verifier::loop_isolation(false)]
    pub fn get(&self, identity: u64) -> (r: Option<DeviceRecord>)
        requires
            self.wf(),
        ensures
            r == spec_lookup(self@, identity),
            r is Some <==> contains_identity(self@, identity),
    {
        let n = self.records.len();
        let mut i: usize = 0;
        while i < n
            invariant
                n == self.records@.len(),
                i <= n,
                forall|j: int| 0 <= j < i ==> self.records@[j].identity != identity,
            decreases n - i,
        {
            if self.records[i].identity == identity {
                proof {
                    lemma_lookup_at(self@, self@[i as int], i as int);
                }
                return Some(self.records[i]);
            }
            i = i + 1;
        }
        proof {
            lemma_lookup_absent(self@, identity);
        }
        None
    }

    /// A point-in-time copy of the records, in discovery order.
    pub fn snapshot(&self) -> (r: Vec<DeviceRecord>)
        ensures
            r@ == self@,
    {
        self.records.clone()
    }
}

/// An upsert whose identity sits first at index `i` updates that index.
proof fn lemma_upsert_found(s: Seq<DeviceRecord>, r: DeviceRecord, i: int)
    requires
        0 <= i < s.len(),
        s[i].identity == r.identity,
        forall|j: int| 0 <= j < i ==> s[j].identity != r.identity,
    ensures
        spec_upsert(s, r) == s.update(i, r),
        contains_identity(s, r.identity),
    decreases s.len(),
{
    if i == 0 {
        assert(spec_upsert(s, r) == seq![r] + s.drop_first());
        assert(seq![r] + s.drop_first() =~= s.update(0, r));
    } else {
        assert(forall|j: int|
            0 <= j < i - 1 ==> s.drop_first()[j].identity != r.identity && s.drop_first()[j]
                == s[j + 1]);
        lemma_upsert_found(s.drop_first(), r, i - 1);
        assert(seq![s.first()] + s.drop_first().update(i - 1, r) =~= s.update(i, r));
    }
}

/// An upsert whose identity is absent appends.
proof fn lemma_upsert_fresh(s: Seq<DeviceRecord>, r: DeviceRecord)
    requires
        forall|j: int| 0 <= j < s.len() ==> s[j].identity != r.identity,
    ensures
        spec_upsert(s, r) == s.push(r),
        !contains_identity(s, r.identity),
    decreases s.len(),
{
    if s.len() == 0 {
        assert(spec_upsert(s, r) =~= s.push(r));
    } else {
        lemma_upsert_fresh(s.drop_first(), r);
        assert(seq![s.first()] + s.drop_first().push(r) =~= s.push(r));
    }
}

/// Replacing a record by one of the same identity keeps identities
/// unique.
proof fn lemma_unique_update(s: Seq<DeviceRecord>, r: DeviceRecord, i: int)
    requires
        identities_unique(s),
        0 <= i < s.len(),
        s[i].identity == r.identity,
    ensures
        identities_unique(s.update(i, r)),
{
}

/// Lookup finds the record at the first index carrying its identity.
proof fn lemma_lookup_at(s: Seq<DeviceRecord>, r: DeviceRecord, i: int)
    requires
        0 <= i < s.len(),
        s[i] == r,
        forall|j: int| 0 <= j < i ==> s[j].identity != r.identity,
    ensures
        spec_lookup(s, r.identity) == Some(r),
    decreases s.len(),
{
    if i > 0 {
        assert(forall|j: int|
            0 <= j < i - 1 ==> s.drop_first()[j].identity != r.identity && s.drop_first()[j]
                == s[j + 1]);
        lemma_lookup_at(s.drop_first(), r, i - 1);
    }
}

/// No record carrying an identity means a count of zero.
proof fn lemma_count_absent(s: Seq<DeviceRecord>, identity: u64)
    requires
        forall|j: int| 0 <= j < s.len() ==> s[j].identity != identity,
    ensures
        count_identity(s, identity) == 0,
    decreases s.len(),
{
    if s.len() > 0 {
        assert(forall|j: int|
            0 <= j < s.drop_first().len() ==> s.drop_first()[j] == s[j + 1]);
        lemma_count_absent(s.drop_first(), identity);
    }
}

/// Unique identities survive dropping the first record.
proof fn lemma_unique_drop_first(s: Seq<DeviceRecord>)
    requires
        identities_unique(s),
        s.len() > 0,
    ensures
        identities_unique(s.drop_first()),
{
    assert(forall|j: int| 0 <= j < s.drop_first().len() ==> s.drop_first()[j] == s[j + 1]);
}

/// An upsert leaves exactly one record of its identity, when identities
/// were unique before.
pub proof fn lemma_upsert_count(s: Seq<DeviceRecord>, r: DeviceRecord)
    requires
        identities_unique(s),
    ensures
        count_identity(spec_upsert(s, r), r.identity) == 1,
    decreases s.len(),
{
    let u = spec_upsert(s, r);
    if s.len() == 0 {
        assert(u =~= seq![r]);
        assert(u.first() == r);
        assert(u.drop_first() =~= Seq::<DeviceRecord>::empty());
        assert(count_identity(u.drop_first(), r.identity) == 0);
    } else if s.first().identity == r.identity {
        assert(u =~= seq![r] + s.drop_first());
        assert(u.first() == r);
        assert(u.drop_first() =~= s.drop_first());
        assert(forall|j: int|
            0 <= j < s.drop_first().len() ==> s.drop_first()[j] == s[j + 1]);
        lemma_count_absent(s.drop_first(), r.identity);
    } else {
        assert(u =~= seq![s.first()] + spec_upsert(s.drop_first(), r));
        assert(u.first() == s.first());
        assert(u.first().identity != r.identity);
        assert(u.drop_first() =~= spec_upsert(s.drop_first(), r));
        lemma_unique_drop_first(s);
        lemma_upsert_count(s.drop_first(), r);
    }
    assert(count_identity(u, r.identity) == (if u.first().identity == r.identity {
        1nat
    } else {
        0nat
    }) + count_identity(u.drop_first(), r.identity));
}

/// An upsert makes its identity present, and lookup then yields the
/// record whole.
pub proof fn lemma_upsert_contains(s: Seq<DeviceRecord>, r: DeviceRecord)
    ensures
        contains_identity(spec_upsert(s, r), r.identity),
        spec_lookup(spec_upsert(s, r), r.identity) == Some(r),
    decreases s.len(),
{
    let u = spec_upsert(s, r);
    if s.len() == 0 {
        assert(u[0] == r);
    } else if s.first().identity == r.identity {
        assert(u[0] == r);
    } else {
        lemma_upsert_contains(s.drop_first(), r);
        assert(u.drop_first() =~= spec_upsert(s.drop_first(), r));
        let i = choose|i: int|
            0 <= i < u.drop_first().len() && u.drop_first()[i].identity == r.identity;
        assert(u[i + 1].identity == r.identity);
    }
}

/// Registry idempotence: a second upsert of the same record changes
/// nothing, the registry keeps exactly one record of the identity, and
/// only the first upsert can have reported a new entry.
pub proof fn lemma_upsert_idempotent(s: Seq<DeviceRecord>, r: DeviceRecord)
    requires
        identities_unique(s),
    ensures
        spec_upsert(spec_upsert(s, r), r) == spec_upsert(s, r),
        count_identity(spec_upsert(s, r), r.identity) == 1,
        contains_identity(spec_upsert(s, r), r.identity),
    decreases s.len(),
{
    let u = spec_upsert(s, r);
    lemma_upsert_count(s, r);
    lemma_upsert_contains(s, r);
    if s.len() == 0 {
        assert(u =~= seq![r]);
        assert(spec_upsert(u, r) =~= u);
    } else if s.first().identity == r.identity {
        assert(u =~= seq![r] + s.drop_first());
        assert(u.first() == r);
        assert(spec_upsert(u, r) =~= seq![r] + u.drop_first());
        assert(spec_upsert(u, r) =~= u);
    } else {
        assert(u =~= seq![s.first()] + spec_upsert(s.drop_first(), r));
        assert(u.first() == s.first());
        assert(u.drop_first() =~= spec_upsert(s.drop_first(), r));
        lemma_unique_drop_first(s);
        lemma_upsert_idempotent(s.drop_first(), r);
        assert(spec_upsert(u, r) =~= seq![u.first()] + spec_upsert(u.drop_first(), r));
        assert(spec_upsert(u, r) =~= u);
    }
}

/// Lookup of an absent identity finds nothing.
proof fn lemma_lookup_absent(s: Seq<DeviceRecord>, identity: u64)
    requires
        forall|j: int| 0 <= j < s.len() ==> s[j].identity != identity,
    ensures
        spec_lookup(s, identity) is None,
        !contains_identity(s, identity),
    decreases s.len(),
{
    if s.len() > 0 {
        lemma_lookup_absent(s.drop_first(), identity);
    }
}

} // verus!
