//! Snowflake-style 64-bit identifiers: a millisecond timestamp, a
//! generator instance tag and a per-instance sequence number, packed so
//! that numeric order follows creation order.

use vstd::prelude::*;

verus! {

/// Number of bits holding the sequence component.
pub const SEQUENCE_BITS: u64 = 12;

/// Number of bits holding the instance component.
pub const INSTANCE_BITS: u64 = 10;

/// First value too large for the sequence component.
pub const SEQUENCE_LIMIT: u64 = 0x1000;

/// First value too large for the instance component.
pub const INSTANCE_LIMIT: u64 = 0x400;

/// First value too large for the timestamp component (42 bits).
pub const TIMESTAMP_LIMIT: u64 = 0x400_0000_0000;

/// Weight of the instance component inside a packed identifier.
pub const INSTANCE_UNIT: u64 = 0x1000;

/// Weight of the timestamp component inside a packed identifier.
pub const TIMESTAMP_UNIT: u64 = 0x40_0000;

/// The packed identifier value for the given components.
pub open spec fn spec_pack(timestamp: u64, instance: u64, sequence: u64) -> int {
    timestamp * TIMESTAMP_UNIT + instance * INSTANCE_UNIT + sequence
}

/// True when each component is small enough for its bit field.
pub open spec fn parts_in_range(timestamp: u64, instance: u64, sequence: u64) -> bool {
    timestamp < TIMESTAMP_LIMIT && instance < INSTANCE_LIMIT && sequence < SEQUENCE_LIMIT
}

/// Packs a timestamp, instance and sequence into one 64-bit identifier.
pub fn from_parts(timestamp: u64, instance: u64, sequence: u64) -> (id: u64)
    requires
        parts_in_range(timestamp, instance, sequence),
    ensures
        id == spec_pack(timestamp, instance, sequence),
{
    timestamp * TIMESTAMP_UNIT + instance * INSTANCE_UNIT + sequence
}

/// The timestamp component of a packed identifier.
pub fn timestamp_of(id: u64) -> (t: u64)
    ensures
        t == id / TIMESTAMP_UNIT,
{
    id / TIMESTAMP_UNIT
}

/// The instance component of a packed identifier.
pub fn instance_of(id: u64) -> (i: u64)
    ensures
        i == (id / INSTANCE_UNIT) % INSTANCE_LIMIT,
{
    (id / INSTANCE_UNIT) % INSTANCE_LIMIT
}

/// The sequence component of a packed identifier.
pub fn sequence_of(id: u64) -> (s: u64)
    ensures
        s == id % SEQUENCE_LIMIT,
{
    id % SEQUENCE_LIMIT
}

/// Packing components in range and unpacking them again is the identity.
pub proof fn lemma_pack_unpack(timestamp: u64, instance: u64, sequence: u64)
    requires
        parts_in_range(timestamp, instance, sequence),
    ensures
        spec_pack(timestamp, instance, sequence) / TIMESTAMP_UNIT as int == timestamp,
        (spec_pack(timestamp, instance, sequence) / INSTANCE_UNIT as int) % INSTANCE_LIMIT as int
            == instance,
        spec_pack(timestamp, instance, sequence) % SEQUENCE_LIMIT as int == sequence,
{
    let p = spec_pack(timestamp, instance, sequence);
    assert(p / TIMESTAMP_UNIT as int == timestamp) by (nonlinear_arith)
        requires
            p == timestamp * TIMESTAMP_UNIT + instance * INSTANCE_UNIT + sequence,
            parts_in_range(timestamp, instance, sequence),
    ;
    assert((p / INSTANCE_UNIT as int) % INSTANCE_LIMIT as int == instance) by (nonlinear_arith)
        requires
            p == timestamp * TIMESTAMP_UNIT + instance * INSTANCE_UNIT + sequence,
            parts_in_range(timestamp, instance, sequence),
    ;
    assert(p % SEQUENCE_LIMIT as int == sequence) by (nonlinear_arith)
        requires
            p == timestamp * TIMESTAMP_UNIT + instance * INSTANCE_UNIT + sequence,
            parts_in_range(timestamp, instance, sequence),
    ;
}

/// Generator of unique, time-ordered snowflake identifiers.
///
/// One instance is owned by each long-lived subsystem (channels,
/// sessions); distinct instance tags keep the subsystems' identifier
/// spaces disjoint even for equal timestamps and sequence numbers.
pub struct IdGenerator {
    /// Instance tag packed into every identifier.
    instance: u64,
    /// Timestamp component of the most recently issued identifier.
    last_timestamp: u64,
    /// Sequence component of the most recently issued identifier.
    sequence: u64,
    /// Every identifier issued so far, in generation order.
    issued: Ghost<Seq<u64>>,
}

impl IdGenerator {
    /// The packed value of the most recently issued identifier; every
    /// identifier issued so far is at most this, and the next one is
    /// strictly greater.
    pub closed spec fn mark(self) -> int {
        spec_pack(self.last_timestamp, self.instance, self.sequence)
    }

    /// Identifiers issued so far, in generation order.
    pub closed spec fn issued_ids(self) -> Seq<u64> {
        self.issued@
    }

    /// The instance tag this generator packs into every identifier.
    pub closed spec fn instance_tag(self) -> u64 {
        self.instance
    }

    /// Internal invariant: components in range, and the issue history
    /// strictly increasing and bounded by the current mark.
    pub closed spec fn wf(self) -> bool {
        &&& parts_in_range(self.last_timestamp, self.instance, self.sequence)
        &&& forall|k: int| 0 <= k < self.issued@.len() ==> #[trigger] self.issued@[k] <= self.mark()
        &&& forall|k: int, l: int|
            0 <= k < l < self.issued@.len() ==> #[trigger] self.issued@[k] < #[trigger] self.issued@[l]
    }

    /// True when the identifier space of this generator is used up: the
    /// timestamp field is at its maximum and the sequence field is full.
    /// Unreachable for realistic clock values.
    pub closed spec fn spec_exhausted(self) -> bool {
        self.last_timestamp == TIMESTAMP_LIMIT - 1 && self.sequence == SEQUENCE_LIMIT - 1
    }

    /// Constructs a generator for the given instance tag.
    pub fn new(instance: u64) -> (g: Self)
        requires
            instance < INSTANCE_LIMIT,
        ensures
            g.wf(),
            g.instance_tag() == instance,
            g.issued_ids() == Seq::<u64>::empty(),
            !g.spec_exhausted(),
    {
        IdGenerator { instance, last_timestamp: 0, sequence: 0, issued: Ghost(Seq::empty()) }
    }

    /// True when no further identifier can be issued.
    pub fn exhausted(&self) -> (b: bool)
        ensures
            b == self.spec_exhausted(),
    {
        self.last_timestamp == TIMESTAMP_LIMIT - 1 && self.sequence == SEQUENCE_LIMIT - 1
    }

    /// Issues the next identifier, given the current wall-clock time in
    /// milliseconds. The result is strictly greater than every
    /// identifier issued before, whatever the clock does: a regressed
    /// clock falls back to the last seen timestamp, and a full sequence
    /// field advances the timestamp by one millisecond.
    pub fn generate(&mut self, now_ms: u64) -> (id: u64)
        requires
            old(self).wf(),
            now_ms < TIMESTAMP_LIMIT,
            !old(self).spec_exhausted(),
        ensures
            final(self).wf(),
            final(self).instance_tag() == old(self).instance_tag(),
            final(self).issued_ids() == old(self).issued_ids().push(id),
            id == final(self).mark(),
            old(self).mark() < final(self).mark(),
            forall|k: int|
                0 <= k < old(self).issued_ids().len() ==> #[trigger] old(self).issued_ids()[k] < id,
    {
        let ghost old_mark = self.mark();
        if now_ms > self.last_timestamp {
            self.last_timestamp = now_ms;
            self.sequence = 0;
        } else if self.sequence < SEQUENCE_LIMIT - 1 {
            self.sequence = self.sequence + 1;
        } else {
            self.last_timestamp = self.last_timestamp + 1;
            self.sequence = 0;
        }
        proof {
            lemma_pack_increases(
                old(self).last_timestamp,
                self.instance,
                old(self).sequence,
                self.last_timestamp,
                self.sequence,
            );
        }
        let id = from_parts(self.last_timestamp, self.instance, self.sequence);
        self.issued = Ghost(self.issued@.push(id));
        id
    }
}

/// Law: all identifiers issued by one generator instance are pairwise
/// distinct and strictly increasing (hence non-decreasing) in
/// generation order.
pub proof fn lemma_issued_ids_ordered(g: IdGenerator, k: int, l: int)
    requires
        g.wf(),
        0 <= k < l < g.issued_ids().len(),
    ensures
        g.issued_ids()[k] < g.issued_ids()[l],
        g.issued_ids()[k] != g.issued_ids()[l],
{
}

/// Packing is strictly monotone in (timestamp, sequence) for one instance:
/// later milliseconds, or later sequence numbers within one millisecond,
/// give strictly larger identifiers.
pub proof fn lemma_pack_increases(
    t1: u64,
    i: u64,
    s1: u64,
    t2: u64,
    s2: u64,
)
    requires
        parts_in_range(t1, i, s1),
        parts_in_range(t2, i, s2),
        t1 < t2 || (t1 == t2 && s1 < s2),
    ensures
        spec_pack(t1, i, s1) < spec_pack(t2, i, s2),
{
    if t1 < t2 {
        assert(spec_pack(t1, i, s1) < spec_pack(t2, i, s2)) by (nonlinear_arith)
            requires
                parts_in_range(t1, i, s1),
                parts_in_range(t2, i, s2),
                t1 < t2,
        ;
    }
}

} // verus!
