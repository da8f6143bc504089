//! Capability flags of an attribute, and the flags of an attribute together
//! with the channels that serve them.

use vstd::prelude::*;

verus! {

/// One operation that an attribute may support.
#[derive(Clone, Copy, Debug, PartialEq, Eq, Structural)]
pub enum Capability {
    Read,
    WriteWithoutResponse,
    Write,
    Notify,
    Indicate,
}

/// Bit of `Capability::Read` in the GATT characteristic properties field.
pub const READ: u8 = 0x02;

/// Bit of `Capability::WriteWithoutResponse`.
pub const WRITE_WITHOUT_RESPONSE: u8 = 0x04;

/// Bit of `Capability::Write`.
pub const WRITE: u8 = 0x08;

/// Bit of `Capability::Notify`.
pub const NOTIFY: u8 = 0x10;

/// Bit of `Capability::Indicate`.
pub const INDICATE: u8 = 0x20;

/// Every bit that stands for a capability.
pub const ALL: u8 = 0x3e;

/// The bits that a descriptor may carry: read and write.
pub const DESCRIPTOR: u8 = 0x0a;

impl Capability {
    /// The bit that stands for this capability.
    pub open spec fn spec_bit(self) -> u8 {
        match self {
            Capability::Read => READ,
            Capability::WriteWithoutResponse => WRITE_WITHOUT_RESPONSE,
            Capability::Write => WRITE,
            Capability::Notify => NOTIFY,
            Capability::Indicate => INDICATE,
        }
    }

    /// The name of the capability as the host stack spells it.
    pub open spec fn spec_name(self) -> Seq<char> {
        match self {
            Capability::Read => "read"@,
            Capability::WriteWithoutResponse => "write-without-response"@,
            Capability::Write => "write"@,
            Capability::Notify => "notify"@,
            Capability::Indicate => "indicate"@,
        }
    }

    pub fn name(self) -> (name: &'static str)
        ensures
            name@ == self.spec_name(),
    {
        match self {
            Capability::Read => "read",
            Capability::WriteWithoutResponse => "write-without-response",
            Capability::Write => "write",
            Capability::Notify => "notify",
            Capability::Indicate => "indicate",
        }
    }

    #[verifier::when_used_as_spec(spec_bit)]
    pub fn bit(self) -> (b: u8)
        ensures
            b == self.spec_bit(),
    {
        match self {
            Capability::Read => READ,
            Capability::WriteWithoutResponse => WRITE_WITHOUT_RESPONSE,
            Capability::Write => WRITE,
            Capability::Notify => NOTIFY,
            Capability::Indicate => INDICATE,
        }
    }
}

/// The texts of `names`, in their order.
pub open spec fn name_texts(names: Seq<&'static str>) -> Seq<Seq<char>> {
    Seq::new(names.len(), |i: int| names[i]@)
}

/// A set of capabilities, kept as bits.
#[derive(Clone, Copy, Debug, PartialEq, Eq, Structural)]
pub struct PropertyFlags {
    bits: u8,
}

impl View for PropertyFlags {
    type V = Set<Capability>;

    /// The capabilities whose bit is set.
    closed spec fn view(&self) -> Set<Capability> {
        Set::new(|c: Capability| self.bits & c.spec_bit() != 0)
    }
}

impl PropertyFlags {
    /// The bits behind the set.
    pub closed spec fn spec_bits(self) -> u8 {
        self.bits
    }

    /// No bit outside the capability bits is set.
    pub open spec fn wf(self) -> bool {
        self.spec_bits() & !ALL == 0
    }

    #[verifier::type_invariant]
    spec fn only_capability_bits(self) -> bool {
        self.wf()
    }

    /// Membership of each capability, as a test of its bit.
    pub proof fn lemma_members(self)
        ensures
            self@.contains(Capability::Read) <==> self.spec_bits() & 0x02u8 != 0,
            self@.contains(Capability::WriteWithoutResponse) <==> self.spec_bits() & 0x04u8 != 0,
            self@.contains(Capability::Write) <==> self.spec_bits() & 0x08u8 != 0,
            self@.contains(Capability::Notify) <==> self.spec_bits() & 0x10u8 != 0,
            self@.contains(Capability::Indicate) <==> self.spec_bits() & 0x20u8 != 0,
            forall|c: Capability| #[trigger]
                self@.contains(c) <==> self.spec_bits() & c.spec_bit() != 0,
    {
        assert(Capability::Read.spec_bit() == 0x02u8);
        assert(Capability::WriteWithoutResponse.spec_bit() == 0x04u8);
        assert(Capability::Write.spec_bit() == 0x08u8);
        assert(Capability::Notify.spec_bit() == 0x10u8);
        assert(Capability::Indicate.spec_bit() == 0x20u8);
        assert(self@.contains(Capability::Read) == (self.bits & Capability::Read.spec_bit() != 0));
        assert(self@.contains(Capability::WriteWithoutResponse) == (self.bits
            & Capability::WriteWithoutResponse.spec_bit() != 0));
        assert(self@.contains(Capability::Write) == (self.bits & Capability::Write.spec_bit()
            != 0));
        assert(self@.contains(Capability::Notify) == (self.bits & Capability::Notify.spec_bit()
            != 0));
        assert(self@.contains(Capability::Indicate) == (self.bits
            & Capability::Indicate.spec_bit() != 0));
    }

    /// Two well-formed flag values with the same capabilities are the same value.
    pub proof fn lemma_view_injective(a: Self, b: Self)
        requires
            a.wf(),
            b.wf(),
            a@ == b@,
        ensures
            a == b,
    {
        let x = a.bits;
        let y = b.bits;
        a.lemma_members();
        b.lemma_members();
        assert(x == y) by (bit_vector)
            requires
                x & !0x3eu8 == 0,
                y & !0x3eu8 == 0,
                (x & 0x02 != 0) == (y & 0x02 != 0),
                (x & 0x04 != 0) == (y & 0x04 != 0),
                (x & 0x08 != 0) == (y & 0x08 != 0),
                (x & 0x10 != 0) == (y & 0x10 != 0),
                (x & 0x20 != 0) == (y & 0x20 != 0),
        ;
    }

    /// The set without any capability.
    pub fn empty() -> (flags: Self)
        ensures
            flags.wf(),
            flags.spec_bits() == 0,
            flags@ == Set::<Capability>::empty(),
    {
        assert(0u8 & !0x3eu8 == 0) by (bit_vector);
        let flags = PropertyFlags { bits: 0 };
        proof {
            assert forall|c: Capability| !flags@.contains(c) by {
                let b = c.spec_bit();
                assert(0u8 & b == 0) by (bit_vector);
            }
            assert(flags@ =~= Set::<Capability>::empty());
        }
        flags
    }

    /// The set of every capability.
    pub fn all() -> (flags: Self)
        ensures
            flags.wf(),
            flags.spec_bits() == ALL,
            forall|c: Capability| flags@.contains(c),
    {
        assert(0x3eu8 & !0x3eu8 == 0) by (bit_vector);
        let flags = PropertyFlags { bits: ALL };
        proof {
            assert(0x3eu8 & 0x02 != 0 && 0x3eu8 & 0x04 != 0 && 0x3eu8 & 0x08 != 0 && 0x3eu8 & 0x10
                != 0 && 0x3eu8 & 0x20 != 0) by (bit_vector);
        }
        flags
    }

    /// The set that holds one capability.
    pub fn single(capability: Capability) -> (flags: Self)
        ensures
            flags.wf(),
            flags.spec_bits() == capability.spec_bit(),
            flags@ == set![capability],
    {
        let ghost b = capability.spec_bit();
        assert((b == 0x02 || b == 0x04 || b == 0x08 || b == 0x10 || b == 0x20) ==> b & !0x3eu8
            == 0) by (bit_vector);
        let flags = PropertyFlags { bits: capability.bit() };
        proof {
            assert forall|c: Capability| flags@.contains(c) == (c == capability) by {
                let d = c.spec_bit();
                assert((b == 0x02 || b == 0x04 || b == 0x08 || b == 0x10 || b == 0x20) && (d
                    == 0x02 || d == 0x04 || d == 0x08 || d == 0x10 || d == 0x20) ==> ((b & d != 0)
                    == (b == d))) by (bit_vector);
            }
            assert(flags@ =~= set![capability]);
        }
        flags
    }

    /// The set that `bits` stands for, if `bits` holds capability bits only.
    pub fn from_bits(bits: u8) -> (flags: Option<Self>)
        ensures
            flags is Some <==> bits & !ALL == 0,
            flags matches Some(f) ==> f.wf() && f.spec_bits() == bits,
    {
        if bits & !ALL == 0 {
            Some(PropertyFlags { bits })
        } else {
            None
        }
    }

    /// The set that the capability bits of `bits` stand for; other bits are dropped.
    pub fn from_bits_truncate(bits: u8) -> (flags: Self)
        ensures
            flags.wf(),
            flags.spec_bits() == bits & ALL,
    {
        assert((bits & 0x3eu8) & !0x3eu8 == 0) by (bit_vector);
        PropertyFlags { bits: bits & ALL }
    }

    /// The bits of the set.
    #[verifier::when_used_as_spec(spec_bits)]
    pub fn bits(self) -> (bits: u8)
        ensures
            bits == self.spec_bits(),
    {
        self.bits
    }

    /// Whether the set holds no capability.
    pub fn is_empty(self) -> (none: bool)
        ensures
            none <==> self@ == Set::<Capability>::empty(),
            none <==> self.spec_bits() == 0,
    {
        proof {
            use_type_invariant(&self);
            let x = self.bits;
            if x == 0 {
                assert forall|c: Capability| !self@.contains(c) by {
                    let b = c.spec_bit();
                    assert(0u8 & b == 0) by (bit_vector);
                }
                assert(self@ =~= Set::<Capability>::empty());
            } else {
                assert(x & 0x02 != 0 || x & 0x04 != 0 || x & 0x08 != 0 || x & 0x10 != 0 || x
                    & 0x20 != 0) by (bit_vector)
                    requires
                        x != 0,
                        x & !0x3eu8 == 0,
                ;
                assert(self@.contains(Capability::Read) || self@.contains(
                    Capability::WriteWithoutResponse,
                ) || self@.contains(Capability::Write) || self@.contains(Capability::Notify)
                    || self@.contains(Capability::Indicate));
            }
        }
        self.bits == 0
    }

    /// Whether the set holds `capability`: one bit test.
    pub fn has(self, capability: Capability) -> (held: bool)
        ensures
            held <==> self@.contains(capability),
    {
        self.bits & capability.bit() != 0
    }

    /// Whether every capability of `other` is in the set.
    pub fn contains(self, other: Self) -> (held: bool)
        ensures
            held <==> other@.subset_of(self@),
    {
        let held = self.bits & other.bits == other.bits;
        proof {
            use_type_invariant(&other);
            let x = self.bits;
            let y = other.bits;
            self.lemma_members();
            other.lemma_members();
            if held {
                assert forall|c: Capability| other@.contains(c) implies self@.contains(c) by {
                    let b = c.spec_bit();
                    assert(x & y == y && y & b != 0 ==> x & b != 0) by (bit_vector);
                }
            } else {
                assert(x & y != y ==> (y & 0x02 != 0 && x & 0x02 == 0) || (y & 0x04 != 0 && x
                    & 0x04 == 0) || (y & 0x08 != 0 && x & 0x08 == 0) || (y & 0x10 != 0 && x & 0x10
                    == 0) || (y & 0x20 != 0 && x & 0x20 == 0) || (y & !0x3eu8 != 0))
                    by (bit_vector);
                assert((other@.contains(Capability::Read) && !self@.contains(Capability::Read))
                    || (other@.contains(Capability::WriteWithoutResponse) && !self@.contains(
                    Capability::WriteWithoutResponse,
                )) || (other@.contains(Capability::Write) && !self@.contains(Capability::Write))
                    || (other@.contains(Capability::Notify) && !self@.contains(
                    Capability::Notify,
                )) || (other@.contains(Capability::Indicate) && !self@.contains(
                    Capability::Indicate,
                )));
            }
        }
        held
    }

    /// Whether the set shares a capability with `other`.
    pub fn intersects(self, other: Self) -> (shared: bool)
        ensures
            shared <==> exists|c: Capability| self@.contains(c) && other@.contains(c),
            shared <==> self.spec_bits() & other.spec_bits() != 0,
    {
        let shared = self.bits & other.bits != 0;
        proof {
            use_type_invariant(&self);
            let x = self.bits;
            let y = other.bits;
            self.lemma_members();
            other.lemma_members();
            if shared {
                assert(x & y != 0 && x & !0x3eu8 == 0 ==> (x & 0x02 != 0 && y & 0x02 != 0) || (x
                    & 0x04 != 0 && y & 0x04 != 0) || (x & 0x08 != 0 && y & 0x08 != 0) || (x & 0x10
                    != 0 && y & 0x10 != 0) || (x & 0x20 != 0 && y & 0x20 != 0)) by (bit_vector);
                let c = if self@.contains(Capability::Read) && other@.contains(Capability::Read) {
                    Capability::Read
                } else if self@.contains(Capability::WriteWithoutResponse) && other@.contains(
                    Capability::WriteWithoutResponse,
                ) {
                    Capability::WriteWithoutResponse
                } else if self@.contains(Capability::Write) && other@.contains(
                    Capability::Write,
                ) {
                    Capability::Write
                } else if self@.contains(Capability::Notify) && other@.contains(
                    Capability::Notify,
                ) {
                    Capability::Notify
                } else {
                    Capability::Indicate
                };
                assert(self@.contains(c) && other@.contains(c));
            } else {
                assert(x & y == 0 ==> !(x & 0x02 != 0 && y & 0x02 != 0) && !(x & 0x04 != 0 && y
                    & 0x04 != 0) && !(x & 0x08 != 0 && y & 0x08 != 0) && !(x & 0x10 != 0 && y
                    & 0x10 != 0) && !(x & 0x20 != 0 && y & 0x20 != 0)) by (bit_vector);
                assert forall|c: Capability| !(self@.contains(c) && other@.contains(c)) by {
                    match c {
                        Capability::Read => {},
                        Capability::WriteWithoutResponse => {},
                        Capability::Write => {},
                        Capability::Notify => {},
                        Capability::Indicate => {},
                    }
                }
            }
        }
        shared
    }

    /// The capabilities of either set: a bitwise union.
    pub fn union(self, other: Self) -> (both: Self)
        ensures
            both.wf(),
            both.spec_bits() == self.spec_bits() | other.spec_bits(),
            both@ == self@.union(other@),
    {
        let ghost x = self.bits;
        let ghost y = other.bits;
        proof {
            use_type_invariant(&self);
            use_type_invariant(&other);
            assert(x & !0x3eu8 == 0 && y & !0x3eu8 == 0 ==> (x | y) & !0x3eu8 == 0)
                by (bit_vector);
        }
        let both = PropertyFlags { bits: self.bits | other.bits };
        proof {
            assert forall|c: Capability|
                both@.contains(c) == (self@.contains(c) || other@.contains(c)) by {
                let b = c.spec_bit();
                assert(((x | y) & b != 0) == (x & b != 0 || y & b != 0)) by (bit_vector);
            }
            assert(both@ =~= self@.union(other@));
        }
        both
    }

    /// The capabilities that both sets hold.
    pub fn intersection(self, other: Self) -> (common: Self)
        ensures
            common.wf(),
            common.spec_bits() == self.spec_bits() & other.spec_bits(),
            common@ == self@.intersect(other@),
    {
        let ghost x = self.bits;
        let ghost y = other.bits;
        proof {
            use_type_invariant(&self);
            assert(x & !0x3eu8 == 0 ==> (x & y) & !0x3eu8 == 0) by (bit_vector);
        }
        let common = PropertyFlags { bits: self.bits & other.bits };
        proof {
            self.lemma_members();
            other.lemma_members();
            common.lemma_members();
            assert(((x & y) & 0x02 != 0) == (x & 0x02 != 0 && y & 0x02 != 0)) by (bit_vector);
            assert(((x & y) & 0x04 != 0) == (x & 0x04 != 0 && y & 0x04 != 0)) by (bit_vector);
            assert(((x & y) & 0x08 != 0) == (x & 0x08 != 0 && y & 0x08 != 0)) by (bit_vector);
            assert(((x & y) & 0x10 != 0) == (x & 0x10 != 0 && y & 0x10 != 0)) by (bit_vector);
            assert(((x & y) & 0x20 != 0) == (x & 0x20 != 0 && y & 0x20 != 0)) by (bit_vector);
            assert forall|c: Capability|
                common@.contains(c) == (self@.contains(c) && other@.contains(c)) by {
                match c {
                    Capability::Read => {},
                    Capability::WriteWithoutResponse => {},
                    Capability::Write => {},
                    Capability::Notify => {},
                    Capability::Indicate => {},
                }
            }
            assert(common@ =~= self@.intersect(other@));
        }
        common
    }

    /// The capabilities of the set that `other` does not hold.
    pub fn difference(self, other: Self) -> (rest: Self)
        ensures
            rest.wf(),
            rest.spec_bits() == self.spec_bits() & !other.spec_bits(),
            rest@ == self@.difference(other@),
    {
        let ghost x = self.bits;
        let ghost y = other.bits;
        proof {
            use_type_invariant(&self);
            assert(x & !0x3eu8 == 0 ==> (x & !y) & !0x3eu8 == 0) by (bit_vector);
        }
        let rest = PropertyFlags { bits: self.bits & !other.bits };
        proof {
            self.lemma_members();
            other.lemma_members();
            rest.lemma_members();
            assert(((x & !y) & 0x02 != 0) == (x & 0x02 != 0 && !(y & 0x02 != 0)))
                by (bit_vector);
            assert(((x & !y) & 0x04 != 0) == (x & 0x04 != 0 && !(y & 0x04 != 0)))
                by (bit_vector);
            assert(((x & !y) & 0x08 != 0) == (x & 0x08 != 0 && !(y & 0x08 != 0)))
                by (bit_vector);
            assert(((x & !y) & 0x10 != 0) == (x & 0x10 != 0 && !(y & 0x10 != 0)))
                by (bit_vector);
            assert(((x & !y) & 0x20 != 0) == (x & 0x20 != 0 && !(y & 0x20 != 0)))
                by (bit_vector);
            assert forall|c: Capability|
                rest@.contains(c) == (self@.contains(c) && !other@.contains(c)) by {
                match c {
                    Capability::Read => {},
                    Capability::WriteWithoutResponse => {},
                    Capability::Write => {},
                    Capability::Notify => {},
                    Capability::Indicate => {},
                }
            }
            assert(rest@ =~= self@.difference(other@));
        }
        rest
    }

    /// The part of the set that a descriptor may carry: read and write.
    pub fn descriptor_subset(self) -> (kept: Self)
        ensures
            kept.wf(),
            kept.spec_bits() == self.spec_bits() & DESCRIPTOR,
            kept@ == self@.intersect(set![Capability::Read, Capability::Write]),
    {
        let mask = PropertyFlags::single(Capability::Read).union(
            PropertyFlags::single(Capability::Write),
        );
        proof {
            assert(0x02u8 | 0x08u8 == 0x0au8) by (bit_vector);
            assert(mask@ =~= set![Capability::Read, Capability::Write]);
        }
        self.intersection(mask)
    }

    /// The names of the capabilities of the set as the host stack spells
    /// them, in the order read, write-without-response, write, notify,
    /// indicate.
    pub open spec fn spec_names(self) -> Seq<Seq<char>> {
        self.name_if(Capability::Read) + self.name_if(Capability::WriteWithoutResponse)
            + self.name_if(Capability::Write) + self.name_if(Capability::Notify) + self.name_if(
            Capability::Indicate,
        )
    }

    /// The name of `capability` if the set holds it, else nothing.
    pub open spec fn name_if(self, capability: Capability) -> Seq<Seq<char>> {
        if self@.contains(capability) {
            seq![capability.spec_name()]
        } else {
            Seq::empty()
        }
    }

    /// Puts the name of `capability` at the end of `names` if the set
    /// holds the capability.
    fn push_name_if(self, names: &mut Vec<&'static str>, capability: Capability)
        ensures
            name_texts(final(names)@) == name_texts(old(names)@) + self.name_if(capability),
    {
        if self.has(capability) {
            names.push(capability.name());
        }
        assert(name_texts(names@) =~= name_texts(old(names)@) + self.name_if(capability));
    }

    /// The names of the capabilities of the set, for the host stack.
    pub fn names(self) -> (names: Vec<&'static str>)
        ensures
            name_texts(names@) == self.spec_names(),
    {
        let mut names: Vec<&'static str> = Vec::new();
        assert(name_texts(names@) =~= Seq::<Seq<char>>::empty());
        self.push_name_if(&mut names, Capability::Read);
        self.push_name_if(&mut names, Capability::WriteWithoutResponse);
        self.push_name_if(&mut names, Capability::Write);
        self.push_name_if(&mut names, Capability::Notify);
        self.push_name_if(&mut names, Capability::Indicate);
        assert(name_texts(names@) =~= self.spec_names());
        names
    }

    /// Whether a remote read is supported: the read bit is set.
    pub open spec fn spec_can_read(self) -> bool {
        self@.contains(Capability::Read)
    }

    /// Whether a remote write is supported: the write bit is set. The
    /// write-without-response bit is no write flag: like notify and
    /// indicate it is told to the host stack and has no channel of its own.
    pub open spec fn spec_can_write(self) -> bool {
        self@.contains(Capability::Write)
    }

    /// Whether a remote subscription is supported: the notify bit or the
    /// indicate bit is set.
    pub open spec fn spec_can_notify(self) -> bool {
        self@.contains(Capability::Notify) || self@.contains(Capability::Indicate)
    }

    #[verifier::when_used_as_spec(spec_can_read)]
    pub fn can_read(self) -> (able: bool)
        ensures
            able == self.spec_can_read(),
    {
        self.has(Capability::Read)
    }

    #[verifier::when_used_as_spec(spec_can_write)]
    pub fn can_write(self) -> (able: bool)
        ensures
            able == self.spec_can_write(),
    {
        self.has(Capability::Write)
    }

    #[verifier::when_used_as_spec(spec_can_notify)]
    pub fn can_notify(self) -> (able: bool)
        ensures
            able == self.spec_can_notify(),
    {
        self.has(Capability::Notify) || self.has(Capability::Indicate)
    }
}

} // verus!


verus! {

/// The flags of one attribute together with the channels that were attached
/// for its read and its write capability. `T` is the sending half of a
/// channel.
#[derive(Debug)]
pub struct Properties<T> {
    pub flags: PropertyFlags,
    pub read: Option<T>,
    pub write: Option<T>,
}

impl<T> Properties<T> {
    /// A channel is present for reading exactly when the flags allow a read,
    /// and for writing exactly when they allow a write.
    pub open spec fn consistent(self) -> bool {
        &&& self.flags.wf()
        &&& self.read is Some <==> self.flags.spec_can_read()
        &&& self.write is Some <==> self.flags.spec_can_write()
    }

    /// Whether the read capability survives settling: it was asked for and a
    /// channel was attached for it.
    pub open spec fn keeps_read(self) -> bool {
        self.flags.spec_can_read() && self.read is Some
    }

    /// Whether the write capability survives settling: the write flag was
    /// asked for and a channel was attached for it.
    pub open spec fn keeps_write(self) -> bool {
        self.flags.spec_can_write() && self.write is Some
    }

    /// The capabilities that survive settling: a read or write capability
    /// stays only if it has its channel; the others stay as they are.
    pub open spec fn settled_flags(self) -> Set<Capability> {
        Set::new(
            |c: Capability|
                self.flags@.contains(c) && match c {
                    Capability::Read => self.keeps_read(),
                    Capability::Write => self.keeps_write(),
                    _ => true,
                },
        )
    }

    /// What `settle` makes of the properties.
    pub open spec fn is_settled_from(self, before: Self) -> bool {
        &&& self.flags.wf()
        &&& self.flags@ == before.settled_flags()
        &&& self.read == if before.keeps_read() {
            before.read
        } else {
            None
        }
        &&& self.write == if before.keeps_write() {
            before.write
        } else {
            None
        }
    }

    /// No flags and no channels.
    pub fn empty() -> (properties: Self)
        ensures
            properties.flags@ == Set::<Capability>::empty(),
            properties.read is None,
            properties.write is None,
            properties.consistent(),
    {
        Properties { flags: PropertyFlags::empty(), read: None, write: None }
    }

    /// Brings flags and channels into agreement. A channel that was attached
    /// for a capability that the flags do not name is dropped, and a read or
    /// write capability for which no channel was attached is withdrawn. The
    /// other capabilities are kept.
    pub fn settle(self) -> (settled: Self)
        ensures
            settled.is_settled_from(self),
            settled.consistent(),
    {
        let keep_read = self.flags.can_read() && self.read.is_some();
        let keep_write = self.flags.can_write() && self.write.is_some();
        let mut drop = PropertyFlags::empty();
        if !keep_read {
            drop = drop.union(PropertyFlags::single(Capability::Read));
        }
        if !keep_write {
            drop = drop.union(PropertyFlags::single(Capability::Write));
        }
        let flags = self.flags.difference(drop);
        let read = if keep_read {
            self.read
        } else {
            None
        };
        let write = if keep_write {
            self.write
        } else {
            None
        };
        proof {
            assert(flags@ =~= self.settled_flags());
        }
        Properties { flags, read, write }
    }

    /// Settling changes nothing where flags and channels already agree.
    pub proof fn lemma_settle_consistent(before: Self, after: Self)
        requires
            before.consistent(),
            after.is_settled_from(before),
        ensures
            after == before,
    {
        assert(after.flags@ =~= before.flags@);
        PropertyFlags::lemma_view_injective(after.flags, before.flags);
    }

    /// After settling, a channel exists for the read capability if and only
    /// if the read flag is set, and likewise for the write capability; and it
    /// exists exactly when it was both asked for and attached.
    pub proof fn lemma_channel_iff_flag(before: Self, after: Self)
        requires
            after.is_settled_from(before),
        ensures
            after.read is Some <==> after.flags.spec_can_read(),
            after.write is Some <==> after.flags.spec_can_write(),
            after.read is Some <==> before.flags.spec_can_read() && before.read is Some,
            after.write is Some <==> before.flags.spec_can_write() && before.write is Some,
            forall|c: Capability| after.flags@.contains(c) ==> before.flags@.contains(c),
    {
    }
}

impl<T> Default for Properties<T> {
    fn default() -> (properties: Self)
        ensures
            properties.flags@ == Set::<Capability>::empty(),
            properties.read is None,
            properties.write is None,
    {
        Properties::empty()
    }
}

} // verus!
