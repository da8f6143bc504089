//! The tree of services that a peripheral exports: the address of every
//! attribute, the list of objects that the host stack discovers, and the way
//! from an address to the attribute that serves a request.

use crate::error::GattError;
use crate::gatt::address::Address;
use crate::gatt::attribute::{all_distinct, distinct, identities, Attribute};
use crate::gatt::characteristic::Characteristic;
use crate::gatt::event::{Pending, Reply, Request};
use crate::gatt::gatt_properties::{Capability, PropertyFlags};
use crate::gatt::service::{is_construction, CharacteristicParts, Service, ServiceParts};
use crate::uuid::{hyphenated_text, Uuid};
use vstd::prelude::*;
use vstd::string::StringExecFns;

verus! {

/// The services of one peripheral, in the order in which they were added,
/// no two with one identifier, below the path `base`.
#[derive(Debug)]
pub struct Tree {
    base: String,
    services: Vec<Service>,
}

/// What the host stack learns of one object of the tree.
#[derive(Debug)]
pub struct ObjectEntry {
    /// The place of the attribute in the tree.
    pub address: Address,
    /// The path of the object.
    pub path: String,
    /// The attribute's identifier, hyphenated and in lower case.
    pub uuid: String,
    /// For a service, whether it is primary; for another attribute, `false`.
    pub primary: bool,
    /// The capabilities that a characteristic or a descriptor serves; for a
    /// service, none.
    pub flags: PropertyFlags,
    /// The path of the object above: the service of a characteristic, the
    /// characteristic of a descriptor, nothing for a service.
    pub parent: Option<String>,
}

/// The addresses of the first `count` descriptors of the characteristic `m`
/// of the service `n`.
pub open spec fn descriptor_addresses(n: usize, m: usize, count: nat) -> Seq<Address> {
    Seq::new(count, |k: int| Address::Descriptor(n, m, k as usize))
}

/// The addresses of the first `upto` characteristics of the service `n`,
/// each followed by those of its descriptors.
pub open spec fn characteristic_addresses(
    n: usize,
    characteristics: Seq<Characteristic>,
    upto: nat,
) -> Seq<Address>
    decreases upto,
{
    if upto == 0 {
        Seq::empty()
    } else {
        let m = (upto - 1) as nat;
        characteristic_addresses(n, characteristics, m).push(
            Address::Characteristic(n, m as usize),
        ) + descriptor_addresses(n, m as usize, characteristics[m as int].spec_descriptors().len())
    }
}

/// The addresses of the first `upto` services, each followed by those of its
/// characteristics.
pub open spec fn service_addresses(services: Seq<Service>, upto: nat) -> Seq<Address>
    decreases upto,
{
    if upto == 0 {
        Seq::empty()
    } else {
        let n = (upto - 1) as nat;
        service_addresses(services, n).push(Address::Service(n as usize))
            + characteristic_addresses(
            n as usize,
            services[n as int].spec_characteristics(),
            services[n as int].spec_characteristics().len(),
        )
    }
}

/// Whether `address` is one of the first `upto` characteristics of the
/// service `n`, or a descriptor of one of them.
pub open spec fn among_characteristics(
    n: usize,
    characteristics: Seq<Characteristic>,
    upto: nat,
    address: Address,
) -> bool {
    match address {
        Address::Service(_) => false,
        Address::Characteristic(s, m) => s == n && m < upto,
        Address::Descriptor(s, m, k) => s == n && m < upto && k
            < characteristics[m as int].spec_descriptors().len(),
    }
}

/// The walk over the characteristics of a service visits exactly the
/// characteristics and their descriptors.
pub proof fn lemma_characteristic_addresses(
    n: usize,
    characteristics: Seq<Characteristic>,
    upto: nat,
    address: Address,
)
    requires
        upto <= characteristics.len(),
        characteristics.len() <= usize::MAX,
    ensures
        characteristic_addresses(n, characteristics, upto).contains(address)
            <==> among_characteristics(n, characteristics, upto, address),
    decreases upto,
{
    if upto > 0 {
        let m = (upto - 1) as nat;
        let count = characteristics[m as int].spec_descriptors().len();
        let before = characteristic_addresses(n, characteristics, m);
        let head = before.push(Address::Characteristic(n, m as usize));
        let tail = descriptor_addresses(n, m as usize, count);
        let all = characteristic_addresses(n, characteristics, upto);
        assert(all == head + tail);
        lemma_characteristic_addresses(n, characteristics, m, address);
        if all.contains(address) {
            let i = choose|i: int| 0 <= i < all.len() && all[i] == address;
            if i < before.len() {
                assert(before[i] == address);
            } else if i == before.len() {
            } else {
                assert(tail[i - head.len()] == address);
            }
        }
        if among_characteristics(n, characteristics, upto, address) {
            if among_characteristics(n, characteristics, m, address) {
                let i = choose|i: int| 0 <= i < before.len() && before[i] == address;
                assert(all[i] == address);
            } else {
                match address {
                    Address::Service(_) => {},
                    Address::Characteristic(_, _) => {
                        assert(all[before.len() as int] == address);
                    },
                    Address::Descriptor(_, _, k) => {
                        assert(tail[k as int] == address);
                        assert(all[head.len() + k] == address);
                    },
                }
            }
        }
    }
}

/// Whether `address` is one of the first `upto` services, or stands below
/// one of them.
pub open spec fn among_services(services: Seq<Service>, upto: nat, address: Address) -> bool {
    match address {
        Address::Service(n) => n < upto,
        Address::Characteristic(n, m) => n < upto && m
            < services[n as int].spec_characteristics().len(),
        Address::Descriptor(n, m, k) => n < upto && m
            < services[n as int].spec_characteristics().len() && k
            < services[n as int].spec_characteristics()[m as int].spec_descriptors().len(),
    }
}

/// The walk over the services visits exactly the services and what stands
/// below them.
pub proof fn lemma_service_addresses(services: Seq<Service>, upto: nat, address: Address)
    requires
        upto <= services.len(),
        services.len() <= usize::MAX,
        forall|n: int|
            0 <= n < services.len() ==> (#[trigger] services[n]).spec_characteristics().len()
                <= usize::MAX,
    ensures
        service_addresses(services, upto).contains(address) <==> among_services(
            services,
            upto,
            address,
        ),
    decreases upto,
{
    if upto > 0 {
        let n = (upto - 1) as nat;
        let characteristics = services[n as int].spec_characteristics();
        let before = service_addresses(services, n);
        let head = before.push(Address::Service(n as usize));
        let tail = characteristic_addresses(n as usize, characteristics, characteristics.len());
        let all = service_addresses(services, upto);
        assert(all == head + tail);
        lemma_service_addresses(services, n, address);
        lemma_characteristic_addresses(n as usize, characteristics, characteristics.len(), address);
        if all.contains(address) {
            let i = choose|i: int| 0 <= i < all.len() && all[i] == address;
            if i < before.len() {
                assert(before[i] == address);
            } else if i == before.len() {
            } else {
                assert(tail[i - head.len()] == address);
            }
        }
        if among_services(services, upto, address) {
            if among_services(services, n, address) {
                let i = choose|i: int| 0 <= i < before.len() && before[i] == address;
                assert(all[i] == address);
            } else {
                match address {
                    Address::Service(_) => {
                        assert(all[before.len() as int] == address);
                    },
                    _ => {
                        let i = choose|i: int| 0 <= i < tail.len() && tail[i] == address;
                        assert(all[head.len() + i] == address);
                    },
                }
            }
        }
    }
}

/// Two rows without repetition that share no entry make, one after the
/// other, a row without repetition.
proof fn lemma_joined_once(first: Seq<Address>, second: Seq<Address>)
    requires
        first.no_duplicates(),
        second.no_duplicates(),
        forall|i: int, j: int|
            0 <= i < first.len() && 0 <= j < second.len() ==> first[i] != second[j],
    ensures
        (first + second).no_duplicates(),
{
    let all = first + second;
    assert forall|i: int, j: int| 0 <= i < all.len() && 0 <= j < all.len() && i != j implies all[i]
        != all[j] by {
        if i < first.len() && j < first.len() {
        } else if i >= first.len() && j >= first.len() {
            assert(all[i] == second[i - first.len()]);
            assert(all[j] == second[j - first.len()]);
        } else if i < first.len() {
            assert(all[j] == second[j - first.len()]);
        } else {
            assert(all[i] == second[i - first.len()]);
        }
    }
}

/// The walk over the characteristics of a service comes to each attribute
/// once.
pub proof fn lemma_characteristic_addresses_once(
    n: usize,
    characteristics: Seq<Characteristic>,
    upto: nat,
)
    requires
        upto <= characteristics.len(),
        characteristics.len() <= usize::MAX,
    ensures
        characteristic_addresses(n, characteristics, upto).no_duplicates(),
    decreases upto,
{
    if upto > 0 {
        let m = (upto - 1) as nat;
        let count = characteristics[m as int].spec_descriptors().len();
        let before = characteristic_addresses(n, characteristics, m);
        let head = before.push(Address::Characteristic(n, m as usize));
        let tail = descriptor_addresses(n, m as usize, count);
        lemma_characteristic_addresses_once(n, characteristics, m);
        assert forall|i: int| 0 <= i < before.len() implies among_characteristics(
            n,
            characteristics,
            m,
            #[trigger] before[i],
        ) by {
            lemma_characteristic_addresses(n, characteristics, m, before[i]);
        }
        assert(head =~= before + seq![Address::Characteristic(n, m as usize)]);
        lemma_joined_once(before, seq![Address::Characteristic(n, m as usize)]);
        assert forall|i: int, j: int| 0 <= i < head.len() && 0 <= j < tail.len() implies head[i]
            != tail[j] by {
            if i < before.len() {
                assert(among_characteristics(n, characteristics, m, before[i]));
            }
        }
        assert(tail.no_duplicates()) by {
            assert forall|i: int, j: int|
                0 <= i < tail.len() && 0 <= j < tail.len() && i != j implies tail[i]
                != tail[j] by {
                characteristics[m as int].lemma_bounded();
            }
        }
        lemma_joined_once(head, tail);
    }
}

/// The walk over the services comes to each attribute once.
pub proof fn lemma_service_addresses_once(services: Seq<Service>, upto: nat)
    requires
        upto <= services.len(),
        services.len() <= usize::MAX,
        forall|n: int|
            0 <= n < services.len() ==> (#[trigger] services[n]).spec_characteristics().len()
                <= usize::MAX,
    ensures
        service_addresses(services, upto).no_duplicates(),
    decreases upto,
{
    if upto > 0 {
        let n = (upto - 1) as nat;
        let characteristics = services[n as int].spec_characteristics();
        let before = service_addresses(services, n);
        let head = before.push(Address::Service(n as usize));
        let tail = characteristic_addresses(n as usize, characteristics, characteristics.len());
        lemma_service_addresses_once(services, n);
        lemma_characteristic_addresses_once(n as usize, characteristics, characteristics.len());
        assert forall|i: int| 0 <= i < before.len() implies among_services(
            services,
            n,
            #[trigger] before[i],
        ) by {
            lemma_service_addresses(services, n, before[i]);
        }
        assert forall|j: int| 0 <= j < tail.len() implies among_characteristics(
            n as usize,
            characteristics,
            characteristics.len(),
            #[trigger] tail[j],
        ) by {
            lemma_characteristic_addresses(
                n as usize,
                characteristics,
                characteristics.len(),
                tail[j],
            );
        }
        assert(head =~= before + seq![Address::Service(n as usize)]);
        lemma_joined_once(before, seq![Address::Service(n as usize)]);
        assert forall|i: int, j: int| 0 <= i < head.len() && 0 <= j < tail.len() implies head[i]
            != tail[j] by {
            assert(among_characteristics(
                n as usize,
                characteristics,
                characteristics.len(),
                tail[j],
            ));
            if i < before.len() {
                assert(among_services(services, n, before[i]));
            }
        }
        lemma_joined_once(head, tail);
    }
}

/// Whether two rows of characteristics have the same form: they are equally
/// many, and each has as many descriptors as the one in its place in the
/// other row.
pub open spec fn alike(a: Seq<Characteristic>, b: Seq<Characteristic>) -> bool {
    &&& a.len() == b.len()
    &&& forall|m: int|
        0 <= m < a.len() ==> (#[trigger] a[m]).spec_descriptors().len()
            == b[m].spec_descriptors().len()
}

/// The addresses below a service depend on the form of its characteristics
/// alone.
pub proof fn lemma_characteristic_addresses_alike(
    n: usize,
    a: Seq<Characteristic>,
    b: Seq<Characteristic>,
    upto: nat,
)
    requires
        alike(a, b),
        upto <= a.len(),
    ensures
        characteristic_addresses(n, a, upto) == characteristic_addresses(n, b, upto),
    decreases upto,
{
    if upto > 0 {
        let m = (upto - 1) as nat;
        lemma_characteristic_addresses_alike(n, a, b, m);
        assert(a[m as int].spec_descriptors().len() == b[m as int].spec_descriptors().len());
    }
}

/// The addresses of a row of services depend on the form of the services
/// alone.
pub proof fn lemma_service_addresses_alike(a: Seq<Service>, b: Seq<Service>, upto: nat)
    requires
        a.len() == b.len(),
        forall|n: int|
            0 <= n < a.len() ==> alike(
                (#[trigger] a[n]).spec_characteristics(),
                b[n].spec_characteristics(),
            ),
        upto <= a.len(),
    ensures
        service_addresses(a, upto) == service_addresses(b, upto),
    decreases upto,
{
    if upto > 0 {
        let n = (upto - 1) as nat;
        lemma_service_addresses_alike(a, b, n);
        assert(alike(a[n as int].spec_characteristics(), b[n as int].spec_characteristics()));
        lemma_characteristic_addresses_alike(
            n as usize,
            a[n as int].spec_characteristics(),
            b[n as int].spec_characteristics(),
            a[n as int].spec_characteristics().len(),
        );
    }
}

/// Whether two rows of characteristics under construction ask for the same
/// thing as far as addresses go: the same identifiers in the same order,
/// each with as many descriptors as its counterpart.
pub open spec fn same_requests(a: Seq<CharacteristicParts>, b: Seq<CharacteristicParts>) -> bool {
    &&& a.len() == b.len()
    &&& forall|i: int|
        0 <= i < a.len() ==> (#[trigger] a[i]).uuid == b[i].uuid && a[i].descriptors.len()
            == b[i].descriptors.len()
}

/// The first `upto` steps of two constructions that are handed the same
/// requests lead to rows of the same form with the same identifiers.
proof fn lemma_rebuild_prefix(
    first: Seq<ServiceParts>,
    targets: Seq<CharacteristicParts>,
    second: Seq<ServiceParts>,
    again: Seq<CharacteristicParts>,
    upto: int,
)
    requires
        is_construction(first, targets),
        is_construction(second, again),
        same_requests(targets, again),
        0 <= upto <= targets.len(),
    ensures
        alike(first[upto].characteristics, second[upto].characteristics),
        identities(first[upto].characteristics) == identities(second[upto].characteristics),
    decreases upto,
{
    if upto == 0 {
        assert(identities(first[0].characteristics) =~= identities(second[0].characteristics));
    } else {
        let i = upto - 1;
        lemma_rebuild_prefix(first, targets, second, again, i);
        assert(first[i].takes(targets[i], first[upto]));
        assert(second[i].takes(again[i], second[upto]));
        assert(targets[i].uuid == again[i].uuid);
        let a = first[upto].characteristics;
        let b = second[upto].characteristics;
        if identities(first[i].characteristics).contains(targets[i].uuid@) {
        } else {
            assert(a.drop_last() == first[i].characteristics);
            assert(b.drop_last() == second[i].characteristics);
            assert forall|m: int| 0 <= m < a.len() implies (
            #[trigger] a[m]).spec_descriptors().len() == b[m].spec_descriptors().len() by {
                if m < a.len() - 1 {
                    assert(a[m] == a.drop_last()[m]);
                    assert(b[m] == b.drop_last()[m]);
                }
            }
            assert forall|m: int| 0 <= m < a.len() implies identities(a)[m] == identities(
                b,
            )[m] by {
                if m < a.len() - 1 {
                    assert(a[m] == a.drop_last()[m]);
                    assert(b[m] == b.drop_last()[m]);
                    assert(identities(first[i].characteristics)[m] == identities(
                        second[i].characteristics,
                    )[m]);
                }
            }
            assert(identities(a) =~= identities(b));
        }
    }
}

/// Addresses are a function of the order in which siblings are handed in:
/// a service that is built a second time from the same requests in the same
/// order has its characteristics and their descriptors under the same
/// addresses, wherever the service stands.
pub proof fn lemma_rebuild_same_addresses(
    first: Seq<ServiceParts>,
    targets: Seq<CharacteristicParts>,
    second: Seq<ServiceParts>,
    again: Seq<CharacteristicParts>,
    n: usize,
)
    requires
        is_construction(first, targets),
        is_construction(second, again),
        same_requests(targets, again),
    ensures
        identities(first.last().characteristics) == identities(second.last().characteristics),
        characteristic_addresses(
            n,
            first.last().characteristics,
            first.last().characteristics.len(),
        ) == characteristic_addresses(
            n,
            second.last().characteristics,
            second.last().characteristics.len(),
        ),
{
    lemma_rebuild_prefix(first, targets, second, again, targets.len() as int);
    lemma_characteristic_addresses_alike(
        n,
        first.last().characteristics,
        second.last().characteristics,
        first.last().characteristics.len(),
    );
}

/// The addresses of `entries`, in their order.
pub open spec fn entry_addresses(entries: Seq<ObjectEntry>) -> Seq<Address> {
    Seq::new(entries.len(), |i: int| entries[i].address)
}

impl Tree {
    pub closed spec fn spec_base(self) -> Seq<char> {
        self.base@
    }

    pub closed spec fn spec_services(self) -> Seq<Service> {
        self.services@
    }

    /// No two services share an identifier.
    pub open spec fn wf(self) -> bool {
        distinct(self.spec_services())
    }

    #[verifier::type_invariant]
    spec fn valid(self) -> bool {
        self.wf()
    }

    /// The characteristics of the service `n`.
    pub open spec fn row(self, n: int) -> Seq<Characteristic> {
        self.spec_services()[n].spec_characteristics()
    }

    /// Whether the tree has an attribute at `address`.
    pub open spec fn contains(self, address: Address) -> bool {
        match address {
            Address::Service(n) => n < self.spec_services().len(),
            Address::Characteristic(n, m) => n < self.spec_services().len() && m < self.row(
                n as int,
            ).len(),
            Address::Descriptor(n, m, k) => n < self.spec_services().len() && m < self.row(
                n as int,
            ).len() && k < self.row(n as int)[m as int].spec_descriptors().len(),
        }
    }

    /// The identifier of the attribute at `address`.
    pub open spec fn uuid_at(self, address: Address) -> Uuid
        recommends
            self.contains(address),
    {
        match address {
            Address::Service(n) => self.spec_services()[n as int].spec_uuid(),
            Address::Characteristic(n, m) => self.row(n as int)[m as int].spec_uuid(),
            Address::Descriptor(n, m, k) => self.row(
                n as int,
            )[m as int].spec_descriptors()[k as int].spec_uuid(),
        }
    }

    /// The capabilities that the attribute at `address` serves; a service
    /// serves none.
    pub open spec fn flags_at(self, address: Address) -> Set<Capability>
        recommends
            self.contains(address),
    {
        match address {
            Address::Service(n) => Set::empty(),
            Address::Characteristic(n, m) => self.row(n as int)[m as int].spec_flags()@,
            Address::Descriptor(n, m, k) => self.row(
                n as int,
            )[m as int].spec_descriptors()[k as int].spec_flags()@,
        }
    }

    /// Every address of the tree, in the order of a walk from the first
    /// service to the last, each attribute before what stands below it.
    pub open spec fn addresses(self) -> Seq<Address> {
        service_addresses(self.spec_services(), self.spec_services().len())
    }

    /// The walk visits every attribute of the tree, and nothing else.
    pub proof fn lemma_addresses_complete(self, address: Address)
        ensures
            self.addresses().contains(address) <==> self.contains(address),
    {
        assert(self.services.len() == self.services@.len());
        assert forall|n: int| 0 <= n < self.spec_services().len() implies (
        #[trigger] self.spec_services()[n]).spec_characteristics().len() <= usize::MAX by {
            self.spec_services()[n].lemma_bounded();
        }
        lemma_service_addresses(self.spec_services(), self.spec_services().len(), address);
    }

    /// The walk comes to each attribute once: no address is listed twice.
    pub proof fn lemma_addresses_once(self)
        ensures
            self.addresses().no_duplicates(),
    {
        assert(self.services.len() == self.services@.len());
        assert forall|n: int| 0 <= n < self.spec_services().len() implies (
        #[trigger] self.spec_services()[n]).spec_characteristics().len() <= usize::MAX by {
            self.spec_services()[n].lemma_bounded();
        }
        lemma_service_addresses_once(self.spec_services(), self.spec_services().len());
    }

    /// Two trees of the same form have attributes at the same addresses,
    /// and walk them in the same order.
    pub proof fn lemma_addresses_by_form(self, other: Tree)
        requires
            self.spec_services().len() == other.spec_services().len(),
            forall|n: int|
                0 <= n < self.spec_services().len() ==> alike(
                    (#[trigger] self.spec_services()[n]).spec_characteristics(),
                    other.spec_services()[n].spec_characteristics(),
                ),
        ensures
            self.addresses() == other.addresses(),
            forall|address: Address| self.contains(address) == other.contains(address),
    {
        lemma_service_addresses_alike(
            self.spec_services(),
            other.spec_services(),
            self.spec_services().len(),
        );
        assert forall|address: Address| self.contains(address) == other.contains(address) by {
            match address {
                Address::Service(n) => {},
                Address::Characteristic(n, m) => {
                    if n < self.spec_services().len() {
                        assert(alike(
                            self.spec_services()[n as int].spec_characteristics(),
                            other.spec_services()[n as int].spec_characteristics(),
                        ));
                    }
                },
                Address::Descriptor(n, m, k) => {
                    if n < self.spec_services().len() {
                        assert(alike(
                            self.spec_services()[n as int].spec_characteristics(),
                            other.spec_services()[n as int].spec_characteristics(),
                        ));
                    }
                },
            }
        }
    }

    /// What the operations on a tree never change: its base path and the
    /// shape of each service.
    pub open spec fn same_shape(self, other: Self) -> bool {
        &&& self.spec_base() == other.spec_base()
        &&& self.spec_services().len() == other.spec_services().len()
        &&& forall|n: int|
            0 <= n < self.spec_services().len() ==> (#[trigger] self.spec_services()[n]).same_shape(
                other.spec_services()[n],
            )
    }

    /// The tree of `services` below the path `base`. Two services with one
    /// identifier are refused with `DuplicateAttribute`.
    pub fn new(base: String, services: Vec<Service>) -> (result: Result<Self, GattError>)
        ensures
            result is Ok <==> distinct(services@),
            result matches Err(error) ==> error == GattError::DuplicateAttribute,
            result matches Ok(tree) ==> tree.wf() && tree.spec_base() == base@
                && tree.spec_services() == services@,
    {
        if !all_distinct(&services) {
            return Err(GattError::DuplicateAttribute);
        }
        Ok(Tree { base, services })
    }

    /// The path below which the tree stands.
    pub fn base(&self) -> (base: &str)
        ensures
            base@ == self.spec_base(),
    {
        self.base.as_str()
    }

    /// The services, in the order in which they were added.
    pub fn services(&self) -> (services: &Vec<Service>)
        ensures
            services@ == self.spec_services(),
            distinct(services@),
    {
        proof {
            use_type_invariant(self);
        }
        &self.services
    }

    /// Whether the attribute at `address` is there and supports the
    /// request. A service supports none.
    pub open spec fn supports(self, address: Address, request: Request) -> bool {
        match address {
            Address::Service(_) => false,
            Address::Characteristic(n, m) => n < self.spec_services().len()
                && self.spec_services()[n as int].supports(m, None, request),
            Address::Descriptor(n, m, k) => n < self.spec_services().len()
                && self.spec_services()[n as int].supports(m, Some(k), request),
        }
    }

    /// The reply that is owed whatever any channel does; see
    /// `Characteristic::owes`.
    pub open spec fn owes(self, address: Address, request: Request) -> Option<Reply> {
        match address {
            Address::Characteristic(n, m) => if n < self.spec_services().len() {
                self.spec_services()[n as int].owes(m, None, request)
            } else {
                None
            },
            _ => None,
        }
    }

    /// Whether every characteristic but the one that `address` is within
    /// is in `self` what it was in `before`, channels included.
    pub open spec fn others_kept(self, before: Tree, address: Address) -> bool {
        forall|n: int, m: int|
            0 <= n < before.spec_services().len() && 0 <= m < before.row(n).len()
                && !address.within(n, m) ==> #[trigger] self.row(n)[m] == before.row(n)[m]
    }

    /// Whether every characteristic is in `self` what it was in `before`,
    /// channels included.
    pub open spec fn all_kept(self, before: Tree) -> bool {
        forall|n: int, m: int|
            0 <= n < before.spec_services().len() && 0 <= m < before.row(n).len()
                ==> #[trigger] self.row(n)[m] == before.row(n)[m]
    }

    /// The number of clients that listen to the characteristic at
    /// `address`.
    pub open spec fn subscribers_at(self, address: Address) -> usize
        recommends
            address is Characteristic,
            self.contains(address),
    {
        match address {
            Address::Characteristic(n, m) => self.row(n as int)[m as int].spec_subscribers(),
            _ => 0,
        }
    }

    /// Takes one request for the attribute at `address`, as
    /// `Characteristic::handle` does. An address at which the tree has
    /// nothing, or a service, supports no request: `UnsupportedOperation`.
    /// The call does not wait, and it touches no characteristic but the one
    /// that is addressed or that holds the descriptor addressed: a request
    /// on one characteristic leaves every other as it was, channels
    /// included.
    pub fn handle(&mut self, address: Address, request: Request) -> (result: Result<
        Reply,
        GattError,
    >)
        ensures
            final(self).wf(),
            final(self).same_shape(*old(self)),
            forall|n: int|
                0 <= n < old(self).spec_services().len() && n != address.spec_service()
                    ==> final(self).spec_services()[n] == old(self).spec_services()[n],
            final(self).others_kept(*old(self), address),
            old(self).owes(address, request) matches Some(reply) ==> result == Ok::<
                Reply,
                GattError,
            >(reply),
            !old(self).supports(address, request) ==> result == Err::<Reply, GattError>(
                GattError::UnsupportedOperation,
            ),
            old(self).supports(address, request) ==> result is Ok || result == Err::<
                Reply,
                GattError,
            >(GattError::ChannelFull) || result == Err::<Reply, GattError>(
                GattError::ChannelClosed,
            ),
            result matches Ok(reply) ==> old(self).contains(address) && Characteristic::answers(
                request,
                old(self).subscribers_at(address),
                reply,
            ),
            old(self).contains(address) ==> final(self).subscribers_at(address) == match result {
                Ok(Reply::Subscribers(count)) => count,
                _ => old(self).subscribers_at(address),
            },
    {
        proof {
            use_type_invariant(&*self);
        }
        let (n, m, k) = match address {
            Address::Service(_) => {
                return Err(GattError::UnsupportedOperation);
            },
            Address::Characteristic(n, m) => (n, m, None),
            Address::Descriptor(n, m, k) => (n, m, Some(k)),
        };
        if n >= self.services.len() {
            return Err(GattError::UnsupportedOperation);
        }
        let ghost before = self.services@;
        let mut services = Vec::new();
        std::mem::swap(&mut self.services, &mut services);
        assert(identities(self.services@) =~= Seq::<u128>::empty());
        let result = services[n].handle(m, k, request);
        proof {
            assert(identities(services@) =~= identities(before));
        }
        std::mem::swap(&mut self.services, &mut services);
        result
    }

    /// Whether `entry` says of the attribute at `address` what the host
    /// stack is to learn of it.
    pub open spec fn describes(self, entry: ObjectEntry, address: Address) -> bool {
        &&& entry.address == address
        &&& entry.path@ == address.path_text(self.spec_base())
        &&& entry.uuid@ == hyphenated_text(self.uuid_at(address)@)
        &&& entry.primary == (address matches Address::Service(n)
            && self.spec_services()[n as int].spec_primary())
        &&& entry.flags@ == self.flags_at(address)
        &&& match address.spec_parent() {
            None => entry.parent is None,
            Some(above) => entry.parent matches Some(path) && path@ == above.path_text(
                self.spec_base(),
            ),
        }
    }

    /// Whether each of `entries` says of an attribute of the tree what
    /// the host stack is to learn of it.
    pub open spec fn lists(self, entries: Seq<ObjectEntry>) -> bool {
        forall|i: int|
            0 <= i < entries.len() ==> self.contains((#[trigger] entries[i]).address)
                && self.describes(entries[i], entries[i].address)
    }

    /// What the host stack learns of the attribute at `address`, if the
    /// tree has one there.
    pub fn entry_at(&self, address: Address) -> (entry: Option<ObjectEntry>)
        ensures
            entry is Some <==> self.contains(address),
            entry matches Some(e) ==> self.describes(e, address),
    {
        let n = match address {
            Address::Service(n) => n,
            Address::Characteristic(n, _) => n,
            Address::Descriptor(n, _, _) => n,
        };
        if n >= self.services.len() {
            return None;
        }
        let service = &self.services[n];
        let path = address.path(self.base.as_str());
        let parent = match address.parent() {
            None => None,
            Some(above) => Some(above.path(self.base.as_str())),
        };
        match address {
            Address::Service(_) => Some(
                ObjectEntry {
                    address,
                    path,
                    uuid: service.uuid().to_hyphenated_string(),
                    primary: service.primary(),
                    flags: PropertyFlags::empty(),
                    parent,
                },
            ),
            Address::Characteristic(_, m) => {
                if m >= service.characteristics().len() {
                    return None;
                }
                let characteristic = &service.characteristics()[m];
                Some(
                    ObjectEntry {
                        address,
                        path,
                        uuid: characteristic.uuid().to_hyphenated_string(),
                        primary: false,
                        flags: characteristic.flags(),
                        parent,
                    },
                )
            },
            Address::Descriptor(_, m, k) => {
                if m >= service.characteristics().len() {
                    return None;
                }
                let characteristic = &service.characteristics()[m];
                if k >= characteristic.descriptors().len() {
                    return None;
                }
                let descriptor = &characteristic.descriptors()[k];
                Some(
                    ObjectEntry {
                        address,
                        path,
                        uuid: descriptor.uuid().to_hyphenated_string(),
                        primary: false,
                        flags: descriptor.flags(),
                        parent,
                    },
                )
            },
        }
    }

    /// Every object of the tree with what the host stack learns of it, in
    /// the order of `addresses`: a snapshot of a tree that does not change.
    pub fn objects(&self) -> (entries: Vec<ObjectEntry>)
        ensures
            entry_addresses(entries@) == self.addresses(),
            self.lists(entries@),
    {
        let mut entries: Vec<ObjectEntry> = Vec::new();
        let mut n: usize = 0;
        assert(entry_addresses(entries@) =~= service_addresses(self.spec_services(), 0));
        while n < self.services.len()
            invariant
                n <= self.services.len(),
                entry_addresses(entries@) == service_addresses(self.spec_services(), n as nat),
                self.lists(entries@),
            decreases self.services.len() - n,
        {
            let ghost done = entry_addresses(entries@);
            self.push_entry(&mut entries, Address::Service(n));
            let characteristics = self.services[n].characteristics();
            let ghost head = done.push(Address::Service(n));
            let mut m: usize = 0;
            assert(entry_addresses(entries@) =~= head + characteristic_addresses(
                n,
                characteristics@,
                0,
            ));
            while m < characteristics.len()
                invariant
                    n < self.services.len(),
                    characteristics@ == self.spec_services()[n as int].spec_characteristics(),
                    m <= characteristics.len(),
                    entry_addresses(entries@) == head + characteristic_addresses(
                        n,
                        characteristics@,
                        m as nat,
                    ),
                    self.lists(entries@),
                decreases characteristics.len() - m,
            {
                let ghost seen = entry_addresses(entries@);
                self.push_entry(&mut entries, Address::Characteristic(n, m));
                let descriptors = characteristics[m].descriptors();
                let ghost middle = seen.push(Address::Characteristic(n, m));
                let mut k: usize = 0;
                assert(entry_addresses(entries@) =~= middle + descriptor_addresses(n, m, 0));
                while k < descriptors.len()
                    invariant
                        n < self.services.len(),
                        m < characteristics.len(),
                        characteristics@ == self.spec_services()[n as int].spec_characteristics(),
                        descriptors@ == characteristics@[m as int].spec_descriptors(),
                        k <= descriptors.len(),
                        entry_addresses(entries@) == middle + descriptor_addresses(
                            n,
                            m,
                            k as nat,
                        ),
                        self.lists(entries@),
                    decreases descriptors.len() - k,
                {
                    self.push_entry(&mut entries, Address::Descriptor(n, m, k));
                    assert(entry_addresses(entries@) =~= middle + descriptor_addresses(
                        n,
                        m,
                        (k + 1) as nat,
                    ));
                    k += 1;
                }
                assert(entry_addresses(entries@) =~= head + characteristic_addresses(
                    n,
                    characteristics@,
                    (m + 1) as nat,
                ));
                m += 1;
            }
            assert(entry_addresses(entries@) =~= service_addresses(
                self.spec_services(),
                (n + 1) as nat,
            ));
            n += 1;
        }
        entries
    }

    /// Puts what the host stack learns of the attribute at `address` at the
    /// end of `entries`.
    fn push_entry(&self, entries: &mut Vec<ObjectEntry>, address: Address)
        requires
            self.contains(address),
            self.lists(old(entries)@),
        ensures
            self.lists(final(entries)@),
            entry_addresses(final(entries)@) == entry_addresses(old(entries)@).push(address),
    {
        match self.entry_at(address) {
            Some(entry) => {
                entries.push(entry);
                assert forall|i: int| 0 <= i < entries.len() implies self.contains(
                    (#[trigger] entries[i]).address,
                ) && self.describes(entries[i], entries[i].address) by {
                    if i < old(entries)@.len() {
                        assert(entries[i] == old(entries)@[i]);
                    }
                }
                assert(entry_addresses(entries@) =~= entry_addresses(old(entries)@).push(
                    address,
                ));
            },
            None => {
                assert(false);
            },
        }
    }

    /// Whether `address` is the attribute of the tree that is seen under
    /// `path`.
    pub open spec fn seen_at(self, address: Address, path: Seq<char>) -> bool {
        self.contains(address) && address.path_text(self.spec_base()) == path
    }

    /// The address of the attribute that is seen under `path`, if the tree
    /// has one there. By `Address::lemma_path_injective` there is at most
    /// one.
    pub fn resolve(&self, path: &str) -> (found: Option<Address>)
        ensures
            found matches Some(address) ==> self.seen_at(address, path@),
            found is None ==> forall|address: Address| !self.seen_at(address, path@),
    {
        let wanted = String::from_str(path);
        let entries = self.objects();
        let mut i: usize = 0;
        while i < entries.len()
            invariant
                i <= entries.len(),
                wanted@ == path@,
                self.lists(entries@),
                forall|j: int| 0 <= j < i ==> (#[trigger] entries[j]).path@ != path@,
            decreases entries.len() - i,
        {
            if entries[i].path == wanted {
                return Some(entries[i].address);
            }
            i += 1;
        }
        proof {
            assert forall|address: Address| !self.seen_at(address, path@) by {
                if self.seen_at(address, path@) {
                    self.lemma_addresses_complete(address);
                    let walked = entry_addresses(entries@);
                    let j = choose|j: int| 0 <= j < walked.len() && walked[j] == address;
                    assert(entries[j].address == address);
                    assert(entries[j].path@ == path@);
                }
            }
        }
        None
    }

    /// Whether the tree has an attribute under `path` that supports the
    /// request.
    pub open spec fn serves(self, path: Seq<char>, request: Request) -> bool {
        exists|address: Address| #[trigger]
            self.seen_at(address, path) && self.supports(address, request)
    }

    /// Whether every characteristic but the one that the attribute under
    /// `path` is within is in `self` what it was in `before`; where nothing
    /// is seen under `path`, every characteristic.
    pub open spec fn kept_but(self, before: Tree, path: Seq<char>) -> bool {
        &&& forall|address: Address| #[trigger]
            before.seen_at(address, path) ==> self.others_kept(before, address)
        &&& (forall|address: Address| !before.seen_at(address, path)) ==> self.all_kept(before)
    }

    /// Whether `reply` is owed to the request on the attribute under `path`
    /// whatever any channel does; see `Characteristic::owes`.
    pub open spec fn owes_at(self, path: Seq<char>, request: Request, reply: Reply) -> bool {
        exists|address: Address| #[trigger]
            self.seen_at(address, path) && self.owes(address, request) == Some(reply)
    }

    /// Takes one request for the attribute that is seen under `path`, as
    /// `handle` does for its address. A path under which the tree has
    /// nothing supports no request: `UnsupportedOperation`. No
    /// characteristic but the one addressed is touched.
    pub fn request(&mut self, path: &str, request: Request) -> (result: Result<Reply, GattError>)
        ensures
            final(self).wf(),
            final(self).same_shape(*old(self)),
            final(self).kept_but(*old(self), path@),
            forall|reply: Reply| #[trigger]
                old(self).owes_at(path@, request, reply) ==> result == Ok::<Reply, GattError>(
                    reply,
                ),
            !old(self).serves(path@, request) ==> result == Err::<Reply, GattError>(
                GattError::UnsupportedOperation,
            ),
            old(self).serves(path@, request) ==> result is Ok || result == Err::<
                Reply,
                GattError,
            >(GattError::ChannelFull) || result == Err::<Reply, GattError>(
                GattError::ChannelClosed,
            ),
            result matches Ok(reply) ==> match request {
                Request::Read => reply is Pending,
                Request::Write(_) => reply is Pending,
                _ => reply is Subscribers,
            },
    {
        proof {
            use_type_invariant(&*self);
        }
        match self.resolve(path) {
            None => Err(GattError::UnsupportedOperation),
            Some(address) => {
                proof {
                    assert forall|other: Address| #[trigger]
                        self.seen_at(other, path@) implies other == address by {
                        Address::lemma_path_injective(other, address, self.spec_base());
                    }
                    if self.supports(address, request) {
                        assert(self.seen_at(address, path@));
                    }
                    assert(self.seen_at(address, path@));
                }
                self.handle(address, request)
            },
        }
    }

    /// A remote read of the attribute under `path`: the read-value call of
    /// the host stack. Without the read flag on that attribute, or without
    /// an attribute there, the answer is `UnsupportedOperation` and nothing
    /// reaches the application. Otherwise the read request is offered to
    /// the attribute's read channel: the pending reply, or `ChannelFull`,
    /// or `ChannelClosed`.
    pub fn read_value(&mut self, path: &str) -> (result: Result<Pending, GattError>)
        ensures
            final(self).wf(),
            final(self).same_shape(*old(self)),
            final(self).kept_but(*old(self), path@),
            !old(self).serves(path@, Request::Read) ==> result matches Err(
                GattError::UnsupportedOperation,
            ),
            old(self).serves(path@, Request::Read) ==> result is Ok || (result matches Err(
                GattError::ChannelFull,
            )) || (result matches Err(GattError::ChannelClosed)),
    {
        match self.request(path, Request::Read) {
            Ok(Reply::Pending(pending)) => Ok(pending),
            Ok(Reply::Subscribers(_)) => Err(GattError::UnsupportedOperation),
            Err(error) => Err(error),
        }
    }

    /// A remote write of `payload` to the attribute under `path`: the
    /// write-value call of the host stack, with the answers of
    /// `read_value`.
    pub fn write_value(&mut self, path: &str, payload: Vec<u8>) -> (result: Result<
        Pending,
        GattError,
    >)
        ensures
            final(self).wf(),
            final(self).same_shape(*old(self)),
            final(self).kept_but(*old(self), path@),
            !old(self).serves(path@, Request::Write(payload)) ==> result matches Err(
                GattError::UnsupportedOperation,
            ),
            old(self).serves(path@, Request::Write(payload)) ==> result is Ok || (
            result matches Err(GattError::ChannelFull)) || (result matches Err(
                GattError::ChannelClosed,
            )),
    {
        match self.request(path, Request::Write(payload)) {
            Ok(Reply::Pending(pending)) => Ok(pending),
            Ok(Reply::Subscribers(_)) => Err(GattError::UnsupportedOperation),
            Err(error) => Err(error),
        }
    }
}

} // verus!
