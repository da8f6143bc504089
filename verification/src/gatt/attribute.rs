//! What the attributes of one parent have in common: each is known by its
//! identifier, and no two of them share one.

use crate::uuid::Uuid;
use vstd::prelude::*;

verus! {

/// A node of the tree that is known among its siblings by its identifier.
pub trait Attribute: Sized {
    /// The number of the node's identifier.
    spec fn identity(&self) -> u128;

    fn uuid(&self) -> (uuid: Uuid)
        ensures
            uuid@ == self.identity(),
    ;
}

/// The identifiers of `items`, in their order.
pub open spec fn identities<A: Attribute>(items: Seq<A>) -> Seq<u128> {
    Seq::new(items.len(), |i: int| items[i].identity())
}

/// No two of `items` share an identifier.
pub open spec fn distinct<A: Attribute>(items: Seq<A>) -> bool {
    identities(items).no_duplicates()
}

/// `items` with `item` at the end, unless its identifier is taken already:
/// then `items` as it is. A duplicate is turned away, never written over.
pub open spec fn inserted<A: Attribute>(items: Seq<A>, item: A) -> Seq<A> {
    if identities(items).contains(item.identity()) {
        items
    } else {
        items.push(item)
    }
}

/// Inserting keeps the siblings distinct, and adds the new identifier to
/// the set of those present.
pub proof fn lemma_inserted<A: Attribute>(items: Seq<A>, item: A)
    requires
        distinct(items),
    ensures
        distinct(inserted(items, item)),
        identities(inserted(items, item)).to_set() == identities(items).to_set().insert(
            item.identity(),
        ),
{
    let before = identities(items);
    let after = identities(inserted(items, item));
    if before.contains(item.identity()) {
        assert(before.to_set().insert(item.identity()) =~= before.to_set());
    } else {
        assert(after =~= before.push(item.identity()));
        assert forall|i: int, j: int| 0 <= i < after.len() && 0 <= j < after.len() && i != j
            implies after[i] != after[j] by {
            if i < before.len() {
                assert(before[i] == after[i]);
            }
            if j < before.len() {
                assert(before[j] == after[j]);
            }
        }
        assert forall|u: u128|
            after.to_set().contains(u) <==> before.to_set().insert(item.identity()).contains(
                u,
            ) by {
            if after.to_set().contains(u) {
                let i = choose|i: int| 0 <= i < after.len() && after[i] == u;
                if i < before.len() {
                    assert(before[i] == u);
                }
            }
            if before.to_set().contains(u) {
                let i = choose|i: int| 0 <= i < before.len() && before[i] == u;
                assert(after[i] == u);
            }
            if u == item.identity() {
                assert(after[before.len() as int] == u);
            }
        }
        assert(after.to_set() =~= before.to_set().insert(item.identity()));
    }
}

/// What becomes of `start` when `items` are inserted one after the other.
pub open spec fn inserted_all<A: Attribute>(start: Seq<A>, items: Seq<A>) -> Seq<A>
    decreases items.len(),
{
    if items.len() == 0 {
        start
    } else {
        inserted(inserted_all(start, items.drop_last()), items.last())
    }
}

/// However many attributes are inserted under one parent, and in whatever
/// order, the parent holds one attribute for each distinct identifier: the
/// siblings stay distinct, their identifiers are those that were there and
/// those that came, and beginning with none they are as many as there are
/// distinct identifiers among those that came.
pub proof fn lemma_inserted_all<A: Attribute>(start: Seq<A>, items: Seq<A>)
    requires
        distinct(start),
    ensures
        distinct(inserted_all(start, items)),
        identities(inserted_all(start, items)).to_set() == identities(start).to_set().union(
            identities(items).to_set(),
        ),
        start.len() == 0 ==> inserted_all(start, items).len() == identities(
            items,
        ).to_set().len(),
    decreases items.len(),
{
    let all = inserted_all(start, items);
    if items.len() == 0 {
        assert(identities(items).to_set() =~= Set::<u128>::empty());
        assert(identities(all).to_set() =~= identities(start).to_set().union(
            identities(items).to_set(),
        ));
    } else {
        let before = inserted_all(start, items.drop_last());
        lemma_inserted_all(start, items.drop_last());
        lemma_inserted(before, items.last());
        let earlier = identities(items.drop_last());
        let now = identities(items);
        assert(now =~= earlier.push(items.last().identity()));
        assert(now.to_set() =~= earlier.to_set().insert(items.last().identity())) by {
            assert forall|u: u128|
                now.to_set().contains(u) <==> earlier.to_set().insert(
                    items.last().identity(),
                ).contains(u) by {
                if now.contains(u) {
                    let i = choose|i: int| 0 <= i < now.len() && now[i] == u;
                    if i < earlier.len() {
                        assert(earlier[i] == u);
                    }
                }
                if earlier.contains(u) {
                    let i = choose|i: int| 0 <= i < earlier.len() && earlier[i] == u;
                    assert(now[i] == u);
                }
                if u == items.last().identity() {
                    assert(now[earlier.len() as int] == u);
                }
            }
        }
        assert(identities(all).to_set() =~= identities(start).to_set().union(now.to_set()));
    }
    if start.len() == 0 {
        assert(identities(start).to_set() =~= Set::<u128>::empty());
        assert(identities(all).to_set() =~= identities(items).to_set());
        identities(all).unique_seq_to_set();
    }
}

/// Where among `items` the attribute `uuid` stands, if it is there.
pub fn position<A: Attribute>(items: &Vec<A>, uuid: Uuid) -> (found: Option<usize>)
    ensures
        found is Some <==> identities(items@).contains(uuid@),
        found matches Some(i) ==> i < items.len() && items[i as int].identity() == uuid@
            && forall|j: int| 0 <= j < i ==> items[j].identity() != uuid@,
{
    let mut i: usize = 0;
    while i < items.len()
        invariant
            i <= items.len(),
            forall|j: int| 0 <= j < i ==> items[j].identity() != uuid@,
        decreases items.len() - i,
    {
        if items[i].uuid().as_u128() == uuid.as_u128() {
            proof {
                assert(identities(items@)[i as int] == uuid@);
            }
            return Some(i);
        }
        i += 1;
    }
    proof {
        if identities(items@).contains(uuid@) {
            let j = choose|j: int|
                0 <= j < identities(items@).len() && identities(items@)[j] == uuid@;
            assert(items[j].identity() == uuid@);
        }
    }
    None
}

/// Whether no two of `items` share an identifier.
pub fn all_distinct<A: Attribute>(items: &Vec<A>) -> (unique: bool)
    ensures
        unique == distinct(items@),
{
    let mut i: usize = 0;
    while i < items.len()
        invariant
            i <= items.len(),
            distinct(items@.take(i as int)),
        decreases items.len() - i,
    {
        let ghost prefix = items@.take(i as int);
        let mut j: usize = 0;
        while j < i
            invariant
                j <= i,
                i < items.len(),
                forall|k: int| 0 <= k < j ==> items[k].identity() != items[i as int].identity(),
            decreases i - j,
        {
            if items[j].uuid().as_u128() == items[i].uuid().as_u128() {
                proof {
                    let ids = identities(items@);
                    assert(ids[j as int] == ids[i as int]);
                }
                return false;
            }
            j += 1;
        }
        proof {
            let ids = identities(items@.take(i as int + 1));
            let earlier = identities(prefix);
            assert forall|a: int, b: int| 0 <= a < ids.len() && 0 <= b < ids.len() && a != b
                implies ids[a] != ids[b] by {
                if a < i && b < i {
                    assert(earlier[a] == ids[a]);
                    assert(earlier[b] == ids[b]);
                }
            }
        }
        i += 1;
    }
    proof {
        assert(items@.take(i as int) =~= items@);
    }
    true
}

/// Puts `item` at the end of `items` unless its identifier is taken, and
/// says whether it was put there.
pub fn insert_unique<A: Attribute>(items: &mut Vec<A>, item: A) -> (added: bool)
    ensures
        added <==> !identities(old(items)@).contains(item.identity()),
        final(items)@ == inserted(old(items)@, item),
{
    match position(items, item.uuid()) {
        Some(_) => false,
        None => {
            items.push(item);
            true
        },
    }
}

} // verus!
