//! A provider that serves a pool of known addresses in rotation, on top of
//! any other provider.
//!
//! The rotation is round-robin with wraparound: the pool is served oldest
//! first, each call hands out the address under the cursor and moves the
//! cursor one on, and behind the last address the cursor goes back to the
//! first. Nothing is ever taken out of the pool.

use crate::address::{
    bundle_views, document_bundle, AddressBundle, AddressProvider, BundleView, KeyRecordError,
    ProviderError,
};
use vstd::arithmetic::div_mod::{lemma_mod_self_0, lemma_small_mod};
use vstd::prelude::*;

verus! {

/// Where the cursor stands after one step from `cursor` in a pool of
/// `len` addresses.
pub open spec fn step_cursor(cursor: nat, len: nat) -> nat {
    if len == 0 {
        cursor
    } else {
        (cursor + 1) % len
    }
}

/// Where the cursor stands after `steps` steps from `start`.
pub open spec fn cursor_after(start: nat, len: nat, steps: nat) -> nat
    decreases steps,
{
    if steps == 0 {
        start
    } else {
        step_cursor(cursor_after(start, len, (steps - 1) as nat), len)
    }
}

/// Stepping the cursor keeps it inside the pool and moves it to the next
/// slot, or from the last slot to the first.
pub proof fn lemma_step_cursor(cursor: nat, len: nat)
    requires
        cursor < len,
    ensures
        step_cursor(cursor, len) < len,
        step_cursor(cursor, len) == if cursor + 1 == len {
            0
        } else {
            cursor + 1
        },
{
    if cursor + 1 == len {
        lemma_mod_self_0(len as int);
    } else {
        lemma_small_mod(cursor + 1, len);
    }
}

/// After `steps` steps, with `steps` up to the size of the pool, the
/// cursor stands `steps` slots behind its start, wrapped round once at
/// most.
pub proof fn lemma_cursor_after(start: nat, len: nat, steps: nat)
    requires
        start < len,
        steps <= len,
    ensures
        cursor_after(start, len, steps) < len,
        cursor_after(start, len, steps) == if start + steps < len {
            start + steps
        } else {
            (start + steps - len) as nat
        },
    decreases steps,
{
    if steps > 0 {
        lemma_cursor_after(start, len, (steps - 1) as nat);
        lemma_step_cursor(cursor_after(start, len, (steps - 1) as nat), len);
    }
}

/// Whether `slot` is served within the first `len` calls from `start`.
pub open spec fn served_in_round(start: nat, len: nat, slot: nat) -> bool {
    exists|i: nat| i < len && cursor_after(start, len, i) == slot
}

/// One round over a pool of `len` addresses serves every slot before any
/// slot twice: the first `len` calls are served from `len` different
/// slots, and every slot is among them.
pub proof fn lemma_rotation_serves_all_before_repeat(start: nat, len: nat)
    requires
        start < len,
    ensures
        forall|i: nat, j: nat|
            i < j < len ==> cursor_after(start, len, i) != cursor_after(start, len, j),
        forall|slot: nat| slot < len ==> #[trigger] served_in_round(start, len, slot),
        cursor_after(start, len, len) == start,
{
    assert forall|i: nat, j: nat| i < j < len implies cursor_after(start, len, i) != cursor_after(
        start,
        len,
        j,
    ) by {
        lemma_cursor_after(start, len, i);
        lemma_cursor_after(start, len, j);
    }
    assert forall|slot: nat| slot < len implies #[trigger] served_in_round(start, len, slot) by {
        let i: nat = if slot >= start {
            (slot - start) as nat
        } else {
            (slot + len - start) as nat
        };
        lemma_cursor_after(start, len, i);
        assert(i < len && cursor_after(start, len, i) == slot);
    }
    lemma_cursor_after(start, len, len);
}

/// Whether entry `i` comes before entry `j` when the oldest comes first:
/// it is older, or as old and earlier in the list.
pub open spec fn is_older(times: Seq<u128>, i: int, j: int) -> bool {
    times[i] < times[j] || (times[i] == times[j] && i < j)
}

/// Whether `order` holds the position `i`.
pub open spec fn holds_position(order: Seq<usize>, i: int) -> bool {
    exists|k: int| 0 <= k < order.len() && order[k] == i
}

/// Whether `order` lists the positions of `times` oldest first: every
/// position once, each before all that are younger, and entries of the
/// same age in the order of the list.
pub open spec fn is_oldest_first(times: Seq<u128>, order: Seq<usize>) -> bool {
    &&& order.len() == times.len()
    &&& forall|k: int| 0 <= k < order.len() ==> (#[trigger] order[k]) < times.len()
    &&& forall|k: int, l: int|
        0 <= k < l < order.len() ==> is_older(times, #[trigger] order[k] as int, #[trigger] order[l] as int)
    &&& forall|i: int| 0 <= i < times.len() ==> #[trigger] holds_position(order, i)
}

/// There is one way only to list the positions oldest first.
pub proof fn lemma_oldest_first_is_unique(times: Seq<u128>, a: Seq<usize>, b: Seq<usize>)
    requires
        is_oldest_first(times, a),
        is_oldest_first(times, b),
    ensures
        a == b,
{
    assert forall|k: int| 0 <= k < a.len() implies a[k] == b[k] by {
        lemma_same_up_to(times, a, b, k);
    }
    assert(a =~= b);
}

/// Two listings oldest first agree at `k` and everywhere before it.
proof fn lemma_same_up_to(times: Seq<u128>, a: Seq<usize>, b: Seq<usize>, k: int)
    requires
        is_oldest_first(times, a),
        is_oldest_first(times, b),
        0 <= k < a.len(),
    ensures
        forall|j: int| 0 <= j <= k ==> a[j] == b[j],
    decreases k,
{
    if k > 0 {
        lemma_same_up_to(times, a, b, k - 1);
    }
    let x = a[k] as int;
    let y = b[k] as int;
    if x != y {
        lemma_not_misplaced(times, a, b, k);
        lemma_not_misplaced(times, b, a, k);
        assert(is_older(times, x, y) || is_older(times, y, x));
    }
}

/// Where two listings agree before `k` and differ at `k`, the entry of
/// the first does not come before the entry of the second.
proof fn lemma_not_misplaced(times: Seq<u128>, a: Seq<usize>, b: Seq<usize>, k: int)
    requires
        is_oldest_first(times, a),
        is_oldest_first(times, b),
        0 <= k < a.len(),
        forall|j: int| 0 <= j < k ==> a[j] == b[j],
        a[k] != b[k],
    ensures
        !is_older(times, a[k] as int, b[k] as int),
{
    let x = a[k] as int;
    assert(holds_position(b, x));
    let m = choose|m: int| 0 <= m < b.len() && b[m] == x;
    if m < k {
        assert(a[m] == b[m]);
        assert(is_older(times, a[m] as int, a[k] as int));
    } else {
        assert(m > k);
        assert(is_older(times, b[k] as int, b[m] as int));
    }
}

/// Lists the positions of `times` oldest first.
pub fn oldest_first(times: &Vec<u128>) -> (order: Vec<usize>)
    ensures
        is_oldest_first(times@, order@),
{
    let mut order: Vec<usize> = Vec::new();
    let mut i: usize = 0;
    while i < times.len()
        invariant
            i <= times.len(),
            order@.len() == i,
            forall|k: int| 0 <= k < order@.len() ==> (#[trigger] order@[k]) < i,
            forall|k: int, l: int|
                0 <= k < l < order@.len() ==> is_older(
                    times@,
                    #[trigger] order@[k] as int,
                    #[trigger] order@[l] as int,
                ),
            forall|j: int| 0 <= j < i ==> #[trigger] holds_position(order@, j),
        decreases times.len() - i,
    {
        let mut at: usize = 0;
        while at < order.len() && times[order[at]] <= times[i]
            invariant
                i < times.len(),
                at <= order@.len(),
                order@.len() == i,
                forall|k: int| 0 <= k < order@.len() ==> (#[trigger] order@[k]) < i,
                forall|k: int| 0 <= k < at ==> times@[(#[trigger] order@[k]) as int] <= times@[i as int],
            decreases order@.len() - at,
        {
            at += 1;
        }
        let ghost before = order@;
        order.insert(at, i);
        proof {
            let after = order@;
            assert(after == before.insert(at as int, i));
            assert forall|k: int| 0 <= k < after.len() implies (#[trigger] after[k]) < i + 1 by {
                if k < at {
                    assert(after[k] == before[k]);
                } else if k > at {
                    assert(after[k] == before[k - 1]);
                }
            }
            assert forall|k: int, l: int| 0 <= k < l < after.len() implies is_older(
                times@,
                #[trigger] after[k] as int,
                #[trigger] after[l] as int,
            ) by {
                if l < at {
                    assert(after[k] == before[k] && after[l] == before[l]);
                } else if l == at {
                    assert(after[k] == before[k]);
                } else if k == at {
                    assert(after[l] == before[l - 1]);
                    if l - 1 > at {
                        assert(is_older(times@, before[at as int] as int, before[l - 1] as int));
                    }
                } else if k < at {
                    assert(after[k] == before[k] && after[l] == before[l - 1]);
                } else {
                    assert(after[k] == before[k - 1] && after[l] == before[l - 1]);
                }
            }
            assert forall|j: int| 0 <= j < i + 1 implies #[trigger] holds_position(after, j) by {
                if j == i {
                    assert(after[at as int] == j);
                } else {
                    assert(holds_position(before, j));
                    let k = choose|k: int| 0 <= k < before.len() && before[k] == j;
                    if k < at {
                        assert(after[k] == j);
                    } else {
                        assert(after[k + 1] == j);
                    }
                }
            }
        }
        i += 1;
    }
    order
}

/// A key record as it was found: when it was last written, in nanoseconds
/// since the start of 1970, and what it says.
#[derive(Debug)]
pub struct KeyFile {
    pub modified: u128,
    pub document: String,
}

/// When each of the records was last written.
pub open spec fn times_of(records: Seq<KeyFile>) -> Seq<u128> {
    records.map_values(|r: KeyFile| r.modified)
}

/// The records' documents in the order that `order` lists them.
pub open spec fn arranged(records: Seq<KeyFile>, order: Seq<usize>) -> Seq<Seq<char>> {
    Seq::new(order.len(), |k: int| records[order[k] as int].document@)
}

/// Whether none of the documents holds an address that cannot be read.
pub open spec fn addresses_readable(documents: Seq<Seq<char>>) -> bool {
    forall|i: int|
        0 <= i < documents.len() ==> #[trigger] document_bundle(documents[i]) != Err::<
            BundleView,
            KeyRecordError,
        >(KeyRecordError::AddressUnreadable)
}

/// The bundles of the documents that hold one, in the documents' order.
/// Documents that are malformed or hold unreadable keys are passed over.
pub open spec fn kept_bundles(documents: Seq<Seq<char>>) -> Seq<BundleView>
    decreases documents.len(),
{
    if documents.len() == 0 {
        Seq::empty()
    } else {
        match document_bundle(documents.last()) {
            Ok(bundle) => kept_bundles(documents.drop_last()).push(bundle),
            Err(_) => kept_bundles(documents.drop_last()),
        }
    }
}

/// Reads the pool out of the records, taken in the order that `order`
/// lists them. A record that is malformed or holds unreadable keys is
/// passed over; one whose address cannot be read fails the whole reading.
pub fn load_pool(records: &Vec<KeyFile>, order: &Vec<usize>) -> (pool: Result<
    Vec<AddressBundle>,
    KeyRecordError,
>)
    requires
        forall|k: int| 0 <= k < order@.len() ==> (#[trigger] order@[k]) < records@.len(),
    ensures
        match pool {
            Ok(list) => addresses_readable(arranged(records@, order@)) && bundle_views(list@)
                == kept_bundles(arranged(records@, order@)),
            Err(why) => why == KeyRecordError::AddressUnreadable && !addresses_readable(
                arranged(records@, order@),
            ),
        },
{
    let ghost documents = arranged(records@, order@);
    let mut list: Vec<AddressBundle> = Vec::new();
    let mut k: usize = 0;
    while k < order.len()
        invariant
            k <= order@.len(),
            documents == arranged(records@, order@),
            forall|j: int| 0 <= j < order@.len() ==> (#[trigger] order@[j]) < records@.len(),
            addresses_readable(documents.take(k as int)),
            bundle_views(list@) == kept_bundles(documents.take(k as int)),
        decreases order@.len() - k,
    {
        let ghost seen = documents.take(k as int);
        let ghost next = documents.take(k + 1);
        proof {
            assert(next.drop_last() == seen);
            assert(next.last() == documents[k as int]);
        }
        match AddressBundle::from_document(records[order[k]].document.as_str()) {
            Ok(bundle) => {
                list.push(bundle);
                assert(bundle_views(list@) =~= kept_bundles(seen).push(bundle@));
            },
            Err(KeyRecordError::AddressUnreadable) => {
                assert(document_bundle(documents[k as int]) == Err::<BundleView, KeyRecordError>(
                    KeyRecordError::AddressUnreadable,
                ));
                return Err(KeyRecordError::AddressUnreadable);
            },
            Err(_) => {},
        }
        proof {
            assert forall|i: int| 0 <= i < next.len() implies #[trigger] document_bundle(next[i])
                != Err::<BundleView, KeyRecordError>(KeyRecordError::AddressUnreadable) by {
                if i < k {
                    assert(next[i] == seen[i]);
                }
            }
        }
        k += 1;
    }
    assert(documents.take(k as int) == documents);
    Ok(list)
}

/// A pool of addresses served in rotation, and the provider that makes new
/// ones and signs.
pub struct PrefillProvider<P: AddressProvider> {
    inner: P,
    list: Vec<AddressBundle>,
    index: usize,
}

impl<P: AddressProvider> PrefillProvider<P> {
    #[verifier::type_invariant]
    spec fn cursor_in_pool(&self) -> bool {
        if self.list@.len() == 0 {
            self.index == 0
        } else {
            self.index < self.list@.len()
        }
    }

    /// The pool, oldest first.
    pub closed spec fn pool(&self) -> Seq<BundleView> {
        bundle_views(self.list@)
    }

    /// The slot that is served next.
    pub closed spec fn cursor(&self) -> nat {
        self.index as nat
    }

    /// The provider underneath.
    pub closed spec fn inner(&self) -> P {
        self.inner
    }

    /// A rotation over `list`, which is taken as it is ordered, starting at
    /// its first address.
    pub fn new(inner: P, list: Vec<AddressBundle>) -> (provider: Self)
        ensures
            provider.pool() == bundle_views(list@),
            provider.cursor() == 0,
            provider.inner() == inner,
    {
        PrefillProvider { inner, list, index: 0 }
    }

    /// A rotation over the bundles that the records hold, oldest record
    /// first, starting at the first of them. Fails where a record's
    /// address cannot be read.
    pub fn from_records(inner: P, records: &Vec<KeyFile>) -> (made: Result<Self, KeyRecordError>)
        ensures
            forall|order: Seq<usize>| #[trigger]
                is_oldest_first(times_of(records@), order) ==> match made {
                    Ok(provider) => addresses_readable(arranged(records@, order))
                        && provider.pool() == kept_bundles(arranged(records@, order))
                        && provider.cursor() == 0 && provider.inner() == inner,
                    Err(why) => why == KeyRecordError::AddressUnreadable && !addresses_readable(
                        arranged(records@, order),
                    ),
                },
    {
        let mut times: Vec<u128> = Vec::new();
        let mut i: usize = 0;
        while i < records.len()
            invariant
                i <= records.len(),
                times@ == times_of(records@).take(i as int),
            decreases records.len() - i,
        {
            times.push(records[i].modified);
            i += 1;
            assert(times@ =~= times_of(records@).take(i as int));
        }
        assert(times_of(records@).take(i as int) == times_of(records@));
        let order = oldest_first(&times);
        let loaded = load_pool(records, &order);
        proof {
            assert forall|other: Seq<usize>| #[trigger]
                is_oldest_first(times_of(records@), other) implies other == order@ by {
                lemma_oldest_first_is_unique(times_of(records@), other, order@);
            }
        }
        match loaded {
            Ok(list) => Ok(PrefillProvider::new(inner, list)),
            Err(why) => Err(why),
        }
    }

    /// Hands out the address under the cursor and moves the cursor on;
    /// `None` when the pool is empty.
    pub fn rotate(&mut self) -> (served: Option<AddressBundle>)
        ensures
            final(self).pool() == old(self).pool(),
            final(self).inner() == old(self).inner(),
            final(self).cursor() == step_cursor(old(self).cursor(), old(self).pool().len()),
            old(self).pool().len() == 0 ==> served is None,
            old(self).pool().len() > 0 ==> old(self).cursor() < old(self).pool().len(),
            old(self).pool().len() > 0 ==> (served matches Some(bundle) && bundle@ == old(
                self,
            ).pool()[old(self).cursor() as int]),
    {
        proof {
            use_type_invariant(&*self);
        }
        let len = self.list.len();
        if len == 0 {
            return None;
        }
        let at = self.index;
        let bundle = self.list[at].clone();
        proof {
            lemma_step_cursor(at as nat, len as nat);
        }
        self.index = if at + 1 == len {
            0
        } else {
            at + 1
        };
        Some(bundle)
    }
}

impl<P: AddressProvider> AddressProvider for PrefillProvider<P> {
    /// Makes a new address with the provider underneath. The pool stays as
    /// it is.
    fn new_address(&self) -> (made: Result<AddressBundle, ProviderError>) {
        self.inner.new_address()
    }

    fn sign_message_raw(&self, privkey: &[u8; 32], message: &str) -> (signed: Result<
        [u8; 64],
        ProviderError,
    >) {
        self.inner.sign_message_raw(privkey, message)
    }

    fn current_index(&self) -> (index: usize)
        ensures
            index == self.cursor(),
    {
        self.index
    }

    fn total_addresses(&self) -> (total: usize)
        ensures
            total == self.pool().len(),
    {
        self.list.len()
    }

    /// The next address of the rotation; a new address from the provider
    /// underneath when the pool is empty.
    fn next_address(&mut self) -> (next: Result<AddressBundle, ProviderError>)
        ensures
            final(self).pool() == old(self).pool(),
            final(self).cursor() == step_cursor(old(self).cursor(), old(self).pool().len()),
            old(self).pool().len() > 0 ==> (next matches Ok(bundle) && bundle@ == old(
                self,
            ).pool()[old(self).cursor() as int]),
            old(self).pool().len() == 0 ==> (next matches Ok(bundle) ==> old(self).inner().makes(
                bundle@,
            )),
            final(self).inner() == old(self).inner(),
    {
        match self.rotate() {
            Some(bundle) => Ok(bundle),
            None => self.inner.new_address(),
        }
    }

    fn all_addresses(&self) -> (all: Result<Vec<AddressBundle>, ProviderError>)
        ensures
            (all matches Ok(list) && bundle_views(list@) == self.pool()),
    {
        let mut out: Vec<AddressBundle> = Vec::new();
        let mut i: usize = 0;
        while i < self.list.len()
            invariant
                i <= self.list.len(),
                out@.len() == i,
                forall|j: int| 0 <= j < i ==> (#[trigger] out@[j])@ == self.list@[j]@,
            decreases self.list.len() - i,
        {
            out.push(self.list[i].clone());
            i += 1;
        }
        assert(bundle_views(out@) =~= bundle_views(self.list@));
        Ok(out)
    }

    /// New addresses are what the provider underneath makes.
    open spec fn makes(&self, bundle: BundleView) -> bool {
        self.inner().makes(bundle)
    }

    /// Signing is the signing of the provider underneath.
    open spec fn always_signs(&self) -> bool {
        self.inner().always_signs()
    }
}

} // verus!
