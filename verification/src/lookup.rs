//! What a query answers: the entry of the most specific block that holds the
//! address.
//!
//! The blocks of a database may nest: a block of the registry and, inside it,
//! the block that was handed on to a manufacturer. An address in both is
//! answered with the manufacturer's entry. More than two blocks around one
//! address are taken as a fault of the database.

use crate::block::{lemma_longer_prefix_lies_within, AddressBlock};
use crate::entry::OuiEntryView;
use crate::error::OuiError;
use vstd::prelude::*;
use vstd::set_lib::lemma_len_subset;

verus! {

/// Whether the block `key`, given by its first and its last address, holds
/// `addr`.
pub open spec fn covers(key: (u64, u64), addr: u64) -> bool {
    key.0 <= addr <= key.1
}

/// The blocks of `entries` that hold `addr`.
pub open spec fn covering(entries: Map<(u64, u64), OuiEntryView>, addr: u64) -> Set<(u64, u64)> {
    Set::new(|key: (u64, u64)| entries.contains_key(key) && covers(key, addr))
}

/// Whether the block `a` is more specific than `b`: it starts later, or it
/// starts at the same address and ends earlier. Of two blocks of which one
/// lies within the other, the inner one is the more specific.
pub open spec fn more_specific(a: (u64, u64), b: (u64, u64)) -> bool {
    a.0 > b.0 || (a.0 == b.0 && a.1 < b.1)
}

/// Whether `key` is the block of `keys` that is more specific than every
/// other.
pub open spec fn is_most_specific(keys: Set<(u64, u64)>, key: (u64, u64)) -> bool {
    &&& keys.contains(key)
    &&& forall|other: (u64, u64)| #[trigger]
        keys.contains(other) && other != key ==> more_specific(key, other)
}

/// The most specific block of `keys`.
pub open spec fn most_specific(keys: Set<(u64, u64)>) -> (u64, u64) {
    choose|key: (u64, u64)| is_most_specific(keys, key)
}

/// The answer to a query for `addr`: nothing where no block holds it, the
/// entry of the most specific block where one or two do, and a failure where
/// more than two do.
pub open spec fn lookup(entries: Map<(u64, u64), OuiEntryView>, addr: u64) -> Result<
    Option<OuiEntryView>,
    OuiError,
> {
    let keys = covering(entries, addr);
    if keys.len() > 2 {
        Err(OuiError::IndexInconsistent)
    } else if keys.len() == 0 {
        Ok(None)
    } else {
        Ok(Some(entries[most_specific(keys)]))
    }
}

/// Whether `a` lies within `b` and is not the same block.
pub open spec fn nested_in(a: (u64, u64), b: (u64, u64)) -> bool {
    b.0 <= a.0 && a.1 <= b.1 && a != b
}

/// Where `keys` lists, each once, the blocks that hold `addr`, it has as
/// many items as blocks hold `addr`.
pub proof fn lemma_covering_listed(
    entries: Map<(u64, u64), OuiEntryView>,
    addr: u64,
    keys: Seq<(u64, u64)>,
)
    requires
        keys.no_duplicates(),
        forall|t: int|
            0 <= t < keys.len() ==> entries.contains_key(#[trigger] keys[t]) && covers(
                keys[t],
                addr,
            ),
        forall|key: (u64, u64)| #[trigger]
            entries.contains_key(key) && covers(key, addr) ==> keys.contains(key),
    ensures
        covering(entries, addr) == keys.to_set(),
        covering(entries, addr).finite(),
        covering(entries, addr).len() == keys.len(),
{
    broadcast use vstd::seq_lib::seq_to_set_is_finite;

    keys.unique_seq_to_set();
}

/// Where `keys` lists, each once, some blocks that hold `addr`, at least as
/// many blocks hold `addr` as it has items.
pub proof fn lemma_covering_at_least(
    entries: Map<(u64, u64), OuiEntryView>,
    addr: u64,
    keys: Seq<(u64, u64)>,
)
    requires
        entries.dom().finite(),
        keys.no_duplicates(),
        forall|t: int|
            0 <= t < keys.len() ==> entries.contains_key(#[trigger] keys[t]) && covers(
                keys[t],
                addr,
            ),
    ensures
        covering(entries, addr).finite(),
        covering(entries, addr).len() >= keys.len(),
{
    keys.unique_seq_to_set();
    lemma_len_subset(covering(entries, addr), entries.dom());
    lemma_len_subset(keys.to_set(), covering(entries, addr));
}

/// There is one most specific block at most.
pub proof fn lemma_most_specific(keys: Set<(u64, u64)>, key: (u64, u64))
    requires
        is_most_specific(keys, key),
    ensures
        most_specific(keys) == key,
{
    let chosen = most_specific(keys);
    if chosen != key {
        assert(more_specific(key, chosen));
        assert(more_specific(chosen, key));
    }
}

/// An address that no block holds is answered with nothing.
pub proof fn lemma_lookup_miss(entries: Map<(u64, u64), OuiEntryView>, addr: u64)
    requires
        forall|key: (u64, u64)| entries.contains_key(key) ==> !covers(key, addr),
    ensures
        lookup(entries, addr) == Ok::<Option<OuiEntryView>, OuiError>(None),
{
    lemma_covering_listed(entries, addr, Seq::empty());
}

/// An address that one block holds, and no other, is answered with that
/// block's entry.
pub proof fn lemma_lookup_single(
    entries: Map<(u64, u64), OuiEntryView>,
    addr: u64,
    key: (u64, u64),
)
    requires
        entries.contains_key(key),
        covers(key, addr),
        forall|other: (u64, u64)|
            entries.contains_key(other) && covers(other, addr) ==> other == key,
    ensures
        lookup(entries, addr) == Ok::<Option<OuiEntryView>, OuiError>(Some(entries[key])),
{
    let keys = seq![key];
    assert(keys[0] == key);
    lemma_covering_listed(entries, addr, keys);
    lemma_most_specific(covering(entries, addr), key);
}

/// An address that two blocks hold, and no other, is answered with the entry
/// of the more specific of the two.
pub proof fn lemma_lookup_pair(
    entries: Map<(u64, u64), OuiEntryView>,
    addr: u64,
    best: (u64, u64),
    other: (u64, u64),
)
    requires
        entries.contains_key(best),
        entries.contains_key(other),
        covers(best, addr),
        covers(other, addr),
        more_specific(best, other),
        forall|key: (u64, u64)|
            entries.contains_key(key) && covers(key, addr) ==> key == best || key == other,
    ensures
        lookup(entries, addr) == Ok::<Option<OuiEntryView>, OuiError>(Some(entries[best])),
{
    let keys = seq![best, other];
    lemma_covering_listed(entries, addr, keys);
    lemma_most_specific(covering(entries, addr), best);
}

/// Longest match: an address in a block and in a second block around it,
/// and in no other, is answered with the entry of the inner block.
pub proof fn lemma_lookup_nested(
    entries: Map<(u64, u64), OuiEntryView>,
    addr: u64,
    inner: (u64, u64),
    outer: (u64, u64),
)
    requires
        entries.contains_key(inner),
        entries.contains_key(outer),
        covers(inner, addr),
        nested_in(inner, outer),
        forall|key: (u64, u64)|
            entries.contains_key(key) && covers(key, addr) ==> key == inner || key == outer,
    ensures
        lookup(entries, addr) == Ok::<Option<OuiEntryView>, OuiError>(Some(entries[inner])),
{
    lemma_lookup_pair(entries, addr, inner, outer);
}

/// An address that three blocks hold is answered with a failure.
pub proof fn lemma_lookup_inconsistent(
    entries: Map<(u64, u64), OuiEntryView>,
    addr: u64,
    a: (u64, u64),
    b: (u64, u64),
    c: (u64, u64),
)
    requires
        entries.dom().finite(),
        entries.contains_key(a) && covers(a, addr),
        entries.contains_key(b) && covers(b, addr),
        entries.contains_key(c) && covers(c, addr),
        a != b && a != c && b != c,
    ensures
        lookup(entries, addr) == Err::<Option<OuiEntryView>, OuiError>(
            OuiError::IndexInconsistent,
        ),
{
    let keys = seq![a, b, c];
    lemma_covering_at_least(entries, addr, keys);
}

/// Of two blocks that hold a common address, the one with the longer prefix
/// is the more specific.
pub proof fn lemma_longer_prefix_is_more_specific(a: AddressBlock, b: AddressBlock, addr: u64)
    requires
        a.wf(),
        b.wf(),
        a.holds(addr),
        b.holds(addr),
        a.prefix_len > b.prefix_len,
    ensures
        nested_in((a.lo, a.hi), (b.lo, b.hi)),
        more_specific((a.lo, a.hi), (b.lo, b.hi)),
{
    lemma_longer_prefix_lies_within(a, b, addr);
}

/// Longest match by prefix length: an address in two blocks, and in no
/// other, is answered with the entry of the block with the longer prefix.
pub proof fn lemma_lookup_longest_prefix(
    entries: Map<(u64, u64), OuiEntryView>,
    addr: u64,
    long: AddressBlock,
    short: AddressBlock,
)
    requires
        long.wf(),
        short.wf(),
        long.prefix_len > short.prefix_len,
        long.holds(addr),
        short.holds(addr),
        entries.contains_key((long.lo, long.hi)),
        entries.contains_key((short.lo, short.hi)),
        forall|key: (u64, u64)|
            entries.contains_key(key) && covers(key, addr) ==> key == (long.lo, long.hi) || key
                == (short.lo, short.hi),
    ensures
        lookup(entries, addr) == Ok::<Option<OuiEntryView>, OuiError>(
            Some(entries[(long.lo, long.hi)]),
        ),
{
    lemma_longer_prefix_is_more_specific(long, short, addr);
    lemma_lookup_pair(entries, addr, (long.lo, long.hi), (short.lo, short.hi));
}

} // verus!
