//! The database: an ordered map from address blocks to vendor entries.

use crate::address::{mac_to_u64, mac_value, parse_text, parsed_mac, ADDRESS_LEN};
use crate::block::AddressBlock;
use crate::entry::{OuiEntry, OuiEntryView};
use crate::error::OuiError;
use crate::lookup::{
    covering, covers, lemma_covering_at_least, lemma_covering_listed, lemma_most_specific,
    lookup, more_specific,
};
use std::collections::BTreeMap;
use vstd::prelude::*;
use vstd::std_specs::btree::spec_btree_map_iter;
use vstd::std_specs::iter::IteratorSpec;

verus! {

/// OUI Database
pub struct OuiDatabase {
    database: BTreeMap<(u64, u64), OuiEntry>,
}

/// The entries of a map by what they hold.
pub open spec fn entry_views(entries: Map<(u64, u64), OuiEntry>) -> Map<(u64, u64), OuiEntryView> {
    entries.map_values(|entry: OuiEntry| entry@)
}

impl View for OuiDatabase {
    type V = Map<(u64, u64), OuiEntryView>;

    /// The entries of the database, each under the first and the last
    /// address of its block.
    closed spec fn view(&self) -> Map<(u64, u64), OuiEntryView> {
        entry_views(self.database@)
    }
}

/// What a query returned, its entry by what it holds.
pub open spec fn answer_view(answer: Result<Option<OuiEntry>, OuiError>) -> Result<
    Option<OuiEntryView>,
    OuiError,
> {
    match answer {
        Ok(Some(entry)) => Ok(Some(entry@)),
        Ok(None) => Ok(None),
        Err(error) => Err(error),
    }
}

/// The answer to a query for the address that the bytes `mac` spell.
pub open spec fn lookup_mac(entries: Map<(u64, u64), OuiEntryView>, mac: Seq<u8>) -> Result<
    Option<OuiEntryView>,
    OuiError,
> {
    if mac.len() == ADDRESS_LEN {
        lookup(entries, mac_value(mac) as u64)
    } else {
        Err(OuiError::InvalidAddress)
    }
}

/// The answer to a query by text, of which `parsed` are the bytes that the
/// text was read as.
pub open spec fn lookup_parsed(
    entries: Map<(u64, u64), OuiEntryView>,
    parsed: Option<Seq<u8>>,
) -> Result<Option<OuiEntryView>, OuiError> {
    match parsed {
        Some(mac) => lookup_mac(entries, mac),
        None => Err(OuiError::InvalidAddress),
    }
}

/// The map that inserting `records` one after the other gives: of two
/// records for one block the later one stays.
pub open spec fn build_spec(records: Seq<(AddressBlock, OuiEntry)>) -> Map<
    (u64, u64),
    OuiEntryView,
>
    decreases records.len(),
{
    if records.len() == 0 {
        Map::empty()
    } else {
        let (block, entry) = records.last();
        build_spec(records.drop_last()).insert((block.lo, block.hi), entry@)
    }
}

/// Tuples of integers are ordered as the map needs it.
pub proof fn lemma_key_order()
    ensures
        vstd::laws_cmp::obeys_cmp::<(u64, u64)>(),
        vstd::std_specs::btree::key_obeys_cmp_spec::<(u64, u64)>(),
{
    broadcast use vstd::laws_cmp::group_laws_cmp;
    broadcast use vstd::std_specs::btree::group_btree_axioms;

}

impl OuiDatabase {
    /// A database has finitely many entries.
    pub proof fn lemma_finite(&self)
        ensures
            self@.dom().finite(),
    {
        broadcast use vstd::std_specs::btree::group_btree_axioms;

        assert(self@.dom() =~= self.database@.dom());
    }

    /// A database without entries.
    pub fn empty() -> (r: OuiDatabase)
        ensures
            r@ == Map::<(u64, u64), OuiEntryView>::empty(),
    {
        OuiDatabase { database: BTreeMap::new() }
    }

    /// A database of the entries `entries`, each under the first and the
    /// last address of its block.
    pub fn from_entries(entries: BTreeMap<(u64, u64), OuiEntry>) -> (r: OuiDatabase)
        ensures
            r@ == entry_views(entries@),
    {
        OuiDatabase { database: entries }
    }

    /// The entries of the database, in the order of their blocks: by first
    /// address, then by last address.
    pub fn entries(&self) -> (entries: &BTreeMap<(u64, u64), OuiEntry>)
        ensures
            entry_views(entries@) == self@,
    {
        &self.database
    }

    /// Puts `entry` into the database under `key`, in place of what stood
    /// there.
    pub(crate) fn insert(&mut self, key: (u64, u64), entry: OuiEntry)
        ensures
            final(self)@ == old(self)@.insert(key, entry@),
    {
        proof {
            lemma_key_order();
        }
        self.database.insert(key, entry);
    }

    /// Builds a database of `records`: each entry stands under its block,
    /// and of two records for one block the later one stays.
    pub fn build(records: &[(AddressBlock, OuiEntry)]) -> (r: OuiDatabase)
        ensures
            r@ == build_spec(records@),
    {
        let mut db = OuiDatabase::empty();
        let mut i: usize = 0;
        while i < records.len()
            invariant
                i <= records@.len(),
                db@ == build_spec(records@.take(i as int)),
            decreases records@.len() - i,
        {
            let block: AddressBlock = records[i].0;
            let entry: OuiEntry = records[i].1.clone();
            assert(records@.take(i + 1).drop_last() =~= records@.take(i as int));
            db.insert((block.lo, block.hi), entry);
            i = i + 1;
        }
        assert(records@.take(records@.len() as int) =~= records@);
        db
    }

    /// Returns total number of entries in the database as `usize`
    pub fn len(&self) -> (n: usize)
        ensures
            n == self@.len(),
    {
        broadcast use vstd::std_specs::btree::group_btree_axioms;

        proof {
            lemma_key_order();
            assert(self@.dom() =~= self.database@.dom());
        }
        self.database.len()
    }

    /// Returns true if there are zero entries in the database, or false for 1+ entries
    pub fn is_empty(&self) -> (r: bool)
        ensures
            r <==> self@.len() == 0,
    {
        broadcast use vstd::std_specs::btree::group_btree_axioms;

        proof {
            assert(self@.dom() =~= self.database@.dom());
            if self@.len() == 0 {
                self@.dom().lemma_len0_is_empty();
            }
        }
        self.database.is_empty()
    }

    /// Queries the database for the 48-bit address `query`.
    ///
    /// Returns a copy of the entry of the most specific block that holds the
    /// address, or nothing where no block holds it. Fails with
    /// [`OuiError::IndexInconsistent`] where more than two blocks hold it.
    pub fn query(&self, query: &u64) -> (r: Result<Option<OuiEntry>, OuiError>)
        ensures
            answer_view(r) == lookup(self@, *query),
    {
        broadcast use vstd::std_specs::btree::group_btree_axioms;

        let addr: u64 = *query;
        let ghost m = self.database@;
        let mut count: u8 = 0;
        let mut best: Option<((u64, u64), &OuiEntry)> = None;
        let ghost mut matched: Seq<(u64, u64)> = Seq::empty();
        let ghost entries = spec_btree_map_iter(&self.database).remaining();
        proof {
            lemma_key_order();
            self.lemma_finite();
        }
        for item in it: self.database.iter()
            invariant
                addr == *query,
                m == self.database@,
                self@.dom().finite(),
                it.seq() == entries,
                it.seq().no_duplicates(),
                forall|i: int|
                    0 <= i < it.seq().len() ==> m.contains_key(*(#[trigger] it.seq()[i]).0)
                        && m[*it.seq()[i].0] == *it.seq()[i].1,
                forall|key: (u64, u64)| #[trigger]
                    m.contains_key(key) ==> it.seq().contains((&key, &m[key])),
                count <= 2,
                matched.len() == count,
                matched.no_duplicates(),
                forall|t: int|
                    0 <= t < matched.len() ==> m.contains_key(#[trigger] matched[t]) && covers(
                        matched[t],
                        addr,
                    ),
                forall|i: int|
                    0 <= i < it.index() && covers(*(#[trigger] it.seq()[i]).0, addr)
                        ==> matched.contains(*it.seq()[i].0),
                forall|t: int, i: int|
                    0 <= t < matched.len() && it.index() <= i < it.seq().len()
                        ==> #[trigger] matched[t] != *(#[trigger] it.seq()[i]).0,
                best is None <==> count == 0,
                best matches Some(found) ==> {
                    &&& matched.contains(found.0)
                    &&& m[found.0] == *found.1
                    &&& forall|t: int|
                        0 <= t < matched.len() && #[trigger] matched[t] != found.0
                            ==> more_specific(found.0, matched[t])
                },
        {
            let key: (u64, u64) = *item.0;
            let entry: &OuiEntry = item.1;
            proof {
                assert forall|i: int| it.index() < i < it.seq().len() implies *(
                #[trigger] it.seq()[i]).0 != key by {
                    if *it.seq()[i].0 == key {
                        assert(it.seq()[i] == it.seq()[it.index()]);
                    }
                }
            }
            if key.0 <= addr && addr <= key.1 {
                let ghost earlier = matched;
                proof {
                    matched = matched.push(key);
                    assert(matched[earlier.len() as int] == key);
                    assert forall|i: int|
                        0 <= i < it.index() + 1 && covers(
                            *(#[trigger] it.seq()[i]).0,
                            addr,
                        ) implies matched.contains(*it.seq()[i].0) by {
                        if i < it.index() {
                            let t = choose|t: int|
                                0 <= t < earlier.len() && earlier[t] == *it.seq()[i].0;
                            assert(matched[t] == *it.seq()[i].0);
                        }
                    }
                }
                if count == 2 {
                    proof {
                        lemma_covering_at_least(self@, addr, matched);
                    }
                    return Err(OuiError::IndexInconsistent);
                }
                let ghost before = best;
                best =
                match best {
                    None => Some((key, entry)),
                    Some(found) => {
                        let held: (u64, u64) = found.0;
                        if key.0 > held.0 || (key.0 == held.0 && key.1 < held.1) {
                            Some((key, entry))
                        } else {
                            Some(found)
                        }
                    },
                };
                count = count + 1;
                proof {
                    match before {
                        Some(found) => {
                            let t = choose|t: int|
                                0 <= t < earlier.len() && earlier[t] == found.0;
                            assert(matched[t] == found.0);
                        },
                        None => {},
                    }
                }
            }
        }
        proof {
            assert forall|key: (u64, u64)| #[trigger]
                self@.contains_key(key) && covers(key, addr) implies matched.contains(key) by {
                let i = choose|i: int|
                    0 <= i < entries.len() && entries[i] == (&key, &m[key]);
                assert(*entries[i].0 == key);
            }
            lemma_covering_listed(self@, addr, matched);
        }
        match best {
            None => Ok(None),
            Some(found) => {
                proof {
                    assert forall|other: (u64, u64)| #[trigger]
                        covering(self@, addr).contains(other) && other
                            != found.0 implies more_specific(found.0, other) by {
                        let t = choose|t: int| 0 <= t < matched.len() && matched[t] == other;
                        assert(matched[t] != found.0);
                    }
                    lemma_most_specific(covering(self@, addr), found.0);
                }
                Ok(Some(found.1.clone()))
            },
        }
    }

    /// Query the database by the six bytes of a MAC address, the first byte
    /// the most significant.
    ///
    /// Fails with [`OuiError::InvalidAddress`] where `mac_addr` is not six
    /// bytes long.
    pub fn query_by_mac(&self, mac_addr: &[u8]) -> (r: Result<Option<OuiEntry>, OuiError>)
        ensures
            answer_view(r) == lookup_mac(self@, mac_addr@),
    {
        match mac_to_u64(mac_addr) {
            Ok(mac_int) => self.query(&mac_int),
            Err(error) => Err(error),
        }
    }

    /// Query the database by `&str`
    ///
    /// The text is read as a MAC address in any of the forms that the
    /// `eui48` crate knows. Fails with [`OuiError::InvalidAddress`] where it
    /// is none.
    pub fn query_by_str(&self, mac_str: &str) -> (r: Result<Option<OuiEntry>, OuiError>)
        ensures
            answer_view(r) == lookup_parsed(self@, parsed_mac(mac_str@)),
    {
        match parse_text(mac_str) {
            Ok(mac_int) => self.query(&mac_int),
            Err(error) => Err(error),
        }
    }
}

} // verus!
