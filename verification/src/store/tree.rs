//! Ordered trees of byte strings, kept on disk by `sled`.
//!
//! `sled` is not verified here. This file says what the rest of the crate
//! believes of it: which keys a tree holds after each call, and in which order
//! a scan hands them out. A tree is only ever reached through the one handle
//! that its store owns, so what it holds changes only through the calls below.
use vstd::prelude::*;

verus! {

/// `sled::Tree`: one tree of a database. Nothing of its inside is known here.
#[verifier::external_type_specification]
#[verifier::external_body]
pub struct ExTree(sled::Tree);

/// `sled::Db`: a database. It is only opened, and asked for its trees.
#[verifier::external_type_specification]
#[verifier::external_body]
pub struct ExDb(sled::Db);

/// `sled::Error`: why a call into `sled` failed. It is carried, never read.
#[verifier::external_type_specification]
#[verifier::external_body]
pub struct ExError(sled::Error);

/// The keys that a tree holds, each with the value stored under it.
pub uninterp spec fn tree_records(tree: sled::Tree) -> Map<Seq<u8>, Seq<u8>>;

/// The directory that a database was opened on.
pub uninterp spec fn database_location(db: sled::Db) -> Seq<char>;

/// The directory of the database that a tree belongs to.
pub uninterp spec fn tree_database(tree: sled::Tree) -> Seq<char>;

/// The name under which a tree was opened in its database.
pub uninterp spec fn tree_name(tree: sled::Tree) -> Seq<char>;

/// One end of a range of keys or of indexes.
#[derive(Debug, PartialEq, Eq)]
pub enum Limit<T> {
    Included(T),
    Excluded(T),
    Unbounded,
}

/// Dictionary order on byte strings: the order in which a tree keeps its keys.
pub open spec fn key_lt(a: Seq<u8>, b: Seq<u8>) -> bool
    decreases a.len(),
{
    if b.len() == 0 {
        false
    } else if a.len() == 0 {
        true
    } else if a[0] != b[0] {
        a[0] < b[0]
    } else {
        key_lt(a.skip(1), b.skip(1))
    }
}

/// A limit on keys, as mathematics.
pub open spec fn limit_model(limit: Limit<Vec<u8>>) -> Limit<Seq<u8>> {
    match limit {
        Limit::Included(key) => Limit::Included(key@),
        Limit::Excluded(key) => Limit::Excluded(key@),
        Limit::Unbounded => Limit::Unbounded,
    }
}

/// Records as mathematics: each key with its value.
pub open spec fn record_models(items: Seq<(Vec<u8>, Vec<u8>)>) -> Seq<(Seq<u8>, Seq<u8>)> {
    Seq::new(items.len(), |i: int| (items[i].0@, items[i].1@))
}

/// Whether `key` lies at or after the lower end `lo`.
pub open spec fn key_above(key: Seq<u8>, lo: Limit<Seq<u8>>) -> bool {
    match lo {
        Limit::Included(b) => b == key || key_lt(b, key),
        Limit::Excluded(b) => key_lt(b, key),
        Limit::Unbounded => true,
    }
}

/// Whether `key` lies at or before the upper end `hi`.
pub open spec fn key_below(key: Seq<u8>, hi: Limit<Seq<u8>>) -> bool {
    match hi {
        Limit::Included(b) => b == key || key_lt(key, b),
        Limit::Excluded(b) => key_lt(key, b),
        Limit::Unbounded => true,
    }
}

/// Whether `items` lists, in ascending order of key and each once, exactly the
/// records whose key lies between `lo` and `hi`.
pub open spec fn is_scan(
    records: Map<Seq<u8>, Seq<u8>>,
    lo: Limit<Seq<u8>>,
    hi: Limit<Seq<u8>>,
    items: Seq<(Seq<u8>, Seq<u8>)>,
) -> bool {
    &&& forall|i: int|
        0 <= i < items.len() ==> {
            &&& records.contains_pair((#[trigger] items[i]).0, items[i].1)
            &&& key_above(items[i].0, lo)
            &&& key_below(items[i].0, hi)
        }
    &&& forall|i: int, j: int|
        0 <= i < j < items.len() ==> key_lt((#[trigger] items[i]).0, (#[trigger] items[j]).0)
    &&& forall|key: Seq<u8>|
        #[trigger] records.contains_key(key) && key_above(key, lo) && key_below(key, hi)
            ==> exists|i: int| 0 <= i < items.len() && (#[trigger] items[i]).0 == key
}

/// Whether `key` is the greatest key of `records`.
pub open spec fn is_last_key(records: Map<Seq<u8>, Seq<u8>>, key: Seq<u8>) -> bool {
    &&& records.contains_key(key)
    &&& forall|other: Seq<u8>| #[trigger]
        records.contains_key(other) ==> other == key || key_lt(other, key)
}

/// Opens the database under `path` with `sled::open`, creating it where there
/// is none. Where it succeeds, the database is the one in the directory
/// `path`. Nothing is claimed of what it holds.
#[verifier::external_body]
pub(crate) fn open_database(path: &str) -> (r: Result<sled::Db, sled::Error>)
    ensures
        r matches Ok(db) ==> database_location(db) == path@,
{
    sled::open(path)
}

/// Opens the tree `name` of a database with `sled::Db::open_tree`, creating it
/// where there is none. Where it succeeds, the tree is the one that `db` keeps
/// under `name`. Nothing is claimed of what it holds.
#[verifier::external_body]
pub(crate) fn open_tree(db: &sled::Db, name: &str) -> (r: Result<sled::Tree, sled::Error>)
    ensures
        r matches Ok(tree) ==> tree_database(tree) == database_location(*db) && tree_name(tree)
            == name@,
{
    db.open_tree(name)
}

/// `sled::Tree::insert`. Where it succeeds, the tree holds `value` under `key`
/// and is otherwise unchanged, and the value that `key` had before comes back.
/// Nothing is claimed of what the tree holds where it fails. Either way it is
/// the same tree of the same database.
#[verifier::external_body]
pub(crate) fn tree_insert(tree: &mut sled::Tree, key: &Vec<u8>, value: Vec<u8>) -> (r: Result<
    Option<Vec<u8>>,
    sled::Error,
>)
    ensures
        tree_database(*final(tree)) == tree_database(*old(tree)),
        tree_name(*final(tree)) == tree_name(*old(tree)),
        r matches Ok(previous) ==> {
            &&& tree_records(*final(tree)) == tree_records(*old(tree)).insert(key@, value@)
            &&& previous is Some <==> tree_records(*old(tree)).contains_key(key@)
            &&& previous matches Some(p) ==> p@ == tree_records(*old(tree))[key@]
        },
{
    tree.insert(key, value).map(|previous| previous.map(|p| p.to_vec()))
}

/// `sled::Tree::get`. Where it succeeds, it returns the value under `key`, if
/// the tree holds the key.
#[verifier::external_body]
pub(crate) fn tree_get(tree: &sled::Tree, key: &Vec<u8>) -> (r: Result<Option<Vec<u8>>, sled::Error>)
    ensures
        r matches Ok(found) ==> {
            &&& found is Some <==> tree_records(*tree).contains_key(key@)
            &&& found matches Some(v) ==> v@ == tree_records(*tree)[key@]
        },
{
    tree.get(key).map(|found| found.map(|v| v.to_vec()))
}

/// `sled::Tree::remove`. Where it succeeds, the tree no longer holds `key` and
/// is otherwise unchanged, and the value that `key` had before comes back.
/// Nothing is claimed of what the tree holds where it fails. Either way it is
/// the same tree of the same database.
#[verifier::external_body]
pub(crate) fn tree_remove(tree: &mut sled::Tree, key: &Vec<u8>) -> (r: Result<
    Option<Vec<u8>>,
    sled::Error,
>)
    ensures
        tree_database(*final(tree)) == tree_database(*old(tree)),
        tree_name(*final(tree)) == tree_name(*old(tree)),
        r matches Ok(previous) ==> {
            &&& tree_records(*final(tree)) == tree_records(*old(tree)).remove(key@)
            &&& previous is Some <==> tree_records(*old(tree)).contains_key(key@)
            &&& previous matches Some(p) ==> p@ == tree_records(*old(tree))[key@]
        },
{
    tree.remove(key).map(|previous| previous.map(|p| p.to_vec()))
}

/// `sled::Tree::range`, read to its end. Where no step of the scan fails, the
/// result lists the records between `lo` and `hi` in ascending order of key.
#[verifier::external_body]
pub(crate) fn tree_range(tree: &sled::Tree, lo: Limit<Vec<u8>>, hi: Limit<Vec<u8>>) -> (r: Result<
    Vec<(Vec<u8>, Vec<u8>)>,
    sled::Error,
>)
    ensures
        r matches Ok(items) ==> is_scan(
            tree_records(*tree),
            limit_model(lo),
            limit_model(hi),
            record_models(items@),
        ),
{
    let lo = match lo {
        Limit::Included(k) => std::ops::Bound::Included(k),
        Limit::Excluded(k) => std::ops::Bound::Excluded(k),
        Limit::Unbounded => std::ops::Bound::Unbounded,
    };
    let hi = match hi {
        Limit::Included(k) => std::ops::Bound::Included(k),
        Limit::Excluded(k) => std::ops::Bound::Excluded(k),
        Limit::Unbounded => std::ops::Bound::Unbounded,
    };
    tree.range((lo, hi)).map(|item| item.map(|(k, v)| (k.to_vec(), v.to_vec()))).collect()
}

/// `sled::Tree::last`. Where it succeeds, it returns the record with the
/// greatest key, if the tree holds any.
#[verifier::external_body]
pub(crate) fn tree_last(tree: &sled::Tree) -> (r: Result<Option<(Vec<u8>, Vec<u8>)>, sled::Error>)
    ensures
        r matches Ok(found) ==> match found {
            Some(item) => is_last_key(tree_records(*tree), item.0@) && tree_records(*tree)[item.0@]
                == item.1@,
            None => forall|key: Seq<u8>| !tree_records(*tree).contains_key(key),
        },
{
    tree.last().map(|found| found.map(|(k, v)| (k.to_vec(), v.to_vec())))
}

/// `sled::Tree::flush`: returns once everything written to the tree so far is
/// on disk. Nothing is claimed of the result: it says whether the disk took
/// the writes, not what the tree holds.
#[verifier::external_body]
pub(crate) fn tree_flush(tree: &sled::Tree) -> (r: Result<(), sled::Error>) {
    tree.flush().map(|_| ())
}

} // verus!
