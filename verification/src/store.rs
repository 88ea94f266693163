//! Trusted boundary to the embedded key-value store (sled).
//!
//! A namespace ("tree") is modelled as a map from key strings to value
//! strings: `tree_view` names the decodable contents of one tree, and every
//! wrapper below states what the sled call it makes does to that map, as far
//! as sled's own source shows it.  Entries whose key or value is not valid
//! text fall outside the model and surface as `RecordCorrupt`.

use vstd::prelude::*;
use crate::error::LinkError;

verus! {

#[verifier::external_type_specification]
#[verifier::external_body]
pub struct ExDb(sled::Db);

#[verifier::external_type_specification]
#[verifier::external_body]
pub struct ExTree(sled::Tree);

/// The text contents of one store namespace.
pub uninterp spec fn tree_view(t: sled::Tree) -> Map<Seq<char>, Seq<char>>;

/// Relies on sled::Db::open_tree: opens (creating if needed) the namespace
/// with the given name.  Which contents the returned handle sees depends on
/// the state of the database, so nothing is claimed of its view.
#[verifier::external_body]
pub fn open_tree(db: &sled::Db, name: &str) -> (r: Result<sled::Tree, LinkError>)
    ensures
        r matches Err(e) ==> e == LinkError::StorageUnavailable,
{
    match db.open_tree(name.as_bytes()) {
        Ok(t) => Ok(t),
        Err(_) => Err(LinkError::StorageUnavailable),
    }
}

/// Relies on sled::Tree::insert: sets `key` to `value`; other keys keep their
/// values.  On an I/O error the tree's state is left unspecified.
#[verifier::external_body]
pub fn tree_insert(t: &mut sled::Tree, key: &str, value: &str) -> (r: Result<(), LinkError>)
    ensures
        r is Ok ==> tree_view(*final(t)) == tree_view(*old(t)).insert(key@, value@),
        r matches Err(e) ==> e == LinkError::StorageUnavailable,
{
    match t.insert(key.as_bytes(), value.as_bytes()) {
        Ok(_) => Ok(()),
        Err(_) => Err(LinkError::StorageUnavailable),
    }
}

/// Relies on sled::Tree::get: the value stored under `key`, if any.
/// `RecordCorrupt` when the stored value is not valid text (such an entry is
/// outside the tree's modelled contents).
#[verifier::external_body]
pub fn tree_get(t: &sled::Tree, key: &str) -> (r: Result<Option<String>, LinkError>)
    ensures
        match r {
            Ok(Some(v)) => tree_view(*t).contains_key(key@) && v@ == tree_view(*t)[key@],
            Ok(None) => !tree_view(*t).contains_key(key@),
            Err(e) => e == LinkError::StorageUnavailable || (e == LinkError::RecordCorrupt
                && !tree_view(*t).contains_key(key@)),
        },
{
    match t.get(key.as_bytes()) {
        Err(_) => Err(LinkError::StorageUnavailable),
        Ok(None) => Ok(None),
        Ok(Some(v)) => match String::from_utf8(v.to_vec()) {
            Ok(s) => Ok(Some(s)),
            Err(_) => Err(LinkError::RecordCorrupt),
        },
    }
}

/// Relies on sled::Tree::iter: every key/value pair of the tree, each key
/// exactly once, in the store's own (strictly increasing) key order, so the
/// returned keys are pairwise distinct and cover the tree.  `RecordCorrupt`
/// when any pair is not valid text.
#[verifier::external_body]
pub fn tree_entries(t: &sled::Tree) -> (r: Result<Vec<(String, String)>, LinkError>)
    ensures
        r matches Ok(v) ==> {
            &&& tree_view(*t).dom().finite()
            &&& v@.len() == tree_view(*t).dom().len()
            &&& forall|i: int|
                0 <= i < v@.len() ==> tree_view(*t).contains_pair(
                    (#[trigger] v@[i]).0@,
                    v@[i].1@,
                )
            &&& forall|i: int, j: int|
                0 <= i < j < v@.len() ==> (#[trigger] v@[i]).0@ != (#[trigger] v@[j]).0@
        },
        r matches Err(e) ==> e == LinkError::StorageUnavailable || e == LinkError::RecordCorrupt,
{
    let mut out = Vec::new();
    for item in t.iter() {
        let (k, v) = match item { Ok(p) => p, Err(_) => return Err(LinkError::StorageUnavailable) };
        let k = match String::from_utf8(k.to_vec()) { Ok(s) => s, Err(_) => return Err(LinkError::RecordCorrupt) };
        let v = match String::from_utf8(v.to_vec()) { Ok(s) => s, Err(_) => return Err(LinkError::RecordCorrupt) };
        out.push((k, v));
    }
    Ok(out)
}

/// Relies on sled::Db::tree_names: the names of the namespaces now in the
/// database.  What is on disk decides, so nothing is claimed of the list.
#[verifier::external_body]
pub fn tree_names(db: &sled::Db) -> (r: Vec<String>)
{
    let mut out = Vec::new();
    for n in db.tree_names() {
        if let Ok(s) = String::from_utf8(n.to_vec()) { out.push(s); }
    }
    out
}

/// Relies on sled::Db::drop_tree: irreversibly deletes the namespace and all
/// its keys; `true` when the namespace existed.
#[verifier::external_body]
pub fn drop_tree(db: &sled::Db, name: &str) -> (r: Result<bool, LinkError>)
    ensures
        r matches Err(e) ==> e == LinkError::StorageUnavailable,
{
    match db.drop_tree(name.as_bytes()) {
        Ok(b) => Ok(b),
        Err(_) => Err(LinkError::StorageUnavailable),
    }
}

} // verus!
