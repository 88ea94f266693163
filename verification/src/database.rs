//! Batch records and link entries, and how they are persisted.
//!
//! A batch occupies two store namespaces: one named by the batch id holding
//! the metadata fields, one named by a separately generated token holding the
//! entries, each keyed by its decimal id and stored as structured text.

use vstd::prelude::*;
use crate::codec::{
    dec_of, decode_fields, encode_fields, lemma_codec_round_trip, lemma_dec_of_injective,
    spec_decode_fields, spec_encode_fields,
};
use crate::codec::u64_to_dec;
use crate::error::LinkError;
use crate::store::{open_tree, tree_entries, tree_get, tree_insert, tree_view};
use crate::store::drop_tree;
use crate::utils::random_id;

verus! {

/// One created link: its id, the label of its kind, and where it points
/// from and to.
#[derive(Debug, Clone)]
pub struct FileInfo {
    pub id: u64,
    pub type_: String,
    pub source: String,
    pub target: String,
}

/// What the reverse operation of an entry should do at its target path,
/// given what the filesystem shows there.
#[derive(Debug, Clone, Copy, PartialEq, Eq, Structural)]
pub enum RemoveAction {
    RemoveFile,
    RemoveDir,
    Nothing,
}

impl FileInfo {
    pub fn new(id: u64, type_: String, source: String, target: String) -> (r: FileInfo)
        ensures
            r.id == id,
            r.type_@ == type_@,
            r.source@ == source@,
            r.target@ == target@,
    {
        FileInfo { id, type_, source, target }
    }

    /// Reversal decision: a target that does not exist is left alone (the
    /// reverse operation is a no-op), a file is removed as a file, anything
    /// else as a directory.
    pub fn remove_action(exists: bool, is_file: bool) -> (r: RemoveAction)
        ensures
            !exists ==> r == RemoveAction::Nothing,
            exists && is_file ==> r == RemoveAction::RemoveFile,
            exists && !is_file ==> r == RemoveAction::RemoveDir,
    {
        if !exists {
            RemoveAction::Nothing
        } else if is_file {
            RemoveAction::RemoveFile
        } else {
            RemoveAction::RemoveDir
        }
    }
}

/// The stored text of one entry.
pub open spec fn spec_entry_text(fi: FileInfo) -> Seq<char> {
    spec_encode_fields(fi.id as nat, fi.type_@, fi.source@, fi.target@)
}

/// `v` decodes exactly to the fields of `fi`.
pub open spec fn spec_entry_matches(v: Seq<char>, fi: FileInfo) -> bool {
    spec_decode_fields(v) matches Some(f) && f.0 == fi.id as nat && f.1 == fi.type_@ && f.2
        == fi.source@ && f.3 == fi.target@
}

/// Encodes an entry for storage.
pub fn encode_entry(fi: &FileInfo) -> (r: String)
    ensures
        r@ == spec_entry_text(*fi),
{
    encode_fields(fi.id, fi.type_.as_str(), fi.source.as_str(), fi.target.as_str())
}

/// Decodes one stored entry, `None` when the text is not a well-formed entry.
pub fn decode_entry(s: &str) -> (r: Option<FileInfo>)
    ensures
        match r {
            Some(fi) => spec_entry_matches(s@, fi),
            None => !(exists|fi: FileInfo| spec_entry_matches(s@, fi)),
        },
{
    match decode_fields(s) {
        None => {
            proof {
                assert(forall|fi: FileInfo| !spec_entry_matches(s@, fi));
            }
            None
        },
        Some((id, ty, src, tgt)) => Some(FileInfo::new(id, ty, src, tgt)),
    }
}

/// Round trip of the entry codec: decoding an encoded entry gives the
/// entry's fields back.
pub proof fn lemma_entry_round_trip(fi: FileInfo)
    ensures
        spec_entry_matches(spec_entry_text(fi), fi),
{
    lemma_codec_round_trip(fi.id as nat, fi.type_@, fi.source@, fi.target@);
}

/// Metadata of one link batch.  `files` is populated only when the entries
/// are explicitly loaded.
#[derive(Debug, Clone)]
pub struct FileSave {
    pub id: String,
    pub name: String,
    pub source: String,
    pub target: String,
    pub type_: String,
    pub time: String,
    pub files_id: String,
    pub files: Vec<FileInfo>,
}

impl FileSave {
    pub fn new(id: String, name: String, source: String, target: String, type_: String,
        time: String) -> (r: FileSave)
        ensures
            r.id@ == id@,
            r.name@ == name@,
            r.source@ == source@,
            r.target@ == target@,
            r.type_@ == type_@,
            r.time@ == time@,
            r.files_id@ == Seq::<char>::empty(),
            r.files@ == Seq::<FileInfo>::empty(),
    {
        FileSave {
            id,
            name,
            source,
            target,
            type_,
            time,
            files_id: String::new(),
            files: Vec::new(),
        }
    }

    pub fn get_tree_name(&self) -> (r: &str)
        ensures
            r@ == self.id@,
    {
        self.id.as_str()
    }

    pub fn get_name(&self) -> (r: &str)
        ensures
            r@ == self.name@,
    {
        self.name.as_str()
    }

    pub fn get_source(&self) -> (r: &str)
        ensures
            r@ == self.source@,
    {
        self.source.as_str()
    }

    pub fn get_target(&self) -> (r: &str)
        ensures
            r@ == self.target@,
    {
        self.target.as_str()
    }

    pub fn get_type(&self) -> (r: &str)
        ensures
            r@ == self.type_@,
    {
        self.type_.as_str()
    }

    pub fn get_time(&self) -> (r: &str)
        ensures
            r@ == self.time@,
    {
        self.time.as_str()
    }

    pub fn get_files(&self) -> (r: &Vec<FileInfo>)
        ensures
            r@ == self.files@,
    {
        &self.files
    }

    pub fn get_files_id(&self) -> (r: &str)
        ensures
            r@ == self.files_id@,
    {
        self.files_id.as_str()
    }

    pub fn set_id(&mut self, id: String)
        ensures
            *final(self) == (FileSave { id, ..*old(self) }),
    {
        self.id = id;
    }

    pub fn set_name(&mut self, name: String)
        ensures
            *final(self) == (FileSave { name, ..*old(self) }),
    {
        self.name = name;
    }

    pub fn set_source(&mut self, source: String)
        ensures
            *final(self) == (FileSave { source, ..*old(self) }),
    {
        self.source = source;
    }

    pub fn set_target(&mut self, target: String)
        ensures
            *final(self) == (FileSave { target, ..*old(self) }),
    {
        self.target = target;
    }

    pub fn set_type(&mut self, type_: String)
        ensures
            *final(self) == (FileSave { type_, ..*old(self) }),
    {
        self.type_ = type_;
    }

    pub fn set_time(&mut self, time: String)
        ensures
            *final(self) == (FileSave { time, ..*old(self) }),
    {
        self.time = time;
    }

    pub fn set_files(&mut self, files: Vec<FileInfo>)
        ensures
            *final(self) == (FileSave { files, ..*old(self) }),
    {
        self.files = files;
    }

    pub fn set_files_id(&mut self, files_id: String)
        ensures
            *final(self) == (FileSave { files_id, ..*old(self) }),
    {
        self.files_id = files_id;
    }
}

impl Default for FileSave {
    fn default() -> (r: FileSave)
        ensures
            r.id@ == Seq::<char>::empty(),
            r.name@ == Seq::<char>::empty(),
            r.source@ == Seq::<char>::empty(),
            r.target@ == Seq::<char>::empty(),
            r.type_@ == Seq::<char>::empty(),
            r.time@ == Seq::<char>::empty(),
            r.files_id@ == Seq::<char>::empty(),
            r.files@ == Seq::<FileInfo>::empty(),
    {
        FileSave {
            id: String::new(),
            name: String::new(),
            source: String::new(),
            target: String::new(),
            type_: String::new(),
            time: String::new(),
            files_id: String::new(),
            files: Vec::new(),
        }
    }
}

/// The metadata namespace after the fixed fields have been written.
pub open spec fn spec_record_map(
    m0: Map<Seq<char>, Seq<char>>,
    name: Seq<char>,
    source: Seq<char>,
    target: Seq<char>,
    ty: Seq<char>,
    time: Seq<char>,
    fid: Seq<char>,
) -> Map<Seq<char>, Seq<char>> {
    m0.insert("name"@, name).insert("source"@, source).insert("target"@, target).insert(
        "type"@,
        ty,
    ).insert("time"@, time).insert("file_id"@, fid)
}

/// Writes the five metadata fields and the entries-namespace pointer into
/// the batch's metadata namespace.
pub fn write_record_fields(
    tree: &mut sled::Tree,
    name: &str,
    source: &str,
    target: &str,
    type_: &str,
    time: &str,
    file_id: &str,
) -> (r: Result<(), LinkError>)
    ensures
        r is Ok ==> tree_view(*final(tree)) == spec_record_map(
            tree_view(*old(tree)),
            name@,
            source@,
            target@,
            type_@,
            time@,
            file_id@,
        ),
        r matches Err(e) ==> e == LinkError::StorageUnavailable,
{
    tree_insert(tree, "name", name)?;
    tree_insert(tree, "source", source)?;
    tree_insert(tree, "target", target)?;
    tree_insert(tree, "type", type_)?;
    tree_insert(tree, "time", time)?;
    tree_insert(tree, "file_id", file_id)?;
    Ok(())
}

/// All six fixed keys are present in the namespace.
pub open spec fn spec_has_record_fields(m: Map<Seq<char>, Seq<char>>) -> bool {
    m.contains_key("name"@) && m.contains_key("source"@) && m.contains_key("target"@)
        && m.contains_key("type"@) && m.contains_key("time"@) && m.contains_key("file_id"@)
}

/// Reads the six fixed fields back from a metadata namespace:
/// (name, source, target, type, time, file_id).  `RecordCorrupt` exactly when
/// one of the six keys is missing from the namespace's readable contents.
pub fn read_record_fields(tree: &sled::Tree) -> (r: Result<
    (String, String, String, String, String, String),
    LinkError,
>)
    ensures
        r matches Ok(f) ==> {
            &&& spec_has_record_fields(tree_view(*tree))
            &&& f.0@ == tree_view(*tree)["name"@]
            &&& f.1@ == tree_view(*tree)["source"@]
            &&& f.2@ == tree_view(*tree)["target"@]
            &&& f.3@ == tree_view(*tree)["type"@]
            &&& f.4@ == tree_view(*tree)["time"@]
            &&& f.5@ == tree_view(*tree)["file_id"@]
        },
        r matches Err(e) ==> e == LinkError::StorageUnavailable || (e == LinkError::RecordCorrupt
            && !spec_has_record_fields(tree_view(*tree))),
{
    let name = match tree_get(tree, "name")? {
        Some(v) => v,
        None => return Err(LinkError::RecordCorrupt),
    };
    let source = match tree_get(tree, "source")? {
        Some(v) => v,
        None => return Err(LinkError::RecordCorrupt),
    };
    let target = match tree_get(tree, "target")? {
        Some(v) => v,
        None => return Err(LinkError::RecordCorrupt),
    };
    let type_ = match tree_get(tree, "type")? {
        Some(v) => v,
        None => return Err(LinkError::RecordCorrupt),
    };
    let time = match tree_get(tree, "time")? {
        Some(v) => v,
        None => return Err(LinkError::RecordCorrupt),
    };
    let file_id = match tree_get(tree, "file_id")? {
        Some(v) => v,
        None => return Err(LinkError::RecordCorrupt),
    };
    Ok((name, source, target, type_, time, file_id))
}

/// Round trip of the metadata fields (law): whatever a namespace held
/// before, after the fields are written each fixed key reads back exactly
/// the value written.
pub proof fn lemma_record_round_trip(
    m0: Map<Seq<char>, Seq<char>>,
    name: Seq<char>,
    source: Seq<char>,
    target: Seq<char>,
    ty: Seq<char>,
    time: Seq<char>,
    fid: Seq<char>,
)
    ensures
        ({
            let m = spec_record_map(m0, name, source, target, ty, time, fid);
            &&& spec_has_record_fields(m)
            &&& m["name"@] == name
            &&& m["source"@] == source
            &&& m["target"@] == target
            &&& m["type"@] == ty
            &&& m["time"@] == time
            &&& m["file_id"@] == fid
        }),
{
    reveal_strlit("name");
    reveal_strlit("source");
    reveal_strlit("target");
    reveal_strlit("type");
    reveal_strlit("time");
    reveal_strlit("file_id");
    assert("name"@.len() == 4 && "type"@.len() == 4 && "time"@.len() == 4);
    assert("name"@[0] == 'n' && "type"@[0] == 't' && "time"@[0] == 't');
    assert("type"@[1] == 'y' && "time"@[1] == 'i');
    assert("source"@[0] == 's' && "target"@[0] == 't');
}

/// The entries namespace after every entry of `files` has been written,
/// each keyed by its decimal id (later entries win on equal ids).
pub open spec fn spec_entries_put(m0: Map<Seq<char>, Seq<char>>, files: Seq<FileInfo>) -> Map<
    Seq<char>,
    Seq<char>,
>
    decreases files.len(),
{
    if files.len() == 0 {
        m0
    } else {
        spec_entries_put(m0, files.drop_last()).insert(
            dec_of(files.last().id as nat),
            spec_entry_text(files.last()),
        )
    }
}

/// Writes every entry into the entries namespace, keyed by its decimal id.
pub fn write_entries(tree: &mut sled::Tree, files: &Vec<FileInfo>) -> (r: Result<(), LinkError>)
    ensures
        r is Ok ==> tree_view(*final(tree)) == spec_entries_put(tree_view(*old(tree)), files@),
        r matches Err(e) ==> e == LinkError::StorageUnavailable,
{
    let ghost m0 = tree_view(*tree);
    let mut i: usize = 0;
    while i < files.len()
        invariant
            i <= files.len(),
            tree_view(*tree) == spec_entries_put(m0, files@.subrange(0, i as int)),
        decreases files.len() - i,
    {
        let key = u64_to_dec(files[i].id);
        let val = encode_entry(&files[i]);
        tree_insert(tree, key.as_str(), val.as_str())?;
        proof {
            assert(files@.subrange(0, i + 1).drop_last() =~= files@.subrange(0, i as int));
            assert(files@.subrange(0, i + 1).last() == files@[i as int]);
        }
        i = i + 1;
    }
    proof {
        assert(files@.subrange(0, files@.len() as int) =~= files@);
    }
    Ok(())
}

/// Some key of the namespace holds text that decodes exactly to `fi`.
pub open spec fn entry_from_tree(m: Map<Seq<char>, Seq<char>>, fi: FileInfo) -> bool {
    exists|k: Seq<char>| #[trigger] m.dom().contains(k) && spec_entry_matches(m[k], fi)
}

/// As many pairwise-distinct elements of a finite set as the set holds
/// cover the whole set.
proof fn lemma_distinct_keys_cover(keys: Seq<Seq<char>>, s: Set<Seq<char>>)
    requires
        s.finite(),
        keys.len() == s.len(),
        forall|i: int, j: int| 0 <= i < j < keys.len() ==> keys[i] != keys[j],
        forall|i: int| 0 <= i < keys.len() ==> s.contains(#[trigger] keys[i]),
    ensures
        forall|k: Seq<char>| s.contains(k) ==> keys.contains(k),
    decreases keys.len(),
{
    if keys.len() == 0 {
        assert forall|k: Seq<char>| s.contains(k) implies keys.contains(k) by {
            s.lemma_len0_is_empty();
        }
    } else {
        let last = keys.last();
        let s2 = s.remove(last);
        assert(s.contains(keys[keys.len() - 1]));
        vstd::set::axiom_set_remove_len(s, last);
        vstd::set::axiom_set_remove_finite(s, last);
        assert forall|i: int|
            0 <= i < keys.drop_last().len() implies s2.contains(
            #[trigger] keys.drop_last()[i],
        ) by {
            assert(keys.drop_last()[i] == keys[i]);
            assert(keys[i] != last);
        }
        lemma_distinct_keys_cover(keys.drop_last(), s2);
        assert forall|k: Seq<char>| s.contains(k) implies keys.contains(k) by {
            if k == last {
                assert(keys[keys.len() - 1] == k);
            } else {
                assert(s2.contains(k));
                assert(keys.drop_last().contains(k));
                let i = choose|i: int|
                    0 <= i < keys.drop_last().len() && keys.drop_last()[i] == k;
                assert(keys[i] == k);
            }
        }
    }
}

/// Reads and decodes every entry of an entries namespace, in the store's own
/// order: one decoded entry per stored key, and every stored value accounted
/// for, so the result equals the namespace's entries as a set.
/// `RecordCorrupt` when any entry fails to decode.
pub fn read_entries(tree: &sled::Tree) -> (r: Result<Vec<FileInfo>, LinkError>)
    ensures
        r matches Ok(v) ==> {
            &&& v@.len() == tree_view(*tree).dom().len()
            &&& forall|i: int|
                0 <= i < v@.len() ==> entry_from_tree(tree_view(*tree), #[trigger] v@[i])
            &&& forall|k: Seq<char>|
                #[trigger] tree_view(*tree).dom().contains(k) ==> exists|i: int|
                    0 <= i < v@.len() && spec_entry_matches(tree_view(*tree)[k], v@[i])
        },
        r matches Err(e) ==> e == LinkError::StorageUnavailable || e == LinkError::RecordCorrupt,
{
    let pairs = tree_entries(tree)?;
    let mut out: Vec<FileInfo> = Vec::new();
    let mut i: usize = 0;
    while i < pairs.len()
        invariant
            i <= pairs.len(),
            out@.len() == i,
            tree_view(*tree).dom().finite(),
            pairs@.len() == tree_view(*tree).dom().len(),
            forall|j: int|
                0 <= j < pairs@.len() ==> tree_view(*tree).contains_pair(
                    (#[trigger] pairs@[j]).0@,
                    pairs@[j].1@,
                ),
            forall|j: int, l: int|
                0 <= j < l < pairs@.len() ==> (#[trigger] pairs@[j]).0@ != (#[trigger] pairs@[l]).0@,
            forall|j: int| 0 <= j < i ==> entry_from_tree(tree_view(*tree), #[trigger] out@[j]),
            forall|j: int|
                0 <= j < i ==> spec_entry_matches(
                    tree_view(*tree)[(#[trigger] pairs@[j]).0@],
                    out@[j],
                ),
        decreases pairs.len() - i,
    {
        match decode_entry(pairs[i].1.as_str()) {
            None => {
                return Err(LinkError::RecordCorrupt);
            },
            Some(fi) => {
                proof {
                    let k = pairs@[i as int].0@;
                    assert(tree_view(*tree).dom().contains(k) && spec_entry_matches(
                        tree_view(*tree)[k],
                        fi,
                    ));
                    assert(entry_from_tree(tree_view(*tree), fi));
                }
                out.push(fi);
            },
        }
        i = i + 1;
    }
    proof {
        let m = tree_view(*tree);
        let keys = Seq::new(pairs@.len(), |j: int| pairs@[j].0@);
        assert forall|j: int| 0 <= j < keys.len() implies m.dom().contains(#[trigger] keys[j]) by {
            assert(m.contains_pair(pairs@[j].0@, pairs@[j].1@));
        }
        lemma_distinct_keys_cover(keys, m.dom());
        assert forall|k: Seq<char>| #[trigger] m.dom().contains(k) implies (exists|i: int|
            0 <= i < out@.len() && spec_entry_matches(m[k], out@[i])) by {
            assert(keys.contains(k));
            let j = choose|j: int| 0 <= j < keys.len() && keys[j] == k;
            assert(pairs@[j].0@ == k);
            assert(spec_entry_matches(m[k], out@[j]));
        }
    }
    Ok(out)
}

/// Entry round trip at the namespace level (law): once the entries of
/// `files` are written, an entry whose id no later entry repeats stands in
/// the namespace under its decimal id, and its stored text decodes back to
/// exactly that entry.
pub proof fn lemma_entries_round_trip(
    m0: Map<Seq<char>, Seq<char>>,
    files: Seq<FileInfo>,
    i: int,
)
    requires
        0 <= i < files.len(),
        forall|j: int| i < j < files.len() ==> (#[trigger] files[j]).id != files[i].id,
    ensures
        spec_entries_put(m0, files).contains_pair(
            dec_of(files[i].id as nat),
            spec_entry_text(files[i]),
        ),
        spec_entry_matches(spec_entries_put(m0, files)[dec_of(files[i].id as nat)], files[i]),
    decreases files.len(),
{
    lemma_entry_round_trip(files[i]);
    if i == files.len() - 1 {
    } else {
        assert(files.drop_last()[i] == files[i]);
        lemma_entries_round_trip(m0, files.drop_last(), i);
        assert(files[files.len() - 1].id != files[i].id);
        lemma_dec_of_injective(files.last().id as nat, files[i].id as nat);
        assert(dec_of(files.last().id as nat) != dec_of(files[i].id as nat));
    }
}

impl FileSave {
    /// Persists this batch: writes the metadata fields under the batch id's
    /// namespace together with a freshly generated entries-namespace name,
    /// then writes every entry into that namespace.  What each write does to
    /// its namespace is stated on `write_record_fields` and `write_entries`.
    pub fn save(&self, db: &sled::Db) -> (r: Result<(), LinkError>)
        ensures
            r matches Err(e) ==> e == LinkError::StorageUnavailable,
    {
        let mut tree = open_tree(db, self.id.as_str())?;
        let file_id = random_id(16);
        write_record_fields(
            &mut tree,
            self.name.as_str(),
            self.source.as_str(),
            self.target.as_str(),
            self.type_.as_str(),
            self.time.as_str(),
            file_id.as_str(),
        )?;
        let mut ftree = open_tree(db, file_id.as_str())?;
        write_entries(&mut ftree, &self.files)?;
        Ok(())
    }

    /// Loads the metadata fields of the batch stored under `tree_name` into
    /// this record; the entry list is left untouched.
    pub fn read(&mut self, db: &sled::Db, tree_name: &str) -> (r: Result<(), LinkError>)
        ensures
            r is Ok ==> final(self).id@ == tree_name@ && final(self).files == old(self).files,
            r is Err ==> *final(self) == *old(self),
            r matches Err(e) ==> e == LinkError::StorageUnavailable || e == LinkError::RecordCorrupt,
    {
        let tree = open_tree(db, tree_name)?;
        let (name, source, target, type_, time, file_id) = read_record_fields(&tree)?;
        self.set_id(tree_name.to_owned());
        self.set_name(name);
        self.set_source(source);
        self.set_target(target);
        self.set_type(type_);
        self.set_time(time);
        self.set_files_id(file_id);
        Ok(())
    }

    /// Loads the entry list of the namespace named `file_id` into this
    /// record; the metadata fields are left untouched.
    pub fn read_files(&mut self, db: &sled::Db, file_id: &str) -> (r: Result<(), LinkError>)
        ensures
            r is Ok ==> {
                &&& final(self).id == old(self).id
                &&& final(self).name == old(self).name
                &&& final(self).source == old(self).source
                &&& final(self).target == old(self).target
                &&& final(self).type_ == old(self).type_
                &&& final(self).time == old(self).time
                &&& final(self).files_id == old(self).files_id
            },
            r is Err ==> *final(self) == *old(self),
            r matches Err(e) ==> e == LinkError::StorageUnavailable || e == LinkError::RecordCorrupt,
    {
        let tree = open_tree(db, file_id)?;
        let files = read_entries(&tree)?;
        self.set_files(files);
        Ok(())
    }
}

/// Drops both namespaces of a batch: first its entries namespace, then its
/// metadata namespace.
pub fn drop_batch(db: &sled::Db, id: &str, files_id: &str) -> (r: Result<(), LinkError>)
    ensures
        r matches Err(e) ==> e == LinkError::StorageUnavailable,
{
    drop_tree(db, files_id)?;
    drop_tree(db, id)?;
    Ok(())
}

} // verus!
