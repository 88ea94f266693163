//! Identifier generation, the database handle, timestamps, and batch
//! enumeration.

use vstd::prelude::*;
use rand::Rng;
use crate::codec::pow10;
use crate::database::FileSave;
use crate::error::LinkError;
use crate::store::tree_names;

verus! {

/// Relies on sled::Config::open: opens (or creates) the compressed on-disk
/// database at its fixed local path.
#[verifier::external_body]
pub fn get_sled() -> (r: Result<sled::Db, LinkError>)
    ensures
        r matches Err(e) ==> e == LinkError::StorageUnavailable,
{
    let config = sled::Config::default().use_compression(true).compression_factor(10).path("db");
    match config.open() {
        Ok(db) => Ok(db),
        Err(_) => Err(LinkError::StorageUnavailable),
    }
}

/// An ASCII alphanumeric character: a digit or a letter of either case.
pub open spec fn is_alnum_char(c: char) -> bool {
    ('0' <= c && c <= '9') || ('a' <= c && c <= 'z') || ('A' <= c && c <= 'Z')
}

/// Relies on rand's Alphanumeric distribution, which draws uniformly from
/// the 62 ASCII alphanumerics: a fresh random token of exactly `num` such
/// characters.
#[verifier::external_body]
pub fn random_id(num: usize) -> (r: String)
    ensures
        r@.len() == num,
        forall|i: int| 0 <= i < r@.len() ==> is_alnum_char(#[trigger] r@[i]),
{
    rand::thread_rng().sample_iter(&rand::distributions::Alphanumeric).take(num).map(
        char::from,
    ).collect()
}

/// Relies on rand::Rng::gen_range: a uniform draw from `min..=max`.
#[verifier::external_body]
fn rand_in_range(min: u64, max: u64) -> (r: u64)
    requires
        min <= max,
    ensures
        min <= r <= max,
{
    rand::thread_rng().gen_range(min..=max)
}

proof fn lemma_pow10_mono(a: nat, b: nat)
    requires
        a <= b,
    ensures
        pow10(a) <= pow10(b),
    decreases b,
{
    if a == b {
    } else {
        lemma_pow10_mono(a, (b - 1) as nat);
        assert(pow10(b) == 10 * pow10((b - 1) as nat));
    }
}

/// A fresh random id of exactly `len` decimal digits (no leading zero).
pub fn random_id_num(len: u64) -> (r: u64)
    requires
        1 <= len <= 19,
    ensures
        pow10((len - 1) as nat) <= r < pow10(len as nat),
{
    proof {
        reveal_with_fuel(pow10, 20);
        assert(pow10(18) == 1_000_000_000_000_000_000);
        assert(pow10(19) == 10_000_000_000_000_000_000);
    }
    let mut min: u64 = 1;
    let mut k: u64 = 0;
    while k < len - 1
        invariant
            k <= len - 1 <= 18,
            min == pow10(k as nat),
            pow10(18) == 1_000_000_000_000_000_000,
            pow10(19) == 10_000_000_000_000_000_000,
        decreases len - 1 - k,
    {
        proof {
            lemma_pow10_mono((k + 1) as nat, 18);
            assert(10 * pow10(k as nat) == pow10((k + 1) as nat));
        }
        min = min * 10;
        k = k + 1;
    }
    proof {
        lemma_pow10_mono(len as nat, 19);
        assert(10 * pow10((len - 1) as nat) == pow10(len as nat));
    }
    let max = min * 10 - 1;
    rand_in_range(min, max)
}

/// Relies on chrono's Local::now and its formatter: the current local time
/// as `YYYY-MM-DD HH:MM:SS` text.  The clock decides, so nothing is claimed
/// of the value.
#[verifier::external_body]
pub fn now_string() -> (r: String) {
    chrono::Local::now().format("%Y-%m-%d %H:%M:%S").to_string()
}

/// A namespace name that names a batch's metadata: exactly the length of a
/// batch id token, which also rules out the store's reserved default
/// namespace.
pub open spec fn is_batch_name(s: Seq<char>) -> bool {
    s.len() == 6 && s != "__sled__default"@
}

/// The batch names among `names`, in order.
pub open spec fn spec_batch_names(names: Seq<Seq<char>>) -> Seq<Seq<char>>
    decreases names.len(),
{
    if names.len() == 0 {
        Seq::empty()
    } else {
        spec_batch_names(names.drop_last()) + (if is_batch_name(names.last()) {
            seq![names.last()]
        } else {
            Seq::empty()
        })
    }
}

/// Keeps exactly the namespace names that name a batch's metadata.
pub fn filter_batch_names(names: &Vec<String>) -> (r: Vec<String>)
    ensures
        ({
            let model = spec_batch_names(names.deep_view());
            &&& r@.len() == model.len()
            &&& forall|i: int| 0 <= i < r@.len() ==> (#[trigger] r@[i])@ == model[i]
            &&& forall|i: int| 0 <= i < r@.len() ==> is_batch_name((#[trigger] r@[i])@)
        }),
{
    proof {
        reveal_strlit("__sled__default");
    }
    let mut out: Vec<String> = Vec::new();
    let mut i: usize = 0;
    while i < names.len()
        invariant
            i <= names.len(),
            "__sled__default"@.len() == 15,
            ({
                let model = spec_batch_names(names.deep_view().subrange(0, i as int));
                &&& out@.len() == model.len()
                &&& forall|j: int| 0 <= j < out@.len() ==> (#[trigger] out@[j])@ == model[j]
                &&& forall|j: int| 0 <= j < out@.len() ==> is_batch_name((#[trigger] out@[j])@)
            }),
        decreases names.len() - i,
    {
        proof {
            assert(names.deep_view().subrange(0, i + 1).drop_last() =~= names.deep_view().subrange(
                0,
                i as int,
            ));
            assert(names.deep_view().subrange(0, i + 1).last() == names@[i as int]@);
        }
        if names[i].as_str().unicode_len() == 6 {
            out.push(names[i].clone());
        }
        i = i + 1;
    }
    proof {
        assert(names.deep_view().subrange(0, names@.len() as int) =~= names.deep_view());
    }
    out
}

/// Enumerates every batch in the store: one metadata-only record per batch
/// namespace, each with its six-character id and an empty entry list.
pub fn read_sled(db: &sled::Db) -> (r: Result<Vec<FileSave>, LinkError>)
    ensures
        r matches Ok(v) ==> forall|i: int|
            0 <= i < v@.len() ==> (#[trigger] v@[i]).files@.len() == 0 && v@[i].id@.len() == 6,
        r matches Err(e) ==> e == LinkError::StorageUnavailable || e == LinkError::RecordCorrupt,
{
    let names = tree_names(db);
    let batch_names = filter_batch_names(&names);
    let mut out: Vec<FileSave> = Vec::new();
    let mut i: usize = 0;
    while i < batch_names.len()
        invariant
            i <= batch_names.len(),
            forall|j: int|
                0 <= j < batch_names@.len() ==> is_batch_name((#[trigger] batch_names@[j])@),
            forall|j: int|
                0 <= j < out@.len() ==> (#[trigger] out@[j]).files@.len() == 0 && out@[j].id@.len()
                    == 6,
        decreases batch_names.len() - i,
    {
        let mut fs = FileSave::default();
        fs.read(db, batch_names[i].as_str())?;
        out.push(fs);
        i = i + 1;
    }
    Ok(out)
}

} // verus!
