//! Names and lifetime of the records that the bot keeps in its key-value store.
use vstd::prelude::*;
use crate::text::{decimal, digits_value, lemma_decimal_props, push_decimal, push_str};

verus! {

/// How long a stored record lives, in seconds.
pub const STATE_TTL_SECS: u64 = 1800;

/// How long an entry behind a button stays usable, in milliseconds: the
/// lifetime of a stored record.
pub const ENTRY_TTL_MS: u64 = 1800000;

/// The kinds of records the bot stores.
#[derive(Clone, Copy, Debug, PartialEq, Eq, Structural)]
pub enum StoreKind {
    /// A download offered to a user.
    Download,
    /// A catalog page offered to a user.
    Navigation,
    /// A list of search results being paged through.
    Results,
}

/// The prefix of the keys of one kind of record.
pub open spec fn kind_prefix(kind: StoreKind) -> Seq<char> {
    match kind {
        StoreKind::Download => "dl:"@,
        StoreKind::Navigation => "nav:"@,
        StoreKind::Results => "res:"@,
    }
}

/// The key under which record `id` of a kind is stored.
pub open spec fn store_key(kind: StoreKind, id: u64) -> Seq<char> {
    kind_prefix(kind) + decimal(id as nat)
}

/// The key under which record `id` of `kind` is stored: `dl:{id}`,
/// `nav:{id}` or `res:{id}`.
pub fn storage_key(kind: StoreKind, id: u64) -> (r: String)
    ensures
        r@ == store_key(kind, id),
{
    let mut s = String::new();
    match kind {
        StoreKind::Download => push_str(&mut s, "dl:"),
        StoreKind::Navigation => push_str(&mut s, "nav:"),
        StoreKind::Results => push_str(&mut s, "res:"),
    }
    push_decimal(&mut s, id);
    s
}

/// No two records share a key: the key determines both the kind and the
/// number of the record.
pub proof fn lemma_store_key_injective(k1: StoreKind, id1: u64, k2: StoreKind, id2: u64)
    requires
        store_key(k1, id1) == store_key(k2, id2),
    ensures
        k1 == k2,
        id1 == id2,
{
    reveal_strlit("dl:");
    reveal_strlit("nav:");
    reveal_strlit("res:");
    let a = store_key(k1, id1);
    let b = store_key(k2, id2);
    assert(a[0] == kind_prefix(k1)[0]);
    assert(b[0] == kind_prefix(k2)[0]);
    assert(k1 == k2);
    let p = kind_prefix(k1).len() as int;
    assert(a.skip(p) =~= decimal(id1 as nat));
    assert(b.skip(p) =~= decimal(id2 as nat));
    lemma_decimal_props(id1 as nat);
    lemma_decimal_props(id2 as nat);
    assert(digits_value(decimal(id1 as nat)) == digits_value(decimal(id2 as nat)));
}

} // verus!
