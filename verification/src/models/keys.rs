//! A second registry, of public keys by their hexadecimal text, kept like
//! the relation of authors.

use vstd::prelude::*;
use crate::models::authors::lemma_registered_at;
use crate::store::{Store, StoreError};

verus! {

/// A registered key.
#[derive(Debug)]
pub struct Key {
    pub id: i32,
    pub key: String,
}

/// A key about to be registered.
#[derive(Debug)]
pub struct NewKey<'a> {
    pub key: &'a str,
}

/// Looks `keys_key` up and registers it if it is unknown; either way returns
/// its internal identity. Registering a known key changes nothing.
/// `Exhausted` where the key is unknown and no internal identity is left.
pub fn upsert_key(store: &mut Store, keys_key: &str) -> (r: Result<i32, StoreError>)
    requires
        old(store).wf(),
    ensures
        final(store).wf(),
        (final(store)@, r) == old(store)@.upserted_key(keys_key@),
{
    let text = keys_key.to_owned();
    let mut i: usize = 0;
    while i < store.keys.len()
        invariant
            i <= store.keys@.len(),
            store.wf(),
            *store == *old(store),
            text@ == keys_key@,
            forall|j: int| 0 <= j < i ==> #[trigger] store@.keys[j] != text@,
        decreases store.keys@.len() - i,
    {
        if store.keys[i].key == text {
            proof {
                lemma_registered_at(store@.keys, i as int);
            }
            return Ok(store.keys[i].id);
        }
        i += 1;
    }
    let known: usize = store.keys.len();
    if known >= 2147483647 {
        return Err(StoreError::Exhausted);
    }
    let id: i32 = (known + 1) as i32;
    let row = NewKey { key: keys_key };
    store.keys.push(Key { id, key: row.key.to_owned() });
    assert(store@.keys =~= old(store)@.keys.push(keys_key@));
    assert(store@.authors =~= old(store)@.authors);
    assert(store@.messages =~= old(store)@.messages);
    Ok(id)
}

} // verus!
