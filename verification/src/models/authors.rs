//! The relation of authors. An author is known by the hexadecimal text of a
//! public key and gets an internal identity when first seen; neither ever
//! changes, and no author is removed.

use vstd::prelude::*;
use crate::store::{registered, registry_wf, Store, StoreError};

verus! {

/// A known author.
#[derive(Debug)]
pub struct Author {
    pub id: i32,
    pub author: String,
}

/// An author about to be registered.
#[derive(Debug)]
pub struct NewAuthor<'a> {
    pub author: &'a str,
}

/// The mathematical values of a list of texts.
pub open spec fn texts_of(texts: Seq<String>) -> Seq<Seq<char>> {
    texts.map_values(|text: String| text@)
}

/// In a registry, the name at position `i` has the identity `i + 1`.
pub proof fn lemma_registered_at(registry: Seq<Seq<char>>, i: int)
    requires
        registry_wf(registry),
        0 <= i < registry.len(),
    ensures
        registered(registry, registry[i]) == Some((i + 1) as i32),
{
    let text = registry[i];
    assert(registry.contains(text));
    let j = registry.index_of(text);
    assert(0 <= j < registry.len() && registry[j] == text);
    assert(i == j);
}

/// The internal identity of the author known by `identity`, if any.
fn find_author(store: &Store, identity: &String) -> (r: Option<i32>)
    requires
        store.wf(),
    ensures
        r == store@.author_id(identity@),
{
    let mut i: usize = 0;
    while i < store.authors.len()
        invariant
            i <= store.authors@.len(),
            store.wf(),
            forall|j: int| 0 <= j < i ==> #[trigger] store@.authors[j] != identity@,
        decreases store.authors@.len() - i,
    {
        if store.authors[i].author == *identity {
            proof {
                lemma_registered_at(store@.authors, i as int);
            }
            return Some(store.authors[i].id);
        }
        i += 1;
    }
    None
}

/// The identity strings of all known authors, in the order of their internal
/// identities.
pub fn get_authors(store: &Store) -> (r: Result<Vec<String>, StoreError>)
    requires
        store.wf(),
    ensures
        r matches Ok(names) && texts_of(names@) == store@.authors,
{
    let mut names: Vec<String> = Vec::new();
    let mut i: usize = 0;
    while i < store.authors.len()
        invariant
            i <= store.authors@.len(),
            names@.len() == i,
            forall|j: int| 0 <= j < i ==> (#[trigger] names@[j])@ == store@.authors[j],
        decreases store.authors@.len() - i,
    {
        names.push(store.authors[i].author.clone());
        i += 1;
    }
    assert(texts_of(names@) =~= store@.authors);
    Ok(names)
}

/// The internal identity of the author known by `author_str`; `NotFound`
/// where no entry of that author was ever submitted.
pub fn get_author(store: &Store, author_str: &str) -> (r: Result<i32, StoreError>)
    requires
        store.wf(),
    ensures
        r == match store@.author_id(author_str@) {
            Some(id) => Ok::<i32, StoreError>(id),
            None => Err::<i32, StoreError>(StoreError::NotFound),
        },
{
    let identity = author_str.to_owned();
    match find_author(store, &identity) {
        Some(id) => Ok(id),
        None => Err(StoreError::NotFound),
    }
}

/// Whether `feed_id` is among `feed_ids`.
fn listed(feed_ids: &Vec<u64>, feed_id: u64) -> (r: bool)
    ensures
        r == feed_ids@.contains(feed_id),
{
    let mut i: usize = 0;
    while i < feed_ids.len()
        invariant
            i <= feed_ids@.len(),
            forall|j: int| 0 <= j < i ==> feed_ids@[j] != feed_id,
        decreases feed_ids@.len() - i,
    {
        if feed_ids[i] == feed_id {
            return true;
        }
        i += 1;
    }
    false
}

/// The feeds in which the author known by `author_str` has an entry, each
/// once. An author without entries, known or not, has none.
pub fn get_author_feed_ids(store: &Store, author_str: &str) -> (r: Result<Vec<u64>, StoreError>)
    requires
        store.wf(),
    ensures
        r matches Ok(feed_ids) && feed_ids@.no_duplicates() && feed_ids@.to_set()
            == store@.feed_ids(author_str@),
{
    let identity = author_str.to_owned();
    let mut feed_ids: Vec<u64> = Vec::new();
    match find_author(store, &identity) {
        None => {
            assert(feed_ids@.to_set() =~= store@.feed_ids(author_str@));
        },
        Some(id) => {
            let mut i: usize = 0;
            while i < store.messages.len()
                invariant
                    i <= store.messages@.len(),
                    store@.author_id(author_str@) == Some(id),
                    feed_ids@.no_duplicates(),
                    forall|f: u64|
                        feed_ids@.contains(f) <==> exists|j: int|
                            0 <= j < i && (#[trigger] store@.messages[j]).feed_id == f
                                && store@.messages[j].author_id == id,
                decreases store.messages@.len() - i,
            {
                let row = &store.messages[i];
                let ghost before = feed_ids@;
                if row.author_id == id && !listed(&feed_ids, row.feed_id) {
                    feed_ids.push(row.feed_id);
                }
                proof {
                    let at = store@.messages[i as int];
                    assert(at.feed_id == row.feed_id && at.author_id == row.author_id);
                    assert forall|f: u64|
                        feed_ids@.contains(f) <==> exists|j: int|
                            0 <= j < i + 1 && (#[trigger] store@.messages[j]).feed_id == f
                                && store@.messages[j].author_id == id by {
                        if feed_ids@.contains(f) {
                            let k = feed_ids@.index_of(f);
                            if k < before.len() {
                                assert(before[k] == f);
                                assert(before.contains(f));
                            } else {
                                assert(at.feed_id == f && at.author_id == id);
                            }
                        }
                        if exists|j: int|
                            0 <= j < i + 1 && (#[trigger] store@.messages[j]).feed_id == f
                                && store@.messages[j].author_id == id {
                            let j = choose|j: int|
                                0 <= j < i + 1 && (#[trigger] store@.messages[j]).feed_id == f
                                    && store@.messages[j].author_id == id;
                            if j < i {
                                assert(before.contains(f));
                                let k = before.index_of(f);
                                assert(feed_ids@[k] == f);
                            } else if before.contains(f) {
                                let k = before.index_of(f);
                                assert(feed_ids@[k] == f);
                            } else {
                                assert(feed_ids@[before.len() as int] == f);
                            }
                        }
                    }
                }
                i += 1;
            }
            assert(feed_ids@.to_set() =~= store@.feed_ids(author_str@));
        },
    }
    Ok(feed_ids)
}

/// Looks `author_key` up and registers it if it is unknown; either way
/// returns its internal identity. Registering a known author changes
/// nothing. `Exhausted` where the author is unknown and no internal identity
/// is left.
pub fn upsert_author(store: &mut Store, author_key: &str) -> (r: Result<i32, StoreError>)
    requires
        old(store).wf(),
    ensures
        final(store).wf(),
        (final(store)@, r) == old(store)@.upserted_author(author_key@),
{
    let identity = author_key.to_owned();
    match find_author(store, &identity) {
        Some(id) => Ok(id),
        None => {
            let known: usize = store.authors.len();
            if known >= 2147483647 {
                return Err(StoreError::Exhausted);
            }
            let id: i32 = (known + 1) as i32;
            let row = NewAuthor { author: author_key };
            store.authors.push(Author { id, author: row.author.to_owned() });
            assert(store@.authors =~= old(store)@.authors.push(author_key@));
            assert(store@.keys =~= old(store)@.keys);
            assert(store@.messages =~= old(store)@.messages);
            Ok(id)
        },
    }
}

} // verus!
