//! The mathematical model of a record collection, and the operations of the
//! store on it: first match by id, first match by (site name, user name),
//! insert-or-replace, and removal by id.
use vstd::prelude::*;
use crate::entity::PasswordEntity;

verus! {

/// Index of the first record at or after `i` whose id is `id`.
pub open spec fn id_index_from(s: Seq<PasswordEntity>, id: Seq<char>, i: int) -> Option<int>
    decreases s.len() - i,
{
    if i < 0 || i >= s.len() {
        None
    } else if s[i].id@ == id {
        Some(i)
    } else {
        id_index_from(s, id, i + 1)
    }
}

/// Index of the first record whose id is `id`.
pub open spec fn id_index(s: Seq<PasswordEntity>, id: Seq<char>) -> Option<int> {
    id_index_from(s, id, 0)
}

/// Index of the first record at or after `i` with this site name and user name.
pub open spec fn key_index_from(
    s: Seq<PasswordEntity>,
    site: Seq<char>,
    user: Seq<char>,
    i: int,
) -> Option<int>
    decreases s.len() - i,
{
    if i < 0 || i >= s.len() {
        None
    } else if s[i].page_name@ == site && s[i].username@ == user {
        Some(i)
    } else {
        key_index_from(s, site, user, i + 1)
    }
}

/// Index of the first record with this site name and user name.
pub open spec fn key_index(s: Seq<PasswordEntity>, site: Seq<char>, user: Seq<char>) -> Option<int> {
    key_index_from(s, site, user, 0)
}

/// Whether some record has id `id`.
pub open spec fn has_id(s: Seq<PasswordEntity>, id: Seq<char>) -> bool {
    exists|j: int| 0 <= j < s.len() && #[trigger] s[j].id@ == id
}

/// No two records share an id.
pub open spec fn ids_unique(s: Seq<PasswordEntity>) -> bool {
    forall|a: int, b: int|
        0 <= a < s.len() && 0 <= b < s.len() && a != b ==> #[trigger] s[a].id@ != #[trigger] s[b].id@
}

/// The record found by id: the first one that carries it.
pub open spec fn found_by_id(s: Seq<PasswordEntity>, id: Seq<char>) -> Option<PasswordEntity> {
    match id_index(s, id) {
        Some(i) => Some(s[i]),
        None => None,
    }
}

/// The collection after saving `p`: the first record with the same id is
/// replaced in place, or `p` is appended when the id is new.
pub open spec fn saved(s: Seq<PasswordEntity>, p: PasswordEntity) -> Seq<PasswordEntity> {
    match id_index(s, p.id@) {
        Some(i) => s.update(i, p),
        None => s.push(p),
    }
}

/// The collection without any record whose id is `id`, order kept.
pub open spec fn without_id(s: Seq<PasswordEntity>, id: Seq<char>) -> Seq<PasswordEntity>
    decreases s.len(),
{
    if s.len() == 0 {
        s
    } else {
        let rest = without_id(s.drop_last(), id);
        if s.last().id@ == id {
            rest
        } else {
            rest.push(s.last())
        }
    }
}

/// What `id_index_from` returns, stated without recursion.
pub proof fn lemma_id_index_from(s: Seq<PasswordEntity>, id: Seq<char>, i: int)
    requires
        0 <= i <= s.len(),
    ensures
        match id_index_from(s, id, i) {
            Some(k) => i <= k < s.len() && s[k].id@ == id && forall|j: int|
                i <= j < k ==> #[trigger] s[j].id@ != id,
            None => forall|j: int| i <= j < s.len() ==> #[trigger] s[j].id@ != id,
        },
    decreases s.len() - i,
{
    if i < s.len() && s[i].id@ != id {
        lemma_id_index_from(s, id, i + 1);
    }
}

/// What `key_index_from` returns, stated without recursion.
pub proof fn lemma_key_index_from(s: Seq<PasswordEntity>, site: Seq<char>, user: Seq<char>, i: int)
    requires
        0 <= i <= s.len(),
    ensures
        match key_index_from(s, site, user, i) {
            Some(k) => i <= k < s.len() && s[k].page_name@ == site && s[k].username@ == user
                && forall|j: int|
                i <= j < k ==> !(#[trigger] s[j].page_name@ == site && s[j].username@ == user),
            None => forall|j: int|
                i <= j < s.len() ==> !(#[trigger] s[j].page_name@ == site && s[j].username@ == user),
        },
    decreases s.len() - i,
{
    if i < s.len() && !(s[i].page_name@ == site && s[i].username@ == user) {
        lemma_key_index_from(s, site, user, i + 1);
    }
}

/// The first index found by id is the one index with that id before which no
/// record carries it.
pub proof fn lemma_id_index_is(s: Seq<PasswordEntity>, id: Seq<char>, k: int)
    requires
        0 <= k < s.len(),
        s[k].id@ == id,
        forall|j: int| 0 <= j < k ==> #[trigger] s[j].id@ != id,
    ensures
        id_index(s, id) == Some(k),
{
    lemma_id_index_from(s, id, 0);
    match id_index(s, id) {
        Some(c) => {
            if c < k {
                assert(s[c].id@ != id);
            } else if c > k {
                assert(s[k].id@ != id);
            }
        },
        None => {
            assert(s[k].id@ != id);
        },
    }
}

/// Without a record that has `id`, removal by `id` leaves the collection as it is.
pub proof fn lemma_without_absent_id(s: Seq<PasswordEntity>, id: Seq<char>)
    requires
        !has_id(s, id),
    ensures
        without_id(s, id) == s,
    decreases s.len(),
{
    if s.len() > 0 {
        assert(s.last().id@ != id) by {
            assert(s[s.len() - 1].id@ != id);
        }
        assert forall|j: int| 0 <= j < s.drop_last().len() implies #[trigger] s.drop_last()[j].id@ != id by {
            assert(s[j].id@ != id);
        }
        lemma_without_absent_id(s.drop_last(), id);
        assert(s.drop_last().push(s.last()) =~= s);
    }
}

/// Where ids are unique and record `k` has `id`, removal by `id` removes
/// exactly record `k`.
pub proof fn lemma_without_unique_id(s: Seq<PasswordEntity>, id: Seq<char>, k: int)
    requires
        ids_unique(s),
        0 <= k < s.len(),
        s[k].id@ == id,
    ensures
        without_id(s, id) == s.remove(k),
    decreases s.len(),
{
    let d = s.drop_last();
    if k == s.len() - 1 {
        assert forall|j: int| 0 <= j < d.len() implies #[trigger] d[j].id@ != id by {
            assert(s[j].id@ != s[k].id@);
        }
        lemma_without_absent_id(d, id);
        assert(s.remove(k) =~= d);
    } else {
        assert(s[s.len() - 1].id@ != s[k].id@);
        assert(d[k] == s[k]);
        lemma_without_unique_id(d, id, k);
        assert(d.remove(k).push(s.last()) =~= s.remove(k));
    }
}

/// Saving a record and then looking its id up gives back that record.
pub proof fn lemma_save_then_get(s: Seq<PasswordEntity>, p: PasswordEntity)
    ensures
        found_by_id(saved(s, p), p.id@) == Some(p),
{
    lemma_id_index_from(s, p.id@, 0);
    let t = saved(s, p);
    match id_index(s, p.id@) {
        Some(i) => {
            assert forall|j: int| 0 <= j < i implies #[trigger] t[j].id@ != p.id@ by {
                assert(t[j] == s[j]);
            }
            lemma_id_index_is(t, p.id@, i);
        },
        None => {
            assert forall|j: int| 0 <= j < s.len() implies #[trigger] t[j].id@ != p.id@ by {
                assert(t[j] == s[j]);
            }
            lemma_id_index_is(t, p.id@, s.len() as int);
        },
    }
}

/// Saving a record whose id is already present replaces that entry where it
/// stands: the size is unchanged and records with other ids are untouched.
pub proof fn lemma_save_existing_in_place(s: Seq<PasswordEntity>, p: PasswordEntity)
    requires
        has_id(s, p.id@),
    ensures
        id_index(s, p.id@) is Some,
        s[id_index(s, p.id@)->Some_0].id@ == p.id@,
        saved(s, p) == s.update(id_index(s, p.id@)->Some_0, p),
        saved(s, p).len() == s.len(),
        forall|j: int| 0 <= j < s.len() && s[j].id@ != p.id@ ==> #[trigger] saved(s, p)[j] == s[j],
{
    lemma_id_index_from(s, p.id@, 0);
    let j0 = choose|j: int| 0 <= j < s.len() && #[trigger] s[j].id@ == p.id@;
    if id_index(s, p.id@) is None {
        assert(s[j0].id@ != p.id@);
    }
}

/// Saving keeps ids unique.
pub proof fn lemma_save_keeps_ids_unique(s: Seq<PasswordEntity>, p: PasswordEntity)
    requires
        ids_unique(s),
    ensures
        ids_unique(saved(s, p)),
{
    lemma_id_index_from(s, p.id@, 0);
    let t = saved(s, p);
    match id_index(s, p.id@) {
        Some(i) => {
            assert forall|a: int, b: int|
                0 <= a < t.len() && 0 <= b < t.len() && a != b implies #[trigger] t[a].id@
                != #[trigger] t[b].id@ by {
                if a == i {
                    assert(s[b].id@ != s[i].id@);
                } else if b == i {
                    assert(s[a].id@ != s[i].id@);
                } else {
                    assert(s[a].id@ != s[b].id@);
                }
            }
        },
        None => {
            assert forall|a: int, b: int|
                0 <= a < t.len() && 0 <= b < t.len() && a != b implies #[trigger] t[a].id@
                != #[trigger] t[b].id@ by {
                if a < s.len() && b < s.len() {
                    assert(s[a].id@ != s[b].id@);
                } else if a < s.len() {
                    assert(s[a].id@ != p.id@);
                } else {
                    assert(s[b].id@ != p.id@);
                }
            }
        },
    }
}

/// With unique ids, deleting an id that is present removes exactly that
/// entry and shrinks the collection by one; deleting an absent id changes
/// nothing.
pub proof fn lemma_delete_effect(s: Seq<PasswordEntity>, id: Seq<char>)
    requires
        ids_unique(s),
    ensures
        has_id(s, id) ==> id_index(s, id) is Some && without_id(s, id) == s.remove(id_index(s, id)->Some_0)
            && without_id(s, id).len() == s.len() - 1,
        !has_id(s, id) ==> without_id(s, id) == s,
{
    lemma_id_index_from(s, id, 0);
    if has_id(s, id) {
        let j0 = choose|j: int| 0 <= j < s.len() && #[trigger] s[j].id@ == id;
        if id_index(s, id) is None {
            assert(s[j0].id@ != id);
        }
        lemma_without_unique_id(s, id, id_index(s, id)->Some_0);
    } else {
        lemma_without_absent_id(s, id);
    }
}

/// Deleting by id keeps ids unique.
pub proof fn lemma_delete_keeps_ids_unique(s: Seq<PasswordEntity>, id: Seq<char>)
    requires
        ids_unique(s),
    ensures
        ids_unique(without_id(s, id)),
{
    lemma_delete_effect(s, id);
    lemma_id_index_from(s, id, 0);
    if has_id(s, id) {
        let k = id_index(s, id)->Some_0;
        let t = s.remove(k);
        assert forall|a: int, b: int|
            0 <= a < t.len() && 0 <= b < t.len() && a != b implies #[trigger] t[a].id@
            != #[trigger] t[b].id@ by {
            let sa = if a < k { a } else { a + 1 };
            let sb = if b < k { b } else { b + 1 };
            assert(t[a] == s[sa] && t[b] == s[sb]);
            assert(s[sa].id@ != s[sb].id@);
        }
    }
}

/// Scans for the first record whose id is `id`.
pub fn position_of_id(v: &Vec<PasswordEntity>, id: &String) -> (r: Option<usize>)
    ensures
        match r {
            Some(i) => id_index(v@, id@) == Some(i as int),
            None => id_index(v@, id@) is None,
        },
{
    let mut i: usize = 0;
    while i < v.len()
        invariant
            0 <= i <= v.len(),
            id_index(v@, id@) == id_index_from(v@, id@, i as int),
        decreases v.len() - i,
    {
        if v[i].id == *id {
            return Some(i);
        }
        i = i + 1;
    }
    None
}

/// Scans for the first record with this site name and user name.
pub fn position_of_key(v: &Vec<PasswordEntity>, site: &String, username: &String) -> (r: Option<usize>)
    ensures
        match r {
            Some(i) => key_index(v@, site@, username@) == Some(i as int),
            None => key_index(v@, site@, username@) is None,
        },
{
    let mut i: usize = 0;
    while i < v.len()
        invariant
            0 <= i <= v.len(),
            key_index(v@, site@, username@) == key_index_from(v@, site@, username@, i as int),
        decreases v.len() - i,
    {
        if v[i].page_name == *site && v[i].username == *username {
            return Some(i);
        }
        i = i + 1;
    }
    None
}

/// Saves `p` into `v`: replaces the first record with the same id, or appends.
pub fn upsert(v: &mut Vec<PasswordEntity>, p: &PasswordEntity)
    ensures
        final(v)@ == saved(old(v)@, *p),
{
    proof {
        lemma_id_index_from(v@, p.id@, 0);
    }
    match position_of_id(v, &p.id) {
        Some(i) => {
            v.set(i, p.duplicate());
        },
        None => {
            v.push(p.duplicate());
        },
    }
}

/// Removes every record whose id is `id`; tells whether any was there.
pub fn remove_id(v: &mut Vec<PasswordEntity>, id: &String) -> (found: bool)
    ensures
        found == has_id(old(v)@, id@),
        final(v)@ == without_id(old(v)@, id@),
{
    let ghost s = v@;
    let mut kept: Vec<PasswordEntity> = Vec::new();
    let mut found = false;
    let mut i: usize = 0;
    while i < v.len()
        invariant
            v@ == s,
            0 <= i <= s.len(),
            kept@ == without_id(s.subrange(0, i as int), id@),
            !found ==> forall|j: int| 0 <= j < i ==> #[trigger] s[j].id@ != id@,
            found ==> has_id(s, id@),
        decreases s.len() - i,
    {
        assert(s.subrange(0, i as int + 1).drop_last() =~= s.subrange(0, i as int));
        if v[i].id == *id {
            found = true;
        } else {
            kept.push(v[i].duplicate());
        }
        i = i + 1;
    }
    assert(s.subrange(0, s.len() as int) =~= s);
    *v = kept;
    found
}

} // verus!
