use vstd::prelude::*;
use crate::task::{PersistedTask, TaskRecord};

verus! {

/// No two records share an id.
pub open spec fn unique_ids(s: Seq<TaskRecord>) -> bool {
    forall|i: int, j: int| 0 <= i < s.len() && 0 <= j < s.len() && i != j ==> s[i].gid != s[j].gid
}

/// Newest first.
pub open spec fn newest_first(s: Seq<TaskRecord>) -> bool {
    forall|i: int, j: int| 0 <= i < j < s.len() ==> s[i].added_at >= s[j].added_at
}

pub open spec fn has_id(s: Seq<TaskRecord>, g: Seq<char>) -> bool {
    exists|i: int| 0 <= i < s.len() && s[i].gid == g
}

/// The record with id `g`, if any.
pub open spec fn lookup(s: Seq<TaskRecord>, g: Seq<char>) -> Option<TaskRecord> {
    if has_id(s, g) {
        Some(s[choose|i: int| 0 <= i < s.len() && s[i].gid == g])
    } else {
        None
    }
}

pub open spec fn records(v: Seq<PersistedTask>) -> Seq<TaskRecord> {
    v.map_values(|t: PersistedTask| t@)
}

pub proof fn lemma_lookup_at(s: Seq<TaskRecord>, i: int)
    requires
        unique_ids(s),
        0 <= i < s.len(),
    ensures
        lookup(s, s[i].gid) == Some(s[i]),
{
    assert(has_id(s, s[i].gid));
}

pub proof fn lemma_lookup_update(s: Seq<TaskRecord>, i: int, r: TaskRecord)
    requires
        unique_ids(s),
        0 <= i < s.len(),
        r.gid == s[i].gid,
    ensures
        unique_ids(s.update(i, r)),
        forall|g: Seq<char>| #[trigger]
            lookup(s.update(i, r), g) == if g == r.gid {
                Some(r)
            } else {
                lookup(s, g)
            },
{
    let t = s.update(i, r);
    assert forall|g: Seq<char>| #[trigger]
        lookup(t, g) == if g == r.gid {
            Some(r)
        } else {
            lookup(s, g)
        } by {
        if g == r.gid {
            lemma_lookup_at(t, i);
        } else if has_id(s, g) {
            let k = choose|k: int| 0 <= k < s.len() && s[k].gid == g;
            lemma_lookup_at(s, k);
            lemma_lookup_at(t, k);
        } else {
            assert(!has_id(t, g));
        }
    }
}

pub proof fn lemma_lookup_remove(s: Seq<TaskRecord>, i: int)
    requires
        unique_ids(s),
        0 <= i < s.len(),
    ensures
        unique_ids(s.remove(i)),
        newest_first(s) ==> newest_first(s.remove(i)),
        forall|g: Seq<char>| #[trigger]
            lookup(s.remove(i), g) == if g == s[i].gid {
                None
            } else {
                lookup(s, g)
            },
{
    let t = s.remove(i);
    assert forall|a: int, b: int| 0 <= a < t.len() && 0 <= b < t.len() && a != b implies t[a].gid
        != t[b].gid by {
        let a2 = if a < i { a } else { a + 1 };
        let b2 = if b < i { b } else { b + 1 };
        assert(t[a] == s[a2] && t[b] == s[b2]);
    }
    if newest_first(s) {
        assert forall|a: int, b: int| 0 <= a < b < t.len() implies t[a].added_at >= t[b].added_at by {
            let a2 = if a < i { a } else { a + 1 };
            let b2 = if b < i { b } else { b + 1 };
            assert(t[a] == s[a2] && t[b] == s[b2]);
        }
    }
    assert forall|g: Seq<char>| #[trigger]
        lookup(t, g) == if g == s[i].gid {
            None
        } else {
            lookup(s, g)
        } by {
        if g == s[i].gid {
            if has_id(t, g) {
                let k = choose|k: int| 0 <= k < t.len() && t[k].gid == g;
                let k2 = if k < i { k } else { k + 1 };
                assert(t[k] == s[k2]);
            }
        } else if has_id(s, g) {
            let k = choose|k: int| 0 <= k < s.len() && s[k].gid == g;
            lemma_lookup_at(s, k);
            let k2 = if k < i { k } else { k - 1 };
            assert(t[k2] == s[k]);
            lemma_lookup_at(t, k2);
        } else {
            if has_id(t, g) {
                let k = choose|k: int| 0 <= k < t.len() && t[k].gid == g;
                let k2 = if k < i { k } else { k + 1 };
                assert(t[k] == s[k2]);
            }
        }
    }
}

pub proof fn lemma_lookup_insert(s: Seq<TaskRecord>, i: int, r: TaskRecord)
    requires
        unique_ids(s),
        0 <= i <= s.len(),
        !has_id(s, r.gid),
    ensures
        unique_ids(s.insert(i, r)),
        forall|g: Seq<char>| #[trigger]
            lookup(s.insert(i, r), g) == if g == r.gid {
                Some(r)
            } else {
                lookup(s, g)
            },
{
    let t = s.insert(i, r);
    assert forall|a: int, b: int| 0 <= a < t.len() && 0 <= b < t.len() && a != b implies t[a].gid
        != t[b].gid by {
        if a != i && b != i {
            let a2 = if a < i { a } else { a - 1 };
            let b2 = if b < i { b } else { b - 1 };
            assert(t[a] == s[a2] && t[b] == s[b2]);
        } else if a == i {
            let b2 = if b < i { b } else { b - 1 };
            assert(t[b] == s[b2]);
        } else {
            let a2 = if a < i { a } else { a - 1 };
            assert(t[a] == s[a2]);
        }
    }
    assert forall|g: Seq<char>| #[trigger]
        lookup(t, g) == if g == r.gid {
            Some(r)
        } else {
            lookup(s, g)
        } by {
        if g == r.gid {
            lemma_lookup_at(t, i);
        } else if has_id(s, g) {
            let k = choose|k: int| 0 <= k < s.len() && s[k].gid == g;
            lemma_lookup_at(s, k);
            let k2 = if k < i { k } else { k + 1 };
            assert(t[k2] == s[k]);
            lemma_lookup_at(t, k2);
        } else {
            if has_id(t, g) {
                let k = choose|k: int| 0 <= k < t.len() && t[k].gid == g;
                if k != i {
                    let k2 = if k < i { k } else { k - 1 };
                    assert(t[k] == s[k2]);
                }
            }
        }
    }
}

} // verus!
