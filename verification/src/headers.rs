//! String-to-string maps for query parameters and HTTP headers, kept
//! as association lists in insertion order. Lookup takes the first
//! entry with a matching name; `find_header_ci` matches names up to
//! ASCII case, as HTTP header lookup must.
use vstd::prelude::*;
use vstd::string::StringExecFns;
use crate::strutil::eq_ignore_case;

verus! {

/// Value of the first entry named `key`, searching from index `i`.
pub open spec fn map_get_from(entries: Seq<(String, String)>, key: Seq<char>, i: int) -> Option<
    Seq<char>,
>
    decreases entries.len() - i,
{
    if i < 0 || i >= entries.len() {
        None
    } else if entries[i].0@ == key {
        Some(entries[i].1@)
    } else {
        map_get_from(entries, key, i + 1)
    }
}

/// Value of the first entry named `key`.
pub open spec fn spec_map_get(entries: Seq<(String, String)>, key: Seq<char>) -> Option<Seq<char>> {
    map_get_from(entries, key, 0)
}

/// Value of the first entry whose name equals `key` up to ASCII case,
/// searching from index `i`.
pub open spec fn find_ci_from(entries: Seq<(String, String)>, key: Seq<char>, i: int) -> Option<
    Seq<char>,
>
    decreases entries.len() - i,
{
    if i < 0 || i >= entries.len() {
        None
    } else if eq_ignore_case(entries[i].0@, key) {
        Some(entries[i].1@)
    } else {
        find_ci_from(entries, key, i + 1)
    }
}

/// Value of the first entry whose name equals `key` up to ASCII case.
pub open spec fn spec_find_ci(entries: Seq<(String, String)>, key: Seq<char>) -> Option<Seq<char>> {
    find_ci_from(entries, key, 0)
}

/// Looks up `key` exactly.
pub fn map_get<'a>(entries: &'a Vec<(String, String)>, key: &str) -> (r: Option<&'a String>)
    ensures
        r is Some <==> spec_map_get(entries@, key@) is Some,
        r is Some ==> r->0@ == spec_map_get(entries@, key@)->0,
{
    let n = entries.len();
    let mut i: usize = 0;
    while i < n
        invariant
            n == entries@.len(),
            i <= n,
            spec_map_get(entries@, key@) == map_get_from(entries@, key@, i as int),
        decreases n - i,
    {
        if crate::strutil::str_eq(entries[i].0.as_str(), key) {
            return Some(&entries[i].1);
        }
        i = i + 1;
    }
    None
}

/// Inserts or replaces the entry named `key`, leaving every other
/// name bound as before and adding no second entry for `key`.
pub fn map_set(entries: &mut Vec<(String, String)>, key: String, value: String)
    ensures
        forall|k: Seq<char>|
            #[trigger] spec_map_get(final(entries)@, k) == if k == key@ {
                Some(value@)
            } else {
                spec_map_get(old(entries)@, k)
            },
        final(entries)@.len() <= old(entries)@.len() + 1,
{
    let n = entries.len();
    let mut i: usize = 0;
    while i < n
        invariant
            n == entries@.len(),
            i <= n,
            entries@ == old(entries)@,
            forall|j: int| 0 <= j < i ==> entries@[j].0@ != key@,
        decreases n - i,
    {
        if crate::strutil::str_eq(entries[i].0.as_str(), key.as_str()) {
            let _ = entries.remove(i);
            entries.insert(i, (key, value));
            proof {
                lemma_map_set_at(entries@, old(entries)@, key@, value@, i as int);
            }
            return ;
        }
        i = i + 1;
    }
    entries.push((key, value));
    proof {
        lemma_map_set_at(entries@, old(entries)@, key@, value@, n as int);
    }
}

/// After replacing index `i` of `pre` (or appending at `i == pre.len()`)
/// with the pair `(key, value)`, where no entry before `i` is named
/// `key`, lookup finds `value` for `key` and is unchanged elsewhere.
proof fn lemma_map_set_at(
    post: Seq<(String, String)>,
    pre: Seq<(String, String)>,
    key: Seq<char>,
    value: Seq<char>,
    i: int,
)
    requires
        0 <= i <= pre.len(),
        i < pre.len() ==> post.len() == pre.len(),
        i == pre.len() ==> post.len() == pre.len() + 1,
        forall|j: int| 0 <= j < post.len() && j != i ==> post[j] == pre[j],
        i < post.len(),
        post[i].0@ == key,
        post[i].1@ == value,
        i < pre.len() ==> pre[i].0@ == key,
        forall|j: int| 0 <= j < i ==> pre[j].0@ != key,
    ensures
        forall|k: Seq<char>|
            #[trigger] spec_map_get(post, k) == if k == key {
                Some(value)
            } else {
                spec_map_get(pre, k)
            },
{
    assert forall|k: Seq<char>|
        #[trigger] spec_map_get(post, k) == if k == key {
            Some(value)
        } else {
            spec_map_get(pre, k)
        } by {
        lemma_map_set_get(post, pre, key, value, i, k, 0);
    }
}

proof fn lemma_map_set_get(
    post: Seq<(String, String)>,
    pre: Seq<(String, String)>,
    key: Seq<char>,
    value: Seq<char>,
    i: int,
    k: Seq<char>,
    from: int,
)
    requires
        0 <= i <= pre.len(),
        i < pre.len() ==> post.len() == pre.len(),
        i == pre.len() ==> post.len() == pre.len() + 1,
        forall|j: int| 0 <= j < post.len() && j != i ==> post[j] == pre[j],
        i < post.len(),
        post[i].0@ == key,
        post[i].1@ == value,
        i < pre.len() ==> pre[i].0@ == key,
        forall|j: int| 0 <= j < i ==> pre[j].0@ != key,
        0 <= from <= i,
    ensures
        map_get_from(post, k, from) == if k == key {
            Some(value)
        } else {
            map_get_from(pre, k, from)
        },
    decreases post.len() - from,
{
    if from < i {
        lemma_map_set_get(post, pre, key, value, i, k, from + 1);
    } else {
        if k == key {
        } else {
            lemma_map_get_tail_eq(post, pre, k, i + 1);
        }
    }
}

/// When two entry lists have the same length from index `from` on and
/// agree entry for entry there, lookup from `from` agrees too.
proof fn lemma_map_get_tail_eq(post: Seq<(String, String)>, pre: Seq<(String, String)>, k: Seq<
    char,
>, from: int)
    requires
        0 <= from,
        post.len() == pre.len() || (post.len() == pre.len() + 1 && from >= post.len()),
        forall|j: int| from <= j < post.len() && j < pre.len() ==> post[j] == pre[j],
    ensures
        map_get_from(post, k, from) == map_get_from(pre, k, from),
    decreases post.len() - from,
{
    if from < post.len() && from < pre.len() {
        lemma_map_get_tail_eq(post, pre, k, from + 1);
    }
}

/// An element-for-element copy of a pair list.
pub fn clone_pairs(src: &Vec<(String, String)>) -> (r: Vec<(String, String)>)
    ensures
        r@ == src@,
{
    let n = src.len();
    let mut r: Vec<(String, String)> = Vec::new();
    let mut i: usize = 0;
    while i < n
        invariant
            n == src@.len(),
            i <= n,
            r@ == src@.take(i as int),
        decreases n - i,
    {
        r.push((src[i].0.clone(), src[i].1.clone()));
        proof {
            assert(r@ =~= src@.take(i + 1));
        }
        i = i + 1;
    }
    proof {
        assert(src@.take(n as int) =~= src@);
    }
    r
}

/// No two entries share a name.
pub open spec fn unique_keys(entries: Seq<(String, String)>) -> bool {
    forall|i: int, j: int|
        0 <= i < j < entries.len() ==> (#[trigger] entries[i]).0@ != (#[trigger] entries[j]).0@
}

/// Appending an entry changes lookup only for a name not yet bound.
pub proof fn lemma_map_get_push(s: Seq<(String, String)>, e: (String, String), k: Seq<char>)
    ensures
        spec_map_get(s.push(e), k) == if spec_map_get(s, k) is Some {
            spec_map_get(s, k)
        } else if e.0@ == k {
            Some(e.1@)
        } else {
            None::<Seq<char>>
        },
{
    lemma_map_get_push_from(s, e, k, 0);
}

proof fn lemma_map_get_push_from(s: Seq<(String, String)>, e: (String, String), k: Seq<char>, from: int)
    requires
        0 <= from <= s.len(),
    ensures
        map_get_from(s.push(e), k, from) == if map_get_from(s, k, from) is Some {
            map_get_from(s, k, from)
        } else if e.0@ == k {
            Some(e.1@)
        } else {
            None::<Seq<char>>
        },
    decreases s.len() - from,
{
    if from < s.len() {
        assert(s.push(e)[from] == s[from]);
        lemma_map_get_push_from(s, e, k, from + 1);
        if s[from].0@ == k {
            assert(map_get_from(s.push(e), k, from) == Some(s[from].1@));
            assert(map_get_from(s, k, from) == Some(s[from].1@));
        } else {
            assert(map_get_from(s.push(e), k, from) == map_get_from(s.push(e), k, from + 1));
            assert(map_get_from(s, k, from) == map_get_from(s, k, from + 1));
        }
    } else {
        assert(s.push(e)[s.len() as int] == e);
        assert(map_get_from(s, k, from) is None);
        if e.0@ == k {
            assert(map_get_from(s.push(e), k, from) == Some(e.1@));
        } else {
            assert(map_get_from(s.push(e), k, from) == map_get_from(s.push(e), k, from + 1));
            assert(map_get_from(s.push(e), k, from + 1) is None);
        }
    }
}

/// A successful lookup names some entry.
pub proof fn lemma_map_get_some_index(s: Seq<(String, String)>, k: Seq<char>, from: int)
    requires
        0 <= from,
        map_get_from(s, k, from) is Some,
    ensures
        exists|j: int| from <= j < s.len() && (#[trigger] s[j]).0@ == k,
    decreases s.len() - from,
{
    if from < s.len() && s[from].0@ != k {
        lemma_map_get_some_index(s, k, from + 1);
    }
}

/// Applies every entry of `src` over `dst`: a name bound in `src` ends
/// with its `src` value, every other name keeps its `dst` binding.
pub fn map_set_all(dst: &mut Vec<(String, String)>, src: &Vec<(String, String)>)
    requires
        unique_keys(src@),
    ensures
        forall|k: Seq<char>|
            #[trigger] spec_map_get(final(dst)@, k) == if spec_map_get(src@, k) is Some {
                spec_map_get(src@, k)
            } else {
                spec_map_get(old(dst)@, k)
            },
{
    let n = src.len();
    let mut i: usize = 0;
    while i < n
        invariant
            n == src@.len(),
            i <= n,
            unique_keys(src@),
            forall|k: Seq<char>|
                #[trigger] spec_map_get(dst@, k) == if spec_map_get(src@.take(i as int), k) is Some {
                    spec_map_get(src@.take(i as int), k)
                } else {
                    spec_map_get(old(dst)@, k)
                },
        decreases n - i,
    {
        let key = src[i].0.clone();
        let value = src[i].1.clone();
        map_set(dst, key, value);
        proof {
            let t = src@.take(i as int);
            assert(src@.take(i + 1) =~= t.push(src@[i as int]));
            assert forall|k: Seq<char>|
                #[trigger] spec_map_get(dst@, k) == if spec_map_get(
                    src@.take(i + 1),
                    k,
                ) is Some {
                    spec_map_get(src@.take(i + 1), k)
                } else {
                    spec_map_get(old(dst)@, k)
                } by {
                lemma_map_get_push(t, src@[i as int], k);
                if k == src@[i as int].0@ {
                    if spec_map_get(t, k) is Some {
                        lemma_map_get_some_index(t, k, 0);
                        let j = choose|j: int| 0 <= j < t.len() && (#[trigger] t[j]).0@ == k;
                        assert(src@[j].0@ == src@[i as int].0@);
                        assert(false);
                    }
                }
            }
        }
        i = i + 1;
    }
    proof {
        assert(src@.take(n as int) =~= src@);
    }
}

/// First header whose name matches `name` up to ASCII case, with its
/// value copied out; the lookup part completion and id extraction share.
pub fn find_header_ci(headers: &Vec<(String, String)>, name: &str) -> (r: Option<String>)
    ensures
        r is Some <==> spec_find_ci(headers@, name@) is Some,
        r is Some ==> r->0@ == spec_find_ci(headers@, name@)->0,
{
    let n = headers.len();
    let mut i: usize = 0;
    while i < n
        invariant
            n == headers@.len(),
            i <= n,
            spec_find_ci(headers@, name@) == find_ci_from(headers@, name@, i as int),
        decreases n - i,
    {
        if crate::strutil::str_eq_ignore_case(headers[i].0.as_str(), name) {
            return Some(headers[i].1.clone());
        }
        i = i + 1;
    }
    None
}

} // verus!
