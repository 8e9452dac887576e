//! Small string-keyed collections kept in vectors: a set of strings and a
//! table of string pairs whose first components are distinct.
use vstd::prelude::*;

verus! {

/// The strings held by `s`, as a set of character sequences.
pub open spec fn string_set(s: Seq<String>) -> Set<Seq<char>> {
    Set::new(|k: Seq<char>| exists|i: int| 0 <= i < s.len() && s[i]@ == k)
}

/// No string occurs twice in `s`.
pub open spec fn distinct_strings(s: Seq<String>) -> bool {
    forall|i: int, j: int| 0 <= i < s.len() && 0 <= j < s.len() && i != j ==> s[i]@ != s[j]@
}

/// No key occurs twice among the pairs of `s`.
pub open spec fn distinct_keys(s: Seq<(String, String)>) -> bool {
    forall|i: int, j: int|
        0 <= i < s.len() && 0 <= j < s.len() && i != j ==> s[i].0@ != s[j].0@
}

/// The pairs of `s` read as a map from key to value.
pub open spec fn pair_map(s: Seq<(String, String)>) -> Map<Seq<char>, Seq<char>> {
    Map::new(
        |k: Seq<char>| exists|i: int| 0 <= i < s.len() && s[i].0@ == k,
        |k: Seq<char>| s[choose|i: int| 0 <= i < s.len() && s[i].0@ == k].1@,
    )
}

/// The pair at position `i` is what the map holds for its key.
pub proof fn lemma_pair_map_at(s: Seq<(String, String)>, i: int)
    requires
        distinct_keys(s),
        0 <= i < s.len(),
    ensures
        pair_map(s).contains_key(s[i].0@),
        pair_map(s)[s[i].0@] == s[i].1@,
{
    let k = s[i].0@;
    assert(s[i].0@ == k);
    let j = choose|j: int| 0 <= j < s.len() && s[j].0@ == k;
    assert(j == i);
}

/// Position of `k` in `v`, if it is there.
pub fn find_string(v: &Vec<String>, k: &String) -> (r: Option<usize>)
    ensures
        match r {
            Some(i) => i < v@.len() && v@[i as int]@ == k@,
            None => !string_set(v@).contains(k@),
        },
{
    let mut i: usize = 0;
    while i < v.len()
        invariant
            i <= v@.len(),
            forall|j: int| 0 <= j < i ==> v@[j]@ != k@,
        decreases v@.len() - i,
    {
        if v[i] == *k {
            return Some(i);
        }
        i = i + 1;
    }
    None
}

/// Adds `k` to the set held by `v`; tells whether it was absent.
pub fn insert_string(v: &mut Vec<String>, k: &String) -> (added: bool)
    requires
        distinct_strings(old(v)@),
    ensures
        distinct_strings(final(v)@),
        added == !string_set(old(v)@).contains(k@),
        !added ==> final(v)@ == old(v)@,
        string_set(final(v)@) == string_set(old(v)@).insert(k@),
{
    match find_string(v, k) {
        Some(i) => {
            assert(string_set(v@).contains(k@)) by {
                assert(v@[i as int]@ == k@);
            }
            assert(string_set(v@).insert(k@) =~= string_set(v@));
            false
        },
        None => {
            let ghost before = v@;
            v.push(k.clone());
            assert forall|x: Seq<char>|
                string_set(v@).contains(x) <==> string_set(before).insert(k@).contains(x) by {
                if string_set(before).contains(x) {
                    let i = choose|i: int| 0 <= i < before.len() && before[i]@ == x;
                    assert(v@[i]@ == x);
                }
                if x == k@ {
                    assert(v@[before.len() as int]@ == x);
                }
                if string_set(v@).contains(x) {
                    let i = choose|i: int| 0 <= i < v@.len() && v@[i]@ == x;
                    if i < before.len() {
                        assert(before[i]@ == x);
                    }
                }
            }
            assert(string_set(v@) =~= string_set(before).insert(k@));
            true
        },
    }
}

/// Takes `k` out of the set held by `v`.
pub fn remove_string(v: &mut Vec<String>, k: &String)
    requires
        distinct_strings(old(v)@),
    ensures
        distinct_strings(final(v)@),
        string_set(final(v)@) == string_set(old(v)@).remove(k@),
{
    match find_string(v, k) {
        None => {
            assert(string_set(v@).remove(k@) =~= string_set(v@));
        },
        Some(i) => {
            let ghost before = v@;
            v.remove(i);
            assert(forall|j: int| 0 <= j < i ==> v@[j] == before[j]);
            assert(forall|j: int| i <= j < v@.len() ==> v@[j] == before[j + 1]);
            assert forall|x: Seq<char>|
                string_set(v@).contains(x) <==> string_set(before).remove(k@).contains(x) by {
                if string_set(v@).contains(x) {
                    let j = choose|j: int| 0 <= j < v@.len() && v@[j]@ == x;
                    if j < i {
                        assert(before[j]@ == x);
                    } else {
                        assert(before[j + 1]@ == x);
                    }
                }
                if string_set(before).remove(k@).contains(x) {
                    let j = choose|j: int| 0 <= j < before.len() && before[j]@ == x;
                    if j < i {
                        assert(v@[j]@ == x);
                    } else {
                        assert(j != i);
                        assert(v@[j - 1]@ == x);
                    }
                }
            }
            assert(string_set(v@) =~= string_set(before).remove(k@));
        },
    }
}

/// Position of the pair whose key is `k`, if there is one.
pub fn find_key(v: &Vec<(String, String)>, k: &String) -> (r: Option<usize>)
    ensures
        match r {
            Some(i) => i < v@.len() && v@[i as int].0@ == k@,
            None => !pair_map(v@).contains_key(k@),
        },
{
    let mut i: usize = 0;
    while i < v.len()
        invariant
            i <= v@.len(),
            forall|j: int| 0 <= j < i ==> v@[j].0@ != k@,
        decreases v@.len() - i,
    {
        if v[i].0 == *k {
            return Some(i);
        }
        i = i + 1;
    }
    None
}

/// The value held for `k`, cloned.
pub fn lookup(v: &Vec<(String, String)>, k: &String) -> (r: Option<String>)
    requires
        distinct_keys(v@),
    ensures
        match r {
            Some(c) => pair_map(v@).contains_key(k@) && pair_map(v@)[k@] == c@,
            None => !pair_map(v@).contains_key(k@),
        },
{
    match find_key(v, k) {
        Some(i) => {
            proof {
                lemma_pair_map_at(v@, i as int);
            }
            Some(v[i].1.clone())
        },
        None => None,
    }
}

/// Sets the value held for `k` to `val`, adding the key where it is absent.
pub fn upsert(v: &mut Vec<(String, String)>, k: String, val: String)
    requires
        distinct_keys(old(v)@),
    ensures
        distinct_keys(final(v)@),
        pair_map(final(v)@) == pair_map(old(v)@).insert(k@, val@),
{
    let ghost before = v@;
    let ghost kv = k@;
    let ghost vv = val@;
    match find_key(v, &k) {
        Some(i) => {
            v.set(i, (k, val));
            assert forall|a: int, b: int|
                0 <= a < v@.len() && 0 <= b < v@.len() && a != b implies v@[a].0@ != v@[b].0@ by {
                if a != i && b != i {
                    assert(before[a].0@ != before[b].0@);
                } else if a == i {
                    assert(before[i as int].0@ != before[b].0@);
                } else {
                    assert(before[a].0@ != before[i as int].0@);
                }
            }
            assert forall|x: Seq<char>|
                #![auto]
                pair_map(v@).contains_key(x) <==> pair_map(before).insert(kv, vv).contains_key(x)
                by {
                if pair_map(before).contains_key(x) {
                    let j = choose|j: int| 0 <= j < before.len() && before[j].0@ == x;
                    if j == i {
                        assert(v@[j].0@ == x);
                    } else {
                        assert(v@[j].0@ == x);
                    }
                }
                if x == kv {
                    assert(v@[i as int].0@ == x);
                }
                if pair_map(v@).contains_key(x) {
                    let j = choose|j: int| 0 <= j < v@.len() && v@[j].0@ == x;
                    if j != i {
                        assert(before[j].0@ == x);
                    }
                }
            }
            assert forall|x: Seq<char>| #[trigger]
                pair_map(v@).contains_key(x) implies pair_map(v@)[x] == pair_map(before).insert(
                kv,
                vv,
            )[x] by {
                let j = choose|j: int| 0 <= j < v@.len() && v@[j].0@ == x;
                lemma_pair_map_at(v@, j);
                if j != i {
                    assert(before[j].0@ == x);
                    lemma_pair_map_at(before, j);
                }
            }
            assert(pair_map(v@) =~= pair_map(before).insert(kv, vv));
        },
        None => {
            v.push((k, val));
            assert forall|a: int, b: int|
                0 <= a < v@.len() && 0 <= b < v@.len() && a != b implies v@[a].0@ != v@[b].0@ by {
                if a < before.len() && b < before.len() {
                    assert(before[a].0@ != before[b].0@);
                } else if a < before.len() {
                    assert(before[a].0@ == v@[a].0@);
                } else {
                    assert(before[b].0@ == v@[b].0@);
                }
            }
            assert forall|x: Seq<char>|
                #![auto]
                pair_map(v@).contains_key(x) <==> pair_map(before).insert(kv, vv).contains_key(x)
                by {
                if pair_map(before).contains_key(x) {
                    let j = choose|j: int| 0 <= j < before.len() && before[j].0@ == x;
                    assert(v@[j].0@ == x);
                }
                if x == kv {
                    assert(v@[before.len() as int].0@ == x);
                }
                if pair_map(v@).contains_key(x) {
                    let j = choose|j: int| 0 <= j < v@.len() && v@[j].0@ == x;
                    if j < before.len() {
                        assert(before[j].0@ == x);
                    }
                }
            }
            assert forall|x: Seq<char>| #[trigger]
                pair_map(v@).contains_key(x) implies pair_map(v@)[x] == pair_map(before).insert(
                kv,
                vv,
            )[x] by {
                let j = choose|j: int| 0 <= j < v@.len() && v@[j].0@ == x;
                lemma_pair_map_at(v@, j);
                if j < before.len() {
                    assert(before[j].0@ == x);
                    lemma_pair_map_at(before, j);
                }
            }
            assert(pair_map(v@) =~= pair_map(before).insert(kv, vv));
        },
    }
}

} // verus!
