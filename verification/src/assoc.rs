use vstd::prelude::*;

verus! {

/// The keys of an ordered association list, in order.
pub open spec fn keys_of<V>(m: Seq<(Seq<char>, V)>) -> Seq<Seq<char>> {
    Seq::new(m.len(), |i: int| m[i].0)
}

/// The keys of an ordered association list held in executable form.
pub open spec fn str_keys<T>(s: Seq<(String, T)>) -> Seq<Seq<char>> {
    Seq::new(s.len(), |i: int| s[i].0@)
}

/// No two entries of the association list share a key.
pub open spec fn keys_unique<V>(m: Seq<(Seq<char>, V)>) -> bool {
    forall|i: int, j: int| #![trigger m[i], m[j]] 0 <= i < j < m.len() ==> m[i].0 != m[j].0
}

/// Index of the first key equal to `k`, or -1 when there is none.
pub open spec fn first_key_idx(keys: Seq<Seq<char>>, k: Seq<char>) -> int
    decreases keys.len(),
{
    if keys.len() == 0 {
        -1
    } else if keys[0] == k {
        0
    } else {
        let r = first_key_idx(keys.drop_first(), k);
        if r < 0 {
            -1
        } else {
            r + 1
        }
    }
}

/// `first_key_idx` names the first position holding `k`, if any.
pub proof fn lemma_first_key_idx(keys: Seq<Seq<char>>, k: Seq<char>)
    ensures
        first_key_idx(keys, k) < 0 ==> forall|j: int| 0 <= j < keys.len() ==> keys[j] != k,
        first_key_idx(keys, k) >= 0 ==> 0 <= first_key_idx(keys, k) < keys.len(),
        first_key_idx(keys, k) >= 0 ==> keys[first_key_idx(keys, k)] == k,
        first_key_idx(keys, k) >= 0 ==> forall|j: int|
            0 <= j < first_key_idx(keys, k) ==> keys[j] != k,
    decreases keys.len(),
{
    if keys.len() == 0 {
    } else if keys[0] == k {
    } else {
        lemma_first_key_idx(keys.drop_first(), k);
        let r = first_key_idx(keys.drop_first(), k);
        if r < 0 {
            assert forall|j: int| 0 <= j < keys.len() implies keys[j] != k by {
                if j > 0 {
                    assert(keys.drop_first()[j - 1] == keys[j]);
                }
            }
        } else {
            assert(keys.drop_first()[r] == keys[r + 1]);
            assert forall|j: int| 0 <= j < r + 1 implies keys[j] != k by {
                if j > 0 {
                    assert(keys.drop_first()[j - 1] == keys[j]);
                }
            }
        }
    }
}

/// Position of the first entry whose key equals `key`, scanning forward.
#[verifier::loop_isolation(false)]
pub fn find_key<T>(entries: &Vec<(String, T)>, key: &String) -> (r: Option<usize>)
    ensures
        match r {
            Some(i) => 0 <= i < entries@.len() && first_key_idx(str_keys(entries@), key@) == i as int,
            None => first_key_idx(str_keys(entries@), key@) < 0,
        },
{
    let mut i: usize = 0;
    while i < entries.len()
        invariant
            0 <= i <= entries@.len(),
            forall|j: int| 0 <= j < i ==> str_keys(entries@)[j] != key@,
        decreases entries@.len() - i,
    {
        if entries[i].0 == *key {
            proof {
                assert(str_keys(entries@)[i as int] == key@);
                lemma_first_key_idx(str_keys(entries@), key@);
            }
            return Some(i);
        }
        proof {
            assert(str_keys(entries@)[i as int] != key@);
        }
        i += 1;
    }
    proof {
        lemma_first_key_idx(str_keys(entries@), key@);
    }
    None
}

} // verus!
