//! Lookup dictionaries. The encoder and decoder of an information source are
//! association lists from a string key (a label, or a rendered codeword) to
//! a symbol index, scanned in order; their keys are kept pairwise distinct.

use vstd::prelude::*;

verus! {

/// What a dictionary lookup returns: the value of the first entry whose key
/// reads as `key`, if any entry's key does.
pub open spec fn dict_lookup(d: Seq<(String, usize)>, key: Seq<char>) -> Option<usize>
    decreases d.len(),
{
    if d.len() == 0 {
        None
    } else if d[0].0@ == key {
        Some(d[0].1)
    } else {
        dict_lookup(d.drop_first(), key)
    }
}

/// In a dictionary whose keys are pairwise distinct, looking up the key of
/// an entry yields that entry's value.
pub proof fn lemma_lookup_at_entry(d: Seq<(String, usize)>, i: int)
    requires
        0 <= i < d.len(),
        forall|p: int, q: int| 0 <= p < q < d.len() ==> d[p].0@ != d[q].0@,
    ensures
        dict_lookup(d, d[i].0@) == Some(d[i].1),
    decreases d.len(),
{
    if i > 0 {
        assert(d[0].0@ != d[i].0@);
        let rest = d.drop_first();
        assert forall|p: int, q: int| 0 <= p < q < rest.len() implies rest[p].0@ != rest[q].0@ by {
            assert(rest[p] == d[p + 1]);
            assert(rest[q] == d[q + 1]);
        }
        assert(rest[i - 1] == d[i]);
        lemma_lookup_at_entry(rest, i - 1);
    }
}

/// Dropping an entry whose key does not match leaves the lookup unchanged.
proof fn lemma_lookup_step(d: Seq<(String, usize)>, key: Seq<char>, i: int)
    requires
        0 <= i < d.len(),
        d[i].0@ != key,
    ensures
        dict_lookup(d.subrange(i, d.len() as int), key) == dict_lookup(
            d.subrange(i + 1, d.len() as int),
            key,
        ),
{
    let s = d.subrange(i, d.len() as int);
    assert(s[0] == d[i]);
    assert(s.drop_first() =~= d.subrange(i + 1, d.len() as int));
}

/// Looks a key up in a dictionary by scanning its entries in order.
pub fn lookup(d: &Vec<(String, usize)>, key: &String) -> (r: Option<usize>)
    ensures
        r == dict_lookup(d@, key@),
{
    proof {
        assert(d@.subrange(0, d@.len() as int) =~= d@);
    }
    let mut i: usize = 0;
    while i < d.len()
        invariant
            i <= d@.len(),
            dict_lookup(d@, key@) == dict_lookup(d@.subrange(i as int, d@.len() as int), key@),
        decreases d@.len() - i,
    {
        if d[i].0 == *key {
            proof {
                let s = d@.subrange(i as int, d@.len() as int);
                assert(s[0] == d@[i as int]);
            }
            return Some(d[i].1);
        }
        proof {
            lemma_lookup_step(d@, key@, i as int);
        }
        i = i + 1;
    }
    proof {
        assert(d@.subrange(d@.len() as int, d@.len() as int) =~= Seq::<(String, usize)>::empty());
    }
    None
}

} // verus!
