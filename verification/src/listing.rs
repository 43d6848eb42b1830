//! Occurrence of a name in a provider listing (of buckets, or of object
//! keys), and the effect of an idempotent insert on such a listing.

use vstd::prelude::*;

verus! {

/// A name occurs in a listing.
pub open spec fn listed(names: Seq<String>, name: Seq<char>) -> bool {
    exists|i: int| 0 <= i < names.len() && (#[trigger] names[i])@ == name
}

/// How many entries of a listing carry this name.
pub open spec fn name_count(names: Seq<String>, name: Seq<char>) -> nat
    decreases names.len(),
{
    if names.len() == 0 {
        0
    } else {
        name_count(names.drop_last(), name) + (if names.last()@ == name {
            1nat
        } else {
            0nat
        })
    }
}

/// The listing after an idempotent insert: unchanged when the name is
/// already present, extended by it otherwise.
pub open spec fn upsert(names: Seq<String>, name: String) -> Seq<String> {
    if listed(names, name@) {
        names
    } else {
        names.push(name)
    }
}

/// A name occurs in a listing exactly when its count is positive.
pub proof fn lemma_count_listed(names: Seq<String>, name: Seq<char>)
    ensures
        listed(names, name) <==> name_count(names, name) > 0,
    decreases names.len(),
{
    if names.len() == 0 {
    } else {
        let prefix = names.drop_last();
        lemma_count_listed(prefix, name);
        if names.last()@ == name {
            assert(names[names.len() - 1]@ == name);
            assert(listed(names, name));
        } else {
            if listed(names, name) {
                let i = choose|i: int| 0 <= i < names.len() && (#[trigger] names[i])@ == name;
                assert(i < names.len() - 1);
                assert(prefix[i]@ == name);
                assert(listed(prefix, name));
            }
            if listed(prefix, name) {
                let i = choose|i: int| 0 <= i < prefix.len() && (#[trigger] prefix[i])@ == name;
                assert(names[i]@ == name);
                assert(listed(names, name));
            }
        }
    }
}

/// An idempotent insert puts the name into the listing, a second insert of
/// the same name changes nothing, and the name's count grows by one exactly
/// when the name was absent.
pub proof fn lemma_upsert(names: Seq<String>, name: String)
    ensures
        listed(upsert(names, name), name@),
        upsert(upsert(names, name), name) == upsert(names, name),
        name_count(upsert(names, name), name@) == if listed(names, name@) {
            name_count(names, name@)
        } else {
            name_count(names, name@) + 1
        },
{
    if listed(names, name@) {
    } else {
        let pushed = names.push(name);
        assert(pushed[names.len() as int] == name);
        assert(listed(pushed, name@));
        assert(pushed.drop_last() =~= names);
        assert(pushed.last() == name);
        assert(name_count(pushed, name@) == name_count(names, name@) + 1);
    }
}

/// Whether a listing contains this name.
pub fn contains_name(names: &Vec<String>, name: &String) -> (b: bool)
    ensures
        b == listed(names@, name@),
{
    let mut i: usize = 0;
    while i < names.len()
        invariant
            i <= names@.len(),
            forall|j: int| 0 <= j < i ==> (#[trigger] names@[j])@ != name@,
        decreases names@.len() - i,
    {
        if names[i] == *name {
            return true;
        }
        i += 1;
    }
    false
}

} // verus!
