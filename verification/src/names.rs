//! Lists of satellite names: comparing them as lists and as sets.

use vstd::prelude::*;

verus! {

/// Some text of `names` is `nm`.
pub open spec fn lists_name(names: Seq<String>, nm: Seq<char>) -> bool {
    exists|q: int| 0 <= q < names.len() && names[q]@ == nm
}

/// The texts of a list of names.
pub open spec fn texts(names: Seq<String>) -> Seq<Seq<char>> {
    names.map_values(|s: String| s@)
}

/// The set of texts of a list of names.
pub open spec fn name_set(names: Seq<String>) -> Set<Seq<char>> {
    Set::new(|n: Seq<char>| lists_name(names, n))
}

/// Whether two lists hold the same names in the same order.
pub fn same_list(a: &Vec<String>, b: &Vec<String>) -> (r: bool)
    ensures
        r == (texts(a@) == texts(b@)),
{
    if a.len() != b.len() {
        assert(texts(a@).len() != texts(b@).len());
        return false;
    }
    let mut i: usize = 0;
    while i < a.len()
        invariant
            a@.len() == b@.len(),
            i <= a@.len(),
            forall|j: int| 0 <= j < i ==> (#[trigger] a@[j])@ == b@[j]@,
        decreases a@.len() - i,
    {
        if a[i] != b[i] {
            assert(texts(a@)[i as int] != texts(b@)[i as int]);
            return false;
        }
        i = i + 1;
    }
    assert(texts(a@) =~= texts(b@));
    true
}

/// Whether `name` is in `names`.
pub fn lists(names: &Vec<String>, name: &String) -> (r: bool)
    ensures
        r == lists_name(names@, name@),
{
    let mut i: usize = 0;
    while i < names.len()
        invariant
            i <= names@.len(),
            forall|j: int| 0 <= j < i ==> (#[trigger] names@[j])@ != name@,
        decreases names@.len() - i,
    {
        if names[i] == *name {
            return true;
        }
        i = i + 1;
    }
    false
}

/// Whether every name of `a` is in `b`.
fn all_listed(a: &Vec<String>, b: &Vec<String>) -> (r: bool)
    ensures
        r == (forall|j: int| 0 <= j < a@.len() ==> lists_name(b@, (#[trigger] a@[j])@)),
{
    let mut i: usize = 0;
    while i < a.len()
        invariant
            i <= a@.len(),
            forall|j: int| 0 <= j < i ==> lists_name(b@, (#[trigger] a@[j])@),
        decreases a@.len() - i,
    {
        if !lists(b, &a[i]) {
            return false;
        }
        i = i + 1;
    }
    true
}

/// Whether two lists hold the same names, in whatever order.
pub fn same_names(a: &Vec<String>, b: &Vec<String>) -> (r: bool)
    ensures
        r == (name_set(a@) == name_set(b@)),
{
    let ab = all_listed(a, b);
    let ba = all_listed(b, a);
    proof {
        if ab && ba {
            assert forall|n: Seq<char>| #[trigger] name_set(a@).contains(n) == name_set(b@).contains(n) by {
                if lists_name(a@, n) {
                    let j = choose|j: int| 0 <= j < a@.len() && a@[j]@ == n;
                    assert(lists_name(b@, a@[j]@));
                }
                if lists_name(b@, n) {
                    let j = choose|j: int| 0 <= j < b@.len() && b@[j]@ == n;
                    assert(lists_name(a@, b@[j]@));
                }
            }
            assert(name_set(a@) =~= name_set(b@));
        }
        if !ab {
            let j = choose|j: int| 0 <= j < a@.len() && !lists_name(b@, a@[j]@);
            assert(name_set(a@).contains(a@[j]@) && !name_set(b@).contains(a@[j]@)) by {
                assert(lists_name(a@, a@[j]@));
            }
        }
        if !ba {
            let j = choose|j: int| 0 <= j < b@.len() && !lists_name(a@, b@[j]@);
            assert(name_set(b@).contains(b@[j]@) && !name_set(a@).contains(b@[j]@)) by {
                assert(lists_name(b@, b@[j]@));
            }
        }
    }
    ab && ba
}

/// A copy of a list of names.
pub fn copy_names(names: &Vec<String>) -> (c: Vec<String>)
    ensures
        texts(c@) == texts(names@),
{
    let mut c: Vec<String> = Vec::new();
    let mut i: usize = 0;
    while i < names.len()
        invariant
            i <= names@.len(),
            c@.len() == i,
            forall|j: int| 0 <= j < i ==> (#[trigger] c@[j])@ == names@[j]@,
        decreases names@.len() - i,
    {
        c.push(names[i].clone());
        i = i + 1;
    }
    assert(texts(c@) =~= texts(names@));
    c
}

} // verus!
