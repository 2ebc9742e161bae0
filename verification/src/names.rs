//! Membership and distinctness over lists of names.

use vstd::prelude::*;

verus! {

/// Whether some string in `names` reads `name`.
pub open spec fn spec_name_in(names: Seq<String>, name: Seq<char>) -> bool {
    exists|i: int| 0 <= i < names.len() && names[i]@ == name
}

/// Whether no two strings in `names` read the same.
pub open spec fn spec_names_distinct(names: Seq<String>) -> bool {
    forall|i: int, j: int| 0 <= i < j < names.len() ==> names[i]@ != names[j]@
}

pub proof fn lemma_name_in_push(names: Seq<String>, x: String)
    ensures
        forall|n: Seq<char>|
            #[trigger] spec_name_in(names.push(x), n) <==> (spec_name_in(names, n) || x@ == n),
{
    assert forall|n: Seq<char>| #[trigger]
        spec_name_in(names.push(x), n) <==> (spec_name_in(names, n) || x@ == n) by {
        if spec_name_in(names.push(x), n) {
            let i = choose|i: int| 0 <= i < names.push(x).len() && names.push(x)[i]@ == n;
            if i < names.len() {
                assert(names[i]@ == n);
            } else {
                assert(names.push(x)[i] == x);
            }
        }
        if spec_name_in(names, n) {
            let i = choose|i: int| 0 <= i < names.len() && names[i]@ == n;
            assert(names.push(x)[i]@ == n);
        }
        if x@ == n {
            assert(names.push(x)[names.len() as int]@ == n);
        }
    }
}

pub proof fn lemma_names_distinct_push(names: Seq<String>, x: String)
    requires
        spec_names_distinct(names),
        !spec_name_in(names, x@),
    ensures
        spec_names_distinct(names.push(x)),
{
    assert forall|i: int, j: int|
        0 <= i < j < names.push(x).len() implies names.push(x)[i]@ != names.push(x)[j]@ by {
        if j < names.len() {
            assert(names.push(x)[i] == names[i] && names.push(x)[j] == names[j]);
        } else {
            assert(names.push(x)[i] == names[i] && names.push(x)[j] == x);
        }
    }
}

/// Reports whether some string in `names` reads `name`.
pub fn name_in(names: &Vec<String>, name: &String) -> (r: bool)
    ensures
        r == spec_name_in(names@, name@),
{
    let mut i: usize = 0;
    while i < names.len()
        invariant
            0 <= i <= names@.len(),
            forall|j: int| 0 <= j < i ==> names@[j]@ != name@,
        decreases names@.len() - i,
    {
        if names[i].eq(name) {
            return true;
        }
        i = i + 1;
    }
    false
}

/// Reports whether no two strings in `names` read the same.
pub fn names_distinct(names: &Vec<String>) -> (r: bool)
    ensures
        r == spec_names_distinct(names@),
{
    let mut i: usize = 0;
    while i < names.len()
        invariant
            0 <= i <= names@.len(),
            forall|a: int, b: int| 0 <= a < b < i ==> names@[a]@ != names@[b]@,
        decreases names@.len() - i,
    {
        let mut j: usize = 0;
        while j < i
            invariant
                0 <= j <= i < names@.len(),
                forall|a: int, b: int| 0 <= a < b < i ==> names@[a]@ != names@[b]@,
                forall|a: int| 0 <= a < j ==> names@[a]@ != names@[i as int]@,
            decreases i - j,
        {
            if names[j].eq(&names[i]) {
                return false;
            }
            j = j + 1;
        }
        i = i + 1;
    }
    true
}

} // verus!
