//! Lists of names in which the first entry under a name is the one that
//! counts. The tables of this crate keep their entries in such lists.

use vstd::prelude::*;

verus! {

/// Whether `i` is the place of the first occurrence of `name`.
pub open spec fn first_match(names: Seq<Seq<char>>, name: Seq<char>, i: int) -> bool {
    &&& 0 <= i < names.len()
    &&& names[i] == name
    &&& forall|j: int| 0 <= j < i ==> #[trigger] names[j] != name
}

/// Whether `name` occurs.
pub open spec fn present(names: Seq<Seq<char>>, name: Seq<char>) -> bool {
    exists|i: int| first_match(names, name, i)
}

/// The place of the first occurrence of `name`, where it occurs.
pub open spec fn place(names: Seq<Seq<char>>, name: Seq<char>) -> int {
    choose|i: int| first_match(names, name, i)
}

/// A first occurrence, once found, is the place of the name.
pub proof fn lemma_place(names: Seq<Seq<char>>, name: Seq<char>, i: int)
    requires
        first_match(names, name, i),
    ensures
        present(names, name),
        place(names, name) == i,
{
    let j = place(names, name);
    assert(first_match(names, name, j));
    if i < j {
        assert(names[i] != name);
    } else if j < i {
        assert(names[j] != name);
    }
}

/// A name that stands at no place does not occur.
pub proof fn lemma_absent(names: Seq<Seq<char>>, name: Seq<char>)
    requires
        forall|j: int| 0 <= j < names.len() ==> #[trigger] names[j] != name,
    ensures
        !present(names, name),
{
}

/// The place of a name that occurs is its first occurrence.
pub proof fn lemma_present(names: Seq<Seq<char>>, name: Seq<char>)
    requires
        present(names, name),
    ensures
        first_match(names, name, place(names, name)),
{
}

/// Appending a name that did not occur puts it at the end and keeps every
/// other name where it was.
pub proof fn lemma_pushed(names: Seq<Seq<char>>, added: Seq<char>)
    requires
        !present(names, added),
    ensures
        first_match(names.push(added), added, names.len() as int),
        forall|name: Seq<char>|
            name != added ==> (#[trigger] present(names.push(added), name) <==> present(
                names,
                name,
            )),
        forall|name: Seq<char>|
            name != added && present(names, name) ==> #[trigger] place(names.push(added), name)
                == place(names, name),
{
    let longer = names.push(added);
    let last = names.len() as int;
    assert forall|j: int| 0 <= j < last implies #[trigger] longer[j] != added by {
        assert(longer[j] == names[j]);
        if names[j] == added {
            lemma_first_exists(names, added, j);
        }
    }
    assert forall|name: Seq<char>| name != added implies (#[trigger] present(longer, name)
        <==> present(names, name)) by {
        if present(names, name) {
            lemma_kept(names, added, name);
        }
        if present(longer, name) {
            let i = place(longer, name);
            assert(i != last);
            assert(first_match(names, name, i)) by {
                assert(longer[i] == names[i]);
                assert forall|j: int| 0 <= j < i implies #[trigger] names[j] != name by {
                    assert(longer[j] == names[j]);
                }
            }
        }
    }
    assert forall|name: Seq<char>| name != added && present(names, name) implies #[trigger] place(
        longer,
        name,
    ) == place(names, name) by {
        lemma_kept(names, added, name);
    }
}

/// A name that occurred keeps its place when another name is appended.
proof fn lemma_kept(names: Seq<Seq<char>>, added: Seq<char>, name: Seq<char>)
    requires
        present(names, name),
    ensures
        first_match(names.push(added), name, place(names, name)),
        present(names.push(added), name),
        place(names.push(added), name) == place(names, name),
{
    let longer = names.push(added);
    let i = place(names, name);
    assert(first_match(longer, name, i)) by {
        assert(longer[i] == names[i]);
        assert forall|j: int| 0 <= j < i implies #[trigger] longer[j] != name by {
            assert(longer[j] == names[j]);
        }
    }
    lemma_place(longer, name, i);
}

/// A name that stands at some place has a first occurrence.
proof fn lemma_first_exists(names: Seq<Seq<char>>, name: Seq<char>, at: int)
    requires
        0 <= at < names.len(),
        names[at] == name,
    ensures
        present(names, name),
        place(names, name) <= at,
    decreases at,
{
    if forall|j: int| 0 <= j < at ==> #[trigger] names[j] != name {
        assert(first_match(names, name, at));
        lemma_place(names, name, at);
    } else {
        let j = choose|j: int| 0 <= j < at && #[trigger] names[j] == name;
        lemma_first_exists(names, name, j);
    }
}

} // verus!
