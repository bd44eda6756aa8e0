//! Lists of names that stand for sets: a name counts once, where it is
//! listed first, however often the list holds it.

use vstd::prelude::*;
use crate::text::texts;

verus! {

/// The names of `list` without repetition: each where it is listed first.
pub open spec fn distinct(list: Seq<Seq<char>>) -> Seq<Seq<char>>
    decreases list.len(),
{
    if list.len() == 0 {
        Seq::empty()
    } else if list.drop_last().contains(list.last()) {
        distinct(list.drop_last())
    } else {
        distinct(list.drop_last()).push(list.last())
    }
}

/// How often `item` occurs in `list`.
pub open spec fn occurrences<A>(list: Seq<A>, item: A) -> nat
    decreases list.len(),
{
    if list.len() == 0 {
        0
    } else {
        occurrences(list.drop_last(), item) + if list.last() == item {
            1nat
        } else {
            0nat
        }
    }
}

/// A list with one more item holds what it held before and that item.
pub proof fn lemma_contains_push<A>(list: Seq<A>, item: A, other: A)
    ensures
        list.push(item).contains(other) <==> list.contains(other) || other == item,
{
    if list.push(item).contains(other) {
        let k = choose|k: int| 0 <= k < list.push(item).len() && list.push(item)[k] == other;
        if k < list.len() {
            assert(list[k] == other);
        }
    }
    if list.contains(other) {
        let k = choose|k: int| 0 <= k < list.len() && list[k] == other;
        assert(list.push(item)[k] == other);
    }
    if other == item {
        assert(list.push(item)[list.len() as int] == other);
    }
}

/// Two lists in a row hold what either holds.
pub proof fn lemma_contains_add<A>(first: Seq<A>, second: Seq<A>, other: A)
    ensures
        (first + second).contains(other) <==> first.contains(other) || second.contains(other),
{
    if (first + second).contains(other) {
        let k = choose|k: int| 0 <= k < (first + second).len() && (first + second)[k] == other;
        if k < first.len() {
            assert(first[k] == other);
        } else {
            assert(second[k - first.len()] == other);
        }
    }
    if first.contains(other) {
        let k = choose|k: int| 0 <= k < first.len() && first[k] == other;
        assert((first + second)[k] == other);
    }
    if second.contains(other) {
        let k = choose|k: int| 0 <= k < second.len() && second[k] == other;
        assert((first + second)[first.len() + k] == other);
    }
}

/// The first `i + 1` items of a list are the first `i` and the one at `i`.
pub proof fn lemma_contains_take<A>(list: Seq<A>, i: int, other: A)
    requires
        0 <= i < list.len(),
    ensures
        list.take(i + 1).contains(other) <==> list.take(i).contains(other) || other == list[i],
        !list.take(0).contains(other),
{
    assert(list.take(i + 1) =~= list.take(i).push(list[i]));
    lemma_contains_push(list.take(i), list[i], other);
}

/// An item occurs in two lists in a row as often as in both together.
pub proof fn lemma_occurrences_add<A>(first: Seq<A>, second: Seq<A>, item: A)
    ensures
        occurrences(first + second, item) == occurrences(first, item) + occurrences(second, item),
    decreases second.len(),
{
    if second.len() == 0 {
        assert(first + second =~= first);
    } else {
        assert((first + second).drop_last() =~= first + second.drop_last());
        assert((first + second).last() == second.last());
        lemma_occurrences_add(first, second.drop_last(), item);
    }
}

/// The distinct names of a list are the names of the list, each once.
pub proof fn lemma_distinct(list: Seq<Seq<char>>, name: Seq<char>)
    ensures
        distinct(list).contains(name) <==> list.contains(name),
        occurrences(distinct(list), name) == if list.contains(name) {
            1nat
        } else {
            0nat
        },
        distinct(list).len() <= list.len(),
    decreases list.len(),
{
    if list.len() > 0 {
        let rest = list.drop_last();
        let last = list.last();
        assert(list =~= rest.push(last));
        lemma_distinct(rest, name);
        lemma_distinct(rest, last);
        lemma_contains_push(rest, last, name);
        if !rest.contains(last) {
            lemma_contains_push(distinct(rest), last, name);
            assert(distinct(rest).push(last).drop_last() =~= distinct(rest));
        }
    }
}

/// The distinct names of a list hold no name twice.
pub proof fn lemma_distinct_no_duplicates(list: Seq<Seq<char>>)
    ensures
        distinct(list).no_duplicates(),
    decreases list.len(),
{
    if list.len() > 0 {
        let rest = list.drop_last();
        let last = list.last();
        lemma_distinct_no_duplicates(rest);
        if !rest.contains(last) {
            lemma_distinct(rest, last);
            let kept = distinct(rest);
            assert forall|i: int, j: int|
                0 <= i < kept.push(last).len() && 0 <= j < kept.push(last).len() && i
                    != j implies kept.push(last)[i] != kept.push(last)[j] by {
                if i < kept.len() && j < kept.len() {
                    assert(kept[i] != kept[j]);
                } else if i < kept.len() {
                    assert(kept.contains(kept[i]));
                } else {
                    assert(kept.contains(kept[j]));
                }
            }
        }
    }
}

/// Whether `list` holds the text of `name`.
pub fn has_text(list: &Vec<String>, name: &String) -> (found: bool)
    ensures
        found == texts(list@).contains(name@),
{
    let mut i: usize = 0;
    while i < list.len()
        invariant
            i <= list@.len(),
            forall|k: int| 0 <= k < i ==> texts(list@)[k] != name@,
        decreases list@.len() - i,
    {
        if list[i] == *name {
            assert(texts(list@)[i as int] == name@);
            return true;
        }
        i += 1;
    }
    false
}

/// Copies of the names of `list` without repetition: each where it is
/// listed first.
pub fn distinct_texts(list: &Vec<String>) -> (kept: Vec<String>)
    ensures
        texts(kept@) == distinct(texts(list@)),
{
    let ghost names = texts(list@);
    let mut kept: Vec<String> = Vec::new();
    let mut i: usize = 0;
    assert(texts(kept@) =~= distinct(names.take(0)));
    while i < list.len()
        invariant
            i <= list@.len(),
            names == texts(list@),
            texts(kept@) == distinct(names.take(i as int)),
        decreases list@.len() - i,
    {
        proof {
            assert(names.take(i + 1).drop_last() =~= names.take(i as int));
            assert(names.take(i + 1).last() == names[i as int]);
            lemma_distinct(names.take(i as int), names[i as int]);
        }
        if !has_text(&kept, &list[i]) {
            let ghost so_far = texts(kept@);
            kept.push(list[i].clone());
            assert(texts(kept@) =~= so_far.push(names[i as int]));
        }
        i += 1;
    }
    assert(names.take(names.len() as int) =~= names);
    kept
}

} // verus!
