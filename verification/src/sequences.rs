//! What lists hold.

use vstd::prelude::*;

verus! {

/// A joined list holds what the two lists hold.
pub proof fn lemma_concat_contains<A>(first: Seq<A>, second: Seq<A>, item: A)
    ensures
        (first + second).contains(item) <==> first.contains(item) || second.contains(item),
{
    let all = first + second;
    if first.contains(item) {
        let i = choose|i: int| 0 <= i < first.len() && first[i] == item;
        assert(all[i] == item);
    }
    if second.contains(item) {
        let i = choose|i: int| 0 <= i < second.len() && second[i] == item;
        assert(all[first.len() + i] == item);
    }
}

/// A list holds its last item and what stands before it.
pub proof fn lemma_drop_last_contains<A>(list: Seq<A>, item: A)
    requires
        list.len() > 0,
    ensures
        list.contains(item) <==> list.drop_last().contains(item) || list.last() == item,
{
    assert(list =~= list.drop_last() + seq![list.last()]);
    lemma_concat_contains(list.drop_last(), seq![list.last()], item);
    assert(seq![list.last()].contains(item) <==> list.last() == item) by {
        assert(seq![list.last()][0] == list.last());
    }
}

/// A longer list holds the item that was added and what it held before.
pub proof fn lemma_push_contains<A>(list: Seq<A>, added: A, item: A)
    ensures
        list.push(added).contains(item) <==> list.contains(item) || added == item,
{
    assert(list.push(added).drop_last() =~= list);
    lemma_drop_last_contains(list.push(added), item);
}

}
