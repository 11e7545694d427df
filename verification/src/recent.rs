//! Keeping the latest items of a stream up to a capacity, the oldest leaving first: what
//! the listener's 1024 kept lines and the window's 20 shown lines both do.

use vstd::prelude::*;

verus! {

/// `kept` after `item` arrives, at most `cap` kept: once `cap` are kept the oldest leaves.
pub open spec fn keep_last<A>(kept: Seq<A>, item: A, cap: nat) -> Seq<A> {
    if kept.len() >= cap {
        kept.drop_first().push(item)
    } else {
        kept.push(item)
    }
}

/// What is kept of `items` arriving one after another, starting from nothing.
pub open spec fn keep_all<A>(items: Seq<A>, cap: nat) -> Seq<A>
    decreases items.len(),
{
    if items.len() == 0 {
        Seq::empty()
    } else {
        keep_last(keep_all(items.drop_last(), cap), items.last(), cap)
    }
}

/// What is kept of `items` arriving one after another, starting from `kept`.
pub open spec fn keep_all_from<A>(kept: Seq<A>, items: Seq<A>, cap: nat) -> Seq<A>
    decreases items.len(),
{
    if items.len() == 0 {
        kept
    } else {
        keep_last(keep_all_from(kept, items.drop_last(), cap), items.last(), cap)
    }
}

/// Items arriving one after another at something that already keeps at most `cap` items
/// leave exactly the latest `cap` of all of them kept, the earlier ones first, in the order
/// they arrived.
pub proof fn lemma_keeps_latest_from<A>(kept: Seq<A>, items: Seq<A>, cap: nat)
    requires
        cap > 0,
        kept.len() <= cap,
    ensures
        keep_all_from(kept, items, cap) == (if kept.len() + items.len() <= cap {
            kept + items
        } else {
            (kept + items).subrange(kept.len() + items.len() - cap, (kept.len() + items.len()) as int)
        }),
    decreases items.len(),
{
    let all = kept + items;
    if items.len() == 0 {
        assert(all =~= kept);
    } else {
        let init = items.drop_last();
        lemma_keeps_latest_from(kept, init, cap);
        let before = kept + init;
        assert(before.push(items.last()) =~= all);
        if all.len() <= cap {
        } else if before.len() == cap {
            assert(before.drop_first().push(items.last()) =~= all.subrange(all.len() - cap, all.len() as int));
        } else {
            let prior = before.subrange(before.len() - cap, before.len() as int);
            assert(prior.drop_first().push(items.last()) =~= all.subrange(all.len() - cap, all.len() as int));
        }
    }
}

/// Items arriving one after another leave exactly the latest `cap` of them kept (all of
/// them while fewer arrived), in the order they arrived.
pub proof fn lemma_keeps_latest<A>(items: Seq<A>, cap: nat)
    requires
        cap > 0,
    ensures
        keep_all(items, cap) == (if items.len() <= cap {
            items
        } else {
            items.subrange(items.len() - cap, items.len() as int)
        }),
    decreases items.len(),
{
    if items.len() > 0 {
        let init = items.drop_last();
        lemma_keeps_latest(init, cap);
        if items.len() <= cap {
            assert(init.push(items.last()) =~= items);
        } else if init.len() == cap {
            assert(init.drop_first().push(items.last()) =~= items.subrange(items.len() - cap, items.len() as int));
        } else {
            let kept = init.subrange(init.len() - cap, init.len() as int);
            assert(kept.drop_first().push(items.last()) =~= items.subrange(items.len() - cap, items.len() as int));
        }
    }
}

} // verus!
