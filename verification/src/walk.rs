//! What the table walks have in common: a walk gathers items one after
//! another and stops at the first error.

use crate::error::PeError;
use vstd::prelude::*;

verus! {

/// `items`, followed by what `rest` holds if it holds anything.
pub open spec fn followed_by<T>(items: Seq<T>, rest: Result<Seq<T>, PeError>) -> Result<
    Seq<T>,
    PeError,
> {
    match rest {
        Ok(tail) => Ok(items + tail),
        Err(e) => Err(e),
    }
}

/// Adding an item to what comes first is putting it before what follows.
pub proof fn lemma_followed_by_push<T>(items: Seq<T>, item: T, rest: Result<Seq<T>, PeError>)
    ensures
        followed_by(items, followed_by(seq![item], rest)) == followed_by(items.push(item), rest),
{
    match rest {
        Ok(tail) => {
            assert(items + (seq![item] + tail) =~= items.push(item) + tail);
        },
        Err(_) => {},
    }
}

/// Before anything is gathered, everything is still to follow.
pub proof fn lemma_nothing_gathered<T>(rest: Result<Seq<T>, PeError>)
    ensures
        followed_by(Seq::empty(), rest) == rest,
{
    match rest {
        Ok(tail) => {
            assert(Seq::<T>::empty() + tail =~= tail);
        },
        Err(_) => {},
    }
}

/// Nothing more follows.
pub proof fn lemma_followed_by_nothing<T>(items: Seq<T>)
    ensures
        followed_by(items, Ok(Seq::empty())) == Ok::<Seq<T>, PeError>(items),
{
    assert(items + Seq::<T>::empty() =~= items);
}

} // verus!
