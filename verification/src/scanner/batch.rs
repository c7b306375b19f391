//! Gathering embeddings into batches.

use vstd::prelude::*;

use crate::db::vector::{embedding_views, EmbeddingInput, EmbeddingView};

verus! {

/// The number of embeddings of a batch.
pub const BATCH_SIZE: usize = 50;

/// Embeddings that wait until there are enough for a batch.
#[derive(Debug)]
pub struct Batcher {
    waiting: Vec<EmbeddingInput>,
    handed_out: usize,
}

/// What becomes of waiting values when one is added: the batch that is handed out, once
/// there are enough, and what waits then.
pub open spec fn added<A>(waiting: Seq<A>, value: A) -> (Option<Seq<A>>, Seq<A>) {
    let all = waiting.push(value);
    if all.len() < BATCH_SIZE {
        (None, all)
    } else {
        (Some(all), Seq::empty())
    }
}

/// What a batch holds, if there is one.
pub open spec fn batch_view(batch: Option<Vec<EmbeddingInput>>) -> Option<Seq<EmbeddingView>> {
    match batch {
        Some(batch) => Some(embedding_views(batch@)),
        None => None,
    }
}

impl Batcher {
    /// The embeddings that wait.
    pub closed spec fn pending(self) -> Seq<EmbeddingView> {
        embedding_views(self.waiting@)
    }

    /// The number of embeddings that were handed out in batches.
    pub closed spec fn count(self) -> nat {
        self.handed_out as nat
    }

    /// Fewer embeddings wait than make a batch.
    pub open spec fn is_short(self) -> bool {
        self.pending().len() < BATCH_SIZE
    }

    /// No embeddings wait.
    pub fn new() -> (r: Batcher)
        ensures
            r.is_short(),
            r.pending() == Seq::<EmbeddingView>::empty(),
            r.count() == 0,
    {
        let r = Batcher { waiting: Vec::new(), handed_out: 0 };
        assert(r.pending() =~= Seq::empty());
        r
    }

    /// The number of embeddings that were handed out in batches.
    pub fn handed_out(&self) -> (r: usize)
        ensures
            r == self.count(),
    {
        self.handed_out
    }

    /// Adds an embedding, and hands a batch out once there are enough.
    pub fn push(&mut self, input: EmbeddingInput) -> (r: Option<Vec<EmbeddingInput>>)
        requires
            old(self).is_short(),
            old(self).count() + BATCH_SIZE <= usize::MAX,
        ensures
            final(self).is_short(),
            (batch_view(r), final(self).pending()) == added(old(self).pending(), input@),
            final(self).count() == old(self).count() + (if r is Some {
                BATCH_SIZE as nat
            } else {
                0
            }),
    {
        let ghost before = embedding_views(self.waiting@);
        let n: usize = self.waiting.len();
        if n + 1 < BATCH_SIZE {
            self.waiting.push(input);
            assert(embedding_views(self.waiting@) =~= before.push(input@));
            None
        } else {
            let mut batch: Vec<EmbeddingInput> = Vec::new();
            batch.append(&mut self.waiting);
            batch.push(input);
            self.handed_out = self.handed_out + BATCH_SIZE;
            proof {
                assert(embedding_views(batch@) =~= before.push(input@));
                assert(self.pending() =~= Seq::empty());
            }
            Some(batch)
        }
    }

    /// Hands out what still waits, if anything does.
    pub fn finish(&mut self) -> (r: Option<Vec<EmbeddingInput>>)
        requires
            old(self).is_short(),
            old(self).count() + BATCH_SIZE <= usize::MAX,
        ensures
            final(self).is_short(),
            match r {
                Some(batch) => {
                    &&& 0 < batch@.len() < BATCH_SIZE
                    &&& embedding_views(batch@) == old(self).pending()
                },
                None => old(self).pending().len() == 0,
            },
            final(self).pending() == Seq::<EmbeddingView>::empty(),
            final(self).count() == old(self).count() + old(self).pending().len(),
    {
        let ghost before = embedding_views(self.waiting@);
        let n: usize = self.waiting.len();
        if n == 0 {
            assert(self.pending() =~= Seq::empty());
            return None;
        }
        let mut batch: Vec<EmbeddingInput> = Vec::new();
        batch.append(&mut self.waiting);
        self.handed_out = self.handed_out + n;
        proof {
            assert(embedding_views(batch@) =~= before);
            assert(self.pending() =~= Seq::empty());
        }
        Some(batch)
    }
}

// ---------------------------------------------------------------------------
// Laws
// ---------------------------------------------------------------------------

/// The batches that have been handed out once a list of embeddings was added one by one,
/// and what waits then.
pub open spec fn after_adding<A>(inputs: Seq<A>) -> (Seq<Seq<A>>, Seq<A>)
    decreases inputs.len(),
{
    if inputs.len() == 0 {
        (Seq::empty(), Seq::empty())
    } else {
        let (batches, waiting) = after_adding(inputs.drop_last());
        match added(waiting, inputs.last()) {
            (Some(batch), waiting) => (batches.push(batch), waiting),
            (None, waiting) => (batches, waiting),
        }
    }
}

/// Lists one after the other.
pub open spec fn joined_lists<A>(lists: Seq<Seq<A>>) -> Seq<A>
    decreases lists.len(),
{
    if lists.len() == 0 {
        Seq::empty()
    } else {
        joined_lists(lists.drop_last()) + lists.last()
    }
}

/// No embedding is lost, repeated or moved: the batches, and then what waits, are the
/// embeddings in the order in which they were added. Each batch is full, and fewer wait
/// than make a batch.
pub proof fn law_batches_keep_order<A>(inputs: Seq<A>)
    ensures
        ({
            let (batches, waiting) = after_adding(inputs);
            &&& joined_lists(batches) + waiting == inputs
            &&& forall|i: int| 0 <= i < batches.len() ==> (#[trigger] batches[i]).len() == 50
            &&& waiting.len() < 50
        }),
    decreases inputs.len(),
{
    if inputs.len() > 0 {
        let front = inputs.drop_last();
        law_batches_keep_order(front);
        let (batches, waiting) = after_adding(front);
        let all = waiting.push(inputs.last());
        assert(inputs =~= front.push(inputs.last()));
        assert((joined_lists(batches) + waiting).push(inputs.last()) =~= joined_lists(batches)
            + all);
        if all.len() >= BATCH_SIZE {
            assert(batches.push(all).drop_last() =~= batches);
            assert(joined_lists(batches.push(all)) + Seq::empty() =~= joined_lists(batches) + all);
        }
    } else {
        assert(joined_lists(Seq::<Seq<A>>::empty()) + Seq::<A>::empty() =~= inputs);
    }
}

} // verus!
