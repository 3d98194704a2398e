use vstd::prelude::*;

verus! {

/// The contents of a freshly allocated block of `words` elements: element `i`
/// holds `i`, so every element has been written.
pub open spec fn ramp(words: nat) -> Seq<u32> {
    Seq::new(words, |i: int| i as u32)
}

/// Every block of the pool is a written block, and all have the length of the
/// first: the pool holds equally sized blocks of equal content.
pub open spec fn uniform(pool: Seq<Seq<u32>>) -> bool {
    forall|i: int| 0 <= i < pool.len() ==> (#[trigger] pool[i]) == ramp(pool[0].len())
}

/// The pool after a request to grow by `steps` blocks of `words` elements.
///
/// A request for no block changes nothing. An empty pool gets exactly one
/// fresh block, however many were asked for. A pool that holds blocks gets
/// `steps` copies of its first block.
pub open spec fn grown(pool: Seq<Seq<u32>>, steps: nat, words: nat) -> Seq<Seq<u32>> {
    if steps == 0 {
        pool
    } else if pool.len() == 0 {
        seq![ramp(words)]
    } else {
        pool + Seq::new(steps, |i: int| pool[0])
    }
}

/// The pool after dropping its `steps` newest blocks, or all of them where it
/// holds fewer.
pub open spec fn shrunk(pool: Seq<Seq<u32>>, steps: nat) -> Seq<Seq<u32>> {
    if steps >= pool.len() {
        Seq::empty()
    } else {
        pool.subrange(0, pool.len() - steps)
    }
}

/// Shrinking never takes more blocks than the pool holds: it keeps the oldest
/// blocks as they were, none if `steps` reaches the pool's length, and on an
/// empty pool it changes nothing.
pub proof fn lemma_shrunk_keeps_prefix(pool: Seq<Seq<u32>>, steps: nat)
    ensures
        shrunk(pool, steps).len() == if steps >= pool.len() {
            0
        } else {
            pool.len() - steps
        },
        shrunk(pool, steps).len() <= pool.len(),
        shrunk(pool, steps) == pool.subrange(0, shrunk(pool, steps).len() as int),
        pool.len() == 0 ==> shrunk(pool, steps) == pool,
        steps == 0 ==> shrunk(pool, steps) == pool,
{
    assert(shrunk(pool, steps) =~= pool.subrange(0, shrunk(pool, steps).len() as int));
    if pool.len() == 0 || steps == 0 {
        assert(shrunk(pool, steps) =~= pool);
    }
}

/// Growing the empty pool gives exactly one block, whatever number was asked
/// for: it has `words` elements, and element `i` holds `i`, so none is left
/// unwritten.
pub proof fn lemma_grown_from_empty(steps: nat, words: nat)
    requires
        steps > 0,
    ensures
        grown(Seq::empty(), steps, words).len() == 1,
        grown(Seq::empty(), steps, words)[0].len() == words,
        forall|i: int|
            0 <= i < words ==> (#[trigger] grown(Seq::empty(), steps, words)[0][i]) == i as u32,
{
}

/// Growing a pool that holds blocks appends `steps` copies of its first block
/// and keeps the blocks that were there.
pub proof fn lemma_grown_from_blocks(pool: Seq<Seq<u32>>, steps: nat, words: nat)
    requires
        pool.len() > 0,
    ensures
        grown(pool, steps, words).len() == pool.len() + steps,
        grown(pool, steps, words).subrange(0, pool.len() as int) == pool,
        forall|i: int|
            pool.len() <= i < pool.len() + steps ==> (#[trigger] grown(pool, steps, words)[i])
                == pool[0],
{
    assert(grown(pool, steps, words).subrange(0, pool.len() as int) =~= pool);
}

/// Growing and shrinking keep the blocks of a pool equally sized and written.
pub proof fn lemma_uniform_kept(pool: Seq<Seq<u32>>, steps: nat, words: nat)
    requires
        uniform(pool),
    ensures
        uniform(grown(pool, steps, words)),
        uniform(shrunk(pool, steps)),
{
    let more = grown(pool, steps, words);
    assert forall|i: int| 0 <= i < more.len() implies (#[trigger] more[i]) == ramp(
        more[0].len(),
    ) by {
        if steps > 0 && pool.len() > 0 {
            if i < pool.len() {
                assert(more[i] == pool[i]);
            } else {
                assert(more[i] == pool[0]);
            }
            assert(more[0] == pool[0]);
        }
    }
    let fewer = shrunk(pool, steps);
    assert forall|i: int| 0 <= i < fewer.len() implies (#[trigger] fewer[i]) == ramp(
        fewer[0].len(),
    ) by {
        assert(fewer[i] == pool[i]);
        assert(fewer[0] == pool[0]);
    }
}

/// Allocates a block of `words` elements and writes each of them.
pub fn fresh_block(words: u32) -> (block: Vec<u32>)
    ensures
        block@ == ramp(words as nat),
{
    let mut block: Vec<u32> = Vec::with_capacity(words as usize);
    let mut i: u32 = 0;
    while i < words
        invariant
            i <= words,
            block@ =~= ramp(i as nat),
        decreases words - i,
    {
        block.push(i);
        i = i + 1;
    }
    block
}

/// An ordered sequence of memory blocks, oldest first. Its view is the
/// sequence of the blocks' contents.
pub struct MemoryPool {
    blocks: Vec<Vec<u32>>,
}

impl View for MemoryPool {
    type V = Seq<Seq<u32>>;

    closed spec fn view(&self) -> Seq<Seq<u32>> {
        self.blocks@.map_values(|b: Vec<u32>| b@)
    }
}

impl MemoryPool {
    /// The pool's invariant: equally sized, written blocks.
    pub open spec fn wf(&self) -> bool {
        uniform(self@)
    }

    /// The empty pool.
    pub fn new() -> (pool: MemoryPool)
        ensures
            pool.wf(),
            pool@ == Seq::<Seq<u32>>::empty(),
    {
        let pool = MemoryPool { blocks: Vec::new() };
        assert(pool@ =~= Seq::<Seq<u32>>::empty());
        pool
    }

    /// Number of blocks.
    pub fn len(&self) -> (n: usize)
        ensures
            n == self@.len(),
    {
        self.blocks.len()
    }

    pub fn is_empty(&self) -> (empty: bool)
        ensures
            empty == (self@.len() == 0),
    {
        self.blocks.len() == 0
    }

    /// Number of elements of block `index`, if there is such a block.
    pub fn block_len(&self, index: usize) -> (n: Option<usize>)
        ensures
            n == if index < self@.len() {
                Some(self@[index as int].len() as usize)
            } else {
                None
            },
    {
        if index < self.blocks.len() {
            Some(self.blocks[index].len())
        } else {
            None
        }
    }

    /// Element `offset` of block `index`, if there is such an element.
    pub fn word(&self, index: usize, offset: usize) -> (w: Option<u32>)
        ensures
            w == if index < self@.len() && offset < self@[index as int].len() {
                Some(self@[index as int][offset as int])
            } else {
                None
            },
    {
        if index < self.blocks.len() && offset < self.blocks[index].len() {
            Some(self.blocks[index][offset])
        } else {
            None
        }
    }

    /// Grows the pool on a request for `steps` blocks of `words` elements.
    ///
    /// From empty, one block is allocated and written in full, whatever
    /// `steps` says; otherwise the first block is copied `steps` times.
    pub fn grow(&mut self, steps: u32, words: u32)
        requires
            old(self).wf(),
        ensures
            final(self).wf(),
            final(self)@ == grown(old(self)@, steps as nat, words as nat),
            final(self)@.len() >= old(self)@.len(),
            old(self)@.len() == 0 && steps > 0 ==> final(self)@ == seq![ramp(words as nat)],
    {
        let ghost before = self@;
        proof {
            lemma_uniform_kept(before, steps as nat, words as nat);
        }
        if steps == 0 {
            return ;
        }
        if self.blocks.len() == 0 {
            let block = fresh_block(words);
            self.blocks.push(block);
            assert(self@ =~= seq![ramp(words as nat)]);
        } else {
            let mut done: u32 = 0;
            while done < steps
                invariant
                    done <= steps,
                    before.len() > 0,
                    self.blocks@.len() == before.len() + done,
                    self@ =~= before + Seq::new(done as nat, |i: int| before[0]),
                decreases steps - done,
            {
                let ghost held = self@;
                let block = self.blocks[0].clone();
                assert(block@ =~= self.blocks[0]@);
                assert(block@ == held[0]);
                self.blocks.push(block);
                assert(self@ =~= held.push(before[0]));
                done = done + 1;
            }
        }
    }

    /// Drops the newest block `steps` times, or until the pool is empty. The
    /// dropped blocks are deallocated. On an empty pool nothing happens.
    pub fn shrink(&mut self, steps: u32)
        requires
            old(self).wf(),
        ensures
            final(self).wf(),
            final(self)@ == shrunk(old(self)@, steps as nat),
            final(self)@.len() == if steps >= old(self)@.len() {
                0
            } else {
                old(self)@.len() - steps
            },
            final(self)@ == old(self)@.subrange(0, final(self)@.len() as int),
    {
        let ghost before = self@;
        proof {
            lemma_uniform_kept(before, steps as nat, 0);
        }
        let mut done: u32 = 0;
        while done < steps && self.blocks.len() > 0
            invariant
                done <= steps,
                self.blocks@.len() + done == before.len(),
                self@ =~= before.subrange(0, before.len() - done),
            decreases steps - done,
        {
            let _ = self.blocks.pop();
            done = done + 1;
        }
        assert(self@ =~= shrunk(before, steps as nat));
    }
}

} // verus!
