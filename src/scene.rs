use vstd::prelude::*;

verus! {

/// Every item of every bucket, buckets in order, items of a bucket in stored order.
pub open spec fn concat_all<T>(buckets: Seq<Seq<T>>) -> Seq<T>
    decreases buckets.len(),
{
    if buckets.len() == 0 {
        Seq::empty()
    } else {
        concat_all(buckets.drop_last()) + buckets.last()
    }
}

/// The items that a sequence of references points at.
pub open spec fn targets<T>(refs: Seq<&T>) -> Seq<T> {
    refs.map_values(|x: &T| *x)
}

/// Where the items of bucket `h` begin in `concat_all(buckets)`.
pub open spec fn offset_of<T>(buckets: Seq<Seq<T>>, h: int) -> int {
    concat_all(buckets.take(h)).len() as int
}

/// The store after a bucket holding `items` is created, and the handle it gets.
pub open spec fn create_spec<T>(buckets: Seq<Seq<T>>, items: Seq<T>) -> (Seq<Seq<T>>, nat) {
    (buckets.push(items), buckets.len())
}

/// The store after one creation per batch, in order, and the handles handed out.
pub open spec fn creates_spec<T>(buckets: Seq<Seq<T>>, batches: Seq<Seq<T>>) -> (
    Seq<Seq<T>>,
    Seq<nat>,
)
    decreases batches.len(),
{
    if batches.len() == 0 {
        (buckets, Seq::empty())
    } else {
        let (before, handles) = creates_spec(buckets, batches.drop_last());
        let (after, h) = create_spec(before, batches.last());
        (after, handles.push(h))
    }
}

/// Concatenation distributes over appending buckets.
pub proof fn lemma_concat_all_append<T>(a: Seq<Seq<T>>, b: Seq<Seq<T>>)
    ensures
        concat_all(a + b) == concat_all(a) + concat_all(b),
    decreases b.len(),
{
    if b.len() == 0 {
        assert(a + b =~= a);
        assert(concat_all(a) + concat_all(b) =~= concat_all(a));
    } else {
        lemma_concat_all_append(a, b.drop_last());
        assert((a + b).drop_last() =~= a + b.drop_last());
        assert((a + b).last() == b.last());
        assert(concat_all(a) + concat_all(b) =~= concat_all(a) + concat_all(b.drop_last())
            + b.last());
    }
}

/// Creating buckets one after another hands out the handles `0, 1, 2, ...`
/// in call order, starting from an empty store.
pub proof fn lemma_handles_dense<T>(batches: Seq<Seq<T>>)
    ensures
        creates_spec(Seq::<Seq<T>>::empty(), batches).1 == Seq::new(
            batches.len(),
            |i: int| i as nat,
        ),
        creates_spec(Seq::<Seq<T>>::empty(), batches).0 == batches,
    decreases batches.len(),
{
    if batches.len() > 0 {
        lemma_handles_dense(batches.drop_last());
        assert(batches.drop_last().push(batches.last()) =~= batches);
    }
    assert(creates_spec(Seq::<Seq<T>>::empty(), batches).1 =~= Seq::new(
        batches.len(),
        |i: int| i as nat,
    ));
}

/// After bucket `h` is replaced by `items`, the assembled sequence holds exactly
/// `items`, in order, where that bucket's items stand, whatever it held before;
/// the items of the buckets before and after it are those they were.
pub proof fn lemma_update_in_place<T>(buckets: Seq<Seq<T>>, h: int, items: Seq<T>)
    requires
        0 <= h < buckets.len(),
    ensures
        ({
            let after = buckets.update(h, items);
            let start = offset_of(after, h);
            &&& start == offset_of(buckets, h)
            &&& concat_all(after).subrange(start, start + items.len()) == items
            &&& concat_all(after).take(start) == concat_all(buckets).take(start)
            &&& concat_all(after).skip(start + items.len()) == concat_all(buckets).skip(
                start + buckets[h].len(),
            )
        }),
{
    let after = buckets.update(h, items);
    let pre = buckets.take(h);
    let post = buckets.skip(h + 1);
    assert(after.take(h) =~= pre);
    assert(buckets =~= pre + seq![buckets[h]] + post);
    assert(after =~= pre + seq![items] + post);
    lemma_concat_all_append(pre + seq![buckets[h]], post);
    lemma_concat_all_append(pre, seq![buckets[h]]);
    lemma_concat_all_append(pre + seq![items], post);
    lemma_concat_all_append(pre, seq![items]);
    assert(seq![items].drop_last() =~= Seq::<Seq<T>>::empty());
    assert(seq![buckets[h]].drop_last() =~= Seq::<Seq<T>>::empty());
    assert(concat_all(Seq::<Seq<T>>::empty()) =~= Seq::<T>::empty());
    assert(concat_all(seq![items]) =~= items);
    assert(concat_all(seq![buckets[h]]) =~= buckets[h]);
    let start = concat_all(pre).len() as int;
    assert(concat_all(after).subrange(start, start + items.len()) =~= items);
    assert(concat_all(after).take(start) =~= concat_all(buckets).take(start));
    assert(concat_all(after).skip(start + items.len()) =~= concat_all(post));
    assert(concat_all(buckets).skip(start + buckets[h].len()) =~= concat_all(post));
}

/// Two assemblies of stores that hold the same buckets give the same sequence.
pub proof fn lemma_assembly_repeatable<T>(a: Seq<Seq<T>>, b: Seq<Seq<T>>)
    requires
        a == b,
    ensures
        concat_all(a) == concat_all(b),
{
}

/// Returned by `update_bucket` when the handle names no bucket.
#[derive(Debug, PartialEq, Eq, Structural)]
pub struct UnknownBucket {
    pub handle: usize,
}

/// Ordered, densely numbered buckets of opaque display items.
pub struct SceneStore<T> {
    buckets: Vec<Vec<T>>,
}

impl<T> View for SceneStore<T> {
    type V = Seq<Seq<T>>;

    closed spec fn view(&self) -> Seq<Seq<T>> {
        self.buckets@.map_values(|b: Vec<T>| b@)
    }
}

impl<T> SceneStore<T> {
    /// A store with no buckets.
    pub fn new() -> (r: Self)
        ensures
            r@ == Seq::<Seq<T>>::empty(),
    {
        let r = SceneStore { buckets: Vec::new() };
        assert(r@ =~= Seq::<Seq<T>>::empty());
        r
    }

    /// How many buckets have been created.
    pub fn len(&self) -> (r: usize)
        ensures
            r == self@.len(),
    {
        self.buckets.len()
    }

    /// Appends a bucket holding `items`; its handle is the number of buckets before.
    pub fn create_bucket(&mut self, items: Vec<T>) -> (r: usize)
        requires
            old(self)@.len() < usize::MAX,
        ensures
            (final(self)@, r as nat) == create_spec(old(self)@, items@),
    {
        let h = self.buckets.len();
        self.buckets.push(items);
        assert(self@ =~= old(self)@.push(items@));
        h
    }

    /// Replaces the whole item sequence of bucket `handle`; an unknown handle is
    /// reported and leaves the store as it was.
    pub fn update_bucket(&mut self, handle: usize, items: Vec<T>) -> (r: Result<(), UnknownBucket>)
        ensures
            r is Err <==> handle >= old(self)@.len(),
            r is Err ==> r == Err::<(), UnknownBucket>((UnknownBucket { handle }))
                && final(self)@ == old(self)@,
            r is Ok ==> final(self)@ == old(self)@.update(handle as int, items@),
    {
        if handle >= self.buckets.len() {
            return Err(UnknownBucket { handle });
        }
        self.buckets.set(handle, items);
        assert(self@ =~= old(self)@.update(handle as int, items@));
        Ok(())
    }

    /// The items of bucket `handle`, if it exists.
    pub fn bucket(&self, handle: usize) -> (r: Option<&Vec<T>>)
        ensures
            handle < self@.len() <==> r is Some,
            r matches Some(b) ==> b@ == self@[handle as int],
    {
        if handle < self.buckets.len() {
            Some(&self.buckets[handle])
        } else {
            None
        }
    }

    /// Every item of every bucket, buckets in creation order, items in stored order.
    pub fn all_items_in_order(&self) -> (r: Vec<&T>)
        ensures
            targets(r@) == concat_all(self@),
    {
        let mut r: Vec<&T> = Vec::new();
        let mut i: usize = 0;
        while i < self.buckets.len()
            invariant
                i <= self.buckets.len(),
                targets(r@) == concat_all(self@.take(i as int)),
            decreases self.buckets.len() - i,
        {
            let b = &self.buckets[i];
            let ghost before = targets(r@);
            let mut j: usize = 0;
            while j < b.len()
                invariant
                    j <= b.len(),
                    targets(r@) == before + b@.take(j as int),
                decreases b.len() - j,
            {
                let ghost prev = r@;
                r.push(&b[j]);
                assert(targets(r@) =~= targets(prev).push(b@[j as int]));
                assert(b@.take(j + 1) =~= b@.take(j as int).push(b@[j as int]));
                assert(targets(r@) =~= before + b@.take(j + 1));
                j += 1;
            }
            assert(b@.take(j as int) =~= b@);
            assert(self@.take(i + 1).drop_last() =~= self@.take(i as int));
            i += 1;
        }
        assert(self@.take(i as int) =~= self@);
        r
    }
}

} // verus!
