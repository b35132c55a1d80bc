//! A double-ended flattening cursor: the elements of a sequence of segments,
//! taken as one flat sequence, consumable from the front and from the back
//! until the two ends meet.

use vstd::prelude::*;

verus! {

use std::collections::VecDeque;

/// The flattened contents of a sequence of segments.
pub open spec fn segs_flat<T>(s: Seq<Vec<T>>) -> Seq<T> {
    s.map_values(|v: Vec<T>| v@).flatten()
}

/// A cursor over the elements of a sequence of segments. `next` yields the
/// first remaining element, `next_back` the last; both work on the same flat
/// sequence, so together they consume every element exactly once.
pub struct Flatten<T> {
    segments: VecDeque<Vec<T>>,
}

/// Containers whose contents can be read as a sequence of segments and
/// turned into a flattening cursor.
pub trait IteratorExt: Sized {
    type Elem;

    /// The contents, segment by segment.
    spec fn segments_view(self) -> Seq<Seq<Self::Elem>>;

    /// A cursor over all the elements of all the segments, in order.
    fn my_flatten(self) -> (r: Flatten<Self::Elem>)
        ensures
            r.remaining() == self.segments_view().flatten(),
    ;
}

impl<T> IteratorExt for Vec<Vec<T>> {
    type Elem = T;

    open spec fn segments_view(self) -> Seq<Seq<T>> {
        self@.map_values(|v: Vec<T>| v@)
    }

    fn my_flatten(self) -> (r: Flatten<T>) {
        Flatten::new(self)
    }
}

impl<T> Flatten<T> {
    /// The elements not yet yielded, front to back.
    pub closed spec fn remaining(self) -> Seq<T> {
        segs_flat(self.segments@)
    }

    /// A cursor over the given segments, starting with every element still
    /// to be yielded.
    pub fn new(segments: Vec<Vec<T>>) -> (r: Flatten<T>)
        ensures
            r.remaining() == segs_flat(segments@),
    {
        let mut rest = segments;
        let mut q: VecDeque<Vec<T>> = VecDeque::new();
        while rest.len() > 0
            invariant
                rest@ + q@ == segments@,
            decreases rest.len(),
        {
            let v = rest.pop().unwrap();
            q.push_front(v);
            assert(rest@ + q@ =~= segments@);
        }
        assert(q@ =~= segments@);
        Flatten { segments: q }
    }

    /// The front element of the flat sequence, if one remains.
    pub fn next(&mut self) -> (r: Option<T>)
        ensures
            old(self).remaining().len() == 0 ==> {
                &&& r is None
                &&& final(self).remaining() == old(self).remaining()
            },
            old(self).remaining().len() > 0 ==> {
                &&& r matches Some(t) && t == old(self).remaining()[0]
                &&& final(self).remaining() == old(self).remaining().drop_first()
            },
    {
        let ghost orig = self.remaining();
        while self.segments.len() > 0
            invariant
                self.remaining() == orig,
                orig == old(self).remaining(),
            decreases self.segments.len(),
        {
            let ghost pre = self.segments@;
            let ghost prem = pre.map_values(|v: Vec<T>| v@);
            let mut seg = self.segments.pop_front().unwrap();
            proof {
                assert(prem.len() > 0);
                assert(prem.flatten() == prem.first().add(prem.drop_first().flatten()));
                assert(self.segments@.map_values(|v: Vec<T>| v@) =~= prem.drop_first());
            }
            if seg.len() > 0 {
                let t = seg.remove(0);
                if seg.len() > 0 {
                    self.segments.push_front(seg);
                    proof {
                        let m = self.segments@.map_values(|v: Vec<T>| v@);
                        assert(m.drop_first() =~= prem.drop_first());
                        assert(m.flatten() == m.first().add(m.drop_first().flatten()));
                        assert(self.remaining() =~= orig.drop_first());
                    }
                } else {
                    proof {
                        assert(self.remaining() =~= orig.drop_first());
                    }
                }
                return Some(t);
            }
            proof {
                assert(self.remaining() =~= orig);
            }
        }
        proof {
            assert(self.remaining() =~= Seq::<T>::empty());
        }
        None
    }

    /// The back element of the flat sequence, if one remains.
    pub fn next_back(&mut self) -> (r: Option<T>)
        ensures
            old(self).remaining().len() == 0 ==> {
                &&& r is None
                &&& final(self).remaining() == old(self).remaining()
            },
            old(self).remaining().len() > 0 ==> {
                &&& r matches Some(t) && t == old(self).remaining().last()
                &&& final(self).remaining() == old(self).remaining().drop_last()
            },
    {
        let ghost orig = self.remaining();
        while self.segments.len() > 0
            invariant
                self.remaining() == orig,
                orig == old(self).remaining(),
            decreases self.segments.len(),
        {
            let ghost pre = self.segments@;
            let ghost prem = pre.map_values(|v: Vec<T>| v@);
            let mut seg = self.segments.pop_back().unwrap();
            proof {
                assert(prem.len() > 0);
                prem.lemma_flatten_and_flatten_alt_are_equivalent();
                assert(prem.flatten_alt() == prem.drop_last().flatten_alt().add(prem.last()));
                assert(self.segments@.map_values(|v: Vec<T>| v@) =~= prem.drop_last());
                prem.drop_last().lemma_flatten_and_flatten_alt_are_equivalent();
            }
            if seg.len() > 0 {
                let t = seg.pop().unwrap();
                if seg.len() > 0 {
                    self.segments.push_back(seg);
                    proof {
                        let m = self.segments@.map_values(|v: Vec<T>| v@);
                        assert(m.drop_last() =~= prem.drop_last());
                        m.lemma_flatten_and_flatten_alt_are_equivalent();
                        assert(m.flatten_alt() == m.drop_last().flatten_alt().add(m.last()));
                        assert(self.remaining() =~= orig.drop_last());
                    }
                } else {
                    proof {
                        assert(self.remaining() =~= orig.drop_last());
                    }
                }
                return Some(t);
            }
            proof {
                assert(self.remaining() =~= orig);
            }
        }
        proof {
            assert(self.remaining() =~= Seq::<T>::empty());
        }
        None
    }
}

} // verus!
