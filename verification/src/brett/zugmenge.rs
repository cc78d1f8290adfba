use vstd::prelude::*;

use crate::brett::SpielBrett;

verus! {

/// A set of boards, each one the result of a legal move. Structurally equal
/// boards collapse to one entry, as two capture paths that end in the same
/// position are the same move.
pub struct ZugMenge {
    bretter: Vec<SpielBrett>,
}

impl View for ZugMenge {
    type V = Set<SpielBrett>;

    closed spec fn view(&self) -> Set<SpielBrett> {
        self.bretter@.to_set()
    }
}

proof fn lemma_push_to_set(s: Seq<SpielBrett>, x: SpielBrett)
    ensures
        s.push(x).to_set() == s.to_set().insert(x),
{
    assert forall|y: SpielBrett| s.push(x).to_set().contains(y) implies s.to_set().insert(
        x,
    ).contains(y) by {
        let i = choose|i: int| 0 <= i < s.push(x).len() && s.push(x)[i] == y;
        if i < s.len() {
            assert(s[i] == y);
        }
    }
    assert forall|y: SpielBrett| s.to_set().insert(x).contains(y) implies s.push(
        x,
    ).to_set().contains(y) by {
        if y == x {
            assert(s.push(x)[s.len() as int] == y);
        } else {
            let i = choose|i: int| 0 <= i < s.len() && s[i] == y;
            assert(s.push(x)[i] == y);
        }
    }
    assert(s.push(x).to_set() =~= s.to_set().insert(x));
}

impl ZugMenge {
    /// Well-formed: no board stored twice.
    pub closed spec fn wf(self) -> bool {
        self.bretter@.no_duplicates()
    }

    /// The boards in the order in which they were first inserted.
    pub closed spec fn folge(self) -> Seq<SpielBrett> {
        self.bretter@
    }

    pub fn new() -> (r: Self)
        ensures
            r.wf(),
            r@ == Set::<SpielBrett>::empty(),
            r.folge() == Seq::<SpielBrett>::empty(),
    {
        let r = ZugMenge { bretter: Vec::new() };
        proof {
            assert(r.bretter@.to_set() =~= Set::<SpielBrett>::empty());
        }
        r
    }

    pub fn contains(&self, brett: &SpielBrett) -> (r: bool)
        ensures
            r == self@.contains(*brett),
    {
        let n = self.bretter.len();
        for i in 0..n
            invariant
                n == self.bretter.len(),
                forall|j: int| 0 <= j < i ==> self.bretter@[j] != *brett,
        {
            if self.bretter[i] == *brett {
                proof {
                    assert(self.bretter@.contains(*brett));
                }
                return true;
            }
        }
        proof {
            assert(!self.bretter@.contains(*brett));
        }
        false
    }

    pub fn insert(&mut self, brett: SpielBrett)
        requires
            old(self).wf(),
        ensures
            final(self).wf(),
            final(self)@ == old(self)@.insert(brett),
            old(self)@.contains(brett) ==> final(self).folge() == old(self).folge(),
            !old(self)@.contains(brett) ==> final(self).folge() == old(self).folge().push(brett),
    {
        if !self.contains(&brett) {
            self.bretter.push(brett);
            proof {
                assert(self.bretter@.drop_last() =~= old(self).bretter@);
                assert(self.bretter@.no_duplicates());
                lemma_push_to_set(old(self).bretter@, brett);
            }
        } else {
            proof {
                assert(self.bretter@.to_set() =~= old(self).bretter@.to_set().insert(brett));
            }
        }
    }

    /// Inserts every board of `andere`.
    pub fn add_alle(&mut self, andere: &ZugMenge)
        requires
            old(self).wf(),
        ensures
            final(self).wf(),
            final(self)@ == old(self)@.union(andere@),
    {
        let n = andere.bretter.len();
        for i in 0..n
            invariant
                self.wf(),
                n == andere.bretter.len(),
                self@ == old(self)@.union(andere.bretter@.take(i as int).to_set()),
        {
            self.insert(andere.bretter[i]);
            proof {
                assert(andere.bretter@.take(i + 1) =~= andere.bretter@.take(i as int).push(
                    andere.bretter@[i as int],
                ));
                lemma_push_to_set(andere.bretter@.take(i as int), andere.bretter@[i as int]);
                assert(self@ =~= old(self)@.union(andere.bretter@.take(i + 1).to_set()));
            }
        }
        proof {
            assert(andere.bretter@.take(n as int) =~= andere.bretter@);
            assert(self@ =~= old(self)@.union(andere@));
        }
    }

    pub fn is_empty(&self) -> (r: bool)
        ensures
            r == self@.is_empty(),
            r == (self.folge().len() == 0),
    {
        proof {
            if self.bretter@.len() == 0 {
                assert(self.bretter@.to_set() =~= Set::<SpielBrett>::empty());
            } else {
                assert(self.bretter@.to_set().contains(self.bretter@[0]));
            }
        }
        self.bretter.len() == 0
    }

    pub fn len(&self) -> (r: usize)
        requires
            self.wf(),
        ensures
            r == self@.len(),
            r == self.folge().len(),
            self.folge().to_set() == self@,
            self.folge().no_duplicates(),
            self@.finite(),
    {
        proof {
            self.bretter@.unique_seq_to_set();
        }
        self.bretter.len()
    }

    pub fn get(&self, i: usize) -> (r: &SpielBrett)
        requires
            i < self.folge().len(),
        ensures
            *r == self.folge()[i as int],
            self@.contains(*r),
    {
        proof {
            assert(self.bretter@.contains(self.bretter@[i as int]));
        }
        &self.bretter[i]
    }

    /// The boards as a plain vector, without duplicates.
    pub fn as_vec(&self) -> (r: &Vec<SpielBrett>)
        ensures
            r@ == self.folge(),
            r@.to_set() == self@,
    {
        &self.bretter
    }
}

} // verus!
