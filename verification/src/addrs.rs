use vstd::prelude::*;

verus! {

/// True of a list of strings that holds an element whose characters are `a`.
pub open spec fn list_has(l: Seq<String>, a: Seq<char>) -> bool {
    exists|i: int| 0 <= i < l.len() && l[i]@ == a
}

/// A set of addresses with membership as the only semantic signal.
///
/// Stored as a vector without duplicate entries; insertion of a member and
/// removal of a non-member are harmless no-ops.
pub struct AddrSet {
    pub members: Vec<String>,
}

impl AddrSet {
    /// No two stored entries spell the same address.
    pub open spec fn wf(self) -> bool {
        forall|i: int, j: int|
            0 <= i < j < self.members@.len() ==> self.members@[i]@ != self.members@[j]@
    }

    /// Membership of the address spelled `a`.
    pub open spec fn has(self, a: Seq<char>) -> bool {
        list_has(self.members@, a)
    }

    pub fn empty() -> (r: AddrSet)
        ensures
            r.wf(),
            forall|a: Seq<char>| !r.has(a),
    {
        AddrSet { members: Vec::new() }
    }

    pub fn contains(&self, a: &String) -> (r: bool)
        ensures
            r == self.has(a@),
    {
        let mut i: usize = 0;
        while i < self.members.len()
            invariant
                0 <= i <= self.members@.len(),
                forall|k: int| 0 <= k < i ==> self.members@[k]@ != a@,
            decreases self.members@.len() - i,
        {
            if self.members[i] == *a {
                assert(self.members@[i as int]@ == a@);
                return true;
            }
            i += 1;
        }
        false
    }

    /// Adds `a`; a second insertion of the same address changes nothing.
    pub fn insert(&mut self, a: String)
        requires
            old(self).wf(),
        ensures
            final(self).wf(),
            forall|x: Seq<char>| #![auto] final(self).has(x) <==> (old(self).has(x) || x == a@),
    {
        if !self.contains(&a) {
            let ghost pre = self.members@;
            self.members.push(a);
            proof {
                assert forall|x: Seq<char>| #![auto] list_has(self.members@, x) implies (list_has(
                    pre,
                    x,
                ) || x == a@) by {
                    let i = choose|i: int|
                        0 <= i < self.members@.len() && self.members@[i]@ == x;
                    if i < pre.len() {
                        assert(pre[i]@ == x);
                    }
                }
                assert forall|x: Seq<char>| #![auto] (list_has(pre, x) || x == a@) implies list_has(
                    self.members@,
                    x,
                ) by {
                    if list_has(pre, x) {
                        let i = choose|i: int| 0 <= i < pre.len() && pre[i]@ == x;
                        assert(self.members@[i]@ == x);
                    } else {
                        assert(self.members@[pre.len() as int]@ == x);
                    }
                }
            }
        }
    }

    /// Removes `a`; removal of a non-member changes nothing.
    pub fn remove(&mut self, a: &String)
        requires
            old(self).wf(),
        ensures
            final(self).wf(),
            forall|x: Seq<char>| #![auto] final(self).has(x) <==> (old(self).has(x) && x != a@),
    {
        let mut i: usize = 0;
        while i < self.members.len()
            invariant
                0 <= i <= self.members@.len(),
                self.members@ == old(self).members@,
                old(self).wf(),
                forall|k: int| 0 <= k < i ==> self.members@[k]@ != a@,
            decreases self.members@.len() - i,
        {
            if self.members[i] == *a {
                let ghost pre = self.members@;
                let ghost found: int = i as int;
                self.members.remove(i);
                proof {
                    assert(pre[found]@ == a@);
                    assert forall|x: Seq<char>| #![auto] list_has(self.members@, x) implies (
                    list_has(pre, x) && x != a@) by {
                        let k = choose|k: int|
                            0 <= k < self.members@.len() && self.members@[k]@ == x;
                        let orig: int = if k < found {
                            k
                        } else {
                            k + 1
                        };
                        assert(pre[orig]@ == x);
                        // uniqueness of `pre` rules out a second copy of `a`
                        assert(orig != found ==> pre[orig]@ != pre[found]@);
                    }
                    assert forall|x: Seq<char>| #![auto] (list_has(pre, x) && x != a@) implies
                    list_has(self.members@, x) by {
                        let k = choose|k: int| 0 <= k < pre.len() && pre[k]@ == x;
                        if k < found {
                            assert(self.members@[k]@ == x);
                        } else {
                            assert(k != found);
                            assert(self.members@[k - 1]@ == x);
                        }
                    }
                }
                return ;
            }
            i += 1;
        }
    }

    /// Applies `add` first, then `remove`, as one update of the set.
    pub fn apply_updates(&mut self, add: &Vec<String>, remove: &Vec<String>)
        requires
            old(self).wf(),
        ensures
            final(self).wf(),
            forall|x: Seq<char>| #![auto]
                final(self).has(x) <==> ((old(self).has(x) || list_has(add@, x)) && !list_has(
                    remove@,
                    x,
                )),
    {
        let mut i: usize = 0;
        while i < add.len()
            invariant
                0 <= i <= add@.len(),
                self.wf(),
                forall|x: Seq<char>| #![auto]
                    self.has(x) <==> (old(self).has(x) || list_has(add@.take(i as int), x)),
            decreases add@.len() - i,
        {
            let ghost before = *self;
            self.insert(add[i].clone());
            proof {
                lemma_list_has_take_step(add@, i as int);
            }
            i += 1;
        }
        proof {
            assert(add@.take(add@.len() as int) == add@);
        }
        let mut j: usize = 0;
        while j < remove.len()
            invariant
                0 <= j <= remove@.len(),
                self.wf(),
                forall|x: Seq<char>| #![auto]
                    self.has(x) <==> ((old(self).has(x) || list_has(add@, x)) && !list_has(
                        remove@.take(j as int),
                        x,
                    )),
            decreases remove@.len() - j,
        {
            self.remove(&remove[j]);
            proof {
                lemma_list_has_take_step(remove@, j as int);
            }
            j += 1;
        }
        proof {
            assert(remove@.take(remove@.len() as int) == remove@);
        }
    }
}

/// Extending a prefix of `l` by one element extends what it spells by exactly
/// that element.
proof fn lemma_list_has_take_step(l: Seq<String>, i: int)
    requires
        0 <= i < l.len(),
    ensures
        forall|x: Seq<char>| #![auto]
            list_has(l.take(i + 1), x) <==> (list_has(l.take(i), x) || l[i]@ == x),
{
    assert forall|x: Seq<char>| #![auto] list_has(l.take(i + 1), x) implies (list_has(
        l.take(i),
        x,
    ) || l[i]@ == x) by {
        let t = l.take(i + 1);
        let k = choose|k: int| 0 <= k < t.len() && #[trigger] t[k]@ == x;
        if k < i {
            assert(l.take(i)[k]@ == x);
        }
    }
    assert forall|x: Seq<char>| #![auto] (list_has(l.take(i), x) || l[i]@ == x) implies list_has(
        l.take(i + 1),
        x,
    ) by {
        if list_has(l.take(i), x) {
            let t = l.take(i);
            let k = choose|k: int| 0 <= k < t.len() && #[trigger] t[k]@ == x;
            assert(l.take(i + 1)[k]@ == x);
        } else {
            assert(l.take(i + 1)[i]@ == x);
        }
    }
}

} // verus!
