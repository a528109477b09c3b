//! Environment variables: names with one value each.
use crate::text::same_text;
use vstd::prelude::*;

verus! {

/// What pairs of a name and a value say.
pub open spec fn pair_texts(pairs: Seq<(String, String)>) -> Seq<(Seq<char>, Seq<char>)> {
    Seq::new(pairs.len(), |i: int| (pairs[i].0@, pairs[i].1@))
}

/// Environment variables.
#[derive(Debug)]
pub struct Variables {
    pairs: Vec<(String, String)>,
}

impl View for Variables {
    type V = Map<Seq<char>, Seq<char>>;

    closed spec fn view(&self) -> Map<Seq<char>, Seq<char>> {
        crate::pairs::by_key(pair_texts(self.pairs@))
    }
}

impl Variables {
    #[verifier::type_invariant]
    spec fn has_distinct_names(&self) -> bool {
        crate::pairs::are_distinct(pair_texts(self.pairs@))
    }

    /// No variables.
    pub fn new() -> (r: Variables)
        ensures
            r@ == Map::<Seq<char>, Seq<char>>::empty(),
    {
        Variables { pairs: Vec::new() }
    }

    /// The place of a variable.
    fn find(&self, name: &str) -> (r: Option<usize>)
        ensures
            match r {
                Some(at) => at < self.pairs@.len() && pair_texts(self.pairs@)[at as int].0 == name@
                    && self@.dom().contains(name@) && self@[name@] == pair_texts(
                    self.pairs@,
                )[at as int].1,
                None => !self@.dom().contains(name@) && forall|i: int|
                    0 <= i < self.pairs@.len() ==> (#[trigger] pair_texts(self.pairs@)[i]).0
                        != name@,
            },
    {
        let ghost all = pair_texts(self.pairs@);
        proof {
            use_type_invariant(self);
            crate::pairs::keys_are_known(all);
        }
        let mut i: usize = 0;
        while i < self.pairs.len()
            invariant
                i <= self.pairs@.len(),
                all == pair_texts(self.pairs@),
                crate::pairs::are_distinct(all),
                self@ == crate::pairs::by_key(all),
                forall|name: Seq<char>| #[trigger]
                    crate::pairs::by_key(all).dom().contains(name) <==> exists|i: int|
                        0 <= i < all.len() && (#[trigger] all[i]).0 == name,
                forall|i: int|
                    0 <= i < all.len() ==> crate::pairs::by_key(all)[(#[trigger] all[i]).0] == all[i].1,
                forall|j: int| 0 <= j < i ==> (#[trigger] all[j]).0 != name@,
            decreases self.pairs@.len() - i,
        {
            if same_text(self.pairs[i].0.as_str(), name) {
                assert(all[i as int].0 == name@);
                return Some(i);
            }
            i = i + 1;
        }
        None
    }

    /// The value of a variable.
    pub fn get(&self, name: &str) -> (r: Option<&String>)
        ensures
            match r {
                Some(value) => self@.dom().contains(name@) && value@ == self@[name@],
                None => !self@.dom().contains(name@),
            },
    {
        match self.find(name) {
            Some(at) => Some(&self.pairs[at].1),
            None => None,
        }
    }

    /// Sets a variable.
    pub fn insert(&mut self, name: String, value: String)
        ensures
            final(self)@ == old(self)@.insert(name@, value@),
    {
        proof {
            use_type_invariant(&*self);
        }
        let place = self.find(name.as_str());
        let ghost before = pair_texts(self.pairs@);
        let ghost pair = (name@, value@);
        let mut pairs: Vec<(String, String)> = Vec::new();
        std::mem::swap(&mut pairs, &mut self.pairs);
        match place {
            Some(at) => {
                proof {
                    crate::pairs::changed_value(before, at as int, value@);
                }
                pairs.set(at, (name, value));
                assert(pair_texts(pairs@) =~= before.update(at as int, pair));
            },
            None => {
                pairs.push((name, value));
                assert(pair_texts(pairs@) =~= before.push(pair));
                assert(before.push(pair).drop_last() =~= before);
            },
        }
        self.pairs = pairs;
    }

    /// Whether there are no variables.
    pub fn is_empty(&self) -> (r: bool)
        ensures
            r == (self@ == Map::<Seq<char>, Seq<char>>::empty()),
    {
        proof {
            let all = pair_texts(self.pairs@);
            crate::pairs::keys_are_known(all);
            if all.len() > 0 {
                assert(all[0].0 == all[0].0);
                assert(crate::pairs::by_key(all).dom().contains(all[0].0));
            }
        }
        self.pairs.len() == 0
    }

    /// The variables as pairs of a name and a value. No name occurs twice.
    pub fn pairs(&self) -> (r: &Vec<(String, String)>)
        ensures
            crate::pairs::are_distinct(pair_texts(r@)),
            crate::pairs::by_key(pair_texts(r@)) == self@,
    {
        proof {
            use_type_invariant(self);
        }
        &self.pairs
    }
}

} // verus!
