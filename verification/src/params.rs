//! The ordered name-to-value mapping submitted with a form.
//!
//! A later write to a name that is already present replaces its value and
//! keeps its position: duplicate field names collapse to the last write.
use vstd::prelude::*;
use vstd::string::*;

use crate::text::vec_eq_str;

verus! {

/// Submission parameters: name-value pairs, in first-write order.
#[derive(Debug, Clone, PartialEq, Eq)]
pub struct Params {
    pub pairs: Vec<(String, String)>,
}

pub open spec fn pairs_view(v: Seq<(String, String)>) -> Seq<(Seq<char>, Seq<char>)> {
    v.map_values(|p: (String, String)| (p.0@, p.1@))
}

impl View for Params {
    type V = Seq<(Seq<char>, Seq<char>)>;

    open spec fn view(&self) -> Seq<(Seq<char>, Seq<char>)> {
        pairs_view(self.pairs@)
    }
}

/// Position of `key` among the pairs, else their count.
pub open spec fn spec_key_at(ps: Seq<(Seq<char>, Seq<char>)>, key: Seq<char>) -> int
    decreases ps.len(),
{
    if ps.len() == 0 {
        0
    } else if ps[0].0 == key {
        0
    } else {
        1 + spec_key_at(ps.skip(1), key)
    }
}

pub proof fn lemma_spec_key_at(ps: Seq<(Seq<char>, Seq<char>)>, key: Seq<char>)
    ensures
        0 <= spec_key_at(ps, key) <= ps.len(),
        spec_key_at(ps, key) < ps.len() ==> ps[spec_key_at(ps, key)].0 == key,
        forall|k: int| 0 <= k < spec_key_at(ps, key) ==> ps[k].0 != key,
    decreases ps.len(),
{
    if ps.len() > 0 && ps[0].0 != key {
        lemma_spec_key_at(ps.skip(1), key);
        let j = spec_key_at(ps, key);
        assert forall|k: int| 0 <= k < j implies ps[k].0 != key by {
            if k > 0 {
                assert(ps.skip(1)[k - 1] == ps[k]);
            }
        }
        if j < ps.len() {
            assert(ps.skip(1)[j - 1] == ps[j]);
        }
    }
}

/// The value under `key`, if present.
pub open spec fn spec_get(ps: Seq<(Seq<char>, Seq<char>)>, key: Seq<char>) -> Option<
    Seq<char>,
> {
    if spec_key_at(ps, key) < ps.len() {
        Some(ps[spec_key_at(ps, key)].1)
    } else {
        None
    }
}

/// The pairs after writing `value` under `key`: the first pair with that
/// name takes the value, else a pair is appended.
pub open spec fn spec_set(
    ps: Seq<(Seq<char>, Seq<char>)>,
    key: Seq<char>,
    value: Seq<char>,
) -> Seq<(Seq<char>, Seq<char>)> {
    let j = spec_key_at(ps, key);
    if j < ps.len() {
        ps.update(j, (ps[j].0, value))
    } else {
        ps.push((key, value))
    }
}

impl Params {
    /// An empty parameter set.
    pub fn new() -> (r: Params)
        ensures
            r@ =~= Seq::<(Seq<char>, Seq<char>)>::empty(),
    {
        Params { pairs: Vec::new() }
    }

    /// Position of `key` among the pairs, else their count.
    pub fn key_at(&self, key: &str) -> (r: usize)
        ensures
            r as int == spec_key_at(self@, key@),
    {
        let mut i: usize = 0;
        proof {
            assert(self@.skip(0) =~= self@);
        }
        while i < self.pairs.len()
            invariant
                i <= self.pairs@.len(),
                forall|k: int| 0 <= k < i ==> self@[k].0 != key@,
                spec_key_at(self@, key@) == i as int + spec_key_at(
                    self@.skip(i as int),
                    key@,
                ),
            decreases self.pairs.len() - i,
        {
            let ghost rest = self@.skip(i as int);
            proof {
                assert(rest[0] == self@[i as int]);
                assert(rest.skip(1) =~= self@.skip(i + 1));
            }
            if vec_eq_str(&crate::text::to_chars(self.pairs[i].0.as_str()), key) {
                proof {
                    assert(spec_key_at(rest, key@) == 0);
                }
                return i;
            }
            i = i + 1;
        }
        proof {
            assert(self@.skip(i as int) =~= Seq::<(Seq<char>, Seq<char>)>::empty());
        }
        i
    }

    /// The value under `key`, if present.
    pub fn get(&self, key: &str) -> (r: Option<&String>)
        ensures
            (match r {
                Some(v) => Some(v@),
                None => None,
            }) == spec_get(self@, key@),
    {
        let j = self.key_at(key);
        proof {
            lemma_spec_key_at(self@, key@);
        }
        if j < self.pairs.len() {
            Some(&self.pairs[j].1)
        } else {
            None
        }
    }

    /// Write `value` under `key`, replacing the first pair with that name,
    /// or appending one.
    pub fn set(&mut self, key: String, value: String)
        ensures
            final(self)@ == spec_set(old(self)@, key@, value@),
    {
        let j = self.key_at(key.as_str());
        proof {
            lemma_spec_key_at(self@, key@);
        }
        if j < self.pairs.len() {
            let ghost before = self@;
            let old_key = self.pairs[j].0.clone();
            self.pairs.set(j, (old_key, value));
            proof {
                assert(self@ =~= spec_set(before, key@, value@));
            }
        } else {
            let ghost before = self@;
            self.pairs.push((key, value));
            proof {
                assert(self@ =~= spec_set(before, key@, value@));
            }
        }
    }

    /// How many pairs there are.
    pub fn len(&self) -> (r: usize)
        ensures
            r == self@.len(),
    {
        self.pairs.len()
    }
}

} // verus!
