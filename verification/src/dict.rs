//! The flat key/value dictionary that serialises a device's state and
//! carries update instructions.
//!
//! Pairs keep their order of arrival.  A key may occur more than once (a raw
//! query string permits that); a lookup then sees the last occurrence, the
//! same value a map built from the pairs front to back would hold.

use crate::text::str_eq;
use vstd::prelude::*;

verus! {

/// The value under `key`, taking the last pair that carries it.
pub open spec fn dict_lookup(d: Seq<(Seq<char>, Seq<char>)>, key: Seq<char>) -> Option<Seq<char>>
    decreases d.len(),
{
    if d.len() == 0 {
        None
    } else if d.last().0 == key {
        Some(d.last().1)
    } else {
        dict_lookup(d.drop_last(), key)
    }
}

/// An ordered set of string key/value pairs.
#[derive(Debug)]
pub struct DeviceDict {
    pairs: Vec<(String, String)>,
}

impl View for DeviceDict {
    type V = Seq<(Seq<char>, Seq<char>)>;

    closed spec fn view(&self) -> Seq<(Seq<char>, Seq<char>)> {
        self.pairs@.map_values(|p: (String, String)| (p.0@, p.1@))
    }
}

impl DeviceDict {
    /// An empty dictionary.
    pub fn new() -> (r: DeviceDict)
        ensures
            r@ == Seq::<(Seq<char>, Seq<char>)>::empty(),
    {
        let r = DeviceDict { pairs: Vec::new() };
        proof {
            assert(r@ =~= Seq::<(Seq<char>, Seq<char>)>::empty());
        }
        r
    }

    pub fn len(&self) -> (r: usize)
        ensures
            r == self@.len(),
    {
        self.pairs.len()
    }

    /// Append one pair at the end.
    pub fn push(&mut self, key: String, value: String)
        ensures
            final(self)@ == old(self)@.push((key@, value@)),
    {
        let ghost before = self@;
        self.pairs.push((key, value));
        proof {
            assert(self@ =~= before.push((key@, value@)));
        }
    }

    /// The pair at position `i`, in order of arrival.
    pub fn pair_at(&self, i: usize) -> (r: (&String, &String))
        requires
            i < self@.len(),
        ensures
            (r.0@, r.1@) == self@[i as int],
    {
        let p = &self.pairs[i];
        (&p.0, &p.1)
    }

    /// The value stored under `key`, if any: the last occurrence wins.
    #[verifier::loop_isolation(false)]
    pub fn get(&self, key: &str) -> (r: Option<&String>)
        ensures
            match r {
                Some(v) => dict_lookup(self@, key@) == Some(v@),
                None => dict_lookup(self@, key@) is None,
            },
    {
        let n = self.pairs.len();
        let mut i: usize = n;
        proof {
            assert(self@.take(n as int) =~= self@);
        }
        while i > 0
            invariant
                0 <= i <= n,
                n == self@.len(),
                dict_lookup(self@, key@) == dict_lookup(self@.take(i as int), key@),
            decreases i,
        {
            i = i - 1;
            if str_eq(self.pairs[i].0.as_str(), key) {
                proof {
                    assert(self@.take(i + 1).last() == self@[i as int]);
                    assert(self@[i as int].0 == key@);
                }
                return Some(&self.pairs[i].1);
            }
            proof {
                assert(self@.take(i + 1).drop_last() =~= self@.take(i as int));
                assert(self@.take(i + 1).last() == self@[i as int]);
            }
        }
        proof {
            assert(self@.take(0) =~= Seq::<(Seq<char>, Seq<char>)>::empty());
        }
        None
    }

}

/// The pairs of a dictionary rendered one per line, indented, in order.
pub open spec fn pairs_text(d: Seq<(Seq<char>, Seq<char>)>) -> Seq<char>
    decreases d.len(),
{
    if d.len() == 0 {
        Seq::empty()
    } else {
        pairs_text(d.drop_last()) + "    "@ + d.last().0 + "="@ + d.last().1 + "\n"@
    }
}

impl DeviceDict {
    /// Render the pairs one per line, for the diagnostic report.
    pub fn render(&self) -> (r: String)
        ensures
            r@ == pairs_text(self@),
    {
        let mut r = String::new();
        let n = self.len();
        let mut i: usize = 0;
        proof {
            assert(r@ =~= pairs_text(self@.take(0)));
        }
        while i < n
            invariant
                0 <= i <= n,
                n == self@.len(),
                r@ == pairs_text(self@.take(i as int)),
            decreases n - i,
        {
            let (k, v) = self.pair_at(i);
            r.append("    ");
            r.append(k.as_str());
            r.append("=");
            r.append(v.as_str());
            r.append("\n");
            proof {
                assert(self@.take(i + 1).drop_last() =~= self@.take(i as int));
                assert(self@.take(i + 1).last() == self@[i as int]);
                assert(r@ =~= pairs_text(self@.take(i + 1)));
            }
            i += 1;
        }
        proof {
            assert(self@.take(n as int) =~= self@);
        }
        r
    }
}

impl Clone for DeviceDict {
    fn clone(&self) -> (r: Self)
        ensures
            r@ == self@,
    {
        let mut pairs: Vec<(String, String)> = Vec::new();
        let n = self.pairs.len();
        let mut i: usize = 0;
        while i < n
            invariant
                0 <= i <= n,
                n == self.pairs@.len(),
                pairs@.len() == i,
                forall|j: int|
                    0 <= j < i ==> (#[trigger] pairs@[j]).0@ == self.pairs@[j].0@ && pairs@[j].1@
                        == self.pairs@[j].1@,
            decreases n - i,
        {
            let k = self.pairs[i].0.clone();
            let v = self.pairs[i].1.clone();
            pairs.push((k, v));
            i += 1;
        }
        let r = DeviceDict { pairs };
        proof {
            assert(r@ =~= self@);
        }
        r
    }
}

} // verus!
