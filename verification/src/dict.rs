//! A small string-to-string dictionary, kept as an association list whose
//! later entries shadow earlier ones. It backs both the definition registry
//! and the alias map, and is viewed as a `Map<Seq<char>, Seq<char>>`.

use vstd::prelude::*;

verus! {

/// A mapping from character-sequence keys to character-sequence values.
/// Inserting an existing key overwrites its binding.
#[derive(Debug)]
pub struct Dict {
    entries: Vec<(Vec<char>, Vec<char>)>,
}

/// The map described by an association list: later entries win.
pub open spec fn assoc_view(s: Seq<(Vec<char>, Vec<char>)>) -> Map<Seq<char>, Seq<char>>
    decreases s.len(),
{
    if s.len() == 0 {
        Map::empty()
    } else {
        assoc_view(s.drop_last()).insert(s.last().0@, s.last().1@)
    }
}

impl View for Dict {
    type V = Map<Seq<char>, Seq<char>>;

    closed spec fn view(&self) -> Map<Seq<char>, Seq<char>> {
        assoc_view(self.entries@)
    }
}

/// A map lookup as an `Option`, for stating what `get` returns.
pub open spec fn lookup(m: Map<Seq<char>, Seq<char>>, k: Seq<char>) -> Option<Seq<char>> {
    if m.contains_key(k) {
        Some(m[k])
    } else {
        None
    }
}

/// Element-wise equality of two character vectors.
fn chars_eq(a: &Vec<char>, b: &Vec<char>) -> (r: bool)
    ensures
        r == (a@ == b@),
{
    if a.len() != b.len() {
        return false;
    }
    let n = a.len();
    let mut k: usize = 0;
    while k < n
        invariant
            n == a@.len() == b@.len(),
            k <= n,
            forall|m: int| 0 <= m < k ==> a@[m] == b@[m],
        decreases n - k,
    {
        if a[k] != b[k] {
            return false;
        }
        k += 1;
    }
    assert(a@ =~= b@);
    true
}

impl Dict {
    /// An empty dictionary.
    pub fn new() -> (d: Dict)
        ensures
            d@ == Map::<Seq<char>, Seq<char>>::empty(),
    {
        Dict { entries: Vec::new() }
    }

    /// Binds `k` to `v`, overwriting any earlier binding of `k`.
    pub fn insert(&mut self, k: Vec<char>, v: Vec<char>)
        ensures
            final(self)@ == old(self)@.insert(k@, v@),
    {
        let ghost prior = self.entries@;
        self.entries.push((k, v));
        proof {
            assert(self.entries@.drop_last() =~= prior);
        }
    }

    /// The value bound to `k`, if any.
    pub fn get(&self, k: &Vec<char>) -> (r: Option<&Vec<char>>)
        ensures
            match r {
                Some(v) => lookup(self@, k@) == Some(v@),
                None => lookup(self@, k@) is None,
            },
    {
        let n = self.entries.len();
        proof {
            assert(self.entries@.take(n as int) =~= self.entries@);
        }
        let mut i = n;
        while i > 0
            invariant
                i <= n == self.entries@.len(),
                lookup(assoc_view(self.entries@), k@) == lookup(
                    assoc_view(self.entries@.take(i as int)),
                    k@,
                ),
            decreases i,
        {
            proof {
                assert(self.entries@.take(i as int).drop_last() =~= self.entries@.take(i - 1));
                assert(self.entries@.take(i as int).last() == self.entries@[i - 1]);
            }
            if chars_eq(&self.entries[i - 1].0, k) {
                return Some(&self.entries[i - 1].1);
            }
            i -= 1;
        }
        proof {
            assert(self.entries@.take(0) =~= Seq::<(Vec<char>, Vec<char>)>::empty());
        }
        None
    }
}

} // verus!
