use vstd::prelude::*;

verus! {

pub type Entry = (Seq<char>, Seq<char>);

pub open spec fn entry_views(v: Seq<(String, String)>) -> Seq<Entry> {
    v.map_values(|e: (String, String)| (e.0@, e.1@))
}

/// The value bound to `k`; a later binding of the same key hides an earlier one.
pub open spec fn lookup(s: Seq<Entry>, k: Seq<char>) -> Option<Seq<char>>
    decreases s.len(),
{
    if s.len() == 0 {
        None
    } else if s.last().0 == k {
        Some(s.last().1)
    } else {
        lookup(s.drop_last(), k)
    }
}

/// Name/value pairs in the order they were added.
#[derive(Clone, Debug)]
pub struct Params {
    pub entries: Vec<(String, String)>,
}

impl View for Params {
    type V = Seq<Entry>;

    open spec fn view(&self) -> Seq<Entry> {
        entry_views(self.entries@)
    }
}

impl Params {
    pub fn new() -> (r: Params)
        ensures
            r@ == Seq::<Entry>::empty(),
    {
        let r = Params { entries: Vec::new() };
        assert(r@ =~= Seq::<Entry>::empty());
        r
    }

    pub fn insert(&mut self, key: String, value: String)
        ensures
            final(self)@ == old(self)@.push((key@, value@)),
    {
        let ghost k = key@;
        let ghost v = value@;
        self.entries.push((key, value));
        assert(self@ =~= old(self)@.push((k, v)));
    }

    pub fn len(&self) -> (r: usize)
        ensures
            r == self@.len(),
    {
        self.entries.len()
    }

    pub fn get(&self, key: &str) -> (r: Option<String>)
        ensures
            r matches Some(v) ==> lookup(self@, key@) == Some(v@),
            r is None ==> lookup(self@, key@) is None,
    {
        let k = key.to_owned();
        let mut i: usize = self.entries.len();
        assert(self@.subrange(0, i as int) =~= self@);
        while i > 0
            invariant
                i <= self.entries.len(),
                k@ == key@,
                lookup(self@, key@) == lookup(self@.subrange(0, i as int), key@),
            decreases i,
        {
            let e = &self.entries[i - 1];
            assert(self@.subrange(0, i as int).drop_last() =~= self@.subrange(0, i - 1));
            if e.0 == k {
                return Some(e.1.clone());
            }
            i = i - 1;
        }
        None
    }

    /// A copy with the same pairs.
    pub fn duplicate(&self) -> (r: Params)
        ensures
            r@ == self@,
    {
        let mut r = Params::new();
        let mut k: usize = 0;
        while k < self.entries.len()
            invariant
                k <= self.entries.len(),
                r@ == self@.subrange(0, k as int),
            decreases self.entries.len() - k,
        {
            r.insert(self.entries[k].0.clone(), self.entries[k].1.clone());
            k = k + 1;
            assert(r@ =~= self@.subrange(0, k as int));
        }
        assert(self@.subrange(0, k as int) =~= self@);
        r
    }

    pub fn contains_key(&self, key: &str) -> (r: bool)
        ensures
            r == lookup(self@, key@) is Some,
    {
        self.get(key).is_some()
    }
}

} // verus!
