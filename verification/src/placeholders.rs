//! The placeholder map: names bound to the values substituted for `${name}`
//! tokens in migration scripts. Lookups are exact; a later binding for the
//! same name replaces the earlier one.
use vstd::prelude::*;

verus! {

/// A mapping from placeholder name to value.
pub struct Placeholders {
    entries: Vec<(String, String)>,
}

/// The mapping the entries denote: a later entry overrides an earlier one
/// with the same name.
pub open spec fn spec_entries_map(s: Seq<(String, String)>) -> Map<Seq<char>, Seq<char>>
    decreases s.len(),
{
    if s.len() == 0 {
        Map::empty()
    } else {
        spec_entries_map(s.drop_last()).insert(s.last().0@, s.last().1@)
    }
}

/// The value bound to a name: the value of the last entry with that name.
pub open spec fn spec_lookup(s: Seq<(String, String)>, k: Seq<char>) -> Option<Seq<char>>
    decreases s.len(),
{
    if s.len() == 0 {
        None
    } else if s.last().0@ == k {
        Some(s.last().1@)
    } else {
        spec_lookup(s.drop_last(), k)
    }
}

proof fn lemma_lookup_is_map_get(s: Seq<(String, String)>, k: Seq<char>)
    ensures
        spec_lookup(s, k) == (if spec_entries_map(s).contains_key(k) {
            Some(spec_entries_map(s)[k])
        } else {
            None
        }),
    decreases s.len(),
{
    if s.len() == 0 {
        assert(!spec_entries_map(s).contains_key(k));
    } else {
        lemma_lookup_is_map_get(s.drop_last(), k);
    }
}

impl View for Placeholders {
    type V = Map<Seq<char>, Seq<char>>;

    closed spec fn view(&self) -> Map<Seq<char>, Seq<char>> {
        spec_entries_map(self.entries@)
    }
}

impl Placeholders {
    /// An empty map.
    pub fn new() -> (r: Placeholders)
        ensures
            r@ == Map::<Seq<char>, Seq<char>>::empty(),
    {
        Placeholders { entries: Vec::new() }
    }

    /// Binds a name to a value, replacing any earlier binding of that name.
    pub fn insert(&mut self, name: String, value: String)
        ensures
            final(self)@ == old(self)@.insert(name@, value@),
    {
        let ghost old_entries = self.entries@;
        self.entries.push((name, value));
        proof {
            assert(self.entries@.drop_last() =~= old_entries);
            assert(self.entries@.last() == (name, value));
        }
    }

    /// The value bound to a name, if any.
    pub fn get(&self, name: &String) -> (r: Option<&String>)
        ensures
            match r {
                Some(v) => self@.contains_key(name@) && v@ == self@[name@],
                None => !self@.contains_key(name@),
            },
    {
        let mut i: usize = self.entries.len();
        proof {
            assert(self.entries@.subrange(0, i as int) =~= self.entries@);
        }
        while i > 0
            invariant
                i <= self.entries@.len(),
                spec_lookup(self.entries@, name@) == spec_lookup(
                    self.entries@.subrange(0, i as int),
                    name@,
                ),
            decreases i,
        {
            i = i - 1;
            let ghost pre = self.entries@.subrange(0, i as int + 1);
            assert(pre.last() == self.entries@[i as int]);
            assert(pre.drop_last() =~= self.entries@.subrange(0, i as int));
            if self.entries[i].0 == *name {
                proof {
                    lemma_lookup_is_map_get(self.entries@, name@);
                    assert(pre.len() > 0);
                    assert(pre.last().0@ == name@);
                    assert(spec_lookup(pre, name@) == Some(pre.last().1@));
                    assert(spec_lookup(self.entries@, name@) == Some(
                        self.entries@[i as int].1@,
                    ));
                    assert(self@ == spec_entries_map(self.entries@));
                    assert(self@.contains_key(name@));
                    assert(self@[name@] == self.entries@[i as int].1@);
                }
                return Some(&self.entries[i].1);
            }
        }
        proof {
            lemma_lookup_is_map_get(self.entries@, name@);
            assert(self.entries@.subrange(0, 0) =~= Seq::<(String, String)>::empty());
        }
        None
    }
}

} // verus!
