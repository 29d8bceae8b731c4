//! The headers of a response.

use vstd::prelude::*;
use vstd::slice::slice_to_vec;
use crate::bytes::eq_bytes;

verus! {

#[derive(Debug)]
struct Header {
    name: Vec<u8>,
    value: Vec<u8>,
}

/// A map from header names to values. A name occurs once; a value that is
/// inserted under a name that is there replaces the earlier one.
#[derive(Debug)]
pub struct HeaderMap {
    entries: Vec<Header>,
}

/// The map that a list of headers stands for: a later header with the same
/// name overrides an earlier one.
spec fn map_of(entries: Seq<Header>) -> Map<Seq<u8>, Seq<u8>>
    decreases entries.len(),
{
    if entries.len() == 0 {
        Map::empty()
    } else {
        map_of(entries.drop_last()).insert(entries.last().name@, entries.last().value@)
    }
}

spec fn distinct_names(entries: Seq<Header>) -> bool {
    forall|i: int, j: int|
        0 <= i < j < entries.len() ==> (#[trigger] entries[i]).name@ != (
        #[trigger] entries[j]).name@
}

proof fn lemma_distinct_front(entries: Seq<Header>)
    requires
        distinct_names(entries),
        entries.len() > 0,
    ensures
        distinct_names(entries.drop_last()),
{
    let front = entries.drop_last();
    assert forall|i: int, j: int| 0 <= i < j < front.len() implies (#[trigger] front[i]).name@ != (
    #[trigger] front[j]).name@ by {
        assert(front[i] == entries[i] && front[j] == entries[j]);
    }
}

proof fn lemma_map_of(entries: Seq<Header>)
    requires
        distinct_names(entries),
    ensures
        map_of(entries).dom().finite(),
        map_of(entries).dom().len() == entries.len(),
        forall|i: int|
            0 <= i < entries.len() ==> map_of(entries).dom().contains(
                (#[trigger] entries[i]).name@,
            ) && map_of(entries)[entries[i].name@] == entries[i].value@,
        forall|name: Seq<u8>| #[trigger]
            map_of(entries).dom().contains(name) ==> exists|i: int|
                0 <= i < entries.len() && (#[trigger] entries[i]).name@ == name,
    decreases entries.len(),
{
    if entries.len() > 0 {
        let front = entries.drop_last();
        let last = entries.last();
        lemma_distinct_front(entries);
        lemma_map_of(front);
        assert(!map_of(front).dom().contains(last.name@)) by {
            if map_of(front).dom().contains(last.name@) {
                let i = choose|i: int| 0 <= i < front.len() && (#[trigger] front[i]).name@ == last.name@;
                assert(front[i] == entries[i]);
                assert(entries[entries.len() - 1] == last);
            }
        }
        assert forall|i: int| 0 <= i < entries.len() implies map_of(entries).dom().contains(
            (#[trigger] entries[i]).name@,
        ) && map_of(entries)[entries[i].name@] == entries[i].value@ by {
            if i < front.len() {
                assert(front[i] == entries[i]);
            }
        }
        assert forall|name: Seq<u8>| #[trigger]
            map_of(entries).dom().contains(name) implies exists|i: int|
            0 <= i < entries.len() && (#[trigger] entries[i]).name@ == name by {
            if name == last.name@ {
                assert(entries[entries.len() - 1].name@ == name);
            } else {
                let i = choose|i: int| 0 <= i < front.len() && (#[trigger] front[i]).name@ == name;
                assert(front[i] == entries[i]);
            }
        }
    }
}

proof fn lemma_map_of_update(entries: Seq<Header>, at: int, header: Header)
    requires
        distinct_names(entries),
        0 <= at < entries.len(),
        entries[at].name@ == header.name@,
    ensures
        distinct_names(entries.update(at, header)),
        map_of(entries.update(at, header)) == map_of(entries).insert(header.name@, header.value@),
    decreases entries.len(),
{
    let updated = entries.update(at, header);
    assert(distinct_names(updated)) by {
        assert forall|i: int, j: int| 0 <= i < j < updated.len() implies (#[trigger] updated[i]).name@
            != (#[trigger] updated[j]).name@ by {
            assert(updated[i].name@ == entries[i].name@);
            assert(updated[j].name@ == entries[j].name@);
        }
    }
    let front = entries.drop_last();
    let last = entries.last();
    if at == entries.len() - 1 {
        assert(updated.drop_last() =~= front);
        assert(map_of(updated) =~= map_of(entries).insert(header.name@, header.value@));
    } else {
        lemma_distinct_front(entries);
        lemma_map_of_update(front, at, header);
        assert(updated.drop_last() =~= front.update(at, header));
        assert(updated.last() == last);
        assert(entries[at].name@ != entries[entries.len() - 1].name@);
        assert(map_of(updated) =~= map_of(entries).insert(header.name@, header.value@));
    }
}

impl View for HeaderMap {
    type V = Map<Seq<u8>, Seq<u8>>;

    closed spec fn view(&self) -> Map<Seq<u8>, Seq<u8>> {
        map_of(self.entries@)
    }
}

impl HeaderMap {
    #[verifier::type_invariant]
    spec fn names_occur_once(self) -> bool {
        distinct_names(self.entries@)
    }

    /// A map without headers.
    pub fn new() -> (headers: HeaderMap)
        ensures
            headers@ == Map::<Seq<u8>, Seq<u8>>::empty(),
    {
        HeaderMap { entries: Vec::new() }
    }

    fn find(&self, name: &[u8]) -> (at: Option<usize>)
        ensures
            match at {
                Some(i) => i < self.entries@.len() && self.entries@[i as int].name@ == name@,
                None => !self@.dom().contains(name@),
            },
    {
        proof {
            use_type_invariant(self);
            lemma_map_of(self.entries@);
        }
        let mut i: usize = 0;
        while i < self.entries.len()
            invariant
                i <= self.entries@.len(),
                forall|j: int| 0 <= j < i ==> (#[trigger] self.entries@[j]).name@ != name@,
            decreases self.entries@.len() - i,
        {
            if eq_bytes(self.entries[i].name.as_slice(), name) {
                return Some(i);
            }
            i = i + 1;
        }
        None
    }

    /// Puts `value` under `name`, in place of the value that `name` had.
    pub fn insert(&mut self, name: Vec<u8>, value: Vec<u8>)
        ensures
            final(self)@ == old(self)@.insert(name@, value@),
    {
        proof {
            use_type_invariant(&*self);
        }
        let found: Option<usize> = self.find(name.as_slice());
        let ghost before = self.entries@;
        let mut entries: Vec<Header> = Vec::new();
        std::mem::swap(&mut self.entries, &mut entries);
        match found {
            Some(at) => {
                proof {
                    lemma_map_of_update(before, at as int, Header { name, value });
                }
                entries.set(at, Header { name, value });
            },
            None => {
                proof {
                    lemma_map_of(before);
                }
                entries.push(Header { name, value });
                proof {
                    assert(entries@.drop_last() =~= before);
                    assert forall|i: int, j: int| 0 <= i < j < entries@.len() implies (
                    #[trigger] entries@[i]).name@ != (#[trigger] entries@[j]).name@ by {
                        assert(entries@[i] == before[i]);
                        if j < before.len() {
                            assert(entries@[j] == before[j]);
                        }
                    }
                }
            },
        }
        self.entries = entries;
    }

    /// The value under `name`, if there is one.
    pub fn get(&self, name: &[u8]) -> (value: Option<&Vec<u8>>)
        ensures
            match value {
                Some(v) => self@.dom().contains(name@) && self@[name@] == v@,
                None => !self@.dom().contains(name@),
            },
    {
        proof {
            use_type_invariant(self);
            lemma_map_of(self.entries@);
        }
        match self.find(name) {
            Some(at) => Some(&self.entries[at].value),
            None => None,
        }
    }

    /// Whether there is a value under `name`.
    pub fn contains_key(&self, name: &[u8]) -> (found: bool)
        ensures
            found == self@.dom().contains(name@),
    {
        self.get(name).is_some()
    }

    /// The number of headers.
    pub fn len(&self) -> (n: usize)
        ensures
            self@.dom().finite(),
            n == self@.dom().len(),
    {
        proof {
            use_type_invariant(self);
            lemma_map_of(self.entries@);
        }
        self.entries.len()
    }

    /// The headers as pairs of name and value, each name once.
    pub fn entries(&self) -> (pairs: Vec<(Vec<u8>, Vec<u8>)>)
        ensures
            self@.dom().finite(),
            pairs@.len() == self@.dom().len(),
            forall|i: int|
                0 <= i < pairs@.len() ==> self@.dom().contains((#[trigger] pairs@[i]).0@)
                    && self@[pairs@[i].0@] == pairs@[i].1@,
            forall|i: int, j: int|
                0 <= i < j < pairs@.len() ==> (#[trigger] pairs@[i]).0@ != (#[trigger] pairs@[j]).0@,
    {
        proof {
            use_type_invariant(self);
            lemma_map_of(self.entries@);
        }
        let mut pairs: Vec<(Vec<u8>, Vec<u8>)> = Vec::new();
        let mut i: usize = 0;
        while i < self.entries.len()
            invariant
                i <= self.entries@.len(),
                pairs@.len() == i,
                forall|j: int|
                    0 <= j < i ==> (#[trigger] pairs@[j]).0@ == self.entries@[j].name@ && pairs@[j].1@
                        == self.entries@[j].value@,
            decreases self.entries@.len() - i,
        {
            let name: Vec<u8> = slice_to_vec(self.entries[i].name.as_slice());
            let value: Vec<u8> = slice_to_vec(self.entries[i].value.as_slice());
            pairs.push((name, value));
            i = i + 1;
        }
        proof {
            assert forall|a: int, b: int| 0 <= a < b < pairs@.len() implies (#[trigger] pairs@[a]).0@
                != (#[trigger] pairs@[b]).0@ by {
                assert(self.entries@[a].name@ != self.entries@[b].name@);
            }
        }
        pairs
    }
}

} // verus!
