use vstd::prelude::*;

verus! {

/// The attributes that a log of writes leaves: each key holds the value of
/// its latest write.
pub open spec fn attributes_of(writes: Seq<(u64, String, String)>) -> Map<(u64, Seq<char>), Seq<char>>
    decreases writes.len(),
{
    if writes.len() == 0 {
        Map::empty()
    } else {
        attributes_of(writes.drop_last()).insert(
            (writes.last().0, writes.last().1@),
            writes.last().2@,
        )
    }
}

/// Writes after position `i` that all miss `key` leave its value as it was at `i`.
proof fn lemma_latest_write(writes: Seq<(u64, String, String)>, key: (u64, Seq<char>), i: int)
    requires
        0 <= i <= writes.len(),
        forall|j: int| i <= j < writes.len() ==> (#[trigger] writes[j].0, writes[j].1@) != key,
    ensures
        attributes_of(writes).contains_key(key) == attributes_of(writes.subrange(0, i)).contains_key(key),
        attributes_of(writes)[key] == attributes_of(writes.subrange(0, i))[key],
    decreases writes.len() - i,
{
    if i < writes.len() {
        let shorter = writes.drop_last();
        assert forall|j: int| i <= j < shorter.len() implies (#[trigger] shorter[j].0, shorter[j].1@) != key by {
            assert(shorter[j] == writes[j]);
        }
        lemma_latest_write(shorter, key, i);
        assert(shorter.subrange(0, i) =~= writes.subrange(0, i));
        assert((writes[writes.len() - 1].0, writes[writes.len() - 1].1@) != key);
    } else {
        assert(writes.subrange(0, i) =~= writes);
    }
}

/// Key-value attributes of tokens, keyed by a token identifier and a name.
pub struct AttributeStore {
    writes: Vec<(u64, String, String)>,
}

impl View for AttributeStore {
    type V = Map<(u64, Seq<char>), Seq<char>>;

    closed spec fn view(&self) -> Map<(u64, Seq<char>), Seq<char>> {
        attributes_of(self.writes@)
    }
}

impl AttributeStore {
    /// A store with no attributes.
    pub fn new() -> (r: AttributeStore)
        ensures
            r@ == Map::<(u64, Seq<char>), Seq<char>>::empty(),
    {
        AttributeStore { writes: Vec::new() }
    }

    /// Sets the attribute `key` of `id` to `value`.
    pub fn set_attribute(&mut self, id: u64, key: String, value: String)
        ensures
            final(self)@ == old(self)@.insert((id, key@), value@),
    {
        self.writes.push((id, key, value));
        assert(self.writes@.drop_last() =~= old(self).writes@);
    }

    /// The attribute `key` of `id`, if it was ever set.
    pub fn get_attribute(&self, id: u64, key: &String) -> (r: Option<String>)
        ensures
            r is Some <==> self@.contains_key((id, key@)),
            r is Some ==> r->0@ == self@[(id, key@)],
    {
        let mut i: usize = self.writes.len();
        while i > 0
            invariant
                i <= self.writes@.len(),
                forall|j: int| i <= j < self.writes@.len() ==> (#[trigger] self.writes@[j].0, self.writes@[j].1@) != (id, key@),
            decreases i,
        {
            let w = &self.writes[i - 1];
            if w.0 == id && w.1 == *key {
                proof {
                    lemma_latest_write(self.writes@, (id, key@), i as int);
                    let seen = self.writes@.subrange(0, i as int);
                    assert(seen.last() == self.writes@[i - 1]);
                }
                return Some(w.2.clone());
            }
            i = i - 1;
        }
        proof {
            lemma_latest_write(self.writes@, (id, key@), 0);
        }
        None
    }
}

} // verus!
