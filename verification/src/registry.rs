//! The table of live connections: each identifier with the sink that
//! writes to that connection.

use vstd::prelude::*;

verus! {

/// The live connections. `S` is the write half of a connection; the
/// registry owns it from registration to removal. The view is the map from
/// identifier to sink.
pub struct Registry<S> {
    ids: Vec<u128>,
    sinks: Vec<S>,
}

impl<S> View for Registry<S> {
    type V = Map<u128, S>;

    closed spec fn view(&self) -> Map<u128, S> {
        Map::new(
            |id: u128| self.ids@.contains(id),
            |id: u128| self.sinks@[self.ids@.index_of(id)],
        )
    }
}

proof fn lemma_index_of(ids: Seq<u128>, i: int)
    requires
        ids.no_duplicates(),
        0 <= i < ids.len(),
    ensures
        ids.index_of(ids[i]) == i,
        ids.contains(ids[i]),
{
    let j = ids.index_of(ids[i]);
    assert(0 <= j < ids.len() && ids[j] == ids[i]);
}

impl<S> Registry<S> {
    /// The registry's invariant: every identifier has one sink, and none
    /// stands twice.
    pub closed spec fn wf(&self) -> bool {
        &&& self.ids@.len() == self.sinks@.len()
        &&& self.ids@.no_duplicates()
    }

    /// An empty registry.
    pub fn new() -> (registry: Self)
        ensures
            registry.wf(),
            registry@ == Map::<u128, S>::empty(),
    {
        let registry = Registry { ids: Vec::new(), sinks: Vec::new() };
        assert(registry@ =~= Map::<u128, S>::empty());
        registry
    }

    fn position(&self, id: u128) -> (found: Option<usize>)
        requires
            self.wf(),
        ensures
            match found {
                Some(i) => i < self.ids@.len() && self.ids@[i as int] == id
                    && self.ids@.index_of(id) == i && self.ids@.contains(id),
                None => !self.ids@.contains(id),
            },
    {
        let mut i: usize = 0;
        while i < self.ids.len()
            invariant
                i <= self.ids@.len(),
                self.wf(),
                forall|j: int| 0 <= j < i ==> self.ids@[j] != id,
            decreases self.ids@.len() - i,
        {
            if self.ids[i] == id {
                proof {
                    lemma_index_of(self.ids@, i as int);
                }
                return Some(i);
            }
            i += 1;
        }
        None
    }

    /// Whether a connection with this identifier is registered.
    pub fn contains(&self, id: u128) -> (present: bool)
        requires
            self.wf(),
        ensures
            present == self@.contains_key(id),
    {
        self.position(id).is_some()
    }

    /// Registers a connection. An identifier that is already registered is
    /// refused: the registry stays as it is and the sink comes back.
    pub fn insert(&mut self, id: u128, sink: S) -> (outcome: Result<(), S>)
        requires
            old(self).wf(),
        ensures
            final(self).wf(),
            match outcome {
                Ok(()) => !old(self)@.contains_key(id) && final(self)@ == old(self)@.insert(
                    id,
                    sink,
                ),
                Err(back) => old(self)@.contains_key(id) && back == sink && final(self)@ == old(
                    self,
                )@,
            },
    {
        match self.position(id) {
            Some(_) => Err(sink),
            None => {
                self.ids.push(id);
                self.sinks.push(sink);
                proof {
                    let before = old(self).ids@;
                    let after = self.ids@;
                    assert forall|other: u128| before.contains(other) implies after.index_of(other)
                        == before.index_of(other) by {
                        let i = before.index_of(other);
                        assert(after[i] == other);
                        lemma_index_of(after, i);
                    }
                    lemma_index_of(after, before.len() as int);
                    assert forall|other: u128| after.contains(other) <==> (other == id
                        || before.contains(other)) by {
                        if after.contains(other) {
                            let i = after.index_of(other);
                            if i < before.len() {
                                assert(before[i] == other);
                            }
                        }
                        if before.contains(other) {
                            let i = before.index_of(other);
                            assert(after[i] == other);
                        }
                    }
                    assert(self@ =~= old(self)@.insert(id, sink));
                }
                Ok(())
            },
        }
    }

    /// Removes a connection and hands its sink out. Removing an identifier
    /// that is not registered changes nothing.
    pub fn remove(&mut self, id: u128) -> (sink: Option<S>)
        requires
            old(self).wf(),
        ensures
            final(self).wf(),
            final(self)@ == old(self)@.remove(id),
            sink == (if old(self)@.contains_key(id) {
                Some(old(self)@[id])
            } else {
                None
            }),
    {
        match self.position(id) {
            Some(i) => {
                self.ids.remove(i);
                let sink = self.sinks.remove(i);
                proof {
                    let before = old(self).ids@;
                    let after = self.ids@;
                    assert forall|other: u128| after.contains(other) <==> (other != id
                        && before.contains(other)) by {
                        if after.contains(other) {
                            let j = after.index_of(other);
                            if j < i {
                                assert(before[j] == other);
                            } else {
                                assert(before[j + 1] == other);
                            }
                        }
                        if other != id && before.contains(other) {
                            let j = before.index_of(other);
                            if j < i {
                                assert(after[j] == other);
                            } else {
                                assert(after[j - 1] == other);
                            }
                        }
                    }
                    assert forall|other: u128| after.contains(other) implies self.sinks@[after.index_of(
                        other,
                    )] == old(self).sinks@[before.index_of(other)] by {
                        let j = after.index_of(other);
                        if j < i {
                            lemma_index_of(before, j);
                        } else {
                            lemma_index_of(before, j + 1);
                        }
                    }
                    assert(self@ =~= old(self)@.remove(id));
                }
                Some(sink)
            },
            None => {
                assert(self@ =~= old(self)@.remove(id));
                None
            },
        }
    }

    /// The sink of a connection, to write to.
    pub fn get_mut(&mut self, id: u128) -> (sink: Option<&mut S>)
        requires
            old(self).wf(),
        ensures
            final(self).wf(),
            match sink {
                Some(sink) => {
                    &&& old(self)@.contains_key(id)
                    &&& *sink == old(self)@[id]
                    &&& final(self)@ == old(self)@.insert(id, *final(sink))
                },
                None => !old(self)@.contains_key(id) && final(self)@ == old(self)@,
            },
    {
        match self.position(id) {
            Some(i) => {
                let sink = &mut self.sinks[i];
                Some(sink)
            },
            None => None,
        }
    }

    /// How many connections are registered.
    pub fn len(&self) -> (count: usize)
        requires
            self.wf(),
        ensures
            count == self@.len(),
            self@.dom().finite(),
    {
        proof {
            assert(self.ids@.to_set() =~= self@.dom());
            self.ids@.unique_seq_to_set();
        }
        self.ids.len()
    }

    /// The identifiers of all registered connections, each once.
    pub fn ids(&self) -> (all: Vec<u128>)
        requires
            self.wf(),
        ensures
            all@.no_duplicates(),
            all@.to_set() == self@.dom(),
            all@.len() == self@.len(),
    {
        let all = self.ids.clone();
        proof {
            assert(all@ =~= self.ids@);
            assert(all@.to_set() =~= self@.dom());
            all@.unique_seq_to_set();
        }
        all
    }
}

} // verus!
