//! The table of methods that clients may call, by name.

use vstd::prelude::*;

use crate::json::same_text;

verus! {

/// How a method runs: once per request, or every tick while its client listens.
/// `N` and `S` are the host's handles for the two kinds of handler.
#[derive(Debug, Clone, Copy, PartialEq)]
pub enum RemoteMethod<N, S> {
    /// Runs once and produces the one result of the request.
    Normal(N),
    /// Runs every tick until it reports an error or its client is gone.
    Stream(S),
}

/// The registered methods. Each name is held once.
pub struct RemoteMethods<N, S> {
    entries: Vec<(String, RemoteMethod<N, S>)>,
    table: Ghost<Map<Seq<char>, RemoteMethod<N, S>>>,
}

impl<N, S> View for RemoteMethods<N, S> {
    type V = Map<Seq<char>, RemoteMethod<N, S>>;

    closed spec fn view(&self) -> Map<Seq<char>, RemoteMethod<N, S>> {
        self.table@
    }
}

impl<N, S> RemoteMethods<N, S> {
    /// The entries hold each name once, and the table is exactly what they hold.
    pub closed spec fn wf(&self) -> bool {
        &&& forall|i: int, j: int|
            0 <= i < j < self.entries@.len() ==> self.entries@[i].0@ != self.entries@[j].0@
        &&& forall|i: int|
            0 <= i < self.entries@.len() ==> #[trigger] self.table@.contains_key(
                self.entries@[i].0@,
            ) && self.table@[self.entries@[i].0@] == self.entries@[i].1
        &&& forall|k: Seq<char>|
            #[trigger] self.table@.contains_key(k) ==> exists|i: int|
                0 <= i < self.entries@.len() && self.entries@[i].0@ == k
        &&& self.table@.dom().finite()
    }

    /// An empty table.
    pub fn new() -> (r: Self)
        ensures
            r.wf(),
            r@ == Map::<Seq<char>, RemoteMethod<N, S>>::empty(),
    {
        RemoteMethods { entries: Vec::new(), table: Ghost(Map::empty()) }
    }

    fn find(&self, name: &str) -> (r: Option<usize>)
        requires
            self.wf(),
        ensures
            match r {
                Some(i) => i < self.entries@.len() && self.entries@[i as int].0@ == name@,
                None => !self@.contains_key(name@),
            },
    {
        let mut i: usize = 0;
        while i < self.entries.len()
            invariant
                i <= self.entries@.len(),
                forall|j: int| 0 <= j < i ==> self.entries@[j].0@ != name@,
            decreases self.entries@.len() - i,
        {
            if same_text(&self.entries[i].0, name) {
                return Some(i);
            }
            i = i + 1;
        }
        None
    }

    /// Adds a method, replacing any method of that name; returns the one replaced.
    pub fn insert(&mut self, method_name: String, handler: RemoteMethod<N, S>) -> (r: Option<
        RemoteMethod<N, S>,
    >)
        requires
            old(self).wf(),
        ensures
            final(self).wf(),
            final(self)@ == old(self)@.insert(method_name@, handler),
            r == if old(self)@.contains_key(method_name@) {
                Some(old(self)@[method_name@])
            } else {
                None
            },
    {
        let ghost k = method_name@;
        let ghost h = handler;
        match self.find(method_name.as_str()) {
            Some(i) => {
                let previous = self.entries.remove(i);
                self.entries.insert(i, (method_name, handler));
                self.table = Ghost(self.table@.insert(k, h));
                proof {
                    assert(old(self).table@.contains_key(k));
                    assert forall|key: Seq<char>| #[trigger]
                        self.table@.contains_key(key) implies exists|j: int|
                        0 <= j < self.entries@.len() && self.entries@[j].0@ == key by {
                        if key != k {
                            let j0 = choose|j: int|
                                0 <= j < old(self).entries@.len() && old(self).entries@[j].0@
                                    == key;
                            assert(self.entries@[j0].0@ == key);
                        } else {
                            assert(self.entries@[i as int].0@ == key);
                        }
                    }
                    assert forall|j: int| 0 <= j < self.entries@.len() implies #[trigger]
                        self.table@.contains_key(self.entries@[j].0@) && self.table@[self.entries@[j].0@]
                            == self.entries@[j].1 by {
                        if j != i {
                            assert(self.entries@[j] == old(self).entries@[j]);
                        }
                    }
                }
                Some(previous.1)
            },
            None => {
                self.entries.push((method_name, handler));
                self.table = Ghost(self.table@.insert(k, h));
                proof {
                    let n = self.entries@.len() - 1;
                    assert forall|key: Seq<char>| #[trigger]
                        self.table@.contains_key(key) implies exists|j: int|
                        0 <= j < self.entries@.len() && self.entries@[j].0@ == key by {
                        if key != k {
                            let j0 = choose|j: int|
                                0 <= j < old(self).entries@.len() && old(self).entries@[j].0@
                                    == key;
                            assert(self.entries@[j0].0@ == key);
                        } else {
                            assert(self.entries@[n].0@ == key);
                        }
                    }
                    assert forall|a: int, b: int|
                        0 <= a < b < self.entries@.len() implies self.entries@[a].0@
                        != self.entries@[b].0@ by {
                        if b == n {
                            assert(old(self).table@.contains_key(self.entries@[a].0@));
                        }
                    }
                    assert forall|j: int| 0 <= j < self.entries@.len() implies #[trigger]
                        self.table@.contains_key(self.entries@[j].0@) && self.table@[self.entries@[j].0@]
                            == self.entries@[j].1 by {
                        if j != n {
                            assert(old(self).table@.contains_key(self.entries@[j].0@));
                        }
                    }
                }
                None
            },
        }
    }

    /// The method registered under `name`, if any.
    pub fn get(&self, name: &str) -> (r: Option<&RemoteMethod<N, S>>)
        requires
            self.wf(),
        ensures
            match r {
                Some(m) => self@.contains_key(name@) && *m == self@[name@],
                None => !self@.contains_key(name@),
            },
    {
        match self.find(name) {
            Some(i) => {
                assert(self.table@.contains_key(self.entries@[i as int].0@));
                Some(&self.entries[i].1)
            },
            None => None,
        }
    }
} // impl

/// Registering a name twice keeps only the later handler, as if the first
/// registration had not happened.
pub proof fn lemma_reregister_keeps_latest<N, S>(
    m: Map<Seq<char>, RemoteMethod<N, S>>,
    name: Seq<char>,
    first: RemoteMethod<N, S>,
    second: RemoteMethod<N, S>,
)
    ensures
        m.insert(name, first).insert(name, second) == m.insert(name, second),
        m.insert(name, first).insert(name, second)[name] == second,
{
    assert(m.insert(name, first).insert(name, second) =~= m.insert(name, second));
}

} // verus!
