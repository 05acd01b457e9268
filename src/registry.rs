//! The route registry: definitions keyed by `"{METHOD} {path}"`, one per key.
use vstd::prelude::*;
use crate::model::MockApi;
use crate::text::{upper_of, to_upper, has_prefix};

verus! {

/// The registry key of a route: the method, one space, the path.
pub open spec fn key_of(method: Seq<char>, path: Seq<char>) -> Seq<char> {
    method + seq![' '] + path
}

/// `path`, with a `/` put in front where it does not start with one.
pub open spec fn normalized_path(path: Seq<char>) -> Seq<char> {
    if path.len() > 0 && path[0] == '/' {
        path
    } else {
        seq!['/'] + path
    }
}

/// The definition that registering these arguments stores.
pub open spec fn defined(
    path: Seq<char>,
    method: Seq<char>,
    response_body: Seq<char>,
    status_code: u16,
    response_type: Seq<char>,
    m: MockApi,
) -> bool {
    &&& m.method@ == upper_of(method)
    &&& m.path@ == normalized_path(path)
    &&& m.id@ == key_of(m.method@, m.path@)
    &&& m.response_body@ == response_body
    &&& m.status_code == status_code
    &&& m.response_type@ == response_type
}

/// Builds the key from a method and a path.
pub fn make_key(method: &str, path: &str) -> (r: String)
    ensures
        r@ == key_of(method@, path@),
{
    proof {
        reveal_strlit(" ");
    }
    String::from_str(method).concat(" ").concat(path)
}

/// Puts a `/` in front of `path` where it does not start with one.
pub fn normalize_path(path: &str) -> (r: String)
    ensures
        r@ == normalized_path(path@),
{
    proof {
        reveal_strlit("/");
    }
    if has_prefix(path, "/") {
        assert(path@[0] == "/"@[0]);
        String::from_str(path)
    } else {
        assert(!(path@.len() > 0 && path@[0] == '/')) by {
            if path@.len() > 0 && path@[0] == '/' {
                assert(path@.subrange(0, 1) =~= "/"@);
            }
        };
        String::from_str("/").concat(path)
    }
}

/// The route definitions, in the order in which they were first registered.
pub struct MockRegistry {
    mocks: Vec<MockApi>,
}

impl View for MockRegistry {
    type V = Seq<MockApi>;

    closed spec fn view(&self) -> Seq<MockApi> {
        self.mocks@
    }
}

impl MockRegistry {
    /// Keys are unique, and each is the key of its definition's method and path.
    pub open spec fn well_formed(&self) -> bool {
        &&& forall|i: int, j: int|
            0 <= i < j < self@.len() ==> #[trigger] self@[i].id@ != #[trigger] self@[j].id@
        &&& forall|i: int|
            0 <= i < self@.len() ==> #[trigger] self@[i].id@ == key_of(
                self@[i].method@,
                self@[i].path@,
            )
    }

    /// Whether some definition is stored under `key`.
    pub open spec fn has_key(&self, key: Seq<char>) -> bool {
        exists|i: int| 0 <= i < self@.len() && #[trigger] self@[i].id@ == key
    }

    /// The definition stored under `key`, if any.
    pub open spec fn lookup(&self, key: Seq<char>) -> Option<MockApi> {
        if self.has_key(key) {
            Some(self@[choose|i: int| 0 <= i < self@.len() && #[trigger] self@[i].id@ == key])
        } else {
            None
        }
    }

    /// The number of stored definitions.
    pub open spec fn size(&self) -> nat {
        self@.len()
    }

    /// Under unique keys, the lookup of a stored key finds its own definition.
    pub proof fn lemma_lookup_at(&self, i: int)
        requires
            self.well_formed(),
            0 <= i < self@.len(),
        ensures
            self.lookup(self@[i].id@) == Some(self@[i]),
    {
        let k = self@[i].id@;
        assert(self.has_key(k));
        let j = choose|j: int| 0 <= j < self@.len() && #[trigger] self@[j].id@ == k;
        if j < i {
            assert(self@[j].id@ != self@[i].id@);
        } else if i < j {
            assert(self@[i].id@ != self@[j].id@);
        }
    }

    /// The stored definitions, in registration order.
    pub fn definitions(&self) -> (r: &Vec<MockApi>)
        ensures
            r@ == self@,
    {
        &self.mocks
    }

    /// An empty registry.
    pub fn new() -> (r: MockRegistry)
        ensures
            r.well_formed(),
            r@.len() == 0,
    {
        MockRegistry { mocks: Vec::new() }
    }

    /// The index of the definition stored under `key`.
    fn position(&self, key: &str) -> (r: Option<usize>)
        ensures
            match r {
                Some(i) => i < self@.len() && self@[i as int].id@ == key@,
                None => !self.has_key(key@),
            },
    {
        let mut i: usize = 0;
        while i < self.mocks.len()
            invariant
                i <= self@.len(),
                self@ == self.mocks@,
                forall|j: int| 0 <= j < i ==> #[trigger] self@[j].id@ != key@,
            decreases self.mocks.len() - i,
        {
            if crate::text::same_text(self.mocks[i].id.as_str(), key) {
                return Some(i);
            }
            i = i + 1;
        }
        None
    }

    /// The definition stored under `key`.
    pub fn get(&self, key: &str) -> (r: Option<&MockApi>)
        requires
            self.well_formed(),
        ensures
            match r {
                Some(m) => self.lookup(key@) == Some(*m),
                None => self.lookup(key@) is None,
            },
    {
        match self.position(key) {
            Some(i) => {
                proof {
                    self.lemma_lookup_at(i as int);
                }
                Some(&self.mocks[i])
            },
            None => None,
        }
    }

    /// Stores `m` under its key, in place of any definition already there.
    fn store(&mut self, m: MockApi)
        requires
            old(self).well_formed(),
            m.id@ == key_of(m.method@, m.path@),
        ensures
            final(self).well_formed(),
            forall|k: Seq<char>| #[trigger] final(self).lookup(k) == if k == m.id@ {
                Some(m)
            } else {
                old(self).lookup(k)
            },
            final(self)@.len() == old(self)@.len() + if old(self).has_key(m.id@) {
                0int
            } else {
                1int
            },
    {
        let ghost prev = *self;
        let ghost key = m.id@;
        match self.position(m.id.as_str()) {
            Some(i) => {
                self.mocks.set(i, m);
                assert(self@ == prev@.update(i as int, m));
                assert(self.well_formed()) by {
                    assert forall|a: int, b: int| 0 <= a < b < self@.len() implies
                        #[trigger] self@[a].id@ != #[trigger] self@[b].id@ by {
                        if a != i && b != i {
                            assert(prev@[a].id@ != prev@[b].id@);
                        } else if a == i {
                            assert(prev@[i as int].id@ != prev@[b].id@);
                        } else {
                            assert(prev@[a].id@ != prev@[i as int].id@);
                        }
                    };
                };
                assert forall|k: Seq<char>| #[trigger] self.lookup(k) == if k == key {
                    Some(m)
                } else {
                    prev.lookup(k)
                } by {
                    if k == key {
                        self.lemma_lookup_at(i as int);
                    } else if prev.has_key(k) {
                        let j = choose|j: int| 0 <= j < prev@.len() && #[trigger] prev@[j].id@ == k;
                        prev.lemma_lookup_at(j);
                        self.lemma_lookup_at(j);
                    } else {
                        if self.has_key(k) {
                            let j = choose|j: int| 0 <= j < self@.len() && #[trigger] self@[j].id@ == k;
                            assert(prev@[j].id@ == k);
                        }
                    }
                };
            },
            None => {
                self.mocks.push(m);
                assert(self@ == prev@.push(m));
                assert(self.well_formed()) by {
                    assert forall|a: int, b: int| 0 <= a < b < self@.len() implies
                        #[trigger] self@[a].id@ != #[trigger] self@[b].id@ by {
                        if b == prev@.len() {
                            assert(self@[a] == prev@[a]);
                            if self@[a].id@ == key {
                                assert(prev.has_key(key));
                            }
                        } else {
                            assert(prev@[a].id@ != prev@[b].id@);
                        }
                    };
                };
                assert forall|k: Seq<char>| #[trigger] self.lookup(k) == if k == key {
                    Some(m)
                } else {
                    prev.lookup(k)
                } by {
                    if k == key {
                        self.lemma_lookup_at(prev@.len() as int);
                    } else if prev.has_key(k) {
                        let j = choose|j: int| 0 <= j < prev@.len() && #[trigger] prev@[j].id@ == k;
                        prev.lemma_lookup_at(j);
                        self.lemma_lookup_at(j);
                    } else {
                        if self.has_key(k) {
                            let j = choose|j: int| 0 <= j < self@.len() && #[trigger] self@[j].id@ == k;
                            assert(prev@[j].id@ == k);
                        }
                    }
                };
            },
        }
    }

    /// Removes the definition stored under `key`, if any.
    fn discard(&mut self, key: &str)
        requires
            old(self).well_formed(),
        ensures
            final(self).well_formed(),
            forall|k: Seq<char>| #[trigger] final(self).lookup(k) == if k == key@ {
                None
            } else {
                old(self).lookup(k)
            },
            final(self)@.len() == old(self)@.len() - if old(self).has_key(key@) {
                1int
            } else {
                0int
            },
    {
        let ghost prev = *self;
        match self.position(key) {
            Some(i) => {
                self.mocks.remove(i);
                assert(self@ == prev@.remove(i as int));
                assert(self.well_formed()) by {
                    assert forall|a: int, b: int| 0 <= a < b < self@.len() implies
                        #[trigger] self@[a].id@ != #[trigger] self@[b].id@ by {
                        let pa = if a < i { a } else { a + 1 };
                        let pb = if b < i { b } else { b + 1 };
                        assert(self@[a] == prev@[pa]);
                        assert(self@[b] == prev@[pb]);
                        assert(prev@[pa].id@ != prev@[pb].id@);
                    };
                    assert forall|a: int| 0 <= a < self@.len() implies
                        #[trigger] self@[a].id@ == key_of(self@[a].method@, self@[a].path@) by {
                        let pa = if a < i { a } else { a + 1 };
                        assert(self@[a] == prev@[pa]);
                    };
                };
                assert forall|k: Seq<char>| #[trigger] self.lookup(k) == if k == key@ {
                    None
                } else {
                    prev.lookup(k)
                } by {
                    if self.has_key(k) {
                        let j = choose|j: int| 0 <= j < self@.len() && #[trigger] self@[j].id@ == k;
                        let pj = if j < i { j } else { j + 1 };
                        assert(self@[j] == prev@[pj]);
                        prev.lemma_lookup_at(pj);
                        self.lemma_lookup_at(j);
                        if k == key@ {
                            assert(prev@[pj].id@ != prev@[i as int].id@);
                        }
                    } else if prev.has_key(k) && k != key@ {
                        let j = choose|j: int| 0 <= j < prev@.len() && #[trigger] prev@[j].id@ == k;
                        assert(j != i);
                        let sj = if j < i { j } else { j - 1 };
                        assert(self@[sj] == prev@[j]);
                    }
                };
            },
            None => {},
        }
    }

    /// Builds the definition for these arguments: the method in upper case,
    /// the path with a leading `/`, the key from both.
    pub fn define(
        path: &str,
        method: &str,
        response_body: &str,
        status_code: u16,
        response_type: &str,
    ) -> (r: MockApi)
        ensures
            defined(path@, method@, response_body@, status_code, response_type@, r),
    {
        let method = to_upper(method);
        let path = normalize_path(path);
        let id = make_key(method.as_str(), path.as_str());
        MockApi {
            id,
            path,
            method,
            response_body: String::from_str(response_body),
            status_code,
            response_type: String::from_str(response_type),
        }
    }

    /// Registers a route. A definition already stored under the same key is
    /// replaced, so the number of definitions grows only for a new key.
    pub fn add_mock_api(
        &mut self,
        path: &str,
        method: &str,
        response_body: &str,
        status_code: u16,
        response_type: &str,
    ) -> (key: String)
        requires
            old(self).well_formed(),
        ensures
            final(self).well_formed(),
            key@ == key_of(upper_of(method@), normalized_path(path@)),
            final(self).lookup(key@) matches Some(m) && defined(
                path@,
                method@,
                response_body@,
                status_code,
                response_type@,
                m,
            ),
            forall|k: Seq<char>| k != key@ ==> #[trigger] final(self).lookup(k) == old(self).lookup(k),
            final(self).size() == old(self).size() + if old(self).has_key(key@) {
                0int
            } else {
                1int
            },
    {
        let m = Self::define(path, method, response_body, status_code, response_type);
        let key = m.id.clone();
        self.store(m);
        key
    }

    /// Replaces the definition stored under `id` by one built from the other
    /// arguments, which may have another key. Updating a definition under its
    /// own key leaves the number of definitions as it was.
    pub fn update_mock_api(
        &mut self,
        id: &str,
        path: &str,
        method: &str,
        response_body: &str,
        status_code: u16,
        response_type: &str,
    ) -> (key: String)
        requires
            old(self).well_formed(),
        ensures
            final(self).well_formed(),
            key@ == key_of(upper_of(method@), normalized_path(path@)),
            final(self).lookup(key@) matches Some(m) && defined(
                path@,
                method@,
                response_body@,
                status_code,
                response_type@,
                m,
            ),
            key@ != id@ ==> final(self).lookup(id@) is None,
            forall|k: Seq<char>|
                k != key@ && k != id@ ==> #[trigger] final(self).lookup(k) == old(self).lookup(k),
            old(self).has_key(id@) && key@ == id@ ==> final(self).size() == old(self).size(),
            final(self).size() == old(self).size() - (if old(self).has_key(id@) {
                1int
            } else {
                0int
            }) + (if old(self).has_key(key@) && key@ != id@ {
                0int
            } else {
                1int
            }),
    {
        let ghost prev = *self;
        self.discard(id);
        let ghost mid = *self;
        assert(mid.has_key(key_of(upper_of(method@), normalized_path(path@))) ==> (
            prev.has_key(key_of(upper_of(method@), normalized_path(path@)))
            && key_of(upper_of(method@), normalized_path(path@)) != id@)) by {
            let k = key_of(upper_of(method@), normalized_path(path@));
            if mid.has_key(k) {
                assert(mid.lookup(k) is Some);
            }
        };
        assert(prev.has_key(key_of(upper_of(method@), normalized_path(path@)))
            && key_of(upper_of(method@), normalized_path(path@)) != id@ ==> mid.has_key(
            key_of(upper_of(method@), normalized_path(path@)))) by {
            let k = key_of(upper_of(method@), normalized_path(path@));
            if prev.has_key(k) && k != id@ {
                assert(prev.lookup(k) is Some);
                assert(mid.lookup(k) is Some);
            }
        };
        let m = Self::define(path, method, response_body, status_code, response_type);
        let key = m.id.clone();
        self.store(m);
        key
    }

    /// Removes the definition stored under `id`, if any.
    pub fn remove_mock_api(&mut self, id: &str)
        requires
            old(self).well_formed(),
        ensures
            final(self).well_formed(),
            final(self).lookup(id@) is None,
            forall|k: Seq<char>| k != id@ ==> #[trigger] final(self).lookup(k) == old(self).lookup(k),
            final(self).size() == old(self).size() - if old(self).has_key(id@) {
                1int
            } else {
                0int
            },
    {
        self.discard(id);
    }

    /// A copy of every stored definition, in registration order.
    pub fn get_mock_apis(&self) -> (r: Vec<MockApi>)
        ensures
            r@ == self@,
    {
        let mut r: Vec<MockApi> = Vec::new();
        let mut i: usize = 0;
        while i < self.mocks.len()
            invariant
                i <= self@.len(),
                self@ == self.mocks@,
                r@ == self@.subrange(0, i as int),
            decreases self.mocks.len() - i,
        {
            r.push(self.mocks[i].duplicate());
            assert(self@.subrange(0, i + 1) == self@.subrange(0, i as int).push(self@[i as int]));
            i = i + 1;
        }
        assert(self@.subrange(0, self@.len() as int) == self@);
        r
    }
}

} // verus!
