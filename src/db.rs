//! The database bridge's decisions: finding a connection by name, turning
//! a column's decode attempts into a value, and the saved connection list.
use vstd::prelude::*;
use crate::model::DbConfig;
use crate::text::same_text;

verus! {

/// `serde_json::Number`, a decoded floating-point column's value: carried
/// through to the script unread.
#[verifier::external_type_specification]
#[verifier::external_body]
pub struct ExNumber(serde_json::Number);

/// The message for a connection name that is not registered.
pub open spec fn missing_message(name: Seq<char>) -> Seq<char> {
    "Connection '"@ + name + "' not found"@
}

/// Builds the message for a connection name that is not registered.
pub fn missing_connection(name: &str) -> (r: String)
    ensures
        r@ == missing_message(name@),
{
    String::from_str("Connection '").concat(name).concat("' not found")
}

/// Named connection handles, one per name, in the order they were added.
pub struct ConnectionRegistry<H> {
    entries: Vec<(String, H)>,
}

impl<H> View for ConnectionRegistry<H> {
    type V = Seq<(String, H)>;

    closed spec fn view(&self) -> Seq<(String, H)> {
        self.entries@
    }
}

impl<H> ConnectionRegistry<H> {
    /// Names are unique.
    pub open spec fn well_formed(&self) -> bool {
        forall|i: int, j: int|
            0 <= i < j < self@.len() ==> #[trigger] self@[i].0@ != #[trigger] self@[j].0@
    }

    /// Whether a handle is registered under `name`.
    pub open spec fn has(&self, name: Seq<char>) -> bool {
        exists|i: int| 0 <= i < self@.len() && #[trigger] self@[i].0@ == name
    }

    /// The handle registered under `name`, if any.
    pub open spec fn handle(&self, name: Seq<char>) -> Option<H> {
        if self.has(name) {
            Some(self@[choose|i: int| 0 <= i < self@.len() && #[trigger] self@[i].0@ == name].1)
        } else {
            None
        }
    }

    /// Under unique names, the handle of a stored name is its own.
    pub proof fn lemma_handle_at(&self, i: int)
        requires
            self.well_formed(),
            0 <= i < self@.len(),
        ensures
            self.handle(self@[i].0@) == Some(self@[i].1),
    {
        let k = self@[i].0@;
        assert(self.has(k));
        let j = choose|j: int| 0 <= j < self@.len() && #[trigger] self@[j].0@ == k;
        if j < i {
            assert(self@[j].0@ != self@[i].0@);
        } else if i < j {
            assert(self@[i].0@ != self@[j].0@);
        }
    }

    /// An empty registry.
    pub fn new() -> (r: Self)
        ensures
            r.well_formed(),
            r@.len() == 0,
    {
        ConnectionRegistry { entries: Vec::new() }
    }

    fn position(&self, name: &str) -> (r: Option<usize>)
        ensures
            match r {
                Some(i) => i < self@.len() && self@[i as int].0@ == name@,
                None => !self.has(name@),
            },
    {
        let mut i: usize = 0;
        while i < self.entries.len()
            invariant
                i <= self@.len(),
                self@ == self.entries@,
                forall|j: int| 0 <= j < i ==> #[trigger] self@[j].0@ != name@,
            decreases self.entries.len() - i,
        {
            if same_text(self.entries[i].0.as_str(), name) {
                return Some(i);
            }
            i = i + 1;
        }
        None
    }

    /// The handle registered under `name`, or the error that names it missing.
    pub fn lookup(&self, name: &str) -> (r: Result<&H, String>)
        requires
            self.well_formed(),
        ensures
            match r {
                Ok(h) => self.handle(name@) == Some(*h),
                Err(e) => self.handle(name@) is None && e@ == missing_message(name@),
            },
    {
        match self.position(name) {
            Some(i) => {
                proof {
                    self.lemma_handle_at(i as int);
                }
                Ok(&self.entries[i].1)
            },
            None => Err(missing_connection(name)),
        }
    }

    /// Registers `h` under `name`, in place of any handle already there.
    pub fn insert(&mut self, name: String, h: H)
        requires
            old(self).well_formed(),
        ensures
            final(self).well_formed(),
            forall|k: Seq<char>| #[trigger] final(self).handle(k) == if k == name@ {
                Some(h)
            } else {
                old(self).handle(k)
            },
    {
        let ghost prev = *self;
        let ghost key = name@;
        match self.position(name.as_str()) {
            Some(i) => {
                self.entries.set(i, (name, h));
                assert(self@ == prev@.update(i as int, (name, h)));
                assert(self.well_formed()) by {
                    assert forall|a: int, b: int| 0 <= a < b < self@.len() implies
                        #[trigger] self@[a].0@ != #[trigger] self@[b].0@ by {
                        if a != i && b != i {
                            assert(prev@[a].0@ != prev@[b].0@);
                        } else if a == i {
                            assert(prev@[i as int].0@ != prev@[b].0@);
                        } else {
                            assert(prev@[a].0@ != prev@[i as int].0@);
                        }
                    };
                };
                assert forall|k: Seq<char>| #[trigger] self.handle(k) == if k == key {
                    Some(h)
                } else {
                    prev.handle(k)
                } by {
                    if k == key {
                        self.lemma_handle_at(i as int);
                    } else if prev.has(k) {
                        let j = choose|j: int| 0 <= j < prev@.len() && #[trigger] prev@[j].0@ == k;
                        prev.lemma_handle_at(j);
                        self.lemma_handle_at(j);
                    } else if self.has(k) {
                        let j = choose|j: int| 0 <= j < self@.len() && #[trigger] self@[j].0@ == k;
                        assert(prev@[j].0@ == k);
                    }
                };
            },
            None => {
                self.entries.push((name, h));
                assert(self@ == prev@.push((name, h)));
                assert(self.well_formed()) by {
                    assert forall|a: int, b: int| 0 <= a < b < self@.len() implies
                        #[trigger] self@[a].0@ != #[trigger] self@[b].0@ by {
                        if b == prev@.len() {
                            assert(self@[a] == prev@[a]);
                            if self@[a].0@ == key {
                                assert(prev.has(key));
                            }
                        } else {
                            assert(prev@[a].0@ != prev@[b].0@);
                        }
                    };
                };
                assert forall|k: Seq<char>| #[trigger] self.handle(k) == if k == key {
                    Some(h)
                } else {
                    prev.handle(k)
                } by {
                    if k == key {
                        self.lemma_handle_at(prev@.len() as int);
                    } else if prev.has(k) {
                        let j = choose|j: int| 0 <= j < prev@.len() && #[trigger] prev@[j].0@ == k;
                        prev.lemma_handle_at(j);
                        self.lemma_handle_at(j);
                    } else if self.has(k) {
                        let j = choose|j: int| 0 <= j < self@.len() && #[trigger] self@[j].0@ == k;
                        assert(prev@[j].0@ == k);
                    }
                };
            },
        }
    }

    /// Removes the handle registered under `name`, if any.
    pub fn remove(&mut self, name: &str)
        requires
            old(self).well_formed(),
        ensures
            final(self).well_formed(),
            forall|k: Seq<char>| #[trigger] final(self).handle(k) == if k == name@ {
                None
            } else {
                old(self).handle(k)
            },
    {
        let ghost prev = *self;
        match self.position(name) {
            Some(i) => {
                self.entries.remove(i);
                assert(self@ == prev@.remove(i as int));
                assert(self.well_formed()) by {
                    assert forall|a: int, b: int| 0 <= a < b < self@.len() implies
                        #[trigger] self@[a].0@ != #[trigger] self@[b].0@ by {
                        let pa = if a < i { a } else { a + 1 };
                        let pb = if b < i { b } else { b + 1 };
                        assert(self@[a] == prev@[pa]);
                        assert(self@[b] == prev@[pb]);
                        assert(prev@[pa].0@ != prev@[pb].0@);
                    };
                };
                assert forall|k: Seq<char>| #[trigger] self.handle(k) == if k == name@ {
                    None
                } else {
                    prev.handle(k)
                } by {
                    if self.has(k) {
                        let j = choose|j: int| 0 <= j < self@.len() && #[trigger] self@[j].0@ == k;
                        let pj = if j < i { j } else { j + 1 };
                        assert(self@[j] == prev@[pj]);
                        prev.lemma_handle_at(pj);
                        self.lemma_handle_at(j);
                        if k == name@ {
                            assert(prev@[pj].0@ != prev@[i as int].0@);
                        }
                    } else if prev.has(k) && k != name@ {
                        let j = choose|j: int| 0 <= j < prev@.len() && #[trigger] prev@[j].0@ == k;
                        assert(j != i);
                        let sj = if j < i { j } else { j - 1 };
                        assert(self@[sj] == prev@[j]);
                    }
                };
            },
            None => {},
        }
    }
}

/// One column of a fetched row, as the script receives it.
pub enum Cell {
    Text(String),
    Integer(i64),
    Real(serde_json::Number),
    Boolean(bool),
    Null,
}

/// What each decode attempt of one column gave, in the order they are tried:
/// text, 64-bit integer, floating point, boolean, 16-bit integer, 32-bit
/// integer. `real` is `Some(None)` where a floating-point value decoded but
/// is not finite.
pub struct ColumnProbe {
    pub text: Option<String>,
    pub int64: Option<i64>,
    pub real: Option<Option<serde_json::Number>>,
    pub boolean: Option<bool>,
    pub int16: Option<i16>,
    pub int32: Option<i32>,
}

/// The value of a column: the first attempt that succeeded, else null.
pub open spec fn decoded(p: ColumnProbe) -> Cell {
    if p.text is Some {
        Cell::Text(p.text.unwrap())
    } else if p.int64 is Some {
        Cell::Integer(p.int64.unwrap())
    } else if p.real is Some {
        match p.real.unwrap() {
            Some(n) => Cell::Real(n),
            None => Cell::Null,
        }
    } else if p.boolean is Some {
        Cell::Boolean(p.boolean.unwrap())
    } else if p.int16 is Some {
        Cell::Integer(p.int16.unwrap() as i64)
    } else if p.int32 is Some {
        Cell::Integer(p.int32.unwrap() as i64)
    } else {
        Cell::Null
    }
}

/// Takes the first decode attempt of a column that succeeded.
pub fn decode_cell(p: ColumnProbe) -> (r: Cell)
    ensures
        r == decoded(p),
{
    match p.text {
        Some(t) => Cell::Text(t),
        None => match p.int64 {
            Some(v) => Cell::Integer(v),
            None => match p.real {
                Some(Some(n)) => Cell::Real(n),
                Some(None) => Cell::Null,
                None => match p.boolean {
                    Some(b) => Cell::Boolean(b),
                    None => match p.int16 {
                        Some(v) => Cell::Integer(v as i64),
                        None => match p.int32 {
                            Some(v) => Cell::Integer(v as i64),
                            None => Cell::Null,
                        },
                    },
                },
            },
        },
    }
}

/// The saved connections without those named `name`.
pub open spec fn without_name(configs: Seq<DbConfig>, name: Seq<char>) -> Seq<DbConfig>
    decreases configs.len(),
{
    if configs.len() == 0 {
        configs
    } else {
        let rest = without_name(configs.drop_last(), name);
        if configs.last().name@ == name {
            rest
        } else {
            rest.push(configs.last())
        }
    }
}

/// Drops every saved connection named `name`, keeping the order of the rest.
pub fn remove_db_config(configs: &mut Vec<DbConfig>, name: &str)
    ensures
        final(configs)@ == without_name(old(configs)@, name@),
{
    let ghost all = configs@;
    let mut kept: Vec<DbConfig> = Vec::new();
    let mut i: usize = 0;
    while i < configs.len()
        invariant
            configs@ == all,
            i <= all.len(),
            kept@ == without_name(all.subrange(0, i as int), name@),
        decreases configs.len() - i,
    {
        assert(all.subrange(0, i + 1).drop_last() == all.subrange(0, i as int));
        if !same_text(configs[i].name.as_str(), name) {
            let c = DbConfig { name: configs[i].name.clone(), url: configs[i].url.clone() };
            kept.push(c);
        }
        i = i + 1;
    }
    assert(all.subrange(0, all.len() as int) == all);
    *configs = kept;
}

/// Saves a connection under `name`, in place of any saved under that name,
/// at the end of the list.
pub fn add_db_config(configs: &mut Vec<DbConfig>, name: String, url: String)
    ensures
        final(configs)@ == without_name(old(configs)@, name@).push(DbConfig { name, url }),
{
    remove_db_config(configs, name.as_str());
    configs.push(DbConfig { name, url });
}

} // verus!
