//! Configuration variables.

use vstd::prelude::*;
use super::ConsoleError;

verus! {

/// A configuration variable.
struct Cvar {
    name: String,
    val: String,
    archive: bool,
    notify: bool,
    default: String,
}

/// What a registry knows of a variable.
pub struct CvarState {
    /// The current value.
    pub val: Seq<char>,
    /// Whether the value is saved when the game closes.
    pub archive: bool,
    /// Whether a change is announced to the other side of the connection.
    pub notify: bool,
    /// The value it was registered with.
    pub default: Seq<char>,
}

impl Cvar {
    /// What this variable holds.
    spec fn state(&self) -> CvarState {
        CvarState { val: self.val@, archive: self.archive, notify: self.notify, default: self.default@ }
    }

    /// The name of this variable.
    spec fn key(&self) -> Seq<char> {
        self.name@
    }
}

/// The variables of a list, by name; a later entry wins over an earlier one with its name.
spec fn cvar_map(s: Seq<Cvar>) -> Map<Seq<char>, CvarState>
    decreases s.len(),
{
    if s.len() == 0 {
        Map::empty()
    } else {
        cvar_map(s.drop_last()).insert(s.last().key(), s.last().state())
    }
}

/// No two entries of a list share a name.
spec fn names_unique(s: Seq<Cvar>) -> bool {
    forall|i: int, j: int| 0 <= i < j < s.len() ==> s[i].key() != s[j].key()
}

/// The map of a list has exactly the names of its entries, each with the state of its entry.
proof fn lemma_cvar_map(s: Seq<Cvar>)
    requires
        names_unique(s),
    ensures
        forall|k: Seq<char>| #[trigger]
            cvar_map(s).contains_key(k) <==> exists|i: int| 0 <= i < s.len() && s[i].key() == k,
        forall|i: int| 0 <= i < s.len() ==> #[trigger] cvar_map(s)[s[i].key()] == s[i].state(),
    decreases s.len(),
{
    if s.len() > 0 {
        let t = s.drop_last();
        assert(names_unique(t));
        lemma_cvar_map(t);
        assert forall|k: Seq<char>| #[trigger]
            cvar_map(s).contains_key(k) <==> exists|i: int| 0 <= i < s.len() && s[i].key() == k by {
            if cvar_map(t).contains_key(k) {
                let i = choose|i: int| 0 <= i < t.len() && t[i].key() == k;
                assert(s[i] == t[i]);
            }
            if k == s.last().key() {
                assert(s[s.len() - 1].key() == k);
            }
            if exists|i: int| 0 <= i < s.len() && s[i].key() == k {
                let i = choose|i: int| 0 <= i < s.len() && s[i].key() == k;
                if i < t.len() {
                    assert(t[i] == s[i]);
                    assert(cvar_map(t).contains_key(k));
                }
            }
        }
        assert forall|i: int| 0 <= i < s.len() implies #[trigger] cvar_map(s)[s[i].key()]
            == s[i].state() by {
            if i < t.len() {
                assert(t[i] == s[i]);
                assert(s[i].key() != s[s.len() - 1].key());
                assert(cvar_map(t)[t[i].key()] == t[i].state());
            }
        }
    }
}

/// Replacing an entry by one with the same name replaces its state in the map.
proof fn lemma_cvar_map_update(s: Seq<Cvar>, i: int, c: Cvar)
    requires
        names_unique(s),
        0 <= i < s.len(),
        c.key() == s[i].key(),
    ensures
        names_unique(s.update(i, c)),
        cvar_map(s.update(i, c)) == cvar_map(s).insert(c.key(), c.state()),
{
    let u = s.update(i, c);
    assert(names_unique(u)) by {
        assert forall|a: int, b: int| 0 <= a < b < u.len() implies u[a].key() != u[b].key() by {
            assert(u[a].key() == s[a].key());
            assert(u[b].key() == s[b].key());
        }
    }
    lemma_cvar_map(s);
    lemma_cvar_map(u);
    let m = cvar_map(s).insert(c.key(), c.state());
    assert forall|k: Seq<char>| #[trigger] cvar_map(u).contains_key(k) <==> m.contains_key(k) by {
        if cvar_map(s).contains_key(k) {
            let j = choose|j: int| 0 <= j < s.len() && s[j].key() == k;
            assert(u[j].key() == k);
        }
        if k == c.key() {
            assert(u[i].key() == k);
        }
        if cvar_map(u).contains_key(k) {
            let j = choose|j: int| 0 <= j < u.len() && u[j].key() == k;
            assert(s[j].key() == k);
            assert(cvar_map(s).contains_key(k));
        }
    }
    assert forall|k: Seq<char>| #[trigger] cvar_map(u).contains_key(k) implies cvar_map(u)[k]
        == m[k] by {
        let j = choose|j: int| 0 <= j < u.len() && u[j].key() == k;
        assert(cvar_map(u)[u[j].key()] == u[j].state());
        if j != i {
            assert(u[j] == s[j]);
            assert(cvar_map(s)[s[j].key()] == s[j].state());
        }
    }
    assert(cvar_map(u) =~= m);
}

/// The variables of the game, by name.
pub struct CvarRegistry {
    cvars: Vec<Cvar>,
}

/// The state of a variable after its value is set to `value`.
pub open spec fn with_val(c: CvarState, value: Seq<char>) -> CvarState {
    CvarState { val: value, ..c }
}

/// The state of a newly registered variable.
pub open spec fn registered(default: Seq<char>, archive: bool, notify: bool) -> CvarState {
    CvarState { val: default, archive, notify, default }
}

impl View for CvarRegistry {
    type V = Map<Seq<char>, CvarState>;

    closed spec fn view(&self) -> Map<Seq<char>, CvarState> {
        cvar_map(self.cvars@)
    }
}

impl CvarRegistry {
    /// Every name is registered once.
    pub closed spec fn wf(&self) -> bool {
        names_unique(self.cvars@)
    }

    /// An empty registry.
    pub fn new() -> (r: CvarRegistry)
        ensures
            r.wf(),
            r@ == Map::<Seq<char>, CvarState>::empty(),
    {
        CvarRegistry { cvars: Vec::new() }
    }

    /// The index of the variable named `name`, if there is one.
    fn find(&self, name: &str) -> (r: Option<usize>)
        requires
            self.wf(),
        ensures
            match r {
                Some(i) => i < self.cvars.len() && self.cvars@[i as int].key() == name@,
                None => !self@.contains_key(name@),
            },
    {
        proof {
            lemma_cvar_map(self.cvars@);
        }
        let key = name.to_owned();
        let mut i: usize = 0;
        while i < self.cvars.len()
            invariant
                i <= self.cvars.len(),
                key@ == name@,
                forall|j: int| 0 <= j < i ==> self.cvars@[j].key() != name@,
            decreases self.cvars.len() - i,
        {
            if self.cvars[i].name == key {
                return Some(i);
            }
            i = i + 1;
        }
        None
    }

    fn register_impl(&mut self, name: &str, default: &str, archive: bool, notify: bool) -> (r:
        Result<(), ConsoleError>)
        requires
            old(self).wf(),
        ensures
            final(self).wf(),
            old(self)@.contains_key(name@) ==> (r matches Err(ConsoleError::DuplicateCvar(n))
                && n@ == name@ && final(self)@ == old(self)@),
            !old(self)@.contains_key(name@) ==> r is Ok && final(self)@ == old(self)@.insert(
                name@,
                registered(default@, archive, notify),
            ),
    {
        match self.find(name) {
            Some(i) => {
                proof {
                    lemma_cvar_map(self.cvars@);
                }
                Err(ConsoleError::DuplicateCvar(name.to_owned()))
            },
            None => {
                let c = Cvar {
                    name: name.to_owned(),
                    val: default.to_owned(),
                    archive,
                    notify,
                    default: default.to_owned(),
                };
                proof {
                    lemma_cvar_map(self.cvars@);
                }
                let ghost before = self.cvars@;
                self.cvars.push(c);
                proof {
                    assert(self.cvars@.drop_last() =~= before);
                    assert forall|a: int, b: int| 0 <= a < b < self.cvars@.len() implies
                        self.cvars@[a].key() != self.cvars@[b].key() by {
                        if b == before.len() {
                            assert(self.cvars@[a] == before[a]);
                            assert(before[a].key() != name@);
                        } else {
                            assert(self.cvars@[a] == before[a]);
                            assert(self.cvars@[b] == before[b]);
                        }
                    }
                }
                Ok(())
            },
        }
    }

    /// Registers a variable with the given name and default value.
    ///
    /// It is an error if a variable with that name is registered already.
    pub fn register(&mut self, name: &str, default: &str) -> (r: Result<(), ConsoleError>)
        requires
            old(self).wf(),
        ensures
            final(self).wf(),
            old(self)@.contains_key(name@) ==> (r matches Err(ConsoleError::DuplicateCvar(n))
                && n@ == name@ && final(self)@ == old(self)@),
            !old(self)@.contains_key(name@) ==> r is Ok && final(self)@ == old(self)@.insert(
                name@,
                registered(default@, false, false),
            ),
    {
        self.register_impl(name, default, false, false)
    }

    /// Registers a variable whose value is saved when the game closes.
    pub fn register_archive(&mut self, name: &str, default: &str) -> (r: Result<(), ConsoleError>)
        requires
            old(self).wf(),
        ensures
            final(self).wf(),
            old(self)@.contains_key(name@) ==> (r matches Err(ConsoleError::DuplicateCvar(n))
                && n@ == name@ && final(self)@ == old(self)@),
            !old(self)@.contains_key(name@) ==> r is Ok && final(self)@ == old(self)@.insert(
                name@,
                registered(default@, true, false),
            ),
    {
        self.register_impl(name, default, true, false)
    }

    /// Registers a variable whose changes are announced to the other side of the connection.
    pub fn register_notify(&mut self, name: &str, default: &str) -> (r: Result<(), ConsoleError>)
        requires
            old(self).wf(),
        ensures
            final(self).wf(),
            old(self)@.contains_key(name@) ==> (r matches Err(ConsoleError::DuplicateCvar(n))
                && n@ == name@ && final(self)@ == old(self)@),
            !old(self)@.contains_key(name@) ==> r is Ok && final(self)@ == old(self)@.insert(
                name@,
                registered(default@, false, true),
            ),
    {
        self.register_impl(name, default, false, true)
    }

    /// Registers a variable that is both saved and announced.
    pub fn register_archive_notify(&mut self, name: &str, default: &str) -> (r: Result<
        (),
        ConsoleError,
    >)
        requires
            old(self).wf(),
        ensures
            final(self).wf(),
            old(self)@.contains_key(name@) ==> (r matches Err(ConsoleError::DuplicateCvar(n))
                && n@ == name@ && final(self)@ == old(self)@),
            !old(self)@.contains_key(name@) ==> r is Ok && final(self)@ == old(self)@.insert(
                name@,
                registered(default@, true, true),
            ),
    {
        self.register_impl(name, default, true, true)
    }

    /// The value of the variable named `name`.
    pub fn get(&self, name: &str) -> (r: Result<String, ConsoleError>)
        requires
            self.wf(),
        ensures
            self@.contains_key(name@) ==> (r matches Ok(v) && v@ == self@[name@].val),
            !self@.contains_key(name@) ==> (r matches Err(ConsoleError::NoSuchCvar(n)) && n@
                == name@),
    {
        proof {
            lemma_cvar_map(self.cvars@);
        }
        match self.find(name) {
            Some(i) => Ok(self.cvars[i].val.clone()),
            None => Err(ConsoleError::NoSuchCvar(name.to_owned())),
        }
    }

    /// Sets the value of the variable named `name`. It is an error if there is no such variable.
    ///
    /// The result says whether the variable asks to be announced when it changes: then the
    /// caller broadcasts the change to the clients, on a server, or updates the user
    /// information, on a client.
    pub fn set(&mut self, name: &str, value: &str) -> (r: Result<bool, ConsoleError>)
        requires
            old(self).wf(),
        ensures
            final(self).wf(),
            old(self)@.contains_key(name@) ==> r == Ok::<bool, ConsoleError>(old(self)@[name@].notify)
                && final(self)@ == old(self)@.insert(name@, with_val(old(self)@[name@], value@)),
            !old(self)@.contains_key(name@) ==> (r matches Err(ConsoleError::NoSuchCvar(n))
                && n@ == name@ && final(self)@ == old(self)@),
    {
        proof {
            lemma_cvar_map(self.cvars@);
        }
        match self.find(name) {
            Some(i) => {
                let old_c = &self.cvars[i];
                let notify = old_c.notify;
                let c = Cvar {
                    name: old_c.name.clone(),
                    val: value.to_owned(),
                    archive: old_c.archive,
                    notify: old_c.notify,
                    default: old_c.default.clone(),
                };
                proof {
                    lemma_cvar_map_update(self.cvars@, i as int, c);
                }
                self.cvars.set(i, c);
                Ok(notify)
            },
            None => Err(ConsoleError::NoSuchCvar(name.to_owned())),
        }
    }

    /// Whether a variable named `name` is registered and asks to be announced when it changes.
    pub fn is_notify(&self, name: &str) -> (r: bool)
        requires
            self.wf(),
        ensures
            r == (self@.contains_key(name@) && self@[name@].notify),
    {
        proof {
            lemma_cvar_map(self.cvars@);
        }
        match self.find(name) {
            Some(i) => self.cvars[i].notify,
            None => false,
        }
    }

    /// Whether a variable named `name` is registered.
    pub fn contains(&self, name: &str) -> (r: bool)
        requires
            self.wf(),
        ensures
            r == self@.contains_key(name@),
    {
        proof {
            lemma_cvar_map(self.cvars@);
        }
        self.find(name).is_some()
    }
}


/// A variable reads as the value it was last set to, keeping its default and flags; the other
/// variables keep theirs.
pub proof fn lemma_get_after_set(
    m: Map<Seq<char>, CvarState>,
    name: Seq<char>,
    value: Seq<char>,
    other: Seq<char>,
)
    requires
        m.contains_key(name),
    ensures
        m.insert(name, with_val(m[name], value)).contains_key(name),
        m.insert(name, with_val(m[name], value))[name].val == value,
        m.insert(name, with_val(m[name], value))[name].default == m[name].default,
        m.insert(name, with_val(m[name], value))[name].archive == m[name].archive,
        other != name ==> m.insert(name, with_val(m[name], value)).contains_key(other)
            == m.contains_key(other),
        other != name && m.contains_key(other) ==> m.insert(name, with_val(m[name], value))[other]
            == m[other],
{
}

/// A newly registered variable reads as its default, and registering does not touch the
/// variables already there.
pub proof fn lemma_get_after_register(
    m: Map<Seq<char>, CvarState>,
    name: Seq<char>,
    default: Seq<char>,
    archive: bool,
    notify: bool,
    other: Seq<char>,
)
    requires
        !m.contains_key(name),
    ensures
        m.insert(name, registered(default, archive, notify))[name].val == default,
        m.insert(name, registered(default, archive, notify))[name].default == default,
        m.contains_key(other) ==> m.insert(name, registered(default, archive, notify))[other]
            == m[other],
{
}

} // verus!
