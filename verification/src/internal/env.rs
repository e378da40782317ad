//! The environment store of the process: texts under a namespace and a key.
//!
//! Writes are in memory alone by default; a variable that was written to last is
//! persisted, and so is every later write of it. Persistence belongs to the
//! variable, not to the write.

use vstd::prelude::*;
use vstd::string::*;

use crate::json::{json_opt_str, object_of, pairs_view};
use crate::table::Table;
use crate::text::{cat3, cat5, opt_string};
use crate::value::{Json, Value};

verus! {

broadcast use crate::value::group_value_views;

/// The namespace of a call that names none.
pub const DEFAULT_NAMESPACE: &'static str = "default";

/// What a persisted variable is remembered under.
pub open spec fn persist_key(namespace: Seq<char>, key: Seq<char>) -> Seq<char> {
    namespace + "\u{0}"@ + key
}

/// What a persisted variable is remembered under.
pub fn persist_id(namespace: &str, key: &str) -> (r: String)
    ensures
        r@ == persist_key(namespace@, key@),
{
    cat3(namespace, "\u{0}", key)
}

/// The namespace that a call names.
pub open spec fn namespace_in(params: Json) -> Seq<char> {
    match params.get_str("namespace"@) {
        Some(s) => if s.len() > 0 {
            s
        } else {
            DEFAULT_NAMESPACE@
        },
        None => DEFAULT_NAMESPACE@,
    }
}

fn namespace_of(params: &Value) -> (r: &str)
    ensures
        r@ == namespace_in(params@),
{
    match params.get_str("namespace") {
        Some(s) => if s.is_empty() {
            DEFAULT_NAMESPACE
        } else {
            s
        },
        None => DEFAULT_NAMESPACE,
    }
}

/// The variables with the first `n` pairs added to a namespace.
pub open spec fn with_entries(
    vars: Map<(Seq<char>, Seq<char>), Seq<char>>,
    namespace: Seq<char>,
    e: Seq<(String, String)>,
    n: nat,
) -> Map<(Seq<char>, Seq<char>), Seq<char>>
    decreases n,
{
    if n == 0 || n > e.len() {
        vars
    } else {
        with_entries(vars, namespace, e, (n - 1) as nat).insert(
            (namespace, e[n - 1].0@),
            e[n - 1].1@,
        )
    }
}

/// The variables with the first `n` namespaces added.
pub open spec fn with_vars(
    vars: Map<(Seq<char>, Seq<char>), Seq<char>>,
    v: Seq<(String, Vec<(String, String)>)>,
    n: nat,
) -> Map<(Seq<char>, Seq<char>), Seq<char>>
    decreases n,
{
    if n == 0 || n > v.len() {
        vars
    } else {
        with_entries(
            with_vars(vars, v, (n - 1) as nat),
            v[n - 1].0@,
            v[n - 1].1@,
            v[n - 1].1@.len(),
        )
    }
}

/// The marks with those of the first `n` pairs of a namespace added.
pub open spec fn with_marks(
    marks: Set<Seq<char>>,
    namespace: Seq<char>,
    e: Seq<(String, String)>,
    n: nat,
) -> Set<Seq<char>>
    decreases n,
{
    if n == 0 || n > e.len() {
        marks
    } else {
        with_marks(marks, namespace, e, (n - 1) as nat).insert(
            persist_key(namespace, e[n - 1].0@),
        )
    }
}

/// The marks with those of the first `n` namespaces added.
pub open spec fn with_all_marks(
    marks: Set<Seq<char>>,
    v: Seq<(String, Vec<(String, String)>)>,
    n: nat,
) -> Set<Seq<char>>
    decreases n,
{
    if n == 0 || n > v.len() {
        marks
    } else {
        with_marks(
            with_all_marks(marks, v, (n - 1) as nat),
            v[n - 1].0@,
            v[n - 1].1@,
            v[n - 1].1@.len(),
        )
    }
}

/// The environment store.
pub struct EnvStore {
    spaces: Table<Table<String>>,
    marks: Table<()>,
}

impl EnvStore {
    /// The variables, each under its namespace and key.
    pub closed spec fn vars(&self) -> Map<(Seq<char>, Seq<char>), Seq<char>> {
        Map::new(
            |nk: (Seq<char>, Seq<char>)|
                self.spaces@.contains_key(nk.0) && self.spaces@[nk.0]@.contains_key(nk.1),
            |nk: (Seq<char>, Seq<char>)| self.spaces@[nk.0]@[nk.1]@,
        )
    }

    /// What the persisted variables are remembered under.
    pub closed spec fn persisted(&self) -> Set<Seq<char>> {
        self.marks@.dom()
    }

    /// The value of a variable.
    pub open spec fn lookup(&self, namespace: Seq<char>, key: Seq<char>) -> Option<Seq<char>> {
        if self.vars().contains_key((namespace, key)) {
            Some(self.vars()[(namespace, key)])
        } else {
            None
        }
    }

    pub fn new() -> (r: EnvStore)
        ensures
            r.vars() == Map::<(Seq<char>, Seq<char>), Seq<char>>::empty(),
            r.persisted() == Set::<Seq<char>>::empty(),
    {
        let r = EnvStore { spaces: Table::new(), marks: Table::new() };
        assert(r.vars() =~= Map::<(Seq<char>, Seq<char>), Seq<char>>::empty());
        assert(r.persisted() =~= Set::<Seq<char>>::empty());
        r
    }

    fn get(&self, namespace: &str, key: &str) -> (r: Option<String>)
        ensures
            opt_string(r) == self.lookup(namespace@, key@),
    {
        match self.spaces.get(namespace) {
            Some(t) => match t.get(key) {
                Some(s) => Some(s.clone()),
                None => None,
            },
            None => None,
        }
    }

    fn put(&mut self, namespace: &str, key: &str, value: String)
        ensures
            final(self).vars() == old(self).vars().insert((namespace@, key@), value@),
            final(self).persisted() == old(self).persisted(),
    {
        let ghost before = self.vars();
        let ghost v = value@;
        let mut t: Table<String> = match self.spaces.remove(namespace) {
            Some(t) => t,
            None => Table::new(),
        };
        t.insert(key, value);
        self.spaces.insert(namespace, t);
        assert(self.vars() =~= before.insert((namespace@, key@), v));
    }

    fn mark(&mut self, namespace: &str, key: &str)
        ensures
            final(self).vars() == old(self).vars(),
            final(self).persisted() == old(self).persisted().insert(persist_key(namespace@, key@)),
    {
        let ghost before = self.marks@;
        let id = persist_id(namespace, key);
        self.marks.insert(id.as_str(), ());
        assert(self.marks@.dom() =~= before.dom().insert(id@));
    }
}

/// Take variables over from the environment of the system into the default
/// namespace: each key with the value of the system variable that it is mapped
/// to, where that one is set.
pub fn init_env_mappings(store: &mut EnvStore, resolved: &Vec<(String, String)>)
    ensures
        final(store).vars() == with_entries(
            old(store).vars(),
            DEFAULT_NAMESPACE@,
            resolved@,
            resolved@.len(),
        ),
        final(store).persisted() == old(store).persisted(),
{
    let ghost before = store.vars();
    let ghost marks = store.persisted();
    let mut i: usize = 0;
    while i < resolved.len()
        invariant
            i <= resolved.len(),
            store.vars() == with_entries(before, DEFAULT_NAMESPACE@, resolved@, i as nat),
            store.persisted() == marks,
        decreases resolved.len() - i,
    {
        store.put(DEFAULT_NAMESPACE, resolved[i].0.as_str(), resolved[i].1.clone());
        i += 1;
    }
}

/// Take the persisted variables over from the config and remember that they
/// are, so that later writes keep writing through.
pub fn init_persisted_env(store: &mut EnvStore, vars: &Vec<(String, Vec<(String, String)>)>)
    ensures
        final(store).vars() == with_vars(old(store).vars(), vars@, vars@.len()),
        final(store).persisted() == with_all_marks(old(store).persisted(), vars@, vars@.len()),
{
    let ghost before = store.vars();
    let ghost marks = store.persisted();
    let mut i: usize = 0;
    while i < vars.len()
        invariant
            i <= vars.len(),
            store.vars() == with_vars(before, vars@, i as nat),
            store.persisted() == with_all_marks(marks, vars@, i as nat),
        decreases vars.len() - i,
    {
        let namespace = vars[i].0.as_str();
        let entries = &vars[i].1;
        let ghost v0 = store.vars();
        let ghost m0 = store.persisted();
        let mut j: usize = 0;
        while j < entries.len()
            invariant
                j <= entries.len(),
                store.vars() == with_entries(v0, namespace@, entries@, j as nat),
                store.persisted() == with_marks(m0, namespace@, entries@, j as nat),
            decreases entries.len() - j,
        {
            let key = entries[j].0.as_str();
            store.mark(namespace, key);
            store.put(namespace, key, entries[j].1.clone());
            j += 1;
        }
        i += 1;
    }
}

pub open spec fn get_reply(namespace: Seq<char>, value: Option<Seq<char>>) -> Json {
    object_of(seq![("namespace"@, Json::Str(namespace)), ("value"@, json_opt_str(value))])
}

/// Whether this reads a variable.
pub open spec fn is_env_read(r: Json, store: EnvStore, params: Json) -> bool {
    r == get_reply(
        namespace_in(params),
        store.lookup(namespace_in(params), params.str_or("key"@, ""@)),
    )
}

/// Read a variable; one that is not there reads as null.
pub fn get_env(store: &EnvStore, params: &Value) -> (r: Value)
    ensures
        is_env_read(r@, *store, params@),
{
    let namespace = namespace_of(params);
    let key = params.str_or("key", "");
    let value = store.get(namespace, key);
    let pairs: Vec<(&'static str, Value)> = vec![
        ("namespace", Value::text(namespace)),
        (
            "value",
            match &value {
                Some(s) => Value::text(s.as_str()),
                None => Value::Null,
            },
        ),
    ];
    assert(pairs_view(pairs@) =~= seq![
        ("namespace"@, Json::Str(namespace@)),
        ("value"@, json_opt_str(opt_string(value))),
    ]);
    Value::object(pairs)
}

pub open spec fn set_reply(namespace: Seq<char>, persisted: bool) -> Json {
    object_of(
        seq![
            ("set"@, Json::Bool(true)),
            ("namespace"@, Json::Str(namespace)),
            ("persisted"@, Json::Bool(persisted)),
        ],
    )
}

/// Whether a write goes to the config too: where the call asks for it, or an
/// earlier one did.
pub open spec fn write_persists(persisted: Set<Seq<char>>, params: Json) -> bool {
    params.get_bool("persist"@) == Some(true) || persisted.contains(
        persist_key(namespace_in(params), params.str_or("key"@, ""@)),
    )
}

pub open spec fn persist_failure(namespace: Seq<char>, key: Seq<char>, error: Seq<char>) -> Seq<char> {
    "persist env var '"@ + namespace + "/"@ + key + ("': "@ + error)
}

/// Whether this writes a variable, and to the database where it is to persist.
pub open spec fn is_env_write<W: FnOnce(&str, &str, &str) -> Result<(), String>>(
    r: Result<Value, String>,
    before: EnvStore,
    after: EnvStore,
    params: Json,
    write: W,
) -> bool {
    let namespace = namespace_in(params);
    let key = params.str_or("key"@, ""@);
    let value = params.str_or("value"@, ""@);
    let persists = write_persists(before.persisted(), params);
    &&& !persists ==> r is Ok
    &&& (persists ==> exists|n: &str, k: &str, v: &str, o: Result<(), String>|
        n@ == namespace && k@ == key && v@ == value && #[trigger] call_ensures(
            write,
            (n, k, v),
            o,
        ) && (match o {
            Ok(_) => r is Ok,
            Err(e) => r is Err && r->Err_0@ == persist_failure(namespace, key, e@),
        }))
    &&& (r is Ok ==> {
        &&& r->Ok_0@ == set_reply(namespace, persists)
        &&& after.vars() == before.vars().insert((namespace, key), value)
        &&& after.persisted() == (if persists {
            before.persisted().insert(persist_key(namespace, key))
        } else {
            before.persisted()
        })
    })
    &&& (r is Err ==> after == before)
}

/// Write a variable. `write` stores it in the config; it is asked first, once, and
/// only where the write persists. Where it fails nothing changes.
pub fn set_env<W: FnOnce(&str, &str, &str) -> Result<(), String>>(
    store: &mut EnvStore,
    params: &Value,
    write: W,
) -> (r: Result<Value, String>)
    requires
        write_persists(old(store).persisted(), params@) ==> forall|n: &str, k: &str, v: &str|
            n@ == namespace_in(params@) && k@ == params@.str_or("key"@, ""@) && v@ == params@.str_or(
                "value"@,
                ""@,
            ) ==> #[trigger] call_requires(write, (n, k, v)),
    ensures
        is_env_write(r, *old(store), *final(store), params@, write),
{
    let namespace = namespace_of(params);
    let key = params.str_or("key", "");
    let value = params.str_or("value", "");
    let id = persist_id(namespace, key);
    let already = store.marks.contains(id.as_str());
    let asked = match params.get_bool("persist") {
        Some(b) => b,
        None => false,
    };
    let persist = asked || already;
    if persist {
        match write(namespace, key, value) {
            Ok(_) => {},
            Err(e) => {
                let tail = crate::text::cat2("': ", e.as_str());
                return Err(cat5("persist env var '", namespace, "/", key, tail.as_str()));
            },
        }
        store.mark(namespace, key);
    }
    store.put(namespace, key, value.to_owned());
    let pairs: Vec<(&'static str, Value)> = vec![
        ("set", Value::Bool(true)),
        ("namespace", Value::text(namespace)),
        ("persisted", Value::Bool(persist)),
    ];
    assert(pairs_view(pairs@) =~= seq![
        ("set"@, Json::Bool(true)),
        ("namespace"@, Json::Str(namespace@)),
        ("persisted"@, Json::Bool(persist)),
    ]);
    Ok(Value::object(pairs))
}

/// A variable that was written is read back, and no variable of another
/// namespace or key changes.
pub proof fn lemma_write_then_read(
    vars: Map<(Seq<char>, Seq<char>), Seq<char>>,
    namespace: Seq<char>,
    key: Seq<char>,
    value: Seq<char>,
    other_namespace: Seq<char>,
    other_key: Seq<char>,
)
    ensures
        vars.insert((namespace, key), value)[(namespace, key)] == value,
        (other_namespace != namespace || other_key != key) ==> {
            let after = vars.insert((namespace, key), value);
            let other = (other_namespace, other_key);
            after.contains_key(other) == vars.contains_key(other) && (vars.contains_key(other)
                ==> after[other] == vars[other])
        },
{
}

/// Once a variable is persisted, every write of it persists, whatever the call
/// says.
pub proof fn lemma_persistence_is_sticky(persisted: Set<Seq<char>>, params: Json)
    requires
        persisted.contains(persist_key(namespace_in(params), params.str_or("key"@, ""@))),
    ensures
        write_persists(persisted, params),
{
}

proof fn lemma_marks_grow(marks: Set<Seq<char>>, namespace: Seq<char>, e: Seq<(String, String)>, n: nat)
    requires
        n <= e.len(),
    ensures
        forall|id: Seq<char>| marks.contains(id) ==> #[trigger] with_marks(marks, namespace, e, n).contains(id),
        forall|j: int|
            0 <= j < n ==> with_marks(marks, namespace, e, n).contains(
                persist_key(namespace, (#[trigger] e[j]).0@),
            ),
    decreases n,
{
    if n > 0 {
        lemma_marks_grow(marks, namespace, e, (n - 1) as nat);
        let before = with_marks(marks, namespace, e, (n - 1) as nat);
        let after = with_marks(marks, namespace, e, n);
        assert forall|id: Seq<char>| marks.contains(id) implies #[trigger] after.contains(id) by {
            assert(before.contains(id));
        }
    }
}

/// Every variable that is taken over from the config is persisted from then on.
pub proof fn lemma_loaded_vars_persist(
    marks: Set<Seq<char>>,
    v: Seq<(String, Vec<(String, String)>)>,
    n: nat,
    i: int,
    j: int,
)
    requires
        0 <= i < n <= v.len(),
        0 <= j < v[i].1@.len(),
    ensures
        with_all_marks(marks, v, n).contains(persist_key(v[i].0@, v[i].1@[j].0@)),
    decreases n,
{
    let before = with_all_marks(marks, v, (n - 1) as nat);
    lemma_marks_grow(before, v[n - 1].0@, v[n - 1].1@, v[n - 1].1@.len());
    if i < n - 1 {
        lemma_loaded_vars_persist(marks, v, (n - 1) as nat, i, j);
        assert(before.contains(persist_key(v[i].0@, v[i].1@[j].0@)));
    } else {
        assert(v[i].1@[j].0@ == v[i].1@[j].0@);
    }
}

/// Where the namespaces hold no NUL, variables that differ in namespace or key are
/// remembered under different marks: persisting one says nothing of another.
pub proof fn lemma_marks_are_apart(
    namespace: Seq<char>,
    key: Seq<char>,
    other_namespace: Seq<char>,
    other_key: Seq<char>,
)
    requires
        !namespace.contains('\u{0}'),
        !other_namespace.contains('\u{0}'),
    ensures
        persist_key(namespace, key) == persist_key(other_namespace, other_key) <==> (namespace
            == other_namespace && key == other_key),
{
    reveal_strlit("\u{0}");
    let a = persist_key(namespace, key);
    let b = persist_key(other_namespace, other_key);
    let n = namespace.len() as int;
    let m = other_namespace.len() as int;
    assert(a[n] == '\u{0}' && b[m] == '\u{0}');
    if a == b {
        if n < m {
            assert(other_namespace[n] == b[n]);
        }
        if m < n {
            assert(namespace[m] == a[m]);
        }
        assert(namespace =~= a.take(n));
        assert(other_namespace =~= b.take(n));
        assert(key =~= a.skip(n + 1));
        assert(other_key =~= b.skip(n + 1));
    }
}

} // verus!
