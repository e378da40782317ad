//! The actions on record, each under its path and name.

use vstd::prelude::*;

use crate::entities::{records, Action, ActionInput, ActionRecord, InputRecord};
use crate::error::{Failure, SolxError};
use crate::invocations::nonempty;
use crate::manager::{copy_action, merge_action, merged, redact, redacted, stored_or_blank};
use crate::text::{cat2, opt_string, same, trim, trimmed};
use crate::value::Json;

verus! {

/// Whether a record is the one at a path and name.
pub open spec fn is_at(a: ActionRecord, path: Seq<char>, name: Seq<char>) -> bool {
    a.path == path && a.name == name
}

/// Where the action at a path and name stands, from `i` on; the number of
/// actions where there is none.
pub open spec fn place_from(rows: Seq<ActionRecord>, path: Seq<char>, name: Seq<char>, i: int) -> int
    decreases rows.len() - i,
{
    if i >= rows.len() || i < 0 {
        rows.len() as int
    } else if is_at(rows[i], path, name) {
        i
    } else {
        place_from(rows, path, name, i + 1)
    }
}

/// The action at a path and name.
pub open spec fn action_at(rows: Seq<ActionRecord>, path: Seq<char>, name: Seq<char>) -> Option<
    ActionRecord,
> {
    let i = place_from(rows, path, name, 0);
    if i < rows.len() {
        Some(rows[i])
    } else {
        None
    }
}

/// The actions with `a` in the place of the one at its path and name, or behind
/// them all where there is none.
pub open spec fn with_action(rows: Seq<ActionRecord>, a: ActionRecord) -> Seq<ActionRecord> {
    let i = place_from(rows, a.path, a.name, 0);
    if i < rows.len() {
        rows.update(i, a)
    } else {
        rows.push(a)
    }
}

/// The actions without the one at a path and name.
pub open spec fn without_action(rows: Seq<ActionRecord>, path: Seq<char>, name: Seq<char>) -> Seq<
    ActionRecord,
> {
    let i = place_from(rows, path, name, 0);
    if i < rows.len() {
        rows.remove(i)
    } else {
        rows
    }
}

/// The actions with `a` added, unless there is one at its path and name.
pub open spec fn with_new(rows: Seq<ActionRecord>, a: ActionRecord) -> Seq<ActionRecord> {
    if action_at(rows, a.path, a.name) is Some {
        rows
    } else {
        with_action(rows, a)
    }
}

/// No two actions share a path and a name.
pub open spec fn places_distinct(rows: Seq<ActionRecord>) -> bool {
    forall|i: int, j: int|
        0 <= i < j < rows.len() ==> !is_at(#[trigger] rows[i], (#[trigger] rows[j]).path, rows[j].name)
}

/// An action as it is read back from its row: an empty text is none, and so is
/// a config that is null.
pub open spec fn stored_form(a: ActionRecord) -> ActionRecord {
    ActionRecord {
        caption: nonempty(a.caption),
        description: nonempty(a.description),
        category: nonempty(a.category),
        param_type_ref: nonempty(a.param_type_ref),
        result_type_ref: nonempty(a.result_type_ref),
        fn_name: nonempty(a.fn_name),
        bin_name: nonempty(a.bin_name),
        action_config: match a.action_config {
            Some(Json::Null) => None,
            c => c,
        },
        ..a
    }
}

fn drop_empty(s: Option<String>) -> (r: Option<String>)
    ensures
        opt_string(r) == nonempty(opt_string(s)),
{
    match s {
        Some(t) => if t.as_str().is_empty() {
            None
        } else {
            Some(t)
        },
        None => None,
    }
}

fn to_stored_form(a: Action) -> (r: Action)
    ensures
        r@ == stored_form(a@),
{
    Action {
        id: a.id,
        path: a.path,
        name: a.name,
        caption: drop_empty(a.caption),
        description: drop_empty(a.description),
        capabilities: a.capabilities,
        phrases: a.phrases,
        category: drop_empty(a.category),
        param_type_ref: drop_empty(a.param_type_ref),
        result_type_ref: drop_empty(a.result_type_ref),
        action_type: a.action_type,
        fn_name: drop_empty(a.fn_name),
        bin_name: drop_empty(a.bin_name),
        action_config: match a.action_config {
            Some(c) => if c.is_null() {
                None
            } else {
                Some(c)
            },
            None => None,
        },
        files: a.files,
        trusted: a.trusted,
        created_at: a.created_at,
        updated_at: a.updated_at,
    }
}

/// What saving `input` at a path and name puts on record.
pub open spec fn saved(
    rows: Seq<ActionRecord>,
    path: Seq<char>,
    name: Seq<char>,
    input: InputRecord,
    new_id: Seq<char>,
    now: Seq<char>,
) -> Result<ActionRecord, Failure> {
    match merged(
        stored_or_blank(action_at(rows, path, name), path, name, new_id, now),
        input,
        path,
        name,
        now,
    ) {
        Ok(a) => Ok(stored_form(a)),
        Err(e) => Err(e),
    }
}

/// What a capability check said, its complaint as text.
pub open spec fn verdict(v: Result<(), String>) -> Result<(), Seq<char>> {
    match v {
        Ok(_) => Ok(()),
        Err(e) => Err(e@),
    }
}

/// What a save puts on record, or why it is refused: capabilities that do not
/// pass are refused before anything else is looked at.
pub open spec fn save_outcome(
    capabilities: Result<(), Seq<char>>,
    rows: Seq<ActionRecord>,
    path: Seq<char>,
    name: Seq<char>,
    input: InputRecord,
    new_id: Seq<char>,
    now: Seq<char>,
) -> Result<ActionRecord, Failure> {
    match capabilities {
        Err(e) => Err(Failure::Invalid(e)),
        Ok(_) => saved(rows, path, name, input, new_id, now),
    }
}

/// Whether a save answers and changes what it should.
pub open spec fn is_save(
    r: Result<Action, SolxError>,
    before: Seq<ActionRecord>,
    after: Seq<ActionRecord>,
    capabilities: Result<(), Seq<char>>,
    path: Seq<char>,
    name: Seq<char>,
    input: InputRecord,
    new_id: Seq<char>,
    now: Seq<char>,
) -> bool {
    match save_outcome(capabilities, before, path, name, input, new_id, now) {
        Ok(a) => r is Ok && r->Ok_0@ == redacted(a) && after == with_action(before, a),
        Err(e) => r is Err && r->Err_0@ == e && after == before,
    }
}

pub open spec fn no_action(action_ref: Seq<char>) -> Failure {
    Failure::NotFound("action "@ + action_ref)
}

/// Whether this is the action at a place, as it is stored.
pub open spec fn is_get_unmasked(
    r: Result<Action, SolxError>,
    rows: Seq<ActionRecord>,
    path: Seq<char>,
    name: Seq<char>,
    action_ref: Seq<char>,
) -> bool {
    match action_at(rows, path, trimmed(name)) {
        Some(a) => r is Ok && r->Ok_0@ == a,
        None => r is Err && r->Err_0@ == no_action(action_ref),
    }
}

/// Whether this is the action at a place, as it is shown.
pub open spec fn is_get(
    r: Result<Action, SolxError>,
    rows: Seq<ActionRecord>,
    path: Seq<char>,
    name: Seq<char>,
    action_ref: Seq<char>,
) -> bool {
    match action_at(rows, path, trimmed(name)) {
        Some(a) => r is Ok && r->Ok_0@ == redacted(a),
        None => r is Err && r->Err_0@ == no_action(action_ref),
    }
}

/// Whether this deletes the action at a place.
pub open spec fn is_delete(
    r: Result<(), SolxError>,
    before: Seq<ActionRecord>,
    after: Seq<ActionRecord>,
    path: Seq<char>,
    name: Seq<char>,
    action_ref: Seq<char>,
) -> bool {
    &&& match action_at(before, path, trimmed(name)) {
        Some(_) => r is Ok,
        None => r is Err && r->Err_0@ == no_action(action_ref),
    }
    &&& after == without_action(before, path, trimmed(name))
}

/// The actions on record.
pub struct ActionStore {
    rows: Vec<Action>,
}

impl ActionStore {
    pub closed spec fn view(&self) -> Seq<ActionRecord> {
        records(self.rows@)
    }

    #[verifier::type_invariant]
    spec fn well_formed(self) -> bool {
        places_distinct(records(self.rows@))
    }

    pub fn new() -> (r: ActionStore)
        ensures
            r@ == Seq::<ActionRecord>::empty(),
    {
        let r = ActionStore { rows: Vec::new() };
        assert(r@ =~= Seq::<ActionRecord>::empty());
        r
    }

    fn find(&self, path: &str, name: &str) -> (r: usize)
        ensures
            r == place_from(self@, path@, name@, 0),
            r <= self@.len(),
            self@.len() == self.rows@.len(),
    {
        let mut i: usize = 0;
        while i < self.rows.len()
            invariant
                i <= self.rows.len(),
                self@ == records(self.rows@),
                place_from(self@, path@, name@, i as int) == place_from(self@, path@, name@, 0),
            decreases self.rows.len() - i,
        {
            if same(self.rows[i].path.as_str(), path) && same(self.rows[i].name.as_str(), name) {
                return i;
            }
            i += 1;
        }
        i
    }

    /// The action at a path and name, with its config as stored. Execution
    /// needs it so; nothing that leaves the process does.
    pub fn get_unmasked(&self, path: &str, name: &str, action_ref: &str) -> (r: Result<
        Action,
        SolxError,
    >)
        ensures
            is_get_unmasked(r, self@, path@, name@, action_ref@),
    {
        let name = trim(name);
        let i: usize = self.find(path, name.as_str());
        if i < self.rows.len() {
            Ok(copy_action(&self.rows[i]))
        } else {
            Err(SolxError::NotFound(cat2("action ", action_ref)))
        }
    }

    /// The action at a path and name, redacted.
    pub fn get(&self, path: &str, name: &str, action_ref: &str) -> (r: Result<Action, SolxError>)
        ensures
            is_get(r, self@, path@, name@, action_ref@),
    {
        match self.get_unmasked(path, name, action_ref) {
            Ok(a) => Ok(redact(a)),
            Err(e) => Err(e),
        }
    }

    /// Create or update the action at a path and name, and answer with what is
    /// now on record, redacted. The input's capabilities are shown to
    /// `validate` first. Where that or the input is refused nothing changes.
    pub fn save<V: FnOnce(&Vec<String>) -> Result<(), String>>(
        &mut self,
        path: &str,
        name: &str,
        input: ActionInput,
        new_id: &str,
        now: &str,
        validate: V,
    ) -> (r: Result<Action, SolxError>)
        requires
            call_requires(validate, (&input.capabilities,)),
        ensures
            exists|v: Result<(), String>| #[trigger]
                call_ensures(validate, (&input.capabilities,), v) && is_save(
                    r,
                    old(self)@,
                    final(self)@,
                    verdict(v),
                    path@,
                    trimmed(name@),
                    input@,
                    new_id@,
                    now@,
                ),
    {
        let v = validate(&input.capabilities);
        if let Err(e) = v {
            return Err(SolxError::Invalid(e));
        }
        let name = trim(name);
        let i: usize = self.find(path, name.as_str());
        proof {
            use_type_invariant(&*self);
            lemma_place_from(self@, path@, name@, 0);
        }
        let existing = if i < self.rows.len() {
            Some(copy_action(&self.rows[i]))
        } else {
            None
        };
        let action = match merge_action(path, name.as_str(), input, existing, new_id, now) {
            Ok(a) => to_stored_form(a),
            Err(e) => {
                return Err(e);
            },
        };
        let answer = redact(copy_action(&action));
        let ghost before = self@;
        let ghost a = action@;
        let mut rows: Vec<Action> = Vec::new();
        std::mem::swap(&mut rows, &mut self.rows);
        if i < rows.len() {
            rows.set(i, action);
            assert(records(rows@) =~= before.update(i as int, a));
        } else {
            rows.push(action);
            assert(records(rows@) =~= before.push(a));
        }
        proof {
            lemma_with_action_distinct(before, a);
        }
        self.rows = rows;
        Ok(answer)
    }

    /// Add an action, unless there is one at its path and name.
    pub fn insert_new(&mut self, action: Action)
        ensures
            final(self)@ == with_new(old(self)@, action@),
    {
        let i: usize = self.find(action.path.as_str(), action.name.as_str());
        if i < self.rows.len() {
            return;
        }
        proof {
            use_type_invariant(&*self);
            lemma_place_from(self@, action.path@, action.name@, 0);
        }
        let ghost before = self@;
        let ghost a = action@;
        let mut rows: Vec<Action> = Vec::new();
        std::mem::swap(&mut rows, &mut self.rows);
        rows.push(action);
        assert(records(rows@) =~= before.push(a));
        proof {
            lemma_with_action_distinct(before, a);
        }
        self.rows = rows;
    }

    /// Delete the action at a path and name.
    pub fn delete(&mut self, path: &str, name: &str, action_ref: &str) -> (r: Result<(), SolxError>)
        ensures
            is_delete(r, old(self)@, final(self)@, path@, name@, action_ref@),
    {
        let name = trim(name);
        let i: usize = self.find(path, name.as_str());
        if i >= self.rows.len() {
            return Err(SolxError::NotFound(cat2("action ", action_ref)));
        }
        proof {
            use_type_invariant(&*self);
        }
        let ghost before = self@;
        let mut rows: Vec<Action> = Vec::new();
        std::mem::swap(&mut rows, &mut self.rows);
        let _ = rows.remove(i);
        assert(records(rows@) =~= before.remove(i as int));
        self.rows = rows;
        Ok(())
    }
}

proof fn lemma_place_from(rows: Seq<ActionRecord>, path: Seq<char>, name: Seq<char>, i: int)
    requires
        0 <= i <= rows.len(),
    ensures
        i <= place_from(rows, path, name, i) <= rows.len(),
        place_from(rows, path, name, i) < rows.len() ==> is_at(
            rows[place_from(rows, path, name, i)],
            path,
            name,
        ),
        forall|j: int|
            i <= j < place_from(rows, path, name, i) ==> !is_at(#[trigger] rows[j], path, name),
    decreases rows.len() - i,
{
    if i < rows.len() && !is_at(rows[i], path, name) {
        lemma_place_from(rows, path, name, i + 1);
    }
}

proof fn lemma_place_is(rows: Seq<ActionRecord>, path: Seq<char>, name: Seq<char>, i: int)
    requires
        0 <= i < rows.len(),
        places_distinct(rows),
        is_at(rows[i], path, name),
    ensures
        place_from(rows, path, name, 0) == i,
{
    lemma_place_from(rows, path, name, 0);
    let j = place_from(rows, path, name, 0);
    if j < i {
        assert(!is_at(rows[j], rows[i].path, rows[i].name));
    }
}

proof fn lemma_with_action_distinct(rows: Seq<ActionRecord>, a: ActionRecord)
    requires
        places_distinct(rows),
    ensures
        places_distinct(with_action(rows, a)),
{
    lemma_place_from(rows, a.path, a.name, 0);
    let k = place_from(rows, a.path, a.name, 0);
    let after = with_action(rows, a);
    assert forall|i: int, j: int| 0 <= i < j < after.len() implies !is_at(
        #[trigger] after[i],
        (#[trigger] after[j]).path,
        after[j].name,
    ) by {
        if i != k && j != k {
            assert(!is_at(rows[i], rows[j].path, rows[j].name));
        } else if j == k {
            assert(!is_at(rows[i], a.path, a.name));
        } else if j < rows.len() {
            assert(!is_at(rows[i], rows[j].path, rows[j].name));
        }
    }
}

/// Adding an action keeps every path and name to one action.
pub proof fn lemma_with_new_distinct(rows: Seq<ActionRecord>, a: ActionRecord)
    requires
        places_distinct(rows),
    ensures
        places_distinct(with_new(rows, a)),
{
    lemma_with_action_distinct(rows, a);
}

/// A saved action is what is then on record at its path and name, and every
/// other path and name is as before.
pub proof fn lemma_saved_is_on_record(
    rows: Seq<ActionRecord>,
    a: ActionRecord,
    path: Seq<char>,
    name: Seq<char>,
)
    requires
        places_distinct(rows),
    ensures
        action_at(with_action(rows, a), path, name) == (if is_at(a, path, name) {
            Some(a)
        } else {
            action_at(rows, path, name)
        }),
{
    let after = with_action(rows, a);
    lemma_with_action_distinct(rows, a);
    lemma_place_from(rows, a.path, a.name, 0);
    let k = place_from(rows, a.path, a.name, 0);
    if is_at(a, path, name) {
        lemma_place_is(after, path, name, k);
    } else {
        lemma_place_from(rows, path, name, 0);
        let j = place_from(rows, path, name, 0);
        if j < rows.len() {
            assert(after[j] == rows[j]);
            lemma_place_is(after, path, name, j);
        } else {
            lemma_place_from(after, path, name, 0);
            let m = place_from(after, path, name, 0);
            if m < after.len() && m != k {
                assert(is_at(rows[m], path, name));
            }
        }
    }
}

/// A deleted action is gone, and every other one stays.
pub proof fn lemma_deleted_is_gone(
    rows: Seq<ActionRecord>,
    path: Seq<char>,
    name: Seq<char>,
    other_path: Seq<char>,
    other_name: Seq<char>,
)
    requires
        places_distinct(rows),
    ensures
        action_at(without_action(rows, path, name), other_path, other_name) == (if other_path
            == path && other_name == name {
            None
        } else {
            action_at(rows, other_path, other_name)
        }),
{
    let after = without_action(rows, path, name);
    let k = place_from(rows, path, name, 0);
    lemma_place_from(rows, path, name, 0);
    lemma_place_from(rows, other_path, other_name, 0);
    lemma_place_from(after, other_path, other_name, 0);
    let j = place_from(rows, other_path, other_name, 0);
    let m = place_from(after, other_path, other_name, 0);
    if k < rows.len() {
        assert(places_distinct(after)) by {
            assert forall|x: int, y: int| 0 <= x < y < after.len() implies !is_at(
                #[trigger] after[x],
                (#[trigger] after[y]).path,
                after[y].name,
            ) by {
                let x0 = if x < k {
                    x
                } else {
                    x + 1
                };
                let y0 = if y < k {
                    y
                } else {
                    y + 1
                };
                assert(!is_at(rows[x0], rows[y0].path, rows[y0].name));
            }
        }
        if other_path == path && other_name == name {
            if m < after.len() {
                let m0 = if m < k {
                    m
                } else {
                    m + 1
                };
                assert(is_at(rows[m0], path, name));
                if m0 < k {
                    assert(!is_at(rows[m0], rows[k].path, rows[k].name));
                } else {
                    assert(!is_at(rows[k], rows[m0].path, rows[m0].name));
                }
            }
        } else if j < rows.len() {
            let j0 = if j < k {
                j
            } else {
                j - 1
            };
            assert(after[j0] == rows[j]);
            lemma_place_is(after, other_path, other_name, j0);
        } else if m < after.len() {
            let m0 = if m < k {
                m
            } else {
                m + 1
            };
            assert(is_at(rows[m0], other_path, other_name));
        }
    }
}

} // verus!
