//! Saving, finding and searching actions.

use vstd::prelude::*;
use vstd::string::*;

use crate::entities::{Action, ActionRecord, ActionType, InputRecord};
use crate::error::SolxError;
use crate::json::{json_text, json_texts};
use crate::manager::{action_type_name, fetch_limit, filterable, is_row_of, match_query, match_term};
use crate::manager::{merged, named_action_type, record_of_row, redacted, redacted_all, search_join};
use crate::manager::{search_order, search_text, shown, sort_columns_of, stored_or_blank};
use crate::manager::{visible_page, ActionRow};
use crate::mask::{free_of_mask, lemma_unmask_plain, masked_config};
use crate::store::{action_at, is_save, lemma_saved_is_on_record, places_distinct, stored_form};
use crate::store::with_action;
use crate::text::{decimal, replaced, trimmed, words};
use crate::value::Json;

verus! {

// ── Saving ───────────────────────────────────────────────────────────────────

/// Whether a field of an action after a save is the one that was given, or the
/// stored one where none was.
pub open spec fn chosen<T>(after: Option<T>, given: Option<T>, stored: Option<T>) -> bool {
    &&& (given is Some ==> after == given)
    &&& (given is None ==> after == stored)
}

/// The same of a list, where an empty one is none.
pub open spec fn chosen_list<T>(after: Seq<T>, given: Seq<T>, stored: Seq<T>) -> bool {
    &&& (given.len() > 0 ==> after == given)
    &&& (given.len() == 0 ==> after == stored)
}

/// An update results in the given value of every field that it gives, whatever is
/// stored, and leaves every field that it does not give. The identifier and the
/// time of creation stay, the time of the update is now.
pub proof fn lemma_given_fields_win(
    base: ActionRecord,
    input: InputRecord,
    path: Seq<char>,
    name: Seq<char>,
    now: Seq<char>,
)
    requires
        merged(base, input, path, name, now) is Ok,
    ensures
        ({
            let a = merged(base, input, path, name, now)->Ok_0;
            &&& chosen(a.caption, input.caption, base.caption)
            &&& chosen(a.description, input.description, base.description)
            &&& chosen(a.category, input.category, base.category)
            &&& chosen(a.param_type_ref, input.param_type_ref, base.param_type_ref)
            &&& chosen(a.result_type_ref, input.result_type_ref, base.result_type_ref)
            &&& chosen(a.action_type, input.action_type, base.action_type)
            &&& chosen(a.fn_name, input.fn_name, base.fn_name)
            &&& chosen(a.bin_name, input.bin_name, base.bin_name)
            &&& chosen_list(a.capabilities, input.capabilities, base.capabilities)
            &&& chosen_list(a.phrases, input.phrases, base.phrases)
            &&& chosen_list(a.files, input.files, base.files)
            &&& (input.trusted matches Some(t) ==> a.trusted == t)
            &&& (input.trusted is None ==> a.trusted == base.trusted)
            &&& (input.action_config is None ==> a.action_config == base.action_config)
            &&& (input.action_config matches Some(c) ==> free_of_mask(c) ==> a.action_config
                == Some(c))
            &&& a.id == base.id
            &&& a.created_at == base.created_at
            &&& a.updated_at == now
            &&& a.path == path
            &&& a.name == name
        }),
{
    if let Some(c) = input.action_config {
        if free_of_mask(c) {
            lemma_unmask_plain(c, base.action_config, Seq::empty());
        }
    }
}

/// A save is refused only for a config with a mask in it that nothing is stored
/// for: one without a mask goes through.
pub proof fn lemma_a_config_without_masks_is_taken(
    base: ActionRecord,
    input: InputRecord,
    path: Seq<char>,
    name: Seq<char>,
    now: Seq<char>,
)
    requires
        input.action_config matches Some(c) ==> free_of_mask(c),
    ensures
        merged(base, input, path, name, now) is Ok,
{
    if let Some(c) = input.action_config {
        lemma_unmask_plain(c, base.action_config, Seq::empty());
    }
}

/// A mask that nothing is stored for is refused, so that no action ever holds the
/// mask in place of a value.
pub proof fn lemma_a_mask_for_nothing_is_refused(
    base: ActionRecord,
    input: InputRecord,
    path: Seq<char>,
    name: Seq<char>,
    now: Seq<char>,
)
    requires
        input.action_config == Some(Json::Str("***"@)),
        base.action_config is None,
    ensures
        merged(base, input, path, name, now) is Err,
{
}

/// A field that a save gives is on record afterwards, an empty text as none; one
/// that it does not give is as it was on record, or none where there was no action.
pub open spec fn recorded(
    after: Option<Seq<char>>,
    given: Option<Seq<char>>,
    stored: Option<Seq<char>>,
) -> bool {
    &&& (given matches Some(t) ==> after == (if t.len() > 0 {
        Some(t)
    } else {
        None
    }))
    &&& (given is None ==> (stored matches Some(t) ==> t.len() > 0 ==> after == Some(t)))
    &&& (given is None && stored is None ==> after is None)
}

/// What a save that goes through leaves behind: at its path and name an action with
/// what was given, the rest as it was, under the identifier that was there before or
/// else the new one; at every other place what was there. The answer is that action
/// with its secrets masked.
pub proof fn lemma_saved_action_is_found(
    r: Result<Action, SolxError>,
    before: Seq<ActionRecord>,
    after: Seq<ActionRecord>,
    capabilities: Result<(), Seq<char>>,
    path: Seq<char>,
    name: Seq<char>,
    input: InputRecord,
    new_id: Seq<char>,
    now: Seq<char>,
    other_path: Seq<char>,
    other_name: Seq<char>,
)
    requires
        places_distinct(before),
        is_save(r, before, after, capabilities, path, name, input, new_id, now),
    ensures
        capabilities is Err ==> r is Err && after == before,
        r is Err ==> after == before,
        r is Ok ==> {
            let old = action_at(before, path, name);
            let found = action_at(after, path, name);
            &&& found is Some
            &&& ({
                let a = found->0;
                &&& recorded(a.fn_name, input.fn_name, old_text(old, |o: ActionRecord| o.fn_name))
                &&& recorded(a.bin_name, input.bin_name, old_text(old, |o: ActionRecord| o.bin_name))
                &&& recorded(a.caption, input.caption, old_text(old, |o: ActionRecord| o.caption))
                &&& recorded(
                    a.description,
                    input.description,
                    old_text(old, |o: ActionRecord| o.description),
                )
                &&& recorded(a.category, input.category, old_text(old, |o: ActionRecord| o.category))
                &&& recorded(
                    a.param_type_ref,
                    input.param_type_ref,
                    old_text(old, |o: ActionRecord| o.param_type_ref),
                )
                &&& recorded(
                    a.result_type_ref,
                    input.result_type_ref,
                    old_text(old, |o: ActionRecord| o.result_type_ref),
                )
                &&& (input.action_type is Some ==> a.action_type == input.action_type)
                &&& (input.capabilities.len() > 0 ==> a.capabilities == input.capabilities)
                &&& (input.phrases.len() > 0 ==> a.phrases == input.phrases)
                &&& (input.files.len() > 0 ==> a.files == input.files)
                &&& (input.trusted matches Some(t) ==> a.trusted == t)
                &&& (old is None ==> a.id == new_id && a.created_at == now && (input.trusted is None
                    ==> !a.trusted) && (input.action_type is None ==> a.action_type is None))
                &&& (old matches Some(o) ==> a.id == o.id && a.created_at == o.created_at && (
                input.trusted is None ==> a.trusted == o.trusted) && (input.action_type is None
                    ==> a.action_type == o.action_type))
                &&& a.updated_at == now
                &&& a.path == path
                &&& a.name == name
                &&& r->Ok_0@.fn_name == a.fn_name
                &&& r->Ok_0@.id == a.id
                &&& r->Ok_0@.action_config == (match a.action_config {
                    Some(c) => Some(masked_config(c)),
                    None => None,
                })
            })
            &&& (other_path != path || other_name != name ==> action_at(
                after,
                other_path,
                other_name,
            ) == action_at(before, other_path, other_name))
        },
{
    if r is Ok {
        let base = stored_or_blank(action_at(before, path, name), path, name, new_id, now);
        let m = merged(base, input, path, name, now);
        let a = stored_form(m->Ok_0);
        lemma_given_fields_win(base, input, path, name, now);
        assert(after == with_action(before, a));
        lemma_saved_is_on_record(before, a, path, name);
        lemma_saved_is_on_record(before, a, other_path, other_name);
        assert(action_at(after, path, name) == Some(a));
    }
}

/// A text of the action that was there, none where there was no action.
pub open spec fn old_text(
    old: Option<ActionRecord>,
    field: spec_fn(ActionRecord) -> Option<Seq<char>>,
) -> Option<Seq<char>> {
    match old {
        Some(o) => field(o),
        None => None,
    }
}

/// What leaves the process of an action is the action, but for its config.
pub proof fn lemma_redaction_touches_the_config_alone(a: ActionRecord)
    ensures
        redacted(a).id == a.id,
        redacted(a).path == a.path,
        redacted(a).name == a.name,
        redacted(a).caption == a.caption,
        redacted(a).description == a.description,
        redacted(a).capabilities == a.capabilities,
        redacted(a).phrases == a.phrases,
        redacted(a).category == a.category,
        redacted(a).param_type_ref == a.param_type_ref,
        redacted(a).result_type_ref == a.result_type_ref,
        redacted(a).action_type == a.action_type,
        redacted(a).fn_name == a.fn_name,
        redacted(a).bin_name == a.bin_name,
        redacted(a).files == a.files,
        redacted(a).trusted == a.trusted,
        redacted(a).created_at == a.created_at,
        redacted(a).updated_at == a.updated_at,
        a.action_config is None ==> redacted(a).action_config is None,
        a.action_config matches Some(c) ==> redacted(a).action_config == Some(masked_config(c)),
{
}

/// The names under which the types of actions are stored, and that no other text is
/// one.
pub proof fn lemma_type_names(s: Seq<char>)
    ensures
        named_action_type(s) is Some <==> s == "wasm"@ || s == "webhook"@ || s == "command"@ || s
            == "internal"@ || s == "script"@,
        action_type_name(Some(ActionType::Wasm)) == "wasm"@,
        action_type_name(Some(ActionType::Webhook)) == "webhook"@,
        action_type_name(Some(ActionType::Command)) == "command"@,
        action_type_name(Some(ActionType::Internal)) == "internal"@,
        action_type_name(Some(ActionType::Script)) == "script"@,
        named_action_type("wasm"@) == Some(ActionType::Wasm),
        named_action_type("webhook"@) == Some(ActionType::Webhook),
        named_action_type("command"@) == Some(ActionType::Command),
        named_action_type("internal"@) == Some(ActionType::Internal),
        named_action_type("script"@) == Some(ActionType::Script),
        named_action_type(""@) is None,
        action_type_name(None) == ""@,
{
    reveal_strlit("wasm");
    reveal_strlit("webhook");
    reveal_strlit("command");
    reveal_strlit("internal");
    reveal_strlit("script");
    reveal_strlit("");
    assert("wasm"@.len() == 4);
    assert("webhook"@.len() == 7 && "webhook"@[0] == 'w');
    assert("command"@.len() == 7 && "command"@[0] == 'c');
    assert("internal"@.len() == 8);
    assert("script"@.len() == 6);
    assert(""@.len() == 0);
}

// ── Searching ────────────────────────────────────────────────────────────────

/// The rows that a query selects, by the text between its table and its filter:
/// without a join all that pass the filter, with an inner join those of them that
/// the joined rows hold too, with an outer one all of them again.
pub open spec fn selected(
    actions: Set<int>,
    matches: Set<int>,
    passes: spec_fn(int) -> bool,
    join: Seq<char>,
) -> Set<int> {
    if join.len() == 0 || " LEFT JOIN ("@.is_prefix_of(join) {
        actions.filter(passes)
    } else if " JOIN ("@.is_prefix_of(join) {
        actions.intersect(matches).filter(passes)
    } else {
        Set::empty()
    }
}

/// With a term a search selects exactly the actions that match it and pass the
/// filters; without one, those that pass the filters.
pub proof fn lemma_search_selects_the_matches(
    actions: Set<int>,
    matches: Set<int>,
    passes: spec_fn(int) -> bool,
    term: Option<Seq<char>>,
    binds: nat,
    row: int,
)
    ensures
        term is Some ==> (selected(actions, matches, passes, search_join(term, binds)).contains(row)
            <==> actions.contains(row) && matches.contains(row) && passes(row)),
        term is None ==> (selected(actions, matches, passes, search_join(term, binds)).contains(row)
            <==> actions.contains(row) && passes(row)),
{
    reveal_strlit(" LEFT JOIN (");
    reveal_strlit(" JOIN (");
    reveal_strlit(" JOIN (SELECT rowid, rank FROM actions_fts WHERE actions_fts MATCH ?");
    if term is Some {
        let join = search_join(term, binds);
        let head = " JOIN (SELECT rowid, rank FROM actions_fts WHERE actions_fts MATCH ?"@;
        assert(join.take(head.len() as int) =~= head);
        assert(join[1] == head[1]);
        assert(!(" LEFT JOIN ("@.is_prefix_of(join))) by {
            if " LEFT JOIN ("@.is_prefix_of(join) {
                assert(" LEFT JOIN ("@[1] == join[1]);
            }
        }
        assert(" JOIN ("@.is_prefix_of(join)) by {
            assert forall|i: int| 0 <= i < " JOIN ("@.len() implies " JOIN ("@[i] == join[i] by {
                assert(join[i] == head[i]);
            }
            assert(" JOIN ("@ =~= join.subrange(0, " JOIN ("@.len() as int));
        }
    }
}

/// The join of a search in full: an inner join to the full-text matches of the
/// value that is bound behind those of the filters, on the row.
pub proof fn lemma_search_joins_the_index(term: Seq<char>, binds: nat)
    ensures
        search_join(Some(term), binds)
            == " JOIN (SELECT rowid, rank FROM actions_fts WHERE actions_fts MATCH ?"@ + decimal(
            binds + 1,
        ) + ") f ON f.rowid = a.rowid"@,
        search_join(None, binds).len() == 0,
{
}

/// With a term the page is ordered by relevance, without one as the listing is.
pub proof fn lemma_search_orders_by_relevance(term: Option<Seq<char>>, order: Seq<char>)
    ensures
        term is Some ==> search_order(term, order) == " ORDER BY f.rank"@,
        term is None ==> search_order(term, order) == order,
{
}

/// A search for blanks alone, or for nothing, is a listing; any other search looks
/// for the text without the space around it.
pub proof fn lemma_blank_search_is_a_listing(q: Option<Seq<char>>)
    ensures
        q is None ==> search_text(q) is None,
        q matches Some(s) ==> (search_text(q) is None <==> trimmed(s).len() == 0),
        q matches Some(s) ==> (search_text(q) matches Some(t) ==> t == trimmed(s)),
{
}

proof fn lemma_no_quote_no_change(w: Seq<char>, p: Seq<char>, r: Seq<char>)
    requires
        p.len() == 1,
        forall|i: int| 0 <= i < w.len() ==> #[trigger] w[i] != p[0],
    ensures
        replaced(w, p, r) == w,
    decreases w.len(),
{
    if w.len() > 0 {
        assert(!p.is_prefix_of(w)) by {
            if p.is_prefix_of(w) {
                assert(p[0] == w[0]);
            }
        }
        lemma_no_quote_no_change(w.skip(1), p, r);
        assert(replaced(w, p, r) =~= w);
    }
}

/// A word without quotes is looked for as a prefix, between quotes.
pub proof fn lemma_words_match_as_prefixes(w: Seq<char>)
    requires
        forall|i: int| 0 <= i < w.len() ==> #[trigger] w[i] != '"',
    ensures
        match_term(w) == seq!['"'] + w + seq!['"', '*'],
{
    reveal_strlit("\"");
    reveal_strlit("\"\"");
    reveal_strlit("\"*");
    lemma_no_quote_no_change(w, "\""@, "\"\""@);
    assert(match_term(w) =~= seq!['"'] + w + seq!['"', '*']);
}

/// A search for two words looks for both.
pub proof fn lemma_every_word_is_looked_for(q: Seq<char>)
    ensures
        words(q).len() == 0 ==> match_query(q).len() == 0,
        words(q).len() == 1 ==> match_query(q) == match_term(words(q)[0]),
        words(q).len() == 2 ==> match_query(q) == match_term(words(q)[0]) + seq![' '] + match_term(
            words(q)[1],
        ),
{
    reveal_strlit(" ");
    reveal_with_fuel(crate::text::joined, 3);
    let parts = Seq::new(words(q).len(), |i: int| match_term(words(q)[i]));
    if words(q).len() == 2 {
        assert(parts.drop_last().len() == 1);
        assert(parts.drop_last()[0] == match_term(words(q)[0]));
        assert(match_query(q) =~= match_term(words(q)[0]) + seq![' '] + match_term(words(q)[1]));
    }
}

/// What may be filtered by: the texts and lists that describe an action, and never
/// its config, its files or its identity.
pub proof fn lemma_filter_columns()
    ensures
        filterable("name"@) && filterable("caption"@) && filterable("description"@),
        filterable("category"@) && filterable("capabilities"@) && filterable("phrases"@),
        filterable("action_type"@) && filterable("param_type_ref"@) && filterable(
            "result_type_ref"@,
        ),
        filterable("fn_name"@) && filterable("bin_name"@),
        !filterable("id"@) && !filterable("path"@) && !filterable("files"@) && !filterable(
            "trusted"@,
        ),
{
    reveal_strlit("name");
    reveal_strlit("caption");
    reveal_strlit("description");
    reveal_strlit("category");
    reveal_strlit("capabilities");
    reveal_strlit("phrases");
    reveal_strlit("action_type");
    reveal_strlit("param_type_ref");
    reveal_strlit("result_type_ref");
    reveal_strlit("fn_name");
    reveal_strlit("bin_name");
    reveal_strlit("id");
    reveal_strlit("path");
    reveal_strlit("files");
    reveal_strlit("trusted");
    assert("files"@[0] == 'f' && "trusted"@[0] == 't' && "path"@[0] == 'p' && "id"@[0] == 'i');
    assert("files"@.len() == 5 && "trusted"@.len() == 7 && "path"@.len() == 4 && "id"@.len() == 2);
    assert("name"@[0] == 'n');
    assert("caption"@[0] == 'c');
    assert("fn_name"@[0] == 'f' && "fn_name"@.len() == 7);
    assert("phrases"@.len() == 7 && "phrases"@[0] == 'p');
}

/// What may be sorted by: the column itself, or path and name for either of them.
pub proof fn lemma_sort_columns()
    ensures
        sort_columns_of("name"@) == Some("path,name"@),
        sort_columns_of("path"@) == Some("path,name"@),
        sort_columns_of("category"@) == Some("category"@),
        sort_columns_of("action_type"@) == Some("action_type"@),
        sort_columns_of("created_at"@) == Some("created_at"@),
        sort_columns_of("updated_at"@) == Some("updated_at"@),
        forall|key: Seq<char>|
            (#[trigger] sort_columns_of(key)) matches Some(c) ==> c == key || c == "path,name"@,
{
    reveal_strlit("name");
    reveal_strlit("path");
    reveal_strlit("category");
    reveal_strlit("action_type");
    reveal_strlit("created_at");
    reveal_strlit("updated_at");
    assert("name"@[0] == 'n' && "path"@[0] == 'p' && "category"@[0] == 'c' && "action_type"@[0]
        == 'a' && "created_at"@[0] == 'c' && "updated_at"@[0] == 'u');
    assert("category"@.len() == 8 && "created_at"@.len() == 10);
}

/// Where hidden actions are left out more rows are fetched than are wanted, within
/// a cap; else exactly those that are wanted.
pub proof fn lemma_overfetch(want: usize)
    ensures
        fetch_limit(want, false) == want,
        want <= 250 ==> fetch_limit(want, true) == 4 * want,
        want >= 250 ==> fetch_limit(want, true) == 1000,
{
}

proof fn lemma_shown_holds<T>(all: Seq<T>, hidden: Seq<bool>, n: nat, i: int)
    requires
        hidden.len() == all.len(),
        n <= all.len(),
        0 <= i < n,
        !hidden[i],
    ensures
        shown(all, hidden, n).contains(all[i]),
    decreases n,
{
    let before = shown(all, hidden, (n - 1) as nat);
    let now = shown(all, hidden, n);
    if i < n - 1 {
        lemma_shown_holds(all, hidden, (n - 1) as nat, i);
        let k = choose|k: int| 0 <= k < before.len() && before[k] == all[i];
        assert(now[k] == all[i]);
    } else {
        assert(now[now.len() - 1] == all[i]);
    }
}

proof fn lemma_shown_comes_from<T>(all: Seq<T>, hidden: Seq<bool>, n: nat, k: int)
    requires
        hidden.len() == all.len(),
        n <= all.len(),
        0 <= k < shown(all, hidden, n).len(),
    ensures
        exists|i: int| 0 <= i < n && !hidden[i] && #[trigger] all[i] == shown(all, hidden, n)[k],
    decreases n,
{
    if n > 0 {
        let before = shown(all, hidden, (n - 1) as nat);
        if k < before.len() {
            lemma_shown_comes_from(all, hidden, (n - 1) as nat, k);
        } else {
            assert(all[n - 1] == shown(all, hidden, n)[k]);
        }
    }
}

/// A page of a search holds only actions that were found and, where that is asked
/// for, none that is hidden. It is the whole of what was found where hidden ones
/// count, and holds every visible one where those are no more than are wanted.
pub proof fn lemma_page_holds_what_is_visible<T>(
    all: Seq<T>,
    hidden: Seq<bool>,
    want: usize,
    i: int,
    k: int,
)
    requires
        hidden.len() == all.len(),
        0 <= i < all.len(),
        0 <= k < visible_page(all, hidden, true, want).len(),
    ensures
        visible_page(all, hidden, false, want) == all,
        visible_page(all, hidden, true, want).len() <= want,
        exists|j: int|
            0 <= j < all.len() && !hidden[j] && #[trigger] all[j] == visible_page(
                all,
                hidden,
                true,
                want,
            )[k],
        !hidden[i] && visible_page(all, hidden, true, want).len() < want ==> visible_page(
            all,
            hidden,
            true,
            want,
        ).contains(all[i]),
{
    lemma_shown_comes_from(all, hidden, all.len(), k);
    if !hidden[i] {
        lemma_shown_holds(all, hidden, all.len(), i);
    }
}

/// The columns of a stored action hold its fields, each its own: a text or nothing,
/// lists and the config as JSON, and the trust as a number.
pub proof fn lemma_columns(r: ActionRow, a: ActionRecord)
    requires
        is_row_of(r, a),
    ensures
        r.id@ == a.id && r.path@ == a.path && r.name@ == a.name,
        column_holds(r.caption@, a.caption),
        column_holds(r.description@, a.description),
        column_holds(r.category@, a.category),
        column_holds(r.param_type_ref@, a.param_type_ref),
        column_holds(r.result_type_ref@, a.result_type_ref),
        column_holds(r.fn_name@, a.fn_name),
        column_holds(r.bin_name@, a.bin_name),
        r.trusted != 0 <==> a.trusted,
        r.created_at@ == a.created_at && r.updated_at@ == a.updated_at,
        r.capabilities@ == json_text(json_texts(a.capabilities)),
        r.phrases@ == json_text(json_texts(a.phrases)),
        r.files@ == json_text(Json::Array(a.files)),
        a.action_config matches Some(c) ==> r.action_config@ == json_text(c),
        a.action_config is None ==> r.action_config@ == json_text(Json::Null),
{
}

pub open spec fn column_holds(column: Seq<char>, field: Option<Seq<char>>) -> bool {
    &&& (field matches Some(t) ==> column == t)
    &&& (field is None ==> column == Seq::<char>::empty())
}

/// What is read from the columns of a stored action: an empty column is no text, a
/// list that does not parse is empty, and a null is no config.
pub proof fn lemma_what_columns_say(
    row: ActionRow,
    config: Option<Json>,
    files: Option<Seq<Json>>,
    id: Seq<char>,
    created: Seq<char>,
    updated: Seq<char>,
)
    ensures
        ({
            let a = record_of_row(row, config, files, id, created, updated);
            &&& a.id == id && a.path == row.path@ && a.name == row.name@
            &&& a.created_at == created && a.updated_at == updated
            &&& (row.caption@.len() > 0 ==> a.caption == Some(row.caption@))
            &&& (row.caption@.len() == 0 ==> a.caption is None)
            &&& (row.description@.len() > 0 ==> a.description == Some(row.description@))
            &&& (row.description@.len() == 0 ==> a.description is None)
            &&& (row.category@.len() > 0 ==> a.category == Some(row.category@))
            &&& (row.fn_name@.len() > 0 ==> a.fn_name == Some(row.fn_name@))
            &&& (row.fn_name@.len() == 0 ==> a.fn_name is None)
            &&& (row.bin_name@.len() > 0 ==> a.bin_name == Some(row.bin_name@))
            &&& (row.bin_name@.len() == 0 ==> a.bin_name is None)
            &&& (row.param_type_ref@.len() > 0 ==> a.param_type_ref == Some(row.param_type_ref@))
            &&& (row.result_type_ref@.len() > 0 ==> a.result_type_ref == Some(row.result_type_ref@))
            &&& (config matches Some(c) ==> a.action_config == (if c is Null {
                None
            } else {
                Some(c)
            }))
            &&& (config is None ==> a.action_config is None)
            &&& (files matches Some(f) ==> a.files == f)
            &&& (files is None ==> a.files == Seq::<Json>::empty())
            &&& (a.trusted <==> row.trusted != 0)
        }),
{
}

/// A page is redacted action by action.
pub proof fn lemma_pages_are_redacted(v: Seq<ActionRecord>, i: int)
    requires
        0 <= i < v.len(),
    ensures
        redacted_all(v).len() == v.len(),
        redacted_all(v)[i].id == v[i].id,
        v[i].action_config matches Some(c) ==> redacted_all(v)[i].action_config == Some(
            masked_config(c),
        ),
        redacted_all(v)[i] == (ActionRecord {
            action_config: redacted_all(v)[i].action_config,
            ..v[i]
        }),
{
}

} // verus!
