//! The variable store of one run: named variables, and the results of the
//! steps completed so far, in the order in which they completed.

use crate::error::Error;
use crate::template::{expand, expanded, reports, resolve_value, resolved, Unrendered};
use crate::value::{
    clone_entries, clone_items, entries_view, get_entry, items_view, lookup, set_entry, upsert,
    Entry, Json, JsonModel,
};
use vstd::prelude::*;

verus! {

/// The variable store of one run.
#[derive(Debug)]
pub struct Context {
    variables: Vec<Entry>,
    results: Vec<Json>,
}

/// The mathematical content of a [`Context`].
pub struct ContextModel {
    /// The variables, each as its name and content.
    pub variables: Seq<(Seq<char>, JsonModel)>,
    /// The results of the completed steps, oldest first.
    pub results: Seq<JsonModel>,
}

impl ContextModel {
    /// The store of a run in which nothing has happened yet.
    pub open spec fn empty() -> ContextModel {
        ContextModel { variables: Seq::empty(), results: Seq::empty() }
    }

    /// What a variable holds.
    pub open spec fn get(self, name: Seq<char>) -> Option<JsonModel> {
        lookup(self.variables, name)
    }

    /// The store after `name` was set to `value`.
    pub open spec fn with(self, name: Seq<char>, value: JsonModel) -> ContextModel {
        ContextModel { variables: upsert(self.variables, name, value), results: self.results }
    }

    /// The store after a step completed with `value`.
    pub open spec fn pushed(self, value: JsonModel) -> ContextModel {
        ContextModel { variables: self.variables, results: self.results.push(value) }
    }

    /// The result of the step that completed last.
    pub open spec fn previous(self) -> Option<JsonModel> {
        if self.results.len() > 0 {
            Some(self.results.last())
        } else {
            None
        }
    }

    /// The store as one record: every variable under its name; then the
    /// previous result, where there is one, as `$prev` and as `prev`; then
    /// the list of all results as `$results` and as `results`. A variable
    /// with one of these four names is hidden by the entry that takes its
    /// place.
    pub open spec fn snapshot(self) -> JsonModel {
        let base = match self.previous() {
            Some(last) => upsert(upsert(self.variables, "$prev"@, last), "prev"@, last),
            None => self.variables,
        };
        let all = JsonModel::Array(self.results);
        JsonModel::Object(upsert(upsert(base, "$results"@, all), "results"@, all))
    }
}

impl View for Context {
    type V = ContextModel;

    closed spec fn view(&self) -> ContextModel {
        ContextModel {
            variables: entries_view(self.variables@),
            results: items_view(self.results@),
        }
    }
}

impl Context {
    /// A new, empty store.
    pub fn new() -> (ctx: Self)
        ensures
            ctx@ == ContextModel::empty(),
    {
        let ctx = Context { variables: Vec::new(), results: Vec::new() };
        assert(ctx@.variables =~= Seq::empty() && ctx@.results =~= Seq::empty());
        ctx
    }

    /// Sets a variable; what it held before is lost.
    pub fn set(&mut self, name: &str, value: Json)
        ensures
            final(self)@ == old(self)@.with(name@, value@),
    {
        set_entry(&mut self.variables, name.to_owned(), value);
    }

    /// What a variable holds.
    pub fn get(&self, name: &str) -> (found: Option<&Json>)
        ensures
            match found {
                Some(value) => self@.get(name@) == Some(value@),
                None => self@.get(name@) is None,
            },
    {
        get_entry(&self.variables, name)
    }

    /// Records the result of a step that completed.
    pub fn push_result(&mut self, value: Json)
        ensures
            final(self)@ == old(self)@.pushed(value@),
    {
        self.results.push(value);
        assert(items_view(self.results@) =~= items_view(old(self).results@).push(value@));
    }

    /// The result of the step that completed last.
    pub fn prev(&self) -> (last: Option<&Json>)
        ensures
            match last {
                Some(value) => self@.previous() == Some(value@),
                None => self@.previous() is None,
            },
    {
        let n = self.results.len();
        if n > 0 {
            Some(&self.results[n - 1])
        } else {
            None
        }
    }

    /// The results of all completed steps, oldest first.
    pub fn results(&self) -> (all: &[Json])
        ensures
            items_view(all@) == self@.results,
    {
        self.results.as_slice()
    }

    /// The store as one record: the scope over which templates are expanded.
    pub fn as_json(&self) -> (record: Json)
        ensures
            record@ == self@.snapshot(),
    {
        let mut data = clone_entries(&self.variables);
        match self.prev() {
            Some(last) => {
                set_entry(&mut data, "$prev".to_owned(), last.clone());
                set_entry(&mut data, "prev".to_owned(), last.clone());
            },
            None => {},
        }
        set_entry(&mut data, "$results".to_owned(), Json::Array(clone_items(&self.results)));
        set_entry(&mut data, "results".to_owned(), Json::Array(clone_items(&self.results)));
        Json::Object(data)
    }

    /// Expands one template over the store as it stands.
    pub fn render_template(&self, template: &str) -> (result: Result<Json, Error>)
        ensures
            match result {
                Ok(value) => expanded(template@, self@.snapshot()) == Ok::<JsonModel, Unrendered>(
                    value@,
                ),
                Err(error) => expanded(template@, self@.snapshot()) matches Err(cause) && reports(
                    error@,
                    cause,
                ),
            },
    {
        expand(template, &self.as_json())
    }

    /// Expands every template in `value` over the store as it stands.
    pub fn resolve(&self, value: &Json) -> (result: Result<Json, Error>)
        ensures
            match result {
                Ok(whole) => resolved(self@.snapshot(), value@) == Ok::<JsonModel, Unrendered>(
                    whole@,
                ),
                Err(error) => resolved(self@.snapshot(), value@) matches Err(cause) && reports(
                    error@,
                    cause,
                ),
            },
    {
        resolve_value(&self.as_json(), value)
    }
}

impl Default for Context {
    fn default() -> (ctx: Self)
        ensures
            ctx@ == ContextModel::empty(),
    {
        Context::new()
    }
}

/// The result of the step that completed last is the value pushed last, and
/// each push makes the history one longer: nothing before it moves or goes.
pub proof fn lemma_push_twice(store: ContextModel, first: JsonModel, second: JsonModel)
    ensures
        store.pushed(first).pushed(second).previous() == Some(second),
        store.pushed(first).results.len() == store.results.len() + 1,
        store.pushed(first).pushed(second).results.len() == store.results.len() + 2,
        store.pushed(first).pushed(second).results.take(store.results.len() as int)
            == store.results,
        store.pushed(first).pushed(second).results[store.results.len() as int] == first,
        store.pushed(first).pushed(second).variables == store.variables,
{
    assert(store.pushed(first).pushed(second).results.take(store.results.len() as int)
        =~= store.results);
}

/// A variable holds what was last set under its name, and setting one
/// variable changes no other.
pub proof fn lemma_get_after_set(
    store: ContextModel,
    name: Seq<char>,
    value: JsonModel,
    other: Seq<char>,
)
    ensures
        store.with(name, value).get(name) == Some(value),
        other != name ==> store.with(name, value).get(other) == store.get(other),
        store.with(name, value).results == store.results,
{
    crate::value::lemma_lookup_upsert_same(store.variables, name, value);
    if other != name {
        crate::value::lemma_lookup_upsert_other(store.variables, name, value, other);
    }
}

/// Whether a name is one of the four under which a snapshot holds the
/// previous result and the list of all results.
pub open spec fn reserved(name: Seq<char>) -> bool {
    name == "$prev"@ || name == "prev"@ || name == "$results"@ || name == "results"@
}

/// In a snapshot every variable whose name is not reserved holds what it
/// holds in the store.
pub proof fn lemma_snapshot_keeps_variable(store: ContextModel, name: Seq<char>)
    requires
        !reserved(name),
    ensures
        store.snapshot() is Object,
        lookup(store.snapshot()->Object_0, name) == store.get(name),
{
    let all = JsonModel::Array(store.results);
    match store.previous() {
        Some(last) => {
            let one = upsert(store.variables, "$prev"@, last);
            let two = upsert(one, "prev"@, last);
            let three = upsert(two, "$results"@, all);
            crate::value::lemma_lookup_upsert_other(store.variables, "$prev"@, last, name);
            crate::value::lemma_lookup_upsert_other(one, "prev"@, last, name);
            crate::value::lemma_lookup_upsert_other(two, "$results"@, all, name);
            crate::value::lemma_lookup_upsert_other(three, "results"@, all, name);
        },
        None => {
            let three = upsert(store.variables, "$results"@, all);
            crate::value::lemma_lookup_upsert_other(store.variables, "$results"@, all, name);
            crate::value::lemma_lookup_upsert_other(three, "results"@, all, name);
        },
    }
}

/// In a snapshot `prev` and `$prev` hold the previous result, where there is
/// one, and `results` and `$results` hold the list of all results.
pub proof fn lemma_snapshot_history(store: ContextModel)
    ensures
        store.snapshot() is Object,
        lookup(store.snapshot()->Object_0, "results"@) == Some(JsonModel::Array(store.results)),
        lookup(store.snapshot()->Object_0, "$results"@) == Some(JsonModel::Array(store.results)),
        store.previous() is Some ==> lookup(store.snapshot()->Object_0, "prev"@)
            == store.previous() && lookup(store.snapshot()->Object_0, "$prev"@)
            == store.previous(),
{
    reveal_strlit("$prev");
    reveal_strlit("prev");
    reveal_strlit("$results");
    reveal_strlit("results");
    assert("$prev"@ != "prev"@ && "$prev"@ != "$results"@ && "$prev"@ != "results"@) by {
        assert("$prev"@.len() == 5 && "prev"@.len() == 4 && "$results"@.len() == 8
            && "results"@.len() == 7);
    }
    assert("prev"@ != "$results"@ && "prev"@ != "results"@ && "$results"@ != "results"@) by {
        assert("$prev"@.len() == 5 && "prev"@.len() == 4 && "$results"@.len() == 8
            && "results"@.len() == 7);
    }
    let all = JsonModel::Array(store.results);
    let base = match store.previous() {
        Some(last) => upsert(upsert(store.variables, "$prev"@, last), "prev"@, last),
        None => store.variables,
    };
    let three = upsert(base, "$results"@, all);
    crate::value::lemma_lookup_upsert_same(three, "results"@, all);
    crate::value::lemma_lookup_upsert_same(base, "$results"@, all);
    crate::value::lemma_lookup_upsert_other(three, "results"@, all, "$results"@);
    match store.previous() {
        Some(last) => {
            let one = upsert(store.variables, "$prev"@, last);
            crate::value::lemma_lookup_upsert_same(store.variables, "$prev"@, last);
            crate::value::lemma_lookup_upsert_same(one, "prev"@, last);
            crate::value::lemma_lookup_upsert_other(one, "prev"@, last, "$prev"@);
            crate::value::lemma_lookup_upsert_other(base, "$results"@, all, "$prev"@);
            crate::value::lemma_lookup_upsert_other(base, "$results"@, all, "prev"@);
            crate::value::lemma_lookup_upsert_other(three, "results"@, all, "$prev"@);
            crate::value::lemma_lookup_upsert_other(three, "results"@, all, "prev"@);
        },
        None => {},
    }
}

} // verus!
