//! Template expansion: how references to variables inside a value are
//! replaced by what the variables hold.
//!
//! A template is written in one of two ways: as a record with a member named
//! `__template__` whose content is a string, which is replaced as a whole by
//! what the string renders to; or as a string that contains both `{{` and
//! `}}`, which is rendered where it stands. Rendered text that reads as
//! structured data becomes that data; any other text stays a string.
//!
//! The marker is a member's name like any other. A record of plain data that
//! happens to have a member of that name which holds a string is taken for a
//! template, and its other members are dropped.
//!
//! A value is resolved in one pass: what a template expands to is not
//! resolved again. A reference to nothing renders as nothing; it is no
//! error. A template in which a partial might call itself is refused: the
//! engine does not return from such a call.

use crate::error::{Error, Failure};
use crate::value::{entries_view, get_entry, items_view, lookup, Entry, JsonModel, JsonNumber, Json};
use vstd::prelude::*;

verus! {

/// The name of the member that marks a record as a template.
pub open spec fn marker() -> Seq<char> {
    "__template__"@
}

/// Whether `c` occurs twice in a row in `text`.
pub open spec fn doubled(text: Seq<char>, c: char) -> bool {
    exists|i: int| 0 <= i && i + 1 < text.len() && text[i] == c && #[trigger] text[i + 1] == c
}

/// Whether a string is to be rendered: it holds an opening and a closing
/// pair of braces.
pub open spec fn has_markup(text: Seq<char>) -> bool {
    doubled(text, '{') && doubled(text, '}')
}

/// Whether a character may stand between the braces that open an expression
/// and the sign that says of what kind the expression is.
pub open spec fn filler(c: char) -> bool {
    c == ' ' || c == '\t' || c == '\n' || c == '\r' || c == '~' || c == '#' || c == '{'
}

/// Whether the expression that opens at `from` reaches `to` with nothing but
/// filler in between.
pub open spec fn opens(text: Seq<char>, from: int, to: int) -> bool {
    &&& 0 <= from
    &&& from + 1 < to <= text.len()
    &&& text[from] == '{'
    &&& text[from + 1] == '{'
    &&& forall|k: int| from + 1 < k < to ==> filler(#[trigger] text[k])
}

/// Whether the character at `at` is `sign` and stands where the first sign
/// of an expression stands: behind two opening braces and nothing but filler.
/// This is read off the characters alone, so it holds as well of text that
/// the engine takes for escaped or for a comment.
pub open spec fn sign_at(text: Seq<char>, at: int, sign: char) -> bool {
    &&& 0 <= at < text.len()
    &&& text[at] == sign
    &&& exists|from: int| #[trigger] opens(text, from, at)
}

/// Whether what can be read as the opening of a decorator, such as the
/// definition of an inline partial, stands before `end`.
pub open spec fn defined_before(text: Seq<char>, end: int) -> bool {
    exists|at: int| at < end && #[trigger] sign_at(text, at, '*')
}

/// Whether what can be read as the call of a partial stands before `end`
/// and behind the opening of a decorator.
pub open spec fn called_before(text: Seq<char>, end: int) -> bool {
    exists|at: int| at < end && #[trigger] sign_at(text, at, '>') && defined_before(text, at)
}

/// Whether what can be read as a closing tag stands before `end` and behind
/// such a call.
pub open spec fn closed_before(text: Seq<char>, end: int) -> bool {
    exists|at: int| at < end && #[trigger] sign_at(text, at, '/') && called_before(text, at)
}

/// Whether a partial of the template might call itself. A partial can reach
/// itself only from inside the block that defines it, so the template must
/// hold, in this order, the opening of a decorator, the call of a partial,
/// and a closing tag. That is what this says, read off the characters alone:
/// it holds of every template in which a partial calls itself or one that
/// calls it, and of some in which none does. Such a template is not
/// rendered, because the engine does not return from a partial that calls
/// itself.
pub open spec fn may_recurse(text: Seq<char>) -> bool {
    closed_before(text, text.len() as int)
}

/// Why a template whose partials might call themselves is refused.
pub open spec fn recursion_refusal() -> Seq<char> {
    "partials that might call themselves are not supported"@
}

/// Why a template did not expand: the template, and the reason where the
/// library gives it. Where the engine refuses a template the reason is the
/// engine's, and nothing is said of it.
pub struct Unrendered {
    pub template: Seq<char>,
    pub reason: Option<Seq<char>>,
}

/// Whether a failure reports that a template did not expand: it names that
/// template, and gives the reason where one is fixed.
pub open spec fn reports(failure: Failure, cause: Unrendered) -> bool {
    match failure {
        Failure::TemplateRender { template, reason } => template == cause.template && (
        cause.reason matches Some(fixed) ==> reason == fixed),
        _ => false,
    }
}

/// The template that a record stands for, if it stands for one.
pub open spec fn template_of(entries: Seq<(Seq<char>, JsonModel)>) -> Option<Seq<char>> {
    match lookup(entries, marker()) {
        Some(JsonModel::String(template)) => Some(template),
        _ => None,
    }
}

/// What the template engine makes of `template` over `scope`: the rendered
/// text, or nothing where it refuses the template.
pub uninterp spec fn rendered(template: Seq<char>, scope: JsonModel) -> Option<Seq<char>>;

/// What the JSON reader makes of `text`: the value that it denotes, or
/// nothing where `text` is not one JSON document.
pub uninterp spec fn parsed(text: Seq<char>) -> Option<JsonModel>;

/// The value that rendered text stands for: what it reads as, or else the
/// text itself.
pub open spec fn typed_or_text(text: Seq<char>, reading: Option<JsonModel>) -> JsonModel {
    match reading {
        Some(value) => value,
        None => JsonModel::String(text),
    }
}

/// What a template expands to, given what rendering it gave.
pub open spec fn interpreted(template: Seq<char>, outcome: Result<Seq<char>, Seq<char>>) -> Result<
    JsonModel,
    Failure,
> {
    match outcome {
        Ok(text) => Ok(typed_or_text(text, parsed(text))),
        Err(reason) => Err(Failure::TemplateRender { template, reason }),
    }
}

/// What a template expands to over `scope`: the value that the rendered
/// text stands for; or why it did not expand.
pub open spec fn expanded(template: Seq<char>, scope: JsonModel) -> Result<JsonModel, Unrendered> {
    if may_recurse(template) {
        Err(Unrendered { template, reason: Some(recursion_refusal()) })
    } else {
        match rendered(template, scope) {
            Some(text) => Ok(typed_or_text(text, parsed(text))),
            None => Err(Unrendered { template, reason: None }),
        }
    }
}

/// `value` with every template in it expanded over `scope`, or the failure
/// of the first template, in reading order, that cannot be rendered.
pub open spec fn resolved(scope: JsonModel, value: JsonModel) -> Result<JsonModel, Unrendered>
    decreases value,
{
    match value {
        JsonModel::Object(entries) => match template_of(entries) {
            Some(template) => expanded(template, scope),
            None => match resolved_entries(scope, entries) {
                Ok(members) => Ok(JsonModel::Object(members)),
                Err(failure) => Err(failure),
            },
        },
        JsonModel::Array(items) => match resolved_items(scope, items) {
            Ok(values) => Ok(JsonModel::Array(values)),
            Err(failure) => Err(failure),
        },
        JsonModel::String(text) => if has_markup(text) {
            expanded(text, scope)
        } else {
            Ok(value)
        },
        _ => Ok(value),
    }
}

/// The items of a list, each resolved, first to last.
pub open spec fn resolved_items(scope: JsonModel, items: Seq<JsonModel>) -> Result<Seq<JsonModel>, Unrendered>
    decreases items,
{
    if items.len() == 0 {
        Ok(Seq::empty())
    } else {
        match resolved_items(scope, items.drop_last()) {
            Err(failure) => Err(failure),
            Ok(front) => match resolved(scope, items.last()) {
                Err(failure) => Err(failure),
                Ok(value) => Ok(front.push(value)),
            },
        }
    }
}

/// The members of a record, each under its name and resolved, first to last.
pub open spec fn resolved_entries(scope: JsonModel, entries: Seq<(Seq<char>, JsonModel)>) -> Result<
    Seq<(Seq<char>, JsonModel)>,
    Unrendered,
>
    decreases entries,
{
    if entries.len() == 0 {
        Ok(Seq::empty())
    } else {
        match resolved_entries(scope, entries.drop_last()) {
            Err(failure) => Err(failure),
            Ok(front) => match resolved(scope, entries.last().1) {
                Err(failure) => Err(failure),
                Ok(value) => Ok(front.push((entries.last().0, value))),
            },
        }
    }
}

/// `serde_json::Value`, the form in which the template engine and the JSON
/// reader take and give structured data. Nothing is known of what a value of
/// it holds.
#[verifier::external_type_specification]
#[verifier::external_body]
pub struct ExJsonValue(serde_json::Value);

/// `serde_json::Number`, the number inside a `serde_json::Value`.
#[verifier::external_type_specification]
#[verifier::external_body]
pub struct ExJsonNumber(serde_json::Number);

/// Hands a number to `serde_json`, through `serde_json::Value::from` for an
/// integer and `str::parse::<serde_json::Number>` for decimal text; text
/// that is no number becomes null. It serves the two calls below, and
/// nothing is claimed of its result.
#[verifier::external_body]
fn number_to_json(number: &JsonNumber) -> serde_json::Value {
    match number {
        JsonNumber::PosInt(n) => serde_json::Value::from(*n),
        JsonNumber::NegInt(n) => serde_json::Value::from(*n),
        JsonNumber::Decimal(text) => match text.parse::<serde_json::Number>() {
            Ok(n) => serde_json::Value::Number(n),
            Err(_) => serde_json::Value::Null,
        },
    }
}

/// Takes a number from `serde_json`, telling its three kinds apart with
/// `serde_json::Number::as_u64` and `as_i64`; one that is no integer is kept
/// as the text that `to_string` gives. It serves the two calls below, and
/// nothing is claimed of its result.
#[verifier::external_body]
fn number_from_json(number: &serde_json::Number) -> JsonNumber {
    match (number.as_u64(), number.as_i64()) {
        (Some(n), _) => JsonNumber::PosInt(n),
        (None, Some(n)) => JsonNumber::NegInt(n),
        (None, None) => JsonNumber::Decimal(number.to_string()),
    }
}

/// Hands a value to `serde_json`, variant by variant; the members of a
/// record are collected into a `serde_json::Map`, which keeps the last of
/// those that share a name. It serves the call of the template engine, and
/// nothing is claimed of its result.
#[verifier::external_body]
fn to_json(value: &Json) -> serde_json::Value {
    match value {
        Json::Null => serde_json::Value::Null,
        Json::Bool(b) => serde_json::Value::Bool(*b),
        Json::Number(n) => number_to_json(n),
        Json::String(s) => serde_json::Value::String(s.clone()),
        Json::Array(items) => serde_json::Value::Array(items.iter().map(to_json).collect()),
        Json::Object(entries) => serde_json::Value::Object(
            entries.iter().map(|e| (e.key.clone(), to_json(&e.value))).collect(),
        ),
    }
}

/// Takes a value from `serde_json`, variant by variant; the members of a
/// record come in the order in which its `serde_json::Map` hands them out.
/// It serves the call of the JSON reader, and nothing is claimed of its
/// result.
#[verifier::external_body]
fn from_json(value: serde_json::Value) -> Json {
    match value {
        serde_json::Value::Null => Json::Null,
        serde_json::Value::Bool(b) => Json::Bool(b),
        serde_json::Value::Number(n) => Json::Number(number_from_json(&n)),
        serde_json::Value::String(s) => Json::String(s),
        serde_json::Value::Array(items) => Json::Array(items.into_iter().map(from_json).collect()),
        serde_json::Value::Object(members) => Json::Object(
            members.into_iter().map(|(key, v)| Entry { key, value: from_json(v) }).collect(),
        ),
    }
}

/// Renders `template` over `scope` with `handlebars`: a fresh registry from
/// `Handlebars::new`, taken out of strict mode with `set_strict_mode`, so
/// that a reference to nothing renders as nothing, and then
/// `render_template`. Whether the engine renders the template, and the text
/// if it does, depend on the template and the scope alone. The words in
/// which it refuses a template do not: where several things are wrong it
/// may name any of them. They are handed on as `to_string` gives them, and
/// nothing is claimed of them. The engine does not return from a partial
/// that calls itself, so a template in which one might is not to be handed
/// to it.
#[verifier::external_body]
fn render(template: &str, scope: &Json) -> (outcome: Result<String, String>)
    requires
        !may_recurse(template@),
    ensures
        match outcome {
            Ok(text) => rendered(template@, scope@) == Some(text@),
            Err(_) => rendered(template@, scope@) is None,
        },
{
    let mut registry = handlebars::Handlebars::new();
    registry.set_strict_mode(false);
    registry.render_template(template, &to_json(scope)).map_err(|e| e.to_string())
}

/// Reads `text` with `serde_json::from_str`. The outcome is the reader's,
/// and depends on the text alone: the value of the one JSON document that
/// `text` is, or nothing.
#[verifier::external_body]
fn parse(text: &str) -> (reading: Option<Json>)
    ensures
        parsed(text@) == match reading {
            Some(value) => Some(value@),
            None => None::<JsonModel>,
        },
{
    serde_json::from_str::<serde_json::Value>(text).ok().map(from_json)
}

/// Whether `c` occurs twice in a row in `text`.
fn has_doubled(text: &str, c: char) -> (found: bool)
    ensures
        found == doubled(text@, c),
{
    let mut found = false;
    let mut after_one = false;
    for current in iter: text.chars()
        invariant
            iter.seq() == text@,
            found == doubled(text@.take(iter.index() as int), c),
            after_one == (iter.index() > 0 && text@[iter.index() - 1] == c),
    {
        let ghost seen = text@.take(iter.index() as int);
        let ghost next = text@.take(iter.index() + 1);
        proof {
            if current == c && after_one {
                assert(next[iter.index() - 1] == c && next[iter.index() - 1 + 1] == c);
            }
            if doubled(seen, c) {
                let i = choose|i: int|
                    0 <= i && i + 1 < seen.len() && seen[i] == c && #[trigger] seen[i + 1] == c;
                assert(next[i] == c && next[i + 1] == c);
            }
            if doubled(next, c) {
                let i = choose|i: int|
                    0 <= i && i + 1 < next.len() && next[i] == c && #[trigger] next[i + 1] == c;
                if i + 1 < seen.len() {
                    assert(seen[i] == c && seen[i + 1] == c);
                }
            }
        }
        found = found || (after_one && current == c);
        after_one = current == c;
    }
    assert(text@.take(text@.len() as int) =~= text@);
    found
}

fn is_filler(c: char) -> (yes: bool)
    ensures
        yes == filler(c),
{
    c == ' ' || c == '\t' || c == '\n' || c == '\r' || c == '~' || c == '#' || c == '{'
}

/// Whether a partial of the template might call itself.
pub fn risks_recursion(text: &str) -> (found: bool)
    ensures
        found == may_recurse(text@),
{
    let mut defined = false;
    let mut called = false;
    let mut closed = false;
    let mut open = false;
    let mut after_brace = false;
    for current in iter: text.chars()
        invariant
            iter.seq() == text@,
            iter.index() <= text@.len(),
            defined == defined_before(text@, iter.index() as int),
            called == called_before(text@, iter.index() as int),
            closed == closed_before(text@, iter.index() as int),
            open == (exists|from: int| #[trigger] opens(text@, from, iter.index() as int)),
            after_brace == (iter.index() > 0 && text@[iter.index() - 1] == '{'),
    {
        let ghost n = iter.index() as int;
        let fills = is_filler(current);
        let now_open = (open && fills) || (after_brace && current == '{');
        proof {
            // An expression is open behind this character exactly where one
            // was open before it and goes on, or one has just opened.
            if open && fills {
                let from = choose|from: int| #[trigger] opens(text@, from, n);
                assert(opens(text@, from, n + 1));
            }
            if after_brace && current == '{' {
                assert(opens(text@, n - 1, n + 1));
            }
            if exists|from: int| #[trigger] opens(text@, from, n + 1) {
                let from = choose|from: int| #[trigger] opens(text@, from, n + 1);
                if from + 1 < n {
                    assert(filler(text@[n]));
                    assert(opens(text@, from, n));
                }
            }
            // This character is a sign exactly where an expression is open
            // before it.
            assert(sign_at(text@, n, current) == open);
            // Each of the three is found before the next character exactly
            // where it was found before this one, or is found here.
            lemma_found_here(text@, n);
        }
        closed = closed || (called && open && current == '/');
        called = called || (defined && open && current == '>');
        defined = defined || (open && current == '*');
        open = now_open;
        after_brace = current == '{';
    }
    closed
}

/// What stands before the character behind `at` is what stands before `at`,
/// and the character at `at`.
proof fn lemma_found_here(text: Seq<char>, at: int)
    requires
        0 <= at < text.len(),
    ensures
        defined_before(text, at + 1) == (defined_before(text, at) || sign_at(text, at, '*')),
        called_before(text, at + 1) == (called_before(text, at) || (sign_at(text, at, '>')
            && defined_before(text, at))),
        closed_before(text, at + 1) == (closed_before(text, at) || (sign_at(text, at, '/')
            && called_before(text, at))),
{
    if defined_before(text, at + 1) {
        let p = choose|p: int| p < at + 1 && #[trigger] sign_at(text, p, '*');
        if p < at {
            assert(defined_before(text, at));
        }
    }
    if sign_at(text, at, '*') {
        assert(defined_before(text, at + 1));
    }
    if defined_before(text, at) {
        let p = choose|p: int| p < at && #[trigger] sign_at(text, p, '*');
        assert(p < at + 1);
    }
    if called_before(text, at + 1) {
        let q = choose|q: int|
            q < at + 1 && #[trigger] sign_at(text, q, '>') && defined_before(text, q);
        if q < at {
            assert(called_before(text, at));
        }
    }
    if sign_at(text, at, '>') && defined_before(text, at) {
        assert(called_before(text, at + 1));
    }
    if called_before(text, at) {
        let q = choose|q: int| q < at && #[trigger] sign_at(text, q, '>') && defined_before(text, q);
        assert(q < at + 1);
    }
    if closed_before(text, at + 1) {
        let r = choose|r: int|
            r < at + 1 && #[trigger] sign_at(text, r, '/') && called_before(text, r);
        if r < at {
            assert(closed_before(text, at));
        }
    }
    if sign_at(text, at, '/') && called_before(text, at) {
        assert(closed_before(text, at + 1));
    }
    if closed_before(text, at) {
        let r = choose|r: int| r < at && #[trigger] sign_at(text, r, '/') && called_before(text, r);
        assert(r < at + 1);
    }
}

/// Whether a string is to be rendered.
pub fn is_inline_template(text: &str) -> (yes: bool)
    ensures
        yes == has_markup(text@),
{
    has_doubled(text, '{') && has_doubled(text, '}')
}

/// The value that rendered text stands for: what it read as, or else the
/// text itself.
pub fn typed(text: String, reading: Option<Json>) -> (value: Json)
    ensures
        value@ == typed_or_text(
            text@,
            match reading {
                Some(v) => Some(v@),
                None => None,
            },
        ),
{
    match reading {
        Some(value) => value,
        None => Json::String(text),
    }
}

/// What a template expands to, given what rendering it gave: the value that
/// the rendered text stands for, or the failure that names the template.
pub fn interpret(template: &str, outcome: Result<String, String>) -> (result: Result<Json, Error>)
    ensures
        match result {
            Ok(value) => outcome is Ok && interpreted(template@, Ok(outcome->Ok_0@)) == Ok::<
                JsonModel,
                Failure,
            >(value@),
            Err(error) => outcome is Err && error@ == (Failure::TemplateRender {
                template: template@,
                reason: outcome->Err_0@,
            }),
        },
{
    match outcome {
        Ok(text) => {
            let reading = parse(text.as_str());
            Ok(typed(text, reading))
        },
        Err(reason) => Err(Error::TemplateRender { template: template.to_owned(), reason }),
    }
}

/// Expands one template over `scope`. A template in which a partial might
/// call itself is refused; any other is rendered, and fails where the engine
/// refuses it.
pub fn expand(template: &str, scope: &Json) -> (result: Result<Json, Error>)
    ensures
        match result {
            Ok(value) => expanded(template@, scope@) == Ok::<JsonModel, Unrendered>(value@),
            Err(error) => expanded(template@, scope@) matches Err(cause) && reports(
                error@,
                cause,
            ),
        },
{
    if risks_recursion(template) {
        return Err(
            Error::TemplateRender {
                template: template.to_owned(),
                reason: "partials that might call themselves are not supported".to_owned(),
            },
        );
    }
    interpret(template, render(template, scope))
}

/// Expands every template in `value` over `scope`.
pub fn resolve_value(scope: &Json, value: &Json) -> (result: Result<Json, Error>)
    ensures
        match result {
            Ok(whole) => resolved(scope@, value@) == Ok::<JsonModel, Unrendered>(whole@),
            Err(error) => resolved(scope@, value@) matches Err(cause) && reports(error@, cause),
        },
    decreases value,
{
    match value {
        Json::Object(entries) => {
            match get_entry(entries, "__template__") {
                Some(Json::String(template)) => {
                    return expand(template.as_str(), scope);
                },
                _ => {},
            }
            assert(decreases_to!(value => value->Object_0));
            match resolve_entries(scope, entries) {
                Ok(members) => Ok(Json::Object(members)),
                Err(error) => Err(error),
            }
        },
        Json::Array(items) => {
            let ghost model = items_view(items@);
            let mut values: Vec<Json> = Vec::new();
            let mut i: usize = 0;
            assert(model.take(0) =~= Seq::empty() && items_view(values@) =~= Seq::empty());
            while i < items.len()
                invariant
                    i <= items.len(),
                    *value == Json::Array(*items),
                    model == items_view(items@),
                    resolved_items(scope@, model.take(i as int)) == Ok::<Seq<JsonModel>, Unrendered>(
                        items_view(values@),
                    ),
                decreases items.len() - i,
            {
                assert(decreases_to!(value => value->Array_0));
                assert(model.take(i + 1).drop_last() =~= model.take(i as int));
                match resolve_value(scope, &items[i]) {
                    Ok(item) => {
                        let ghost before = items_view(values@);
                        values.push(item);
                        assert(items_view(values@) =~= before.push(item@));
                    },
                    Err(error) => {
                        proof {
                            lemma_items_failure(scope@, model, i + 1);
                        }
                        return Err(error);
                    },
                }
                i = i + 1;
            }
            assert(model.take(i as int) =~= model);
            Ok(Json::Array(values))
        },
        Json::String(text) => {
            if is_inline_template(text.as_str()) {
                expand(text.as_str(), scope)
            } else {
                Ok(value.clone())
            }
        },
        _ => Ok(value.clone()),
    }
}

/// Expands every template in the members of a record over `scope`; each
/// member keeps its name and its place.
pub fn resolve_entries(scope: &Json, entries: &Vec<Entry>) -> (result: Result<Vec<Entry>, Error>)
    ensures
        match result {
            Ok(members) => resolved_entries(scope@, entries_view(entries@)) == Ok::<
                Seq<(Seq<char>, JsonModel)>,
                Unrendered,
            >(entries_view(members@)),
            Err(error) => resolved_entries(scope@, entries_view(entries@)) matches Err(cause)
                && reports(error@, cause),
        },
    decreases entries,
{
    let ghost model = entries_view(entries@);
    let mut members: Vec<Entry> = Vec::new();
    let mut i: usize = 0;
    assert(model.take(0) =~= Seq::empty() && entries_view(members@) =~= Seq::empty());
    while i < entries.len()
        invariant
            i <= entries.len(),
            model == entries_view(entries@),
            resolved_entries(scope@, model.take(i as int)) == Ok::<Seq<(Seq<char>, JsonModel)>, Unrendered>(
                entries_view(members@),
            ),
        decreases entries.len() - i,
    {
        assert(model.take(i + 1).drop_last() =~= model.take(i as int));
        match resolve_value(scope, &entries[i].value) {
            Ok(member) => {
                let ghost before = entries_view(members@);
                let key = entries[i].key.clone();
                members.push(Entry { key, value: member });
                assert(entries_view(members@) =~= before.push((model[i as int].0, member@)));
            },
            Err(error) => {
                proof {
                    lemma_entries_failure(scope@, model, i + 1);
                }
                return Err(error);
            },
        }
        i = i + 1;
    }
    assert(model.take(i as int) =~= model);
    Ok(members)
}

/// A failure among the first `n` items is the failure of the whole list.
proof fn lemma_items_failure(scope: JsonModel, items: Seq<JsonModel>, n: int)
    requires
        0 <= n <= items.len(),
        resolved_items(scope, items.take(n)) is Err,
    ensures
        resolved_items(scope, items) == resolved_items(scope, items.take(n)),
    decreases items.len() - n,
{
    if n < items.len() {
        assert(items.take(n + 1).drop_last() =~= items.take(n));
        lemma_items_failure(scope, items, n + 1);
    } else {
        assert(items.take(n) =~= items);
    }
}

/// A failure among the first `n` members is the failure of the whole record.
proof fn lemma_entries_failure(scope: JsonModel, entries: Seq<(Seq<char>, JsonModel)>, n: int)
    requires
        0 <= n <= entries.len(),
        resolved_entries(scope, entries.take(n)) is Err,
    ensures
        resolved_entries(scope, entries) == resolved_entries(scope, entries.take(n)),
    decreases entries.len() - n,
{
    if n < entries.len() {
        assert(entries.take(n + 1).drop_last() =~= entries.take(n));
        lemma_entries_failure(scope, entries, n + 1);
    } else {
        assert(entries.take(n) =~= entries);
    }
}

/// Whether a value holds no template: no record in it stands for one, and
/// no string in it is to be rendered.
pub open spec fn plain(value: JsonModel) -> bool
    decreases value,
{
    match value {
        JsonModel::Object(entries) => template_of(entries) is None && forall|i: int|
            0 <= i < entries.len() ==> plain(#[trigger] entries[i].1),
        JsonModel::Array(items) => forall|i: int| 0 <= i < items.len() ==> plain(#[trigger] items[i]),
        JsonModel::String(text) => !has_markup(text),
        _ => true,
    }
}

/// Resolving a value that holds no template gives the value itself,
/// whatever the scope.
pub proof fn lemma_resolve_plain(scope: JsonModel, value: JsonModel)
    requires
        plain(value),
    ensures
        resolved(scope, value) == Ok::<JsonModel, Unrendered>(value),
    decreases value, 0nat,
{
    match value {
        JsonModel::Object(entries) => {
            lemma_resolve_plain_entries(scope, entries, entries.len() as int);
            assert(entries.take(entries.len() as int) =~= entries);
        },
        JsonModel::Array(items) => {
            lemma_resolve_plain_items(scope, items, items.len() as int);
            assert(items.take(items.len() as int) =~= items);
        },
        _ => {},
    }
}

proof fn lemma_resolve_plain_items(scope: JsonModel, items: Seq<JsonModel>, n: int)
    requires
        0 <= n <= items.len(),
        forall|i: int| 0 <= i < items.len() ==> plain(#[trigger] items[i]),
    ensures
        resolved_items(scope, items.take(n)) == Ok::<Seq<JsonModel>, Unrendered>(items.take(n)),
    decreases items, n,
{
    if n > 0 {
        lemma_resolve_plain_items(scope, items, n - 1);
        lemma_resolve_plain(scope, items[n - 1]);
        assert(items.take(n).drop_last() =~= items.take(n - 1));
        assert(items.take(n - 1).push(items[n - 1]) =~= items.take(n));
    } else {
        assert(items.take(0) =~= Seq::empty());
    }
}

proof fn lemma_resolve_plain_entries(scope: JsonModel, entries: Seq<(Seq<char>, JsonModel)>, n: int)
    requires
        0 <= n <= entries.len(),
        forall|i: int| 0 <= i < entries.len() ==> plain(#[trigger] entries[i].1),
    ensures
        resolved_entries(scope, entries.take(n)) == Ok::<Seq<(Seq<char>, JsonModel)>, Unrendered>(
            entries.take(n),
        ),
    decreases entries, n,
{
    if n > 0 {
        lemma_resolve_plain_entries(scope, entries, n - 1);
        lemma_resolve_plain(scope, entries[n - 1].1);
        assert(entries.take(n).drop_last() =~= entries.take(n - 1));
        assert(entries.take(n - 1).push(entries[n - 1]) =~= entries.take(n));
    } else {
        assert(entries.take(0) =~= Seq::empty());
    }
}

/// Resolving is idempotent on a value that holds no template: resolving
/// what resolving gave changes nothing.
pub proof fn lemma_resolve_idempotent(scope: JsonModel, value: JsonModel)
    requires
        plain(value),
    ensures
        resolved(scope, value) is Ok,
        resolved(scope, resolved(scope, value)->Ok_0) == resolved(scope, value),
{
    lemma_resolve_plain(scope, value);
}

/// A record that stands for a template resolves to what the template
/// expands to, and to nothing else.
pub proof fn lemma_marker_replaces_record(
    scope: JsonModel,
    entries: Seq<(Seq<char>, JsonModel)>,
    template: Seq<char>,
)
    requires
        template_of(entries) == Some(template),
    ensures
        resolved(scope, JsonModel::Object(entries)) == expanded(template, scope),
{
}

/// The members beside the marker have no part in what a template record
/// resolves to: two records that stand for the same template resolve alike.
pub proof fn lemma_siblings_ignored(
    scope: JsonModel,
    first: Seq<(Seq<char>, JsonModel)>,
    second: Seq<(Seq<char>, JsonModel)>,
)
    requires
        template_of(first) is Some,
        template_of(first) == template_of(second),
    ensures
        resolved(scope, JsonModel::Object(first)) == resolved(scope, JsonModel::Object(second)),
{
}

} // verus!
