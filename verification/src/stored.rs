//! Stored standard results read back from their JSON text: whatever the
//! text holds is read field by field, so results written by older versions
//! (without a log id or count) still give their fields.

use vstd::prelude::*;
use crate::json::{json_parse, json_value_parse, jget, jview, JView, JsonValue};
use crate::row_list::{RowItem, items_view};
use crate::standard::{StandardResult, WordValue, WordView, words_view};
use crate::text::str_eq;

verus! {

/// The text of a JSON string value, if it is one.
pub open spec fn str_of_view(v: Option<JView>) -> Option<Seq<char>> {
    match v {
        Some(JView::Str(s)) => Some(s),
        _ => None,
    }
}

/// A stored list item read loosely: its `word` and `row` texts, empty when
/// missing or not text.
pub open spec fn loose_item(x: JView) -> (Seq<char>, Seq<char>) {
    match x {
        JView::Object(o) => (
            match str_of_view(jget(o, "word"@)) {
                Some(w) => w,
                None => Seq::empty(),
            },
            match str_of_view(jget(o, "row"@)) {
                Some(r) => r,
                None => Seq::empty(),
            },
        ),
        _ => (Seq::empty(), Seq::empty()),
    }
}

/// The fields of the first `n` entries of a stored `words_result` object:
/// a text stays a text, an array becomes its items read loosely, other
/// values are left out.
pub open spec fn stored_words(o: Seq<(Seq<char>, JView)>, n: int) -> Seq<(Seq<char>, WordView)>
    decreases n,
{
    if n <= 0 || n > o.len() {
        Seq::empty()
    } else {
        let prev = stored_words(o, n - 1);
        match o[n - 1].1 {
            JView::Str(s) => prev.push((o[n - 1].0, WordView::Text(s))),
            JView::Array(a) => prev.push(
                (o[n - 1].0, WordView::Rows(Seq::new(a.len(), |i: int| loose_item(a[i])))),
            ),
            _ => prev,
        }
    }
}

/// A stored result read from its JSON value: the `log_id` text (empty when
/// missing), the `words_result_num` count (0 when missing or not a
/// non-negative integer) and the fields of `words_result` (none when it is
/// not an object).
pub open spec fn stored_spec(j: Option<JView>) -> (Seq<char>, nat, Seq<(Seq<char>, WordView)>) {
    match j {
        Some(JView::Object(top)) => (
            match str_of_view(jget(top, "log_id"@)) {
                Some(s) => s,
                None => Seq::empty(),
            },
            match jget(top, "words_result_num"@) {
                Some(JView::Number(_t, _i, Some(u))) => u as nat,
                _ => 0,
            },
            match jget(top, "words_result"@) {
                Some(JView::Object(o)) => stored_words(o, o.len() as int),
                _ => Seq::empty(),
            },
        ),
        _ => (Seq::empty(), 0, Seq::empty()),
    }
}

/// The view of a standard result.
pub open spec fn result_view(r: StandardResult) -> (Seq<char>, nat, Seq<(Seq<char>, WordView)>) {
    (r.log_id@, r.words_result_num as nat, words_view(r.words_result@))
}

fn member<'a>(o: &'a Vec<(String, JsonValue)>, key: &str) -> (r: Option<&'a JsonValue>)
    ensures
        match r {
            Some(v) => jget(jview(JsonValue::Object(*o))->Object_0, key@) == Some(jview(*v)),
            None => jget(jview(JsonValue::Object(*o))->Object_0, key@) is None,
        },
{
    let ghost ov = jview(JsonValue::Object(*o))->Object_0;
    let mut i: usize = 0;
    while i < o.len()
        invariant
            i <= o@.len(),
            ov == jview(JsonValue::Object(*o))->Object_0,
            ov.len() == o@.len(),
            forall|k: int| 0 <= k < o@.len() ==> #[trigger] ov[k] == (o@[k].0@, jview(o@[k].1)),
            jget(ov, key@) == crate::json::jget_from(ov, key@, i as int),
        decreases o.len() - i,
    {
        if str_eq(o[i].0.as_str(), key) {
            return Some(&o[i].1);
        }
        i += 1;
    }
    None
}

fn text_or_empty(v: Option<&JsonValue>) -> (r: String)
    ensures
        r@ == (match v {
            Some(x) => match str_of_view(Some(jview(*x))) {
                Some(s) => s,
                None => Seq::empty(),
            },
            None => Seq::<char>::empty(),
        }),
{
    match v {
        Some(JsonValue::Str(s)) => s.clone(),
        _ => String::new(),
    }
}

fn loose_item_exec(x: &JsonValue) -> (r: RowItem)
    ensures
        r@ == loose_item(jview(*x)),
{
    match x {
        JsonValue::Object(o) => {
            proof {
                reveal_strlit("word");
                reveal_strlit("row");
            }
            let w = text_or_empty(member(o, "word"));
            let r = text_or_empty(member(o, "row"));
            RowItem { word: w, row: r }
        },
        _ => RowItem { word: String::new(), row: String::new() },
    }
}

fn loose_items(a: &Vec<JsonValue>) -> (r: Vec<RowItem>)
    ensures
        items_view(r@) == Seq::new(a@.len(), |i: int| loose_item(jview(a@[i]))),
{
    let mut out: Vec<RowItem> = Vec::new();
    let mut i: usize = 0;
    while i < a.len()
        invariant
            i <= a@.len(),
            out@.len() == i,
            forall|k: int| 0 <= k < i ==> (#[trigger] out@[k])@ == loose_item(jview(a@[k])),
        decreases a.len() - i,
    {
        out.push(loose_item_exec(&a[i]));
        i += 1;
    }
    assert(items_view(out@) =~= Seq::new(a@.len(), |i: int| loose_item(jview(a@[i]))));
    out
}

fn stored_words_exec(o: &Vec<(String, JsonValue)>) -> (r: Vec<(String, WordValue)>)
    ensures
        words_view(r@) == stored_words(
            jview(JsonValue::Object(*o))->Object_0,
            o@.len() as int,
        ),
{
    let ghost ov = jview(JsonValue::Object(*o))->Object_0;
    let mut out: Vec<(String, WordValue)> = Vec::new();
    let mut i: usize = 0;
    while i < o.len()
        invariant
            i <= o@.len(),
            ov == jview(JsonValue::Object(*o))->Object_0,
            ov.len() == o@.len(),
            forall|k: int| 0 <= k < o@.len() ==> #[trigger] ov[k] == (o@[k].0@, jview(o@[k].1)),
            words_view(out@) == stored_words(ov, i as int),
        decreases o.len() - i,
    {
        let ghost before = out@;
        assert(ov[i as int] == (o@[i as int].0@, jview(o@[i as int].1)));
        match &o[i].1 {
            JsonValue::Str(s) => {
                out.push((o[i].0.clone(), WordValue::Text(s.clone())));
                assert(words_view(out@) =~= words_view(before).push((o@[i as int].0@, WordView::Text(s@))));
            },
            JsonValue::Array(a) => {
                let items = loose_items(a);
                let ghost av = jview(o@[i as int].1)->Array_0;
                assert(av.len() == a@.len());
                assert(Seq::new(av.len(), |q: int| loose_item(av[q])) =~= Seq::new(
                    a@.len(),
                    |q: int| loose_item(jview(a@[q])),
                ));
                out.push((o[i].0.clone(), WordValue::Rows(items)));
                assert(words_view(out@) =~= words_view(before).push(
                    (o@[i as int].0@, WordView::Rows(Seq::new(av.len(), |q: int| loose_item(av[q])))),
                ));
            },
            _ => {},
        }
        i += 1;
    }
    out
}

/// A stored standard result read back from its JSON text (see
/// `stored_spec`); a text serde_json cannot read gives an empty result.
pub fn stored_result(text: &str) -> (r: StandardResult)
    ensures
        result_view(r) == stored_spec(json_parse(text@)),
{
    let empty = StandardResult { log_id: String::new(), words_result_num: 0, words_result: Vec::new() };
    proof {
        assert(words_view(empty.words_result@) =~= Seq::empty());
    }
    match json_value_parse(text) {
        Some(JsonValue::Object(top)) => {
            proof {
                reveal_strlit("log_id");
                reveal_strlit("words_result_num");
                reveal_strlit("words_result");
            }
            let log_id = text_or_empty(member(&top, "log_id"));
            let num: u64 = match member(&top, "words_result_num") {
                Some(JsonValue::Number { unsigned: Some(u), .. }) => *u,
                _ => 0,
            };
            let words = match member(&top, "words_result") {
                Some(JsonValue::Object(o)) => stored_words_exec(o),
                _ => {
                    let w: Vec<(String, WordValue)> = Vec::new();
                    assert(words_view(w@) =~= Seq::empty());
                    w
                },
            };
            StandardResult { log_id: log_id, words_result_num: num, words_result: words }
        },
        _ => empty,
    }
}

} // verus!
