//! The terminal structured output: the task breakdown schema, and the
//! parser that reads the model's final answer into it.

use vstd::prelude::*;

use crate::jsonio::{json_ok, json_tree_opt, parse_json_tree, spec_as_list, spec_get, tree_get,
    tree_list, tree_text, JsonVal};

verus! {

/// The description of the changes one task asks for.
#[derive(Clone, Debug)]
pub struct Changes {
    pub description: String,
}

/// One task of the final breakdown; never mutated after creation.
#[derive(Clone, Debug)]
pub struct Task {
    pub objective: String,
    pub affected_files: Vec<String>,
    pub changes: Changes,
}

/// The final structured answer: an ordered list of tasks.
#[derive(Clone, Debug)]
pub struct Response {
    pub tasks: Vec<Task>,
}

/// A failed final parse, carrying the raw response text so the caller can
/// surface it without aborting.
#[derive(Clone, Debug)]
pub struct ParseError {
    pub raw: String,
}

/// The strict output-format schema attached to the finalization call.
pub const RESPONSE_FORMAT: &'static str = "{\"type\":\"object\",\"properties\":{\"tasks\":{\"type\":\"array\",\"description\":\"A list of tasks.\",\"items\":{\"type\":\"object\",\"properties\":{\"objective\":{\"type\":\"string\",\"description\":\"The main objective of the task.\"},\"affected_files\":{\"type\":\"array\",\"description\":\"A list of file paths affected by the task.\",\"items\":{\"type\":\"string\"}},\"changes\":{\"type\":\"object\",\"description\":\"Details of the planned changes.\",\"properties\":{\"description\":{\"type\":\"string\",\"description\":\"Plain-language description of the planned code changes.\"}},\"required\":[\"description\"],\"additionalProperties\":false}},\"required\":[\"objective\",\"affected_files\",\"changes\"],\"additionalProperties\":false}}},\"required\":[\"tasks\"],\"additionalProperties\":false}";

/// The output-format schema as text; the caller turns it into a JSON value
/// at the transport edge.
pub fn res_format() -> (r: String)
    ensures
        r@ == RESPONSE_FORMAT@,
{
    String::from_str(RESPONSE_FORMAT)
}

/// Every element is a JSON string.
pub open spec fn all_texts(items: Seq<JsonVal>) -> bool {
    forall|k: int| 0 <= k < items.len() ==> #[trigger] items[k] matches JsonVal::Text(_)
}

/// The strings `fs` are exactly the texts of `items`, in order.
pub open spec fn files_match(fs: Seq<String>, items: Seq<JsonVal>) -> bool {
    fs.len() == items.len() && forall|k: int|
        0 <= k < items.len() ==> match #[trigger] items[k] {
            JsonVal::Text(s) => fs[k]@ == s@,
            _ => false,
        }
}

/// The tree is one task object of the expected shape: a string objective,
/// an array of string file paths, and a changes object with a string
/// description.
pub open spec fn task_shape_ok(t: JsonVal) -> bool {
    &&& spec_get(t, ("objective")@) matches Some(JsonVal::Text(_))
    &&& match spec_get(t, ("affected_files")@) {
        Some(JsonVal::List(items)) => all_texts(items@),
        _ => false,
    }
    &&& match spec_get(t, ("changes")@) {
        Some(ch) => spec_get(ch, ("description")@) matches Some(JsonVal::Text(_)),
        _ => false,
    }
}

/// `tk` carries exactly the fields of the task object `t`.
pub open spec fn task_matches(tk: Task, t: JsonVal) -> bool {
    &&& match spec_get(t, ("objective")@) {
        Some(JsonVal::Text(s)) => tk.objective@ == s@,
        _ => false,
    }
    &&& match spec_get(t, ("affected_files")@) {
        Some(JsonVal::List(items)) => files_match(tk.affected_files@, items@),
        _ => false,
    }
    &&& match spec_get(t, ("changes")@) {
        Some(ch) => match spec_get(ch, ("description")@) {
            Some(JsonVal::Text(d)) => tk.changes.description@ == d@,
            _ => false,
        },
        _ => false,
    }
}

/// The tree is a whole breakdown of the expected shape: a `tasks` array
/// whose every element is a well-shaped task object.
pub open spec fn breakdown_shape_ok(t: JsonVal) -> bool {
    match spec_get(t, ("tasks")@) {
        Some(JsonVal::List(items)) => forall|k: int|
            0 <= k < items@.len() ==> #[trigger] task_shape_ok(items@[k]),
        _ => false,
    }
}

/// `resp` carries exactly the tasks of the breakdown tree `t`, in order.
pub open spec fn response_matches(resp: Response, t: JsonVal) -> bool {
    match spec_get(t, ("tasks")@) {
        Some(JsonVal::List(items)) => resp.tasks@.len() == items@.len() && forall|k: int|
            0 <= k < items@.len() ==> #[trigger] task_matches(resp.tasks@[k], items@[k]),
        _ => false,
    }
}

/// Reads one task object; any missing or mistyped field fails the parse.
fn parse_task(t: &JsonVal) -> (r: Option<Task>)
    ensures
        r is Some <==> task_shape_ok(*t),
        r is Some ==> task_matches(r->0, *t),
{
    let objective = match tree_get(t, "objective") {
        Some(o) => match tree_text(o) {
            Some(s) => s,
            None => {
                return None;
            },
        },
        None => {
            return None;
        },
    };
    let files_arr = match tree_get(t, "affected_files") {
        Some(f) => match tree_list(f) {
            Some(a) => a,
            None => {
                return None;
            },
        },
        None => {
            return None;
        },
    };
    let mut affected_files: Vec<String> = Vec::new();
    let mut i: usize = 0;
    while i < files_arr.len()
        invariant
            i <= files_arr@.len(),
            affected_files@.len() == i,
            spec_get(*t, ("objective")@) matches Some(JsonVal::Text(_)),
            (match spec_get(*t, ("affected_files")@) {
                Some(m) => spec_as_list(m) == Some(files_arr@),
                _ => false,
            }),
            forall|k: int| 0 <= k < i ==> #[trigger] files_arr@[k] matches JsonVal::Text(_),
            forall|k: int|
                0 <= k < i ==> match #[trigger] files_arr@[k] {
                    JsonVal::Text(s) => affected_files@[k]@ == s@,
                    _ => false,
                },
        decreases files_arr@.len() - i,
    {
        match tree_text(&files_arr[i]) {
            Some(s) => affected_files.push(s),
            None => {
                return None;
            },
        }
        i = i + 1;
    }
    let description = match tree_get(t, "changes") {
        Some(ch) => match tree_get(ch, "description") {
            Some(d) => match tree_text(d) {
                Some(s) => s,
                None => {
                    return None;
                },
            },
            None => {
                return None;
            },
        },
        None => {
            return None;
        },
    };
    Some(Task { objective, affected_files, changes: Changes { description } })
}

/// Parses the final response text as the task breakdown. Success happens
/// exactly when the text is JSON whose tree matches the task shape, and
/// then the returned tasks are the tree's, in order; any other text is
/// reported as a `ParseError` carrying it verbatim — never fatal to the
/// caller.
pub fn parse_final(text: &str) -> (r: Result<Response, ParseError>)
    ensures
        r is Ok <==> json_ok(text@) && breakdown_shape_ok(json_tree_opt(text@)->0),
        r is Ok ==> response_matches(r->Ok_0, json_tree_opt(text@)->0),
        r is Err ==> r->Err_0.raw@ == text@,
{
    let parsed = match parse_json_tree(text) {
        Some(v) => v,
        None => {
            return Err(ParseError { raw: String::from_str(text) });
        },
    };
    let arr = match tree_get(&parsed, "tasks") {
        Some(tasks_v) => match tree_list(tasks_v) {
            Some(a) => a,
            None => {
                return Err(ParseError { raw: String::from_str(text) });
            },
        },
        None => {
            return Err(ParseError { raw: String::from_str(text) });
        },
    };
    let mut tasks: Vec<Task> = Vec::new();
    let mut i: usize = 0;
    while i < arr.len()
        invariant
            i <= arr@.len(),
            tasks@.len() == i,
            json_tree_opt(text@) == Some(parsed),
            (match spec_get(parsed, ("tasks")@) {
                Some(m) => spec_as_list(m) == Some(arr@),
                _ => false,
            }),
            forall|k: int| 0 <= k < i ==> task_shape_ok(arr@[k]),
            forall|k: int| 0 <= k < i ==> task_matches(tasks@[k], arr@[k]),
        decreases arr@.len() - i,
    {
        match parse_task(&arr[i]) {
            Some(t) => tasks.push(t),
            None => {
                return Err(ParseError { raw: String::from_str(text) });
            },
        }
        i = i + 1;
    }
    Ok(Response { tasks })
}

} // verus!
