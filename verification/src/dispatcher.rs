//! Routing of model-issued tool calls: the namespace prefix of the call's
//! function name selects the capability; the crawler is the one registered
//! capability. Dispatch never fails: unknown prefixes and unknown
//! operations degrade to JSON error objects or empty results.

use vstd::prelude::*;

use crate::crawler::Crawler;
use crate::jsonio::{json_tree_opt, parse_json_tree, spec_as_list, spec_as_text, spec_as_u64,
    spec_get, tree_get, tree_list, tree_text, tree_u64, JsonVal};
use crate::messages::{FunctionDefinition, ToolCall, ToolDefinition};
use crate::rank::{best_score, sorted_strict, SearchResult};
use crate::strutil::{
    dec_str, is_prefix, json_escaped, push_dec, push_json_escaped, str_eq, str_skip,
    str_starts_with,
};

verus! {

/// The function name's namespace prefix: everything before the first dot,
/// or the whole name when there is none.
pub open spec fn prefix_upto_dot(name: Seq<char>) -> Seq<char>
    decreases name.len(),
{
    if name.len() == 0 {
        Seq::empty()
    } else if name[0] == '.' {
        Seq::empty()
    } else {
        seq![name[0]] + prefix_upto_dot(name.drop_first())
    }
}

proof fn lemma_prefix_upto_dot_take(name: Seq<char>, i: int)
    requires
        0 <= i <= name.len(),
        forall|k: int| 0 <= k < i ==> name[k] != '.',
        i < name.len() ==> name[i] == '.',
    ensures
        prefix_upto_dot(name) == name.take(i),
    decreases i,
{
    if name.len() == 0 {
        assert(name.take(i) =~= Seq::<char>::empty());
    } else if i == 0 {
        assert(name.take(0) =~= Seq::<char>::empty());
    } else {
        lemma_prefix_upto_dot_take(name.drop_first(), i - 1);
        assert(name.drop_first().take(i - 1) =~= name.take(i).drop_first());
        assert(prefix_upto_dot(name) == seq![name[0]] + prefix_upto_dot(name.drop_first()));
        assert(seq![name[0]] + name.take(i).drop_first() =~= name.take(i));
    }
}

/// Exec extraction of the namespace prefix.
pub fn name_prefix<'a>(name: &'a str) -> (r: &'a str)
    ensures
        r@ == prefix_upto_dot(name@),
{
    let len: usize = name.unicode_len();
    let mut i: usize = 0;
    loop
        invariant
            i <= len,
            len == name@.len(),
            forall|k: int| 0 <= k < i ==> name@[k] != '.',
        ensures
            i <= len,
            forall|k: int| 0 <= k < i ==> name@[k] != '.',
            i < len ==> name@[i as int] == '.',
        decreases len - i,
    {
        if i >= len {
            break;
        }
        if name.get_char(i) == '.' {
            break;
        }
        i = i + 1;
    }
    proof {
        lemma_prefix_upto_dot_take(name@, i as int);
    }
    name.substring_char(0, i)
}

/// The error object returned for a tool call whose prefix no capability
/// claims.
pub open spec fn spec_error_json(prefix: Seq<char>) -> Seq<char> {
    ("{\"error\":\"Unexpected tool call prefix: ")@ + json_escaped(prefix) + ("\"}")@
}

fn render_error_json(prefix: &str) -> (r: String)
    ensures
        r@ == spec_error_json(prefix@),
{
    let mut out = String::from_str("{\"error\":\"Unexpected tool call prefix: ");
    push_json_escaped(&mut out, prefix);
    out.append("\"}");
    proof {
        assert(out@ =~= spec_error_json(prefix@));
    }
    out
}

/// One fuzzy-search result as a JSON object.
pub open spec fn search_item_json(x: SearchResult) -> Seq<char> {
    ("{\"path\":\"")@ + json_escaped(x.path@) + ("\",\"score\":")@ + dec_str(x.score as nat) + (
    "}")@
}

/// The comma-separated fuzzy-search results.
pub open spec fn search_items_json(rs: Seq<SearchResult>) -> Seq<char>
    decreases rs.len(),
{
    if rs.len() == 0 {
        Seq::empty()
    } else if rs.len() == 1 {
        search_item_json(rs[0])
    } else {
        search_items_json(rs.drop_last()) + (",")@ + search_item_json(rs.last())
    }
}

/// The whole fuzzy-search tool output.
pub open spec fn search_results_json(rs: Seq<SearchResult>) -> Seq<char> {
    ("{\"results\":[")@ + search_items_json(rs) + ("]}")@
}

/// Renders ranked search results as the tool's JSON output.
pub fn render_search_results(rs: &Vec<SearchResult>) -> (r: String)
    requires
        forall|k: int| 0 <= k < rs@.len() ==> rs@[k].score >= 0,
    ensures
        r@ == search_results_json(rs@),
{
    let mut out = String::from_str("{\"results\":[");
    let mut i: usize = 0;
    while i < rs.len()
        invariant
            i <= rs@.len(),
            forall|k: int| 0 <= k < rs@.len() ==> rs@[k].score >= 0,
            out@ == ("{\"results\":[")@ + search_items_json(rs@.take(i as int)),
        decreases rs@.len() - i,
    {
        if i > 0 {
            out.append(",");
        }
        out.append("{\"path\":\"");
        push_json_escaped(&mut out, rs[i].path.as_str());
        out.append("\",\"score\":");
        push_dec(&mut out, rs[i].score as u64);
        out.append("}");
        proof {
            assert(rs@.take(i + 1).drop_last() =~= rs@.take(i as int));
            assert(rs@.take(i + 1).last() == rs@[i as int]);
            assert(rs@[i as int].score as nat == (rs@[i as int].score as u64) as nat);
            assert(out@ =~= ("{\"results\":[")@ + search_items_json(rs@.take(i + 1)));
        }
        i = i + 1;
    }
    proof {
        assert(rs@.take(rs@.len() as int) =~= rs@);
    }
    out.append("]}");
    proof {
        assert(out@ =~= search_results_json(rs@));
    }
    out
}

/// One file read: the path asked for and the contents that came back.
#[derive(Clone, Debug)]
pub struct FileRead {
    pub path: String,
    pub content: String,
}

/// One file-read result as a JSON object.
pub open spec fn file_item_json(x: FileRead) -> Seq<char> {
    ("{\"path\":\"")@ + json_escaped(x.path@) + ("\",\"content\":\"")@ + json_escaped(x.content@)
        + ("\"}")@
}

/// The comma-separated file-read results.
pub open spec fn file_items_json(rs: Seq<FileRead>) -> Seq<char>
    decreases rs.len(),
{
    if rs.len() == 0 {
        Seq::empty()
    } else if rs.len() == 1 {
        file_item_json(rs[0])
    } else {
        file_items_json(rs.drop_last()) + (",")@ + file_item_json(rs.last())
    }
}

/// The whole file-read tool output.
pub open spec fn file_results_json(rs: Seq<FileRead>) -> Seq<char> {
    ("{\"results\":[")@ + file_items_json(rs) + ("]}")@
}

/// Renders file reads as the tool's JSON output.
pub fn render_file_results(rs: &Vec<FileRead>) -> (r: String)
    ensures
        r@ == file_results_json(rs@),
{
    let mut out = String::from_str("{\"results\":[");
    let mut i: usize = 0;
    while i < rs.len()
        invariant
            i <= rs@.len(),
            out@ == ("{\"results\":[")@ + file_items_json(rs@.take(i as int)),
        decreases rs@.len() - i,
    {
        if i > 0 {
            out.append(",");
        }
        out.append("{\"path\":\"");
        push_json_escaped(&mut out, rs[i].path.as_str());
        out.append("\",\"content\":\"");
        push_json_escaped(&mut out, rs[i].content.as_str());
        out.append("\"}");
        proof {
            assert(rs@.take(i + 1).drop_last() =~= rs@.take(i as int));
            assert(rs@.take(i + 1).last() == rs@[i as int]);
            assert(out@ =~= ("{\"results\":[")@ + file_items_json(rs@.take(i + 1)));
        }
        i = i + 1;
    }
    proof {
        assert(rs@.take(rs@.len() as int) =~= rs@);
    }
    out.append("]}");
    proof {
        assert(out@ =~= file_results_json(rs@));
    }
    out
}

/// The comma-separated quoted entries of a listing.
pub open spec fn entry_items_json(es: Seq<Seq<char>>) -> Seq<char>
    decreases es.len(),
{
    if es.len() == 0 {
        Seq::empty()
    } else if es.len() == 1 {
        ("\"")@ + json_escaped(es[0]) + ("\"")@
    } else {
        entry_items_json(es.drop_last()) + (",\"")@ + json_escaped(es.last()) + ("\"")@
    }
}

/// The whole directory-listing tool output.
pub open spec fn entries_json(es: Seq<Seq<char>>) -> Seq<char> {
    ("{\"entries\":[")@ + entry_items_json(es) + ("]}")@
}

/// Renders a directory listing as the tool's JSON output.
pub fn render_entries(es: &Vec<String>) -> (r: String)
    ensures
        r@ == entries_json(es.deep_view()),
{
    let ghost dv = es.deep_view();
    let mut out = String::from_str("{\"entries\":[");
    let mut i: usize = 0;
    while i < es.len()
        invariant
            i <= es@.len(),
            dv == es.deep_view(),
            dv.len() == es@.len(),
            forall|k: int| 0 <= k < es@.len() ==> dv[k] == es@[k]@,
            out@ == ("{\"entries\":[")@ + entry_items_json(dv.take(i as int)),
        decreases es@.len() - i,
    {
        if i > 0 {
            out.append(",\"");
        } else {
            out.append("\"");
        }
        push_json_escaped(&mut out, es[i].as_str());
        out.append("\"");
        proof {
            assert(dv.take(i + 1).drop_last() =~= dv.take(i as int));
            assert(dv.take(i + 1).last() == dv[i as int]);
            assert(out@ =~= ("{\"entries\":[")@ + entry_items_json(dv.take(i + 1)));
        }
        i = i + 1;
    }
    proof {
        assert(dv.take(es@.len() as int) =~= dv);
    }
    out.append("]}");
    proof {
        assert(out@ =~= entries_json(dv));
    }
    out
}

/// The texts of a JSON list's string elements, in order; other elements
/// are skipped.
pub open spec fn spec_text_items(items: Seq<JsonVal>) -> Seq<Seq<char>>
    decreases items.len(),
{
    if items.len() == 0 {
        Seq::empty()
    } else {
        spec_text_items(items.drop_last()) + (match items.last() {
            JsonVal::Text(s) => seq![s@],
            _ => Seq::<Seq<char>>::empty(),
        })
    }
}

/// The string-array member `key` of the parsed arguments; empty when the
/// arguments are not JSON, the member is missing, or it is not an array.
pub open spec fn spec_strings_field(args: Option<JsonVal>, key: Seq<char>) -> Seq<Seq<char>> {
    match args {
        Some(t) => match spec_get(t, key) {
            Some(m) => match spec_as_list(m) {
                Some(items) => spec_text_items(items),
                None => Seq::empty(),
            },
            None => Seq::empty(),
        },
        None => Seq::empty(),
    }
}

/// Exec extraction of a string-array member.
pub fn strings_field(args: &Option<JsonVal>, key: &str) -> (r: Vec<String>)
    ensures
        r.deep_view() == spec_strings_field(*args, key@),
{
    let mut out: Vec<String> = Vec::new();
    proof {
        assert(out.deep_view() =~= Seq::<Seq<char>>::empty());
    }
    let t = match args {
        Some(t) => t,
        None => {
            return out;
        },
    };
    let items = match tree_get(t, key) {
        Some(m) => match tree_list(m) {
            Some(a) => a,
            None => {
                return out;
            },
        },
        None => {
            return out;
        },
    };
    let mut i: usize = 0;
    proof {
        assert(items@.take(0) =~= Seq::<JsonVal>::empty());
        assert(out.deep_view() =~= spec_text_items(items@.take(0)));
    }
    while i < items.len()
        invariant
            i <= items@.len(),
            out.deep_view() == spec_text_items(items@.take(i as int)),
        decreases items@.len() - i,
    {
        let ghost prev_dv = out.deep_view();
        match tree_text(&items[i]) {
            Some(s) => {
                let ghost sv = s@;
                out.push(s);
                proof {
                    assert(out.deep_view() =~= prev_dv + seq![sv]);
                }
            },
            None => {},
        }
        proof {
            assert(items@.take(i + 1).drop_last() =~= items@.take(i as int));
            assert(items@.take(i + 1).last() == items@[i as int]);
            assert(out.deep_view() =~= spec_text_items(items@.take(i + 1)));
        }
        i = i + 1;
    }
    proof {
        assert(items@.take(items@.len() as int) =~= items@);
    }
    out
}

/// The string member `key` of the parsed arguments, or the default when
/// the arguments are not JSON, the member is missing, or it is not a
/// string.
pub open spec fn spec_text_field_or(args: Option<JsonVal>, key: Seq<char>, default: Seq<
    char,
>) -> Seq<char> {
    match args {
        Some(t) => match spec_get(t, key) {
            Some(m) => match spec_as_text(m) {
                Some(s) => s,
                None => default,
            },
            None => default,
        },
        None => default,
    }
}

/// Exec extraction of a string member with a default.
pub fn text_field_or(args: &Option<JsonVal>, key: &str, default: &str) -> (r: String)
    ensures
        r@ == spec_text_field_or(*args, key@, default@),
{
    match args {
        Some(t) => match tree_get(t, key) {
            Some(m) => match tree_text(m) {
                Some(s) => s,
                None => String::from_str(default),
            },
            None => String::from_str(default),
        },
        None => String::from_str(default),
    }
}

/// The non-negative integer member `key` of the parsed arguments, or the
/// default when the arguments are not JSON, the member is missing, or it
/// is not such a number.
pub open spec fn spec_u64_field_or(args: Option<JsonVal>, key: Seq<char>, default: u64) -> u64 {
    match args {
        Some(t) => match spec_get(t, key) {
            Some(m) => match spec_as_u64(m) {
                Some(n) => n,
                None => default,
            },
            None => default,
        },
        None => default,
    }
}

/// Exec extraction of a non-negative integer member with a default.
pub fn u64_field_or(args: &Option<JsonVal>, key: &str, default: u64) -> (r: u64)
    ensures
        r == spec_u64_field_or(*args, key@, default),
{
    match args {
        Some(t) => match tree_get(t, key) {
            Some(m) => match tree_u64(m) {
                Some(n) => n,
                None => default,
            },
            None => default,
        },
        None => default,
    }
}

/// The tool catalogue the crawler capability advertises.
pub fn get_tool_defs() -> (r: Vec<ToolDefinition>)
    ensures
        r@.len() == 3,
        r@[0].type_@ == ("function")@,
        r@[0].function.name@ == ("crawler.fuzzy_search_paths")@,
        r@[0].function.description@ == (
        "Recursively searches the codebase for files/directories whose paths fuzzy-match any of the provided query strings.")@,
        r@[0].function.parameters@ == (
        "{\"type\":\"object\",\"properties\":{\"queries\":{\"type\":\"array\",\"items\":{\"type\":\"string\"},\"description\":\"List of query substrings to match against file paths\"}},\"required\":[\"queries\"]}")@,
        r@[1].type_@ == ("function")@,
        r@[1].function.name@ == ("crawler.read_file_contents")@,
        r@[1].function.description@ == ("Reads the textual content of specified file paths.")@,
        r@[1].function.parameters@ == (
        "{\"type\":\"object\",\"properties\":{\"paths\":{\"type\":\"array\",\"items\":{\"type\":\"string\"},\"description\":\"List of file paths to read\"}},\"required\":[\"paths\"]}")@,
        r@[2].type_@ == ("function")@,
        r@[2].function.name@ == ("crawler.list_directory_contents")@,
        r@[2].function.description@ == (
        "Recursively lists files and directories up to a given depth.")@,
        r@[2].function.parameters@ == (
        "{\"type\":\"object\",\"properties\":{\"path\":{\"type\":\"string\",\"description\":\"Directory path to list\"},\"depth\":{\"type\":\"integer\",\"description\":\"How many levels deep to recurse (0 = direct children)\",\"minimum\":0}},\"required\":[\"path\"]}")@,
{
    let mut out: Vec<ToolDefinition> = Vec::new();
    out.push(
        ToolDefinition {
            type_: String::from_str("function"),
            function: FunctionDefinition {
                name: String::from_str("crawler.fuzzy_search_paths"),
                description: String::from_str(
                    "Recursively searches the codebase for files/directories whose paths fuzzy-match any of the provided query strings.",
                ),
                parameters: String::from_str(
                    "{\"type\":\"object\",\"properties\":{\"queries\":{\"type\":\"array\",\"items\":{\"type\":\"string\"},\"description\":\"List of query substrings to match against file paths\"}},\"required\":[\"queries\"]}",
                ),
            },
        },
    );
    out.push(
        ToolDefinition {
            type_: String::from_str("function"),
            function: FunctionDefinition {
                name: String::from_str("crawler.read_file_contents"),
                description: String::from_str(
                    "Reads the textual content of specified file paths.",
                ),
                parameters: String::from_str(
                    "{\"type\":\"object\",\"properties\":{\"paths\":{\"type\":\"array\",\"items\":{\"type\":\"string\"},\"description\":\"List of file paths to read\"}},\"required\":[\"paths\"]}",
                ),
            },
        },
    );
    out.push(
        ToolDefinition {
            type_: String::from_str("function"),
            function: FunctionDefinition {
                name: String::from_str("crawler.list_directory_contents"),
                description: String::from_str(
                    "Recursively lists files and directories up to a given depth.",
                ),
                parameters: String::from_str(
                    "{\"type\":\"object\",\"properties\":{\"path\":{\"type\":\"string\",\"description\":\"Directory path to list\"},\"depth\":{\"type\":\"integer\",\"description\":\"How many levels deep to recurse (0 = direct children)\",\"minimum\":0}},\"required\":[\"path\"]}",
                ),
            },
        },
    );
    out
}

/// The operation a function name asks of the crawler: the name with its
/// `crawler.` prefix removed, or the whole name when that prefix is absent.
pub open spec fn spec_op_of(name: Seq<char>) -> Seq<char> {
    if is_prefix(("crawler.")@, name) {
        name.skip(("crawler.")@.len() as int)
    } else {
        name
    }
}

/// The operations the crawler capability implements.
pub open spec fn known_op(op: Seq<char>) -> bool {
    op == ("fuzzy_search_paths")@ || op == ("read_file_contents")@ || op == (
    "list_directory_contents")@
}

/// The fuzzy-search reply: some strictly ordered result list, each entry
/// carrying its positive best score over the extracted queries, rendered
/// as the search JSON. Which paths appear rides on the walked tree.
pub open spec fn ranked_reply(r: Seq<char>, queries: Seq<Seq<char>>) -> bool {
    exists|rs: Seq<SearchResult>|
        #![trigger search_results_json(rs)]
        r == search_results_json(rs) && sorted_strict(rs) && (forall|k: int|
            #![trigger rs[k]]
            0 <= k < rs.len() ==> rs[k].score as int == best_score(rs[k].path@, queries)
                && rs[k].score > 0)
}

/// The file-read reply: one result per extracted path, in request order,
/// rendered as the read JSON. The contents ride on the filesystem.
pub open spec fn read_reply(r: Seq<char>, paths: Seq<Seq<char>>) -> bool {
    exists|reads: Seq<FileRead>|
        #![trigger file_results_json(reads)]
        r == file_results_json(reads) && reads.len() == paths.len() && (forall|k: int|
            #![trigger reads[k]]
            0 <= k < reads.len() ==> reads[k].path@ == paths[k])
}

/// The listing reply: some entry list rendered as the listing JSON. The
/// entries ride on the walked tree.
pub open spec fn listing_reply(r: Seq<char>) -> bool {
    exists|es: Seq<Seq<char>>| #![trigger entries_json(es)] r == entries_json(es)
}

/// What the crawler capability's answer guarantees, as a function of the
/// call's name and raw argument text.
pub open spec fn tool_reply_ok(name: Seq<char>, args: Seq<char>, r: Seq<char>) -> bool {
    let op = spec_op_of(name);
    let tree = json_tree_opt(args);
    &&& !known_op(op) ==> r == ("{}")@
    &&& op == ("fuzzy_search_paths")@ ==> ranked_reply(r, spec_strings_field(tree, ("queries")@))
    &&& op == ("read_file_contents")@ ==> read_reply(r, spec_strings_field(tree, ("paths")@))
    &&& op == ("list_directory_contents")@ ==> listing_reply(r)
}

proof fn lemma_ops_distinct()
    ensures
        ("fuzzy_search_paths")@ != ("read_file_contents")@,
        ("fuzzy_search_paths")@ != ("list_directory_contents")@,
        ("read_file_contents")@ != ("list_directory_contents")@,
{
    reveal_strlit("fuzzy_search_paths");
    reveal_strlit("read_file_contents");
    reveal_strlit("list_directory_contents");
    assert(("fuzzy_search_paths")@[0] == 'f');
    assert(("read_file_contents")@[0] == 'r');
    assert(("list_directory_contents")@[0] == 'l');
}

/// Executes one crawler operation. The operation name is the function name
/// with its `crawler.` prefix removed; unknown operations yield an empty
/// JSON object, and a fresh crawler session is derived from `root` for
/// each call. The reply is the rendered output for the arguments extracted
/// from the call's JSON text, per `tool_reply_ok`.
pub fn handle_tool_call(call: &ToolCall, root: &String) -> (r: String)
    ensures
        tool_reply_ok(call.function.name@, call.function.arguments@, r@),
{
    let name = call.function.name.as_str();
    let op = if str_starts_with(name, "crawler.") {
        let plen: usize = "crawler.".unicode_len();
        str_skip(name, plen)
    } else {
        name
    };
    proof {
        lemma_ops_distinct();
    }
    let args = parse_json_tree(call.function.arguments.as_str());
    let crawler = Crawler::new(root.clone());
    if str_eq(op, "fuzzy_search_paths") {
        let queries = strings_field(&args, "queries");
        let results = crawler.fuzzy_search_paths(&queries);
        let rendered = render_search_results(&results);
        proof {
            assert(rendered@ == search_results_json(results@));
        }
        rendered
    } else if str_eq(op, "read_file_contents") {
        let paths = strings_field(&args, "paths");
        let mut reads: Vec<FileRead> = Vec::new();
        let mut i: usize = 0;
        while i < paths.len()
            invariant
                i <= paths@.len(),
                reads@.len() == i,
                forall|k: int| #![trigger reads@[k]] 0 <= k < i ==> reads@[k].path@ == paths@[k]@,
            decreases paths@.len() - i,
        {
            let content = crawler.read_file_contents(paths[i].as_str());
            reads.push(FileRead { path: paths[i].clone(), content });
            i = i + 1;
        }
        let rendered = render_file_results(&reads);
        proof {
            assert(rendered@ == file_results_json(reads@));
            assert(reads@.len() == paths.deep_view().len());
            assert forall|k: int| #![trigger reads@[k]] 0 <= k < reads@.len() implies reads@[k].path@
                == paths.deep_view()[k] by {
                assert(paths.deep_view()[k] == paths@[k]@);
            }
        }
        rendered
    } else if str_eq(op, "list_directory_contents") {
        let path = text_field_or(&args, "path", ".");
        let depth_u64: u64 = u64_field_or(&args, "depth", 0);
        let depth: usize = if depth_u64 > usize::MAX as u64 {
            usize::MAX
        } else {
            depth_u64 as usize
        };
        let entries = crawler.list_directory_contents(path.as_str(), depth);
        let rendered = render_entries(&entries);
        proof {
            assert(rendered@ == entries_json(entries.deep_view()));
        }
        rendered
    } else {
        String::from_str("{}")
    }
}

/// Routes one tool call by its namespace prefix. The only registered
/// capability is the crawler; any other prefix — including a name without
/// a delimiter — yields the error object, never a failure.
pub fn dispatch(call: &ToolCall, root: &String) -> (r: String)
    ensures
        prefix_upto_dot(call.function.name@) != ("crawler")@ ==> r@ == spec_error_json(
            prefix_upto_dot(call.function.name@),
        ),
        prefix_upto_dot(call.function.name@) == ("crawler")@ ==> tool_reply_ok(
            call.function.name@,
            call.function.arguments@,
            r@,
        ),
{
    let prefix = name_prefix(call.function.name.as_str());
    if str_eq(prefix, "crawler") {
        handle_tool_call(call, root)
    } else {
        render_error_json(prefix)
    }
}

} // verus!
