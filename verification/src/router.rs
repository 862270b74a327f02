use vstd::prelude::*;

use crate::file_table::{distinct_names, lemma_lookup_found, lemma_lookup_none, table_lookup,
    FileTable};
use crate::response::{is_valid_header_value, header_value_ok, BodyModel, HttpResponse,
    ResponseBody, ResponseModel};

verus! {

/// The candidate file key of a request path: the path with its leading
/// separator stripped.
pub open spec fn strip_key(path: Seq<char>) -> Seq<char> {
    path.subrange(1, path.len() as int)
}

/// The `Content-Disposition` value naming the file itself.
pub open spec fn disposition_raw(name: Seq<char>) -> Seq<char> {
    "attachment; filename=\""@ + name + "\""@
}

/// The `Content-Disposition` value actually sent: the one naming the file,
/// or, where that cannot be encoded as a header value, a fixed generic name.
pub open spec fn disposition_for(name: Seq<char>) -> Seq<char> {
    if is_valid_header_value(disposition_raw(name)) {
        disposition_raw(name)
    } else {
        "attachment; filename=\"Download\""@
    }
}

/// The response downloading one stored file.
pub open spec fn file_response(name: Seq<char>, data: Seq<u8>) -> ResponseModel {
    ResponseModel {
        status: 200,
        content_type: "application/octet-stream"@,
        content_disposition: Some(disposition_for(name)),
        body: BodyModel::Bytes(data),
    }
}

/// The one hyperlink the index page carries for a stored file.
pub open spec fn link_html(name: Seq<char>) -> Seq<char> {
    "<a href=\"/"@ + name + "\">Download "@ + name + "</a><br>"@
}

/// The index page's body: one link per entry, in the table's order.
pub open spec fn index_body(entries: Seq<(Seq<char>, Seq<u8>)>) -> Seq<char>
    decreases entries.len(),
{
    if entries.len() == 0 {
        Seq::empty()
    } else {
        index_body(entries.drop_last()) + link_html(entries.last().0)
    }
}

/// The response carrying the index page.
pub open spec fn index_response(entries: Seq<(Seq<char>, Seq<u8>)>) -> ResponseModel {
    ResponseModel {
        status: 200,
        content_type: "text/html"@,
        content_disposition: None,
        body: BodyModel::Text(index_body(entries)),
    }
}

/// The response for a path that names no stored file and is not the root.
pub open spec fn not_found_response() -> ResponseModel {
    ResponseModel {
        status: 404,
        content_type: "text/html"@,
        content_disposition: None,
        body: BodyModel::Text("Not Found!"@),
    }
}

/// What the server replies to a request for `path` against the table
/// `entries`, in priority order: a stored file whose name is the stripped
/// path (an empty key is never a file key), else the index page at the
/// root path, else not-found.
pub open spec fn route_spec(path: Seq<char>, entries: Seq<(Seq<char>, Seq<u8>)>) -> ResponseModel {
    let key = strip_key(path);
    if key.len() > 0 && table_lookup(entries, key) is Some {
        file_response(key, table_lookup(entries, key)->Some_0)
    } else if path.len() == 1 {
        index_response(entries)
    } else {
        not_found_response()
    }
}

/// Build the `Content-Disposition` value for `name`, falling back to the
/// generic file name where `name` cannot be encoded in a header.
fn build_disposition(name: &String) -> (d: String)
    ensures
        d@ == disposition_for(name@),
{
    let mut d: String = "attachment; filename=\"".to_owned();
    d.append(name.as_str());
    d.append("\"");
    if header_value_ok(d.as_str()) {
        d
    } else {
        "attachment; filename=\"Download\"".to_owned()
    }
}

/// Splitting one entry off the front of a prefix extends the rendered body
/// by that entry's link.
proof fn lemma_index_body_take_succ(entries: Seq<(Seq<char>, Seq<u8>)>, i: int)
    requires
        0 <= i < entries.len(),
    ensures
        index_body(entries.take(i + 1)) == index_body(entries.take(i)) + link_html(entries[i].0),
{
    let t = entries.take(i + 1);
    assert(t.drop_last() =~= entries.take(i));
    assert(t.last() == entries[i]);
}

/// Render the index page's body for the table: one link per entry, in the
/// table's order.
fn build_index_body(table: &FileTable) -> (body: String)
    ensures
        body@ == index_body(table@),
{
    let mut body = String::new();
    let mut i: usize = 0;
    while i < table.entries.len()
        invariant
            i <= table.entries.len(),
            table@.len() == table.entries@.len(),
            body@ == index_body(table@.take(i as int)),
        decreases table.entries.len() - i,
    {
        let ghost prefix = body@;
        let ghost name_model = table@[i as int].0;
        let name: &String = &table.entries[i].name;
        body.append("<a href=\"/");
        body.append(name.as_str());
        body.append("\">Download ");
        body.append(name.as_str());
        body.append("</a><br>");
        proof {
            assert(body@ =~= prefix + link_html(name_model));
            lemma_index_body_take_succ(table@, i as int);
        }
        i += 1;
    }
    proof {
        assert(table@.take(table@.len() as int) =~= table@);
    }
    body
}

/// Reply to one request: map its path against the table, exactly as
/// `route_spec` says. Deterministic and free of side effects: the response
/// is a function of the path and of the table's value alone, and the table
/// is only read, so any number of concurrent requests see the same table
/// and each gets the response its own path calls for.
pub fn route(path: &str, table: &FileTable) -> (r: HttpResponse)
    requires
        path@.len() >= 1,
        path@[0] == '/',
    ensures
        r@ == route_spec(path@, table@),
{
    let n = path.unicode_len();
    let key = path.substring_char(1, n);
    if n > 1 {
        match table.find(key) {
            Some(i) => {
                proof {
                    lemma_lookup_found(table@, key@, i as int);
                }
                let name = table.entries[i].name.clone();
                let data = vstd::slice::slice_to_vec(table.entries[i].data.as_slice());
                let disposition = build_disposition(&name);
                return HttpResponse {
                    status: 200,
                    content_type: "application/octet-stream".to_owned(),
                    content_disposition: Some(disposition),
                    body: ResponseBody::Bytes(data),
                };
            },
            None => {
                proof {
                    lemma_lookup_none(table@, key@);
                }
            },
        }
    }
    if n == 1 {
        let body = build_index_body(table);
        HttpResponse {
            status: 200,
            content_type: "text/html".to_owned(),
            content_disposition: None,
            body: ResponseBody::Text(body),
        }
    } else {
        HttpResponse {
            status: 404,
            content_type: "text/html".to_owned(),
            content_disposition: None,
            body: ResponseBody::Text("Not Found!".to_owned()),
        }
    }
}

/// Every file the table holds is served: a request for `/` followed by the
/// file's name downloads exactly that file's bytes, under a
/// `Content-Disposition` naming the file or falling back to the generic
/// name.
pub proof fn lemma_file_request(
    entries: Seq<(Seq<char>, Seq<u8>)>,
    i: int,
    name: Seq<char>,
    data: Seq<u8>,
)
    requires
        distinct_names(entries),
        0 <= i < entries.len(),
        entries[i] == (name, data),
        name.len() > 0,
    ensures
        route_spec(seq!['/'] + name, entries) == file_response(name, data),
{
    let path = seq!['/'] + name;
    assert(strip_key(path) =~= name);
    lemma_lookup_found(entries, name, i);
}

/// The root path is served the index page: one link per stored file, in
/// the table's order.
pub proof fn lemma_index_request(entries: Seq<(Seq<char>, Seq<u8>)>)
    ensures
        route_spec(seq!['/'], entries) == index_response(entries),
{
    assert(strip_key(seq!['/']).len() == 0);
    assert(seq!['/'].len() == 1);
}

/// A path that is not the root and whose stripped key no entry carries is
/// answered with the fixed not-found response.
pub proof fn lemma_unknown_request(path: Seq<char>, entries: Seq<(Seq<char>, Seq<u8>)>)
    requires
        path.len() >= 2,
        forall|j: int| 0 <= j < entries.len() ==> entries[j].0 != strip_key(path),
    ensures
        route_spec(path, entries) == not_found_response(),
{
    lemma_lookup_none(entries, strip_key(path));
}

} // verus!
