use webserver::file_table::FileTable;
use webserver::response::ResponseBody;
use webserver::router::route;

fn sample_table() -> FileTable {
    let mut table = FileTable::new();
    table.insert("a.txt".to_string(), b"hello".to_vec());
    table.insert("b.bin".to_string(), vec![0u8, 1, 2, 3]);
    table
}

fn body_bytes(body: &ResponseBody) -> Vec<u8> {
    match body {
        ResponseBody::Bytes(b) => b.clone(),
        ResponseBody::Text(t) => panic!("expected a byte body, got text {:?}", t),
    }
}

fn body_text(body: &ResponseBody) -> String {
    match body {
        ResponseBody::Text(t) => t.clone(),
        ResponseBody::Bytes(b) => panic!("expected a text body, got {:?} bytes", b.len()),
    }
}

#[test]
fn serves_text_file() {
    let table = sample_table();
    let r = route("/a.txt", &table);
    assert_eq!(r.status, 200);
    assert_eq!(r.content_type, "application/octet-stream");
    assert_eq!(
        r.content_disposition.as_deref(),
        Some("attachment; filename=\"a.txt\"")
    );
    assert_eq!(body_bytes(&r.body), b"hello".to_vec());
}

#[test]
fn serves_binary_file() {
    let table = sample_table();
    let r = route("/b.bin", &table);
    assert_eq!(r.status, 200);
    assert_eq!(r.content_type, "application/octet-stream");
    assert_eq!(
        r.content_disposition.as_deref(),
        Some("attachment; filename=\"b.bin\"")
    );
    assert_eq!(body_bytes(&r.body), vec![0u8, 1, 2, 3]);
}

#[test]
fn unknown_name_is_not_found() {
    let table = sample_table();
    let r = route("/missing", &table);
    assert_eq!(r.status, 404);
    assert_eq!(r.content_type, "text/html");
    assert_eq!(r.content_disposition, None);
    assert_eq!(body_text(&r.body), "Not Found!");
}

#[test]
fn index_lists_every_file() {
    let table = sample_table();
    let r = route("/", &table);
    assert_eq!(r.status, 200);
    assert_eq!(r.content_type, "text/html");
    assert_eq!(r.content_disposition, None);
    assert_eq!(
        body_text(&r.body),
        "<a href=\"/a.txt\">Download a.txt</a><br>\
         <a href=\"/b.bin\">Download b.bin</a><br>"
    );
}

#[test]
fn index_of_empty_table_is_empty() {
    let table = FileTable::new();
    let r = route("/", &table);
    assert_eq!(r.status, 200);
    assert_eq!(body_text(&r.body), "");
}

#[test]
fn unencodable_name_gets_generic_disposition() {
    let mut table = FileTable::new();
    table.insert("bad\nname".to_string(), b"x".to_vec());
    let r = route("/bad\nname", &table);
    assert_eq!(r.status, 200);
    assert_eq!(
        r.content_disposition.as_deref(),
        Some("attachment; filename=\"Download\"")
    );
    assert_eq!(body_bytes(&r.body), b"x".to_vec());
}

#[test]
fn del_character_gets_generic_disposition() {
    let mut table = FileTable::new();
    table.insert("bad\u{7f}name".to_string(), b"y".to_vec());
    let r = route("/bad\u{7f}name", &table);
    assert_eq!(r.status, 200);
    assert_eq!(
        r.content_disposition.as_deref(),
        Some("attachment; filename=\"Download\"")
    );
}

#[test]
fn space_and_accents_keep_their_name() {
    let mut table = FileTable::new();
    table.insert("r\u{e9}sum\u{e9} final.txt".to_string(), b"cv".to_vec());
    let r = route("/r\u{e9}sum\u{e9} final.txt", &table);
    assert_eq!(r.status, 200);
    assert_eq!(
        r.content_disposition.as_deref(),
        Some("attachment; filename=\"r\u{e9}sum\u{e9} final.txt\"")
    );
}

#[test]
fn empty_key_is_never_a_file() {
    let mut table = FileTable::new();
    table.insert(String::new(), b"secret".to_vec());
    let r = route("/", &table);
    assert_eq!(r.status, 200);
    assert_eq!(r.content_type, "text/html");
    assert_eq!(body_text(&r.body), "<a href=\"/\">Download </a><br>");
}

#[test]
fn insert_overwrites_same_name() {
    let mut table = FileTable::new();
    table.insert("a.txt".to_string(), b"old".to_vec());
    table.insert("a.txt".to_string(), b"new".to_vec());
    assert_eq!(table.len(), 1);
    assert_eq!(table.get("a.txt"), Some(&b"new".to_vec()));
    let r = route("/a.txt", &table);
    assert_eq!(body_bytes(&r.body), b"new".to_vec());
}

#[test]
fn get_and_find_agree_with_contents() {
    let table = sample_table();
    assert_eq!(table.len(), 2);
    assert_eq!(table.find("a.txt"), Some(0));
    assert_eq!(table.find("b.bin"), Some(1));
    assert_eq!(table.find("c"), None);
    assert_eq!(table.get("a.txt"), Some(&b"hello".to_vec()));
    assert_eq!(table.get("c"), None);
}
