//! The file store operations: what they read from a call, which files they
//! touch, and what they answer.

use vstd::prelude::*;
use vstd::string::*;
use vstd::utf8::*;

use crate::encoding::{content_of, decode_content, encode_content, encoded_bytes};
use crate::internal::{require_str, required};
use crate::json::{json_texts, object_of, pairs_view};
use crate::text::{cat2, cat3, same, starts_with, text_between, chars_of, texts};
use crate::text::{trim_end_char, trim_start_char, trimmed_end, trimmed_start};
use crate::value::{Json, Value};

verus! {

broadcast use crate::value::group_value_views;

/// A file to write.
#[derive(Debug)]
pub struct FileWrite {
    pub rel_path: String,
    pub bytes: Vec<u8>,
}

/// Whether this is the file that some parameters write.
pub open spec fn is_file_write(r: Result<FileWrite, String>, params: Json) -> bool {
    match (required(params, "rel_path"@), required(params, "content"@)) {
        (Err(e), _) => r is Err && r->Err_0@ == e,
        (Ok(_), Err(e)) => r is Err && r->Err_0@ == e,
        (Ok(path), Ok(content)) => match encoded_bytes(
            content,
            params.str_or("encoding"@, "utf8"@),
            "invalid base64 content: "@,
            "unknown encoding '"@,
        ) {
            Ok(b) => r is Ok && r->Ok_0.rel_path@ == path && r->Ok_0.bytes@ == b,
            Err(e) => r is Err && r->Err_0@ == e,
        },
    }
}

/// Which file a call writes, with what: text, or base64 where it says so.
pub fn file_put(params: &Value) -> (r: Result<FileWrite, String>)
    ensures
        is_file_write(r, params@),
{
    let rel_path = match require_str(params, "rel_path") {
        Ok(s) => s,
        Err(e) => {
            return Err(e);
        },
    };
    let content = match require_str(params, "content") {
        Ok(s) => s,
        Err(e) => {
            return Err(e);
        },
    };
    let encoding = params.str_or("encoding", "utf8");
    match decode_content(content, encoding, "invalid base64 content: ", "unknown encoding '") {
        Ok(bytes) => Ok(FileWrite { rel_path: rel_path.to_owned(), bytes }),
        Err(e) => Err(e),
    }
}

/// The answer to a write: where the file was stored.
pub fn file_put_reply(stored: &str) -> (r: Value)
    ensures
        r@ == object_of(seq![("rel_path"@, Json::Str(stored@))]),
{
    let pairs: Vec<(&'static str, Value)> = vec![("rel_path", Value::text(stored))];
    assert(pairs_view(pairs@) =~= seq![("rel_path"@, Json::Str(stored@))]);
    Value::object(pairs)
}

pub open spec fn get_reply(rel_path: Seq<char>, bytes: Seq<u8>) -> Json {
    object_of(
        seq![
            ("rel_path"@, Json::Str(rel_path)),
            ("encoding"@, Json::Str(content_of(bytes).1)),
            ("content"@, Json::Str(content_of(bytes).0)),
        ],
    )
}

/// The answer to a read: the file as text, or as base64 where it is none. What
/// it holds, written back under its encoding, is the same file.
pub fn file_get_reply(rel_path: &str, bytes: Vec<u8>) -> (r: Value)
    ensures
        r@ == get_reply(rel_path@, bytes@),
        encoded_bytes(
            content_of(bytes@).0,
            content_of(bytes@).1,
            "invalid base64 content: "@,
            "unknown encoding '"@,
        ) == Ok::<Seq<u8>, Seq<char>>(bytes@),
{
    let (content, encoding) = encode_content(bytes);
    let pairs: Vec<(&'static str, Value)> = vec![
        ("rel_path", Value::text(rel_path)),
        ("encoding", Value::text(encoding)),
        ("content", Value::Str(content)),
    ];
    assert(pairs_view(pairs@) =~= seq![
        ("rel_path"@, Json::Str(rel_path@)),
        ("encoding"@, Json::Str(encoding@)),
        ("content"@, Json::Str(content@)),
    ]);
    Value::object(pairs)
}

/// Which file a call reads or deletes.
pub fn file_named(params: &Value) -> (r: Result<String, String>)
    ensures
        match required(params@, "rel_path"@) {
            Ok(s) => r is Ok && r->Ok_0@ == s,
            Err(e) => r is Err && r->Err_0@ == e,
        },
{
    match require_str(params, "rel_path") {
        Ok(s) => Ok(s.to_owned()),
        Err(e) => Err(e),
    }
}

/// The answer to a deletion.
pub fn file_delete_reply() -> (r: Value)
    ensures
        r@ == object_of(seq![("deleted"@, Json::Bool(true))]),
{
    let pairs: Vec<(&'static str, Value)> = vec![("deleted", Value::Bool(true))];
    assert(pairs_view(pairs@) =~= seq![("deleted"@, Json::Bool(true))]);
    Value::object(pairs)
}

/// The prefix of the files that a call lists.
pub fn list_prefix<'a>(params: &'a Value) -> (r: &'a str)
    ensures
        r@ == params@.str_or("prefix"@, ""@),
{
    params.str_or("prefix", "")
}

fn list_object(key: &'static str, entries: &Vec<String>) -> (r: Value)
    ensures
        r@ == object_of(seq![(key@, json_texts(texts(entries@)))]),
{
    let pairs: Vec<(&'static str, Value)> = vec![(key, Value::texts(entries))];
    assert(pairs_view(pairs@) =~= seq![(key@, json_texts(texts(entries@)))]);
    Value::object(pairs)
}

/// The answer to a listing.
pub fn file_list_reply(entries: &Vec<String>) -> (r: Value)
    ensures
        r@ == object_of(seq![("files"@, json_texts(texts(entries@)))]),
{
    list_object("files", entries)
}

/// From where to where a call copies.
#[derive(Debug)]
pub struct CopyRequest {
    pub source: String,
    pub dest: String,
}

/// Whether this is the copy that some parameters ask for.
pub open spec fn is_copy_request(r: Result<CopyRequest, String>, params: Json) -> bool {
    match (required(params, "source"@), required(params, "dest"@)) {
        (Err(e), _) => r is Err && r->Err_0@ == e,
        (Ok(_), Err(e)) => r is Err && r->Err_0@ == e,
        (Ok(s), Ok(d)) => r is Ok && r->Ok_0.source@ == s && r->Ok_0.dest@ == d,
    }
}

pub fn copy_request(params: &Value) -> (r: Result<CopyRequest, String>)
    ensures
        is_copy_request(r, params@),
{
    let source = match require_str(params, "source") {
        Ok(s) => s,
        Err(e) => {
            return Err(e);
        },
    };
    match require_str(params, "dest") {
        Ok(d) => Ok(CopyRequest { source: source.to_owned(), dest: d.to_owned() }),
        Err(e) => Err(e),
    }
}

/// The answer to the copy of a file.
pub fn file_copy_reply(dest: &str) -> (r: Value)
    ensures
        r@ == object_of(seq![("dest"@, Json::Str(dest@))]),
{
    let pairs: Vec<(&'static str, Value)> = vec![("dest", Value::text(dest))];
    assert(pairs_view(pairs@) =~= seq![("dest"@, Json::Str(dest@))]);
    Value::object(pairs)
}

/// A text without a prefix that it may have.
pub open spec fn without_prefix(s: Seq<char>, p: Seq<char>) -> Seq<char> {
    if p.is_prefix_of(s) {
        s.skip(p.len() as int)
    } else {
        s
    }
}

fn strip_prefix(s: &str, p: &str) -> (r: String)
    ensures
        r@ == without_prefix(s@, p@),
{
    if starts_with(s, p) {
        let v = chars_of(s);
        let q = chars_of(p);
        assert(v@.subrange(q.len() as int, v.len() as int) =~= s@.skip(p@.len() as int));
        text_between(&v, q.len(), v.len())
    } else {
        s.to_owned()
    }
}

/// Where a file under one directory goes under another: at the same place below
/// it.
pub open spec fn copied_to(entry: Seq<char>, source: Seq<char>, dest: Seq<char>) -> Seq<char> {
    trimmed_end(dest, '/') + "/"@ + trimmed_start(
        without_prefix(entry, trimmed_end(source, '/')),
        '/',
    )
}

pub open spec fn copies(entries: Seq<Seq<char>>, source: Seq<char>, dest: Seq<char>) -> Seq<
    Seq<char>,
> {
    Seq::new(entries.len(), |i: int| copied_to(entries[i], source, dest))
}

/// Where the files under a directory go when it is copied, in order.
pub fn dir_copy(request: &CopyRequest, entries: &Vec<String>) -> (r: Vec<String>)
    ensures
        texts(r@) == copies(texts(entries@), request.source@, request.dest@),
{
    let from = trim_end_char(request.source.as_str(), '/');
    let to = trim_end_char(request.dest.as_str(), '/');
    let mut out: Vec<String> = Vec::new();
    let mut i: usize = 0;
    while i < entries.len()
        invariant
            i <= entries.len(),
            out.len() == i,
            from@ == trimmed_end(request.source@, '/'),
            to@ == trimmed_end(request.dest@, '/'),
            forall|j: int|
                0 <= j < i ==> (#[trigger] out@[j])@ == copied_to(
                    entries@[j]@,
                    request.source@,
                    request.dest@,
                ),
        decreases entries.len() - i,
    {
        let below = strip_prefix(entries[i].as_str(), from.as_str());
        let rel = trim_start_char(below.as_str(), '/');
        out.push(cat3(to.as_str(), "/", rel.as_str()));
        i += 1;
    }
    assert(texts(out@) =~= copies(texts(entries@), request.source@, request.dest@));
    out
}

/// The answer to the copy of a directory.
pub fn dir_copy_reply(copied: &Vec<String>) -> (r: Value)
    ensures
        r@ == object_of(seq![("copied"@, json_texts(texts(copied@)))]),
{
    list_object("copied", copied)
}

/// Whether a file is below a directory.
pub open spec fn is_below(entry: Seq<char>, dir: Seq<char>) -> bool {
    (trimmed_end(dir, '/') + "/"@).is_prefix_of(entry)
}

/// The entries among the first `n` that are below a directory.
pub open spec fn below(entries: Seq<Seq<char>>, dir: Seq<char>, n: nat) -> Seq<Seq<char>>
    decreases n,
{
    if n == 0 || n > entries.len() {
        Seq::empty()
    } else if is_below(entries[n - 1], dir) {
        below(entries, dir, (n - 1) as nat).push(entries[n - 1])
    } else {
        below(entries, dir, (n - 1) as nat)
    }
}

/// Which of the listed files the deletion of a directory deletes: those below
/// it, and no sibling whose name begins with its name.
pub fn dir_delete(rel_path: &str, entries: &Vec<String>) -> (r: Vec<String>)
    ensures
        texts(r@) == below(texts(entries@), rel_path@, entries@.len()),
{
    let prefix = trim_end_char(rel_path, '/');
    let dir = cat2(prefix.as_str(), "/");
    let mut out: Vec<String> = Vec::new();
    assert(texts(out@) =~= Seq::<Seq<char>>::empty());
    let ghost all = texts(entries@);
    let mut i: usize = 0;
    while i < entries.len()
        invariant
            i <= entries.len(),
            all == texts(entries@),
            prefix@ == trimmed_end(rel_path@, '/'),
            dir@ == prefix@ + "/"@,
            texts(out@) == below(all, rel_path@, i as nat),
        decreases entries.len() - i,
    {
        let entry = entries[i].as_str();
        assert(all[i as int] == entry@);
        proof {
            reveal_strlit("/");
            if entry@ == prefix@ && dir@.is_prefix_of(entry@) {
                assert(dir@.len() <= entry@.len());
            }
        }
        if !(same(entry, prefix.as_str()) || !starts_with(entry, dir.as_str())) {
            let ghost before = texts(out@);
            out.push(entry.to_owned());
            assert(texts(out@) =~= before.push(entry@));
        }
        i += 1;
    }
    out
}

/// The answer to the deletion of a directory.
pub fn dir_delete_reply(deleted: &Vec<String>) -> (r: Value)
    ensures
        r@ == object_of(seq![("deleted"@, json_texts(texts(deleted@)))]),
{
    list_object("deleted", deleted)
}

/// Every file that the deletion of a directory deletes is below it, and was
/// listed.
pub proof fn lemma_only_what_is_below(entries: Seq<Seq<char>>, dir: Seq<char>, n: nat, x: Seq<char>)
    requires
        n <= entries.len(),
        below(entries, dir, n).contains(x),
    ensures
        is_below(x, dir),
        entries.contains(x),
    decreases n,
{
    let after = below(entries, dir, n);
    let i = choose|i: int| 0 <= i < after.len() && after[i] == x;
    if n > 0 {
        let before = below(entries, dir, (n - 1) as nat);
        if is_below(entries[n - 1], dir) && i == before.len() {
            assert(entries[n - 1] == x);
        } else {
            assert(before[i] == x);
            lemma_only_what_is_below(entries, dir, (n - 1) as nat, x);
        }
    }
}

/// A text that was put as it is comes back as it is: the bytes that a put
/// writes are read back as the same text, in the same encoding.
pub proof fn lemma_text_comes_back(content: Seq<char>)
    ensures
        encoded_bytes(
            content,
            "utf8"@,
            "invalid base64 content: "@,
            "unknown encoding '"@,
        ) is Ok,
        content_of(
            encoded_bytes(
                content,
                "utf8"@,
                "invalid base64 content: "@,
                "unknown encoding '"@,
            )->Ok_0,
        ) == (content, "utf8"@),
{
    encode_utf8_valid_utf8(content);
    encode_utf8_decode_utf8(content);
}

} // verus!
