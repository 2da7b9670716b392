use vstd::prelude::*;
use vstd::string::StringSliceAdditionalSpecFns;

verus! {

pub const DOT: u8 = 0x2e;

/// The path steps up into a parent directory somewhere (holds `..`).
pub open spec fn climbs_to_parent(b: Seq<u8>) -> bool {
    exists|i: int| 0 <= i && i + 1 < b.len() && #[trigger] b[i] == DOT && b[i + 1] == DOT
}

/// Request paths holding `..` are refused, so that no file outside the
/// served directory can be reached.
pub fn rejects_request_path(request_path: &str) -> (r: bool)
    ensures
        r == climbs_to_parent(request_path.spec_bytes()),
{
    let b = request_path.as_bytes();
    let mut i: usize = 0;
    while i < b.len()
        invariant
            b@ == request_path.spec_bytes(),
            forall|k: int| 0 <= k < i && k + 1 < b@.len() ==> !(#[trigger] b@[k] == DOT && b@[k + 1] == DOT),
        decreases b.len() - i,
    {
        if i + 1 < b.len() && b[i] == DOT && b[i + 1] == DOT {
            return true;
        }
        i = i + 1;
    }
    false
}

/// The position of the last dot in `t`, or -1.
pub open spec fn last_dot(t: Seq<u8>) -> int
    decreases t.len(),
{
    if t.len() == 0 {
        -1
    } else if t.last() == DOT {
        t.len() - 1
    } else {
        last_dot(t.drop_last())
    }
}

/// The last dot-separated field of a path (one dot at the very end ends the
/// last field), or `None` for an empty path.
pub open spec fn extension_of(path: Seq<u8>) -> Option<Seq<u8>> {
    if path.len() == 0 {
        None
    } else {
        let t = if path.last() == DOT { path.drop_last() } else { path };
        Some(t.skip(last_dot(t) + 1))
    }
}

/// The content type served for a file with the extension `e` (the
/// extensions are ASCII: html, js, ico, txt, css, csv, jpg, jpeg, png, tif, tiff).
pub open spec fn content_type_of_extension(e: Option<Seq<u8>>) -> &'static str {
    match e {
        Some(e) => if e == seq![0x68u8, 0x74u8, 0x6du8, 0x6cu8] {
            "text/html"
        } else if e == seq![0x6au8, 0x73u8] {
            "text/javascript"
        } else if e == seq![0x69u8, 0x63u8, 0x6fu8] {
            " image/x-icon"
        } else if e == seq![0x74u8, 0x78u8, 0x74u8] {
            "text/plain"
        } else if e == seq![0x63u8, 0x73u8, 0x73u8] {
            "text/css"
        } else if e == seq![0x63u8, 0x73u8, 0x76u8] {
            "text/csv"
        } else if e == seq![0x6au8, 0x70u8, 0x67u8] || e == seq![0x6au8, 0x70u8, 0x65u8, 0x67u8] {
            "image/jpeg"
        } else if e == seq![0x70u8, 0x6eu8, 0x67u8] {
            "image/png"
        } else if e == seq![0x74u8, 0x69u8, 0x66u8] || e == seq![0x74u8, 0x69u8, 0x66u8, 0x66u8] {
            "image/tiff"
        } else {
            "text/plain"
        },
        None => "text/plain",
    }
}

fn extension(path: &[u8]) -> (r: Option<Vec<u8>>)
    ensures
        r is None <==> extension_of(path@) is None,
        r is Some ==> extension_of(path@) == Some(r->0@),
{
    if path.len() == 0 {
        return None;
    }
    let end: usize = if path[path.len() - 1] == DOT {
        path.len() - 1
    } else {
        path.len()
    };
    let ghost t = path@.take(end as int);
    assert(t =~= if path@.last() == DOT { path@.drop_last() } else { path@ });
    let mut start: usize = end;
    assert(t.take(end as int) =~= t);
    while start > 0
        invariant
            start <= end <= path@.len(),
            t == path@.take(end as int),
            last_dot(t) == last_dot(t.take(start as int)),
        ensures
            start <= end,
            last_dot(t) == last_dot(t.take(start as int)),
            start == 0 || t[start - 1] == DOT,
        decreases start,
    {
        assert(t.take(start as int).drop_last() =~= t.take(start - 1));
        if path[start - 1] == DOT {
            break;
        }
        start = start - 1;
    }
    assert(t.take(0) =~= Seq::<u8>::empty());
    if start > 0 {
        assert(t.take(start as int).last() == t[start - 1]);
    }
    assert(last_dot(t) == start - 1);
    let r = crate::auth::copy_slice(path, start, end);
    assert(r@ =~= t.skip(last_dot(t) + 1));
    Some(r)
}

fn same_bytes(a: &Vec<u8>, b: &[u8]) -> (r: bool)
    ensures
        r == (a@ == b@),
{
    if a.len() != b.len() {
        return false;
    }
    let mut i: usize = 0;
    while i < a.len()
        invariant
            a@.len() == b@.len(),
            forall|k: int| 0 <= k < i ==> a@[k] == b@[k],
        decreases a.len() - i,
    {
        if a[i] != b[i] {
            return false;
        }
        i = i + 1;
    }
    assert(a@ =~= b@);
    true
}

/// The content type to serve for the file at `path`, chosen by its extension.
pub fn content_type(path: &[u8]) -> (r: &'static str)
    ensures
        r == content_type_of_extension(extension_of(path@)),
{
    match extension(path) {
        None => "text/plain",
        Some(e) => if same_bytes(&e, &[0x68u8, 0x74u8, 0x6du8, 0x6cu8]) {
            "text/html"
        } else if same_bytes(&e, &[0x6au8, 0x73u8]) {
            "text/javascript"
        } else if same_bytes(&e, &[0x69u8, 0x63u8, 0x6fu8]) {
            " image/x-icon"
        } else if same_bytes(&e, &[0x74u8, 0x78u8, 0x74u8]) {
            "text/plain"
        } else if same_bytes(&e, &[0x63u8, 0x73u8, 0x73u8]) {
            "text/css"
        } else if same_bytes(&e, &[0x63u8, 0x73u8, 0x76u8]) {
            "text/csv"
        } else if same_bytes(&e, &[0x6au8, 0x70u8, 0x67u8]) || same_bytes(&e, &[0x6au8, 0x70u8, 0x65u8, 0x67u8]) {
            "image/jpeg"
        } else if same_bytes(&e, &[0x70u8, 0x6eu8, 0x67u8]) {
            "image/png"
        } else if same_bytes(&e, &[0x74u8, 0x69u8, 0x66u8]) || same_bytes(&e, &[0x74u8, 0x69u8, 0x66u8, 0x66u8]) {
            "image/tiff"
        } else {
            "text/plain"
        },
    }
}

} // verus!
