//! Routing of REST requests: which operation a method and path ask for.

use vstd::prelude::*;

verus! {

/// Request method.
#[derive(Debug, Clone, Copy, PartialEq, Eq, Structural)]
pub enum Method {
    Get,
    Head,
    Put,
    Post,
    Delete,
    Other,
}

/// The operation a request asks for; block ids are the path's bytes.
#[derive(Debug, Clone, PartialEq)]
pub enum Route {
    Index,
    Status,
    Metrics,
    HeadBlock(Vec<u8>),
    GetBlock(Vec<u8>),
    PutBlock(Option<Vec<u8>>),
    PostBlock(Option<Vec<u8>>),
    DeleteBlock(Vec<u8>),
    NotFound,
}

/// The path without one trailing slash.
pub open spec fn trimmed(p: Seq<u8>) -> Seq<u8> {
    if p.len() > 0 && p.last() == 47 {
        p.drop_last()
    } else {
        p
    }
}

/// Scanning a path: the number of slashes, and the segments after the first
/// and after the second slash (each up to the next slash).
pub open spec fn scan(p: Seq<u8>) -> (nat, Seq<u8>, Seq<u8>)
    decreases p.len(),
{
    if p.len() == 0 {
        (0, Seq::empty(), Seq::empty())
    } else {
        let (n, s1, s2) = scan(p.drop_last());
        let c = p.last();
        if c == 47 {
            (n + 1, s1, s2)
        } else if n == 1 {
            (n, s1.push(c), s2)
        } else if n == 2 {
            (n, s1, s2.push(c))
        } else {
            (n, s1, s2)
        }
    }
}

pub open spec fn word_block() -> Seq<u8> {
    seq![98u8, 108, 111, 99, 107]
}

pub open spec fn word_status() -> Seq<u8> {
    seq![115u8, 116, 97, 116, 117, 115]
}

pub open spec fn word_metrics() -> Seq<u8> {
    seq![109u8, 101, 116, 114, 105, 99, 115]
}

pub open spec fn word_index() -> Seq<u8> {
    seq![47u8, 105, 110, 100, 101, 120, 46, 104, 116, 109, 108]
}

/// The route of `m` on path bytes `p`: `GET` of the root or `/index.html`
/// is the greeting; `GET /status` and `GET /metrics`; `HEAD`, `GET` and
/// `DELETE` of `/block/{id}`; `PUT` and `POST` of `/block` with an optional
/// id; anything else is not found. One trailing slash is ignored.
pub open spec fn route_spec(m: Method, p: Seq<u8>) -> RouteView {
    let t = trimmed(p);
    let (n, s1, s2) = scan(t);
    let cmd = if n > 0 { s1 } else { Seq::empty() };
    if m == Method::Get && (t == seq![47u8] || t == word_index() || t.len() == 0) {
        RouteView::Index
    } else if m == Method::Get && cmd == word_status() && n == 1 {
        RouteView::Status
    } else if m == Method::Get && cmd == word_metrics() && n == 1 {
        RouteView::Metrics
    } else if m == Method::Head && cmd == word_block() && n == 2 {
        RouteView::HeadBlock(s2)
    } else if m == Method::Get && cmd == word_block() && n == 2 {
        RouteView::GetBlock(s2)
    } else if m == Method::Put && cmd == word_block() {
        RouteView::PutBlock(if n > 1 { Some(s2) } else { None })
    } else if m == Method::Post && cmd == word_block() {
        RouteView::PostBlock(if n > 1 { Some(s2) } else { None })
    } else if m == Method::Delete && cmd == word_block() && n == 2 {
        RouteView::DeleteBlock(s2)
    } else {
        RouteView::NotFound
    }
}

/// A route, with ids as byte sequences.
pub enum RouteView {
    Index,
    Status,
    Metrics,
    HeadBlock(Seq<u8>),
    GetBlock(Seq<u8>),
    PutBlock(Option<Seq<u8>>),
    PostBlock(Option<Seq<u8>>),
    DeleteBlock(Seq<u8>),
    NotFound,
}

impl View for Route {
    type V = RouteView;

    open spec fn view(&self) -> RouteView {
        match self {
            Route::Index => RouteView::Index,
            Route::Status => RouteView::Status,
            Route::Metrics => RouteView::Metrics,
            Route::HeadBlock(v) => RouteView::HeadBlock(v@),
            Route::GetBlock(v) => RouteView::GetBlock(v@),
            Route::PutBlock(v) => RouteView::PutBlock(
                match v {
                    Some(x) => Some(x@),
                    None => None,
                },
            ),
            Route::PostBlock(v) => RouteView::PostBlock(
                match v {
                    Some(x) => Some(x@),
                    None => None,
                },
            ),
            Route::DeleteBlock(v) => RouteView::DeleteBlock(v@),
            Route::NotFound => RouteView::NotFound,
        }
    }
}

/// UTF-8 bytes of the lowercase form of `s`.
pub uninterp spec fn lowercase_bytes_of(s: Seq<char>) -> Seq<u8>;

/// Relies on `str::to_lowercase`: the lowercase form depends on the text
/// alone; its UTF-8 bytes.
#[verifier::external_body]
fn lowercase_bytes(s: &str) -> (r: Vec<u8>)
    ensures
        r@ == lowercase_bytes_of(s@),
{
    s.to_lowercase().into_bytes()
}

fn equals(a: &Vec<u8>, w: &[u8]) -> (r: bool)
    ensures
        r == (a@ == w@),
{
    if a.len() != w.len() {
        return false;
    }
    let mut i: usize = 0;
    while i < a.len()
        invariant
            a@.len() == w@.len(),
            i <= a@.len(),
            forall|j: int| 0 <= j < i ==> a@[j] == w@[j],
        decreases a@.len() - i,
    {
        if a[i] != w[i] {
            return false;
        }
        i = i + 1;
    }
    assert(a@ =~= w@);
    true
}

/// The route of `m` on path bytes `p`.
pub fn route_path(m: Method, p: &[u8]) -> (r: Route)
    ensures
        r@ == route_spec(m, p@),
{
    let mut len = p.len();
    if len > 0 && p[len - 1] == 47 {
        len = len - 1;
    }
    let ghost t = trimmed(p@);
    assert(t =~= p@.take(len as int));
    let mut n: usize = 0;
    let mut s1: Vec<u8> = Vec::new();
    let mut s2: Vec<u8> = Vec::new();
    let mut whole: Vec<u8> = Vec::new();
    let mut i: usize = 0;
    while i < len
        invariant
            len <= p@.len(),
            t == p@.take(len as int),
            i <= len,
            n <= i,
            whole@ == p@.take(i as int),
            scan(p@.take(i as int)) == (n as nat, s1@, s2@),
        decreases len - i,
    {
        let c = p[i];
        proof {
            assert(p@.take(i + 1).drop_last() =~= p@.take(i as int));
        }
        if c == 47 {
            n = n + 1;
        } else if n == 1 {
            s1.push(c);
        } else if n == 2 {
            s2.push(c);
        }
        whole.push(c);
        i = i + 1;
        assert(whole@ =~= p@.take(i as int));
    }
    let cmd: Vec<u8> = if n > 0 { s1 } else { Vec::new() };
    let w_root: [u8; 1] = [47u8];
    let w_index: [u8; 11] = [47u8, 105, 110, 100, 101, 120, 46, 104, 116, 109, 108];
    let w_status: [u8; 6] = [115u8, 116, 97, 116, 117, 115];
    let w_metrics: [u8; 7] = [109u8, 101, 116, 114, 105, 99, 115];
    let w_block: [u8; 5] = [98u8, 108, 111, 99, 107];
    assert(w_root@ =~= seq![47u8]);
    assert(w_index@ =~= word_index());
    assert(w_status@ =~= word_status());
    assert(w_metrics@ =~= word_metrics());
    assert(w_block@ =~= word_block());
    let is_root = equals(&whole, w_root.as_slice());
    let is_index = equals(&whole, w_index.as_slice());
    let is_status = equals(&cmd, w_status.as_slice());
    let is_metrics = equals(&cmd, w_metrics.as_slice());
    let is_block = equals(&cmd, w_block.as_slice());
    assert(whole@ =~= t);
    if m == Method::Get && (is_root || is_index || len == 0) {
        Route::Index
    } else if m == Method::Get && is_status && n == 1 {
        Route::Status
    } else if m == Method::Get && is_metrics && n == 1 {
        Route::Metrics
    } else if m == Method::Head && is_block && n == 2 {
        Route::HeadBlock(s2)
    } else if m == Method::Get && is_block && n == 2 {
        Route::GetBlock(s2)
    } else if m == Method::Put && is_block {
        Route::PutBlock(if n > 1 { Some(s2) } else { None })
    } else if m == Method::Post && is_block {
        Route::PostBlock(if n > 1 { Some(s2) } else { None })
    } else if m == Method::Delete && is_block && n == 2 {
        Route::DeleteBlock(s2)
    } else {
        Route::NotFound
    }
}

/// The route of `m` on `path`, which is lowercased first.
pub fn route(m: Method, path: &str) -> (r: Route)
    ensures
        r@ == route_spec(m, lowercase_bytes_of(path@)),
{
    let bytes = lowercase_bytes(path);
    route_path(m, bytes.as_slice())
}

/// `s` without its double-quote characters.
pub open spec fn unquoted(s: Seq<u8>) -> Seq<u8>
    decreases s.len(),
{
    if s.len() == 0 {
        Seq::empty()
    } else if s.last() == 34 {
        unquoted(s.drop_last())
    } else {
        unquoted(s.drop_last()).push(s.last())
    }
}

/// The `If-None-Match` value with its quotes removed.
pub fn strip_quotes(v: &[u8]) -> (r: Vec<u8>)
    ensures
        r@ == unquoted(v@),
{
    let mut out: Vec<u8> = Vec::new();
    let mut i: usize = 0;
    while i < v.len()
        invariant
            i <= v@.len(),
            out@ == unquoted(v@.take(i as int)),
        decreases v@.len() - i,
    {
        proof {
            assert(v@.take(i + 1).drop_last() =~= v@.take(i as int));
        }
        if v[i] != 34 {
            out.push(v[i]);
        }
        i = i + 1;
    }
    assert(v@.take(i as int) =~= v@);
    out
}

/// Whether `v` holds the bytes `lz4` somewhere.
pub open spec fn mentions_lz4(v: Seq<u8>) -> bool {
    exists|i: int| 0 <= i && i + 3 <= v.len() && #[trigger] v[i] == 108 && v[i + 1] == 122 && v[i + 2] == 52
}

/// Whether an `Accept-Encoding` value admits LZ4 transfer.
pub fn accepts_lz4(v: &[u8]) -> (r: bool)
    ensures
        r == mentions_lz4(v@),
{
    if v.len() < 3 {
        return false;
    }
    let mut i: usize = 0;
    let last = v.len() - 3;
    while i <= last
        invariant
            v@.len() >= 3,
            last == v@.len() - 3,
            i <= last + 1,
            forall|j: int| 0 <= j < i && j + 3 <= v@.len() ==> !(#[trigger] v@[j] == 108 && v@[j + 1] == 122 && v@[j + 2] == 52),
        decreases v@.len() - i,
    {
        if v[i] == 108 && v[i + 1] == 122 && v[i + 2] == 52 {
            return true;
        }
        i = i + 1;
    }
    false
}

} // verus!
