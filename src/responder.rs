//! Deciding what each request is answered with.

use vstd::prelude::*;
use vstd::slice::slice_to_vec;
use vstd::utf8::encode_utf8;
use crate::resolver::{path_from_req, resolve_spec};
use crate::rewrite::RewriteTable;
use crate::text::chars_of;

verus! {

/// The request methods that the host tells apart.
#[derive(Clone, Copy, Debug, PartialEq, Eq, Structural)]
pub enum Method {
    Get,
    Other,
}

/// What a request is answered with.
pub enum Reply {
    /// The bytes of the file, unchanged.
    Contents(Vec<u8>),
    /// The not-found text.
    NotFound,
    /// An empty body, for a missing `favicon.ico`.
    Silent,
    /// The text that refuses a method other than GET.
    GetOnly,
}

/// The next thing to do for a request: answer at once, or read a file first.
pub enum Step {
    Respond(Reply),
    ReadFile(String),
}

/// The body that answers a missing file.
pub open spec fn not_found_text() -> Seq<char> {
    "404 File not found"@
}

/// The body that answers a method other than GET.
pub open spec fn get_only_text() -> Seq<char> {
    "Only GET-requests supported"@
}

/// The name of the file that browsers ask for on their own.
pub open spec fn favicon_name() -> Seq<char> {
    "favicon.ico"@
}

/// The part of `path` after its last `/` (all of it when there is none).
pub open spec fn final_segment(path: Seq<char>) -> Seq<char>
    decreases path.len(),
{
    if path.len() == 0 || path.last() == '/' {
        Seq::empty()
    } else {
        final_segment(path.drop_last()).push(path.last())
    }
}

/// `path` without its trailing separators and trailing `.` components, which name no
/// file of their own.
pub open spec fn strip_trailing(path: Seq<char>) -> Seq<char>
    decreases path.len(),
{
    if path.len() == 0 {
        path
    } else if path.last() == '/' || (path.last() == '.' && (path.len() == 1 || path[path.len()
        - 2] == '/')) {
        strip_trailing(path.drop_last())
    } else {
        path
    }
}

/// The name of the file that `path` designates: its last component once trailing
/// separators and `.` components are dropped; none when that is empty or `..`.
pub open spec fn file_name(path: Seq<char>) -> Option<Seq<char>> {
    let seg = final_segment(strip_trailing(path));
    if seg.len() == 0 || seg == seq!['.', '.'] {
        None
    } else {
        Some(seg)
    }
}

/// The bytes of the body that `reply` carries.
pub open spec fn reply_body(reply: Reply) -> Seq<u8> {
    match reply {
        Reply::Contents(c) => c@,
        Reply::NotFound => encode_utf8(not_found_text()),
        Reply::Silent => Seq::empty(),
        Reply::GetOnly => encode_utf8(get_only_text()),
    }
}

impl Reply {
    /// The bytes of the body.
    pub fn body(&self) -> (r: Vec<u8>)
        ensures
            r@ == reply_body(*self),
    {
        match self {
            Reply::Contents(c) => c.clone(),
            Reply::NotFound => slice_to_vec("404 File not found".as_bytes()),
            Reply::Silent => Vec::new(),
            Reply::GetOnly => slice_to_vec("Only GET-requests supported".as_bytes()),
        }
    }
}

/// The final segment of the first `m` characters of `path` starts just after a `/` at `j - 1`
/// (or at the start) when no `/` stands between `j` and `m`.
proof fn lemma_final_segment(path: Seq<char>, j: int, m: int)
    requires
        0 <= j <= m <= path.len(),
        j == 0 || path[j - 1] == '/',
        forall|k: int| j <= k < m ==> path[k] != '/',
    ensures
        final_segment(path.subrange(0, m)) == path.subrange(j, m),
    decreases m - j,
{
    if m == j {
        assert(path.subrange(j, m) =~= Seq::<char>::empty());
    } else {
        lemma_final_segment(path, j, m - 1);
        assert(path.subrange(0, m).drop_last() =~= path.subrange(0, m - 1));
        assert(path.subrange(j, m) =~= path.subrange(j, m - 1).push(path[m - 1]));
    }
}

/// Whether the file that `path` designates is named `favicon.ico`.
fn names_favicon(path: &str) -> (r: bool)
    ensures
        r == (file_name(path@) == Some(favicon_name())),
{
    let cs = chars_of(path);
    let n = cs.len();
    let mut e: usize = n;
    assert(cs@.subrange(0, n as int) =~= cs@);
    while e > 0 && (cs[e - 1] == '/' || (cs[e - 1] == '.' && (e == 1 || cs[e - 2] == '/')))
        invariant
            cs@ == path@,
            e <= n == cs.len(),
            strip_trailing(cs@.subrange(0, e as int)) == strip_trailing(path@),
        decreases e,
    {
        assert(cs@.subrange(0, e as int).drop_last() =~= cs@.subrange(0, e - 1));
        e -= 1;
    }
    let ghost stripped = cs@.subrange(0, e as int);
    assert(strip_trailing(stripped) == stripped);
    let mut j: usize = e;
    while j > 0 && cs[j - 1] != '/'
        invariant
            cs@ == path@,
            j <= e <= n == cs.len(),
            forall|k: int| j <= k < e ==> cs@[k] != '/',
        decreases j,
    {
        j -= 1;
    }
    proof {
        lemma_final_segment(cs@, j as int, e as int);
        reveal_strlit("favicon.ico");
    }
    let ghost seg = cs@.subrange(j as int, e as int);
    assert(final_segment(strip_trailing(path@)) == seg);
    let name = chars_of("favicon.ico");
    assert(name@.len() == 11);
    if e - j != name.len() {
        assert(seg.len() != name@.len());
        return false;
    }
    let mut k: usize = 0;
    while k < name.len()
        invariant
            e - j == name.len(),
            j <= e <= n == cs.len(),
            seg == cs@.subrange(j as int, e as int),
            final_segment(strip_trailing(path@)) == seg,
            name@ == favicon_name(),
            k <= name.len(),
            forall|i: int| 0 <= i < k ==> cs@[j + i] == name@[i],
        decreases name.len() - k,
    {
        if cs[j + k] != name[k] {
            assert(seg[k as int] != name@[k as int]);
            return false;
        }
        k += 1;
    }
    assert(seg =~= name@);
    assert(seg != seq!['.', '.']);
    true
}

/// The reply once the file at `filepath` has been read: its bytes when the read gave
/// `contents`; when it failed, an empty body for a `favicon.ico` and the not-found
/// text for anything else.
pub fn serve_file(filepath: &str, contents: Option<Vec<u8>>) -> (r: Reply)
    ensures
        match contents {
            Some(c) => r == Reply::Contents(c),
            None => if file_name(filepath@) == Some(favicon_name()) {
                r == Reply::Silent
            } else {
                r == Reply::NotFound
            },
        },
{
    match contents {
        Some(c) => Reply::Contents(c),
        None => {
            if names_favicon(filepath) {
                Reply::Silent
            } else {
                Reply::NotFound
            }
        },
    }
}

/// What to do for a request with `method` on `req_path`: a method other than GET is
/// refused at once; a GET whose path resolves to nothing gets the not-found text;
/// any other GET reads the resolved file.
pub fn plan_request(method: Method, req_path: &str, root: &str, rewrites: &RewriteTable) -> (s:
    Step)
    ensures
        method == Method::Other ==> s == Step::Respond(Reply::GetOnly),
        method == Method::Get ==> match resolve_spec(req_path@, root@, rewrites@) {
            None => s == Step::Respond(Reply::NotFound),
            Some(p) => s is ReadFile && s->ReadFile_0@ == p,
        },
{
    match method {
        Method::Other => Step::Respond(Reply::GetOnly),
        Method::Get => match path_from_req(req_path, root, rewrites) {
            Some(p) => Step::ReadFile(p),
            None => Step::Respond(Reply::NotFound),
        },
    }
}

} // verus!
