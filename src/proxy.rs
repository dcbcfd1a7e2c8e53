use vstd::prelude::*;

use crate::objects::{FileType, FindObject, ObjectHandle, ObjectId, ObjectPurpose, SourceConfig};
use crate::types::{Config, Scope};

verus! {

/// Method of an incoming proxy request.
#[derive(Clone, Copy, Debug, PartialEq, Eq, Structural)]
pub enum HttpMethod {
    Get,
    Head,
    Post,
    Put,
    Delete,
    Other,
}

/// A symbol-store request path, decoded.
pub struct SymstorePath {
    pub filetype: FileType,
    /// The file name, also repeated as the last segment.
    pub name: String,
    /// The identifier segment between the two names.
    pub signature: String,
}

/// Status and headers of a proxy response; the body, when there is one, is
/// the fetched object's bytes.
#[derive(Clone, Copy, Debug, PartialEq, Eq, Structural)]
pub struct ProxyReply {
    pub status: u16,
    /// Value of the content-length header, sent with a binary content type.
    pub content_length: Option<usize>,
    pub with_body: bool,
}

/// Whether `s` ends with an extension spelled `lower` in lowercase and
/// `upper` in uppercase, each character in either case.
pub open spec fn ends_with_ci(s: Seq<char>, lower: Seq<char>, upper: Seq<char>) -> bool {
    lower.len() <= s.len() && forall|k: int|
        0 <= k < lower.len() ==> #[trigger] s[s.len() - lower.len() + k] == lower[k]
            || s[s.len() - lower.len() + k] == upper[k]
}

/// The file kind a symbol-store file name denotes.
pub open spec fn name_filetype(name: Seq<char>) -> Option<FileType> {
    if ends_with_ci(name, ".pdb"@, ".PDB"@) {
        Some(FileType::Pdb)
    } else if ends_with_ci(name, ".exe"@, ".EXE"@) || ends_with_ci(name, ".dll"@, ".DLL"@) {
        Some(FileType::Pe)
    } else {
        None
    }
}

/// `p` is `name/signature/name` with slashes at `i` and `j` only and every
/// segment non-empty.
pub open spec fn symstore_split(p: Seq<char>, i: int, j: int) -> bool {
    &&& 0 < i
    &&& i + 1 < j
    &&& j + 1 < p.len()
    &&& p[i] == '/'
    &&& p[j] == '/'
    &&& forall|k: int| 0 <= k < p.len() && #[trigger] p[k] == '/' ==> k == i || k == j
    &&& p.subrange(j + 1, p.len() as int) == p.subrange(0, i)
}

/// Whether `p` is a path that the proxy serves.
pub open spec fn symstore_parses(p: Seq<char>) -> bool {
    exists|i: int, j: int| #[trigger]
        symstore_split(p, i, j) && name_filetype(p.subrange(0, i)) is Some
}

fn ends_with_ext(s: &str, n: usize, lower: &str, upper: &str) -> (r: bool)
    requires
        n == s@.len(),
        lower@.len() == upper@.len(),
    ensures
        r == ends_with_ci(s@, lower@, upper@),
{
    let m = lower.unicode_len();
    if m > n {
        return false;
    }
    let mut k: usize = 0;
    while k < m
        invariant
            m == lower@.len(),
            m == upper@.len(),
            m <= n,
            n == s@.len(),
            k <= m,
            forall|q: int|
                0 <= q < k ==> #[trigger] s@[n - m + q] == lower@[q] || s@[n - m + q] == upper@[q],
        decreases m - k,
    {
        let c = s.get_char(n - m + k);
        if c != lower.get_char(k) && c != upper.get_char(k) {
            return false;
        }
        k += 1;
    }
    true
}

fn filetype_of(name: &str) -> (r: Option<FileType>)
    ensures
        r == name_filetype(name@),
{
    let n = name.unicode_len();
    proof {
        reveal_strlit(".pdb");
        reveal_strlit(".PDB");
        reveal_strlit(".exe");
        reveal_strlit(".EXE");
        reveal_strlit(".dll");
        reveal_strlit(".DLL");
    }
    if ends_with_ext(name, n, ".pdb", ".PDB") {
        Some(FileType::Pdb)
    } else if ends_with_ext(name, n, ".exe", ".EXE") || ends_with_ext(name, n, ".dll", ".DLL") {
        Some(FileType::Pe)
    } else {
        None
    }
}

/// Index of the first `/` at or after `from`, or `n` if there is none.
fn find_slash(p: &str, n: usize, from: usize) -> (r: usize)
    requires
        n == p@.len(),
        from <= n,
    ensures
        from <= r <= n,
        r < n ==> p@[r as int] == '/',
        forall|k: int| from <= k < r ==> p@[k] != '/',
{
    let mut k = from;
    while k < n
        invariant
            n == p@.len(),
            from <= k <= n,
            forall|q: int| from <= q < k ==> p@[q] != '/',
        decreases n - k,
    {
        if p.get_char(k) == '/' {
            return k;
        }
        k += 1;
    }
    n
}

/// Decodes a symbol-store path `name/signature/name`, where the name ends in
/// `.pdb` (a PDB, keyed by its signature) or in `.exe` or `.dll` (a PE, keyed
/// by its code id). Any other path is not served.
pub fn parse_symstore_path(path: &str) -> (r: Option<SymstorePath>)
    ensures
        r is Some <==> symstore_parses(path@),
        match r {
            Some(q) => exists|i: int, j: int|
                symstore_split(path@, i, j) && q.name@ == path@.subrange(0, i) && q.signature@
                    == path@.subrange(i + 1, j) && name_filetype(path@.subrange(0, i)) == Some(
                    q.filetype,
                ),
            None => true,
        },
{
    let n = path.unicode_len();
    let i = find_slash(path, n, 0);
    proof {
        lemma_no_split(path@, i as int, n as int);
    }
    if i == 0 || i >= n {
        return None;
    }
    let j = find_slash(path, n, i + 1);
    proof {
        lemma_second_slash(path@, i as int, j as int, n as int);
    }
    if j == i + 1 || j >= n - 1 {
        return None;
    }
    let rest = find_slash(path, n, j + 1);
    if rest < n {
        proof {
            assert(path@[rest as int] == '/');
        }
        return None;
    }
    if n - (j + 1) != i {
        proof {
            assert forall|a: int, b: int| #[trigger] symstore_split(path@, a, b) implies false by {
                assert(path@.subrange(b + 1, n as int).len() == path@.subrange(0, a).len());
            }
        }
        return None;
    }
    let mut k: usize = 0;
    while k < i
        invariant
            n == path@.len(),
            i + 1 < j,
            j + 1 + i == n,
            k <= i,
            forall|a: int, b: int| #[trigger] symstore_split(path@, a, b) ==> a == i && b == j,
            forall|q: int| 0 <= q < k ==> path@[j + 1 + q] == #[trigger] path@[q],
        decreases i - k,
    {
        if path.get_char(j + 1 + k) != path.get_char(k) {
            proof {
                assert forall|a: int, b: int| #[trigger] symstore_split(path@, a, b) implies false by {
                    assert(path@.subrange(b + 1, n as int)[k as int] == path@.subrange(0, a)[k as int]);
                }
            }
            return None;
        }
        k += 1;
    }
    proof {
        assert(path@.subrange(j + 1, n as int) =~= path@.subrange(0, i as int));
        assert forall|q: int| 0 <= q < path@.len() && #[trigger] path@[q] == '/' implies q == i || q
            == j by {
            if q > j {
                assert(j + 1 <= q < rest);
            }
        }
        assert(symstore_split(path@, i as int, j as int));
    }
    let name_str = path.substring_char(0, i);
    let filetype = match filetype_of(name_str) {
        Some(t) => t,
        None => {
            return None;
        },
    };
    let signature_str = path.substring_char(i + 1, j);
    proof {
        assert(symstore_split(path@, i as int, j as int) && name_filetype(path@.subrange(0, i as int))
            is Some);
    }
    Some(SymstorePath { filetype, name: name_str.to_owned(), signature: signature_str.to_owned() })
}

/// With `i` the first slash and `j` the next one (or the end), any split of
/// `p` is at `i` and `j`.
proof fn lemma_second_slash(p: Seq<char>, i: int, j: int, n: int)
    requires
        n == p.len(),
        0 <= i < j <= n,
        p[i] == '/',
        j < n ==> p[j] == '/',
        forall|k: int| i + 1 <= k < j ==> p[k] != '/',
        forall|a: int, b: int| #[trigger] symstore_split(p, a, b) ==> a == i,
    ensures
        forall|a: int, b: int| #[trigger] symstore_split(p, a, b) ==> a == i && b == j,
{
    assert forall|a: int, b: int| #[trigger] symstore_split(p, a, b) implies a == i && b == j by {
        if b < j {
            assert(p[b] == '/');
        } else if b > j {
            assert(p[j] == '/');
        }
    }
}

/// Any split of `p` has its first slash at the first `/` of `p`; so when the
/// checks at that slash fail, `p` does not parse.
proof fn lemma_no_split(p: Seq<char>, first: int, n: int)
    requires
        n == p.len(),
        0 <= first <= n,
        first < n ==> p[first] == '/',
        forall|k: int| 0 <= k < first ==> p[k] != '/',
    ensures
        forall|i: int, j: int| #[trigger] symstore_split(p, i, j) ==> i == first,
{
    assert forall|i: int, j: int| #[trigger] symstore_split(p, i, j) implies i == first by {
        if i < first {
            assert(p[i] == '/');
        } else if i > first {
            assert(p[first] == '/');
        }
    }
}

/// The key under which a file of kind `t` named `name` with signature `sig`
/// is searched: a PDB by debug file and id, any other kind by code file and id.
pub open spec fn identifies(id: ObjectId, t: FileType, name: Seq<char>, sig: Seq<char>) -> bool {
    if t == FileType::Pdb {
        &&& id.debug_file is Some && id.debug_file->0@ == name
        &&& id.debug_id is Some && id.debug_id->0@ == sig
        &&& id.code_file is None && id.code_id is None
    } else {
        &&& id.code_file is Some && id.code_file->0@ == name
        &&& id.code_id is Some && id.code_id->0@ == sig
        &&& id.debug_file is None && id.debug_id is None
    }
}

/// Accepts `HEAD` and `GET`; any other method is not allowed.
pub fn gate_method(method: HttpMethod) -> (r: Option<bool>)
    ensures
        r == match method {
            HttpMethod::Head => Some(true),
            HttpMethod::Get => Some(false),
            _ => None::<bool>,
        },
{
    match method {
        HttpMethod::Head => Some(true),
        HttpMethod::Get => Some(false),
        _ => None,
    }
}

/// Turns a proxy path into a resolution query over `sources`: the file kind
/// the name denotes, for debugging, in the global scope. `None` when the proxy
/// is disabled or the path is not a symbol-store path.
pub fn plan_lookup(config: &Config, path: &str, sources: Vec<SourceConfig>) -> (r: Option<FindObject>)
    ensures
        r is Some <==> config.symstore_proxy && symstore_parses(path@),
        match r {
            Some(q) => {
                &&& q.sources@ == sources@
                &&& q.filetypes@.len() == 1
                &&& q.purpose == ObjectPurpose::Debug
                &&& q.scope is Global
                &&& exists|i: int, j: int|
                    symstore_split(path@, i, j) && name_filetype(path@.subrange(0, i)) == Some(
                        q.filetypes@[0],
                    ) && identifies(
                        q.identifier,
                        q.filetypes@[0],
                        path@.subrange(0, i),
                        path@.subrange(i + 1, j),
                    )
            },
            None => true,
        },
{
    if !config.symstore_proxy {
        return None;
    }
    let parsed = match parse_symstore_path(path) {
        Some(p) => p,
        None => return None,
    };
    let identifier = match parsed.filetype {
        FileType::Pdb => ObjectId {
            code_id: None,
            code_file: None,
            debug_id: Some(parsed.signature),
            debug_file: Some(parsed.name),
        },
        _ => ObjectId {
            code_id: Some(parsed.signature),
            code_file: Some(parsed.name),
            debug_id: None,
            debug_file: None,
        },
    };
    let filetypes = vec![parsed.filetype];
    assert(filetypes@[0] == parsed.filetype);
    Some(
        FindObject {
            filetypes,
            identifier,
            sources,
            scope: Scope::Global,
            purpose: ObjectPurpose::Debug,
        },
    )
}

/// The reply for `method` given what the lookup produced.
pub open spec fn reply_spec(method: HttpMethod, found: Option<(bool, nat)>) -> ProxyReply {
    match method {
        HttpMethod::Head | HttpMethod::Get => match found {
            Some((true, len)) => ProxyReply {
                status: 200,
                content_length: Some(len as usize),
                with_body: method == HttpMethod::Get,
            },
            _ => ProxyReply { status: 404, content_length: None, with_body: false },
        },
        _ => ProxyReply { status: 405, content_length: None, with_body: false },
    }
}

pub open spec fn handle_summary(handle: Option<&ObjectHandle>) -> Option<(bool, nat)> {
    match handle {
        Some(h) => Some((h.present(), h.bytes().len())),
        None => None,
    }
}

/// Status and headers for a proxy request: 405 for a method other than
/// `HEAD` and `GET`; 404 when nothing was found or the fetch produced no
/// object; otherwise 200 with the object's length, and a body for `GET` only.
pub fn proxy_reply(method: HttpMethod, handle: Option<&ObjectHandle>) -> (r: ProxyReply)
    ensures
        r == reply_spec(method, handle_summary(handle)),
{
    let is_head = match gate_method(method) {
        Some(h) => h,
        None => return ProxyReply { status: 405, content_length: None, with_body: false },
    };
    match handle {
        Some(h) => {
            if h.has_object() {
                ProxyReply { status: 200, content_length: Some(h.len()), with_body: !is_head }
            } else {
                ProxyReply { status: 404, content_length: None, with_body: false }
            }
        },
        None => ProxyReply { status: 404, content_length: None, with_body: false },
    }
}

/// A `HEAD` request and the `GET` request for the same object report the same
/// status and content length, and only the `GET` reply carries a body.
pub proof fn lemma_head_matches_get(found: Option<(bool, nat)>)
    ensures
        reply_spec(HttpMethod::Head, found).status == reply_spec(HttpMethod::Get, found).status,
        reply_spec(HttpMethod::Head, found).content_length == reply_spec(
            HttpMethod::Get,
            found,
        ).content_length,
        !reply_spec(HttpMethod::Head, found).with_body,
        reply_spec(HttpMethod::Get, found).with_body <==> reply_spec(HttpMethod::Get, found).status
            == 200,
{
}

} // verus!
