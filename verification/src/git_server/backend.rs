//! The CGI exchange with `git http-backend`: the environment a request runs
//! in, and the reading of the headers and body that the backend answers.
use std::str::FromStr;

use vstd::prelude::*;

use crate::git_server::error::Error;
use crate::text::{
    chars_of, concat2, ends_with, find_char, first_index, has_suffix, join_strings, join_with,
    lemma_first_index, split_on, str_eq, string_of_range, views,
};

verus! {

/// What `git http-backend` needs to know of a request.
pub struct BackendRequest {
    /// Fingerprints of the keys allowed to push (only loaded for pushes).
    pub authorized_keys: Vec<String>,
    /// The project's delegates, in their default encoding.
    pub delegates: Vec<String>,
    /// Whether pushes by unauthorized keys are allowed.
    pub allow_unauthorized_keys: bool,
    /// The project's name.
    pub name: Option<String>,
    /// The peer named in the request path.
    pub peer_id: Option<String>,
    /// The project's default branch.
    pub default_branch: Option<String>,
    /// The storage root the server was started with.
    pub root: Option<String>,
    /// Path of the hook run after a successful push.
    pub receive_hook: String,
    /// HTTP method of the request.
    pub method: String,
    /// The git directory of the monorepo.
    pub project_root: String,
    /// The git namespace of the project.
    pub namespace: String,
    /// The path of the request below the project.
    pub path: String,
    /// The `Content-Type` header of the request, or empty.
    pub content_type: String,
    /// IP address of the client.
    pub remote_ip: String,
    /// Socket address of the client.
    pub remote_addr: String,
    /// The query string of the request.
    pub query: String,
}

/// Pairs of strings, by their characters.
pub open spec fn pair_views(v: Seq<(String, String)>) -> Seq<(Seq<char>, Seq<char>)> {
    v.map_values(|p: (String, String)| (p.0@, p.1@))
}

/// One variable when `present`, none otherwise.
pub open spec fn var_if(present: bool, name: Seq<char>, value: Seq<char>) -> Seq<(Seq<char>, Seq<char>)> {
    if present {
        seq![(name, value)]
    } else {
        Seq::empty()
    }
}

/// The variable `name` set to an optional value, when there is one.
pub open spec fn var_opt(name: Seq<char>, value: Option<String>) -> Seq<(Seq<char>, Seq<char>)> {
    match value {
        Some(v) => seq![(name, v@)],
        None => Seq::empty(),
    }
}

/// `PATH_INFO`: the request path below the root, as `Path::new("/").join(path)`
/// builds it (an absolute path replaces the root).
pub open spec fn path_info(path: Seq<char>) -> Seq<char> {
    if path.len() > 0 && path[0] == '/' {
        path
    } else {
        seq!['/'] + path
    }
}

/// The radicle variables of a request's environment: those that only some
/// requests have.
pub open spec fn radicle_vars_spec(req: BackendRequest) -> Seq<(Seq<char>, Seq<char>)> {
    var_if(
        req.authorized_keys@.len() > 0,
        "RADICLE_AUTHORIZED_KEYS"@,
        join_with(views(req.authorized_keys@), ","@),
    ) + var_if(
        req.delegates@.len() > 0,
        "RADICLE_DELEGATES"@,
        join_with(views(req.delegates@), ","@),
    ) + var_if(req.allow_unauthorized_keys, "RADICLE_ALLOW_UNAUTHORIZED_KEYS"@, "true"@)
        + var_opt("RADICLE_NAME"@, req.name) + var_opt("RADICLE_PEER_ID"@, req.peer_id) + var_opt(
        "RADICLE_DEFAULT_BRANCH"@,
        req.default_branch,
    ) + var_opt("RADICLE_STORAGE_ROOT"@, req.root)
}

/// The variables that every request's environment has.
pub open spec fn cgi_vars_spec(req: BackendRequest) -> Seq<(Seq<char>, Seq<char>)> {
    seq![
        ("RADICLE_RECEIVE_HOOK"@, req.receive_hook@),
        ("REQUEST_METHOD"@, req.method@),
        ("GIT_PROJECT_ROOT"@, req.project_root@),
        ("GIT_NAMESPACE"@, req.namespace@),
        ("PATH_INFO"@, path_info(req.path@)),
        ("CONTENT_TYPE"@, req.content_type@),
        ("REMOTE_USER"@, req.remote_ip@),
        ("REMOTE_ADDR"@, req.remote_addr@),
        ("QUERY_STRING"@, req.query@),
        ("GIT_HTTP_EXPORT_ALL"@, Seq::<char>::empty()),
    ]
}

/// The environment of `git http-backend` for a request, in the order in which
/// the variables are set.
pub open spec fn backend_env_spec(req: BackendRequest) -> Seq<(Seq<char>, Seq<char>)> {
    radicle_vars_spec(req) + cgi_vars_spec(req)
}

fn push_var(env: &mut Vec<(String, String)>, name: &str, value: String)
    ensures
        pair_views(final(env)@) == pair_views(old(env)@).push((name@, value@)),
{
    let ghost before = env@;
    env.push((name.to_owned(), value));
    assert(pair_views(env@) =~= pair_views(before).push((name@, value@)));
}

fn push_opt_var(env: &mut Vec<(String, String)>, name: &str, value: &Option<String>)
    ensures
        pair_views(final(env)@) == pair_views(old(env)@) + var_opt(name@, *value),
{
    match value {
        Some(v) => {
            push_var(env, name, v.clone());
        },
        None => {
            assert(pair_views(env@) =~= pair_views(env@) + Seq::<(Seq<char>, Seq<char>)>::empty());
        },
    }
}

/// The `PATH_INFO` of a request path.
pub fn path_info_of(path: &str) -> (r: String)
    ensures
        r@ == path_info(path@),
{
    let v = chars_of(path);
    if v.len() > 0 && v[0] == '/' {
        path.to_owned()
    } else {
        proof {
            reveal_strlit("/");
        }
        concat2("/", path)
    }
}

fn push_radicle_vars(env: &mut Vec<(String, String)>, req: &BackendRequest)
    ensures
        pair_views(final(env)@) == pair_views(old(env)@) + radicle_vars_spec(*req),
{
    let ghost e0 = pair_views(env@);
    if req.authorized_keys.len() > 0 {
        let keys = join_strings(req.authorized_keys.as_slice(), ",");
        push_var(env, "RADICLE_AUTHORIZED_KEYS", keys);
    }
    let ghost e1 = pair_views(env@);
    if req.delegates.len() > 0 {
        let delegates = join_strings(req.delegates.as_slice(), ",");
        push_var(env, "RADICLE_DELEGATES", delegates);
    }
    let ghost e2 = pair_views(env@);
    if req.allow_unauthorized_keys {
        push_var(env, "RADICLE_ALLOW_UNAUTHORIZED_KEYS", "true".to_owned());
    }
    let ghost e3 = pair_views(env@);
    push_opt_var(env, "RADICLE_NAME", &req.name);
    push_opt_var(env, "RADICLE_PEER_ID", &req.peer_id);
    push_opt_var(env, "RADICLE_DEFAULT_BRANCH", &req.default_branch);
    push_opt_var(env, "RADICLE_STORAGE_ROOT", &req.root);
    proof {
        let keys = var_if(
            req.authorized_keys@.len() > 0,
            "RADICLE_AUTHORIZED_KEYS"@,
            join_with(views(req.authorized_keys@), ","@),
        );
        let dels = var_if(
            req.delegates@.len() > 0,
            "RADICLE_DELEGATES"@,
            join_with(views(req.delegates@), ","@),
        );
        let allow = var_if(req.allow_unauthorized_keys, "RADICLE_ALLOW_UNAUTHORIZED_KEYS"@, "true"@);
        assert(e1 =~= e0 + keys);
        assert(e2 =~= e1 + dels);
        assert(e3 =~= e2 + allow);
        assert(pair_views(env@) =~= e0 + radicle_vars_spec(*req));
    }
}

fn push_cgi_vars(env: &mut Vec<(String, String)>, req: &BackendRequest)
    ensures
        pair_views(final(env)@) == pair_views(old(env)@) + cgi_vars_spec(*req),
{
    let ghost e0 = pair_views(env@);
    push_var(env, "RADICLE_RECEIVE_HOOK", req.receive_hook.clone());
    push_var(env, "REQUEST_METHOD", req.method.clone());
    push_var(env, "GIT_PROJECT_ROOT", req.project_root.clone());
    push_var(env, "GIT_NAMESPACE", req.namespace.clone());
    push_var(env, "PATH_INFO", path_info_of(req.path.as_str()));
    push_var(env, "CONTENT_TYPE", req.content_type.clone());
    push_var(env, "REMOTE_USER", req.remote_ip.clone());
    push_var(env, "REMOTE_ADDR", req.remote_addr.clone());
    push_var(env, "QUERY_STRING", req.query.clone());
    push_var(env, "GIT_HTTP_EXPORT_ALL", String::new());
    assert(pair_views(env@) =~= e0 + cgi_vars_spec(*req));
}

/// The environment in which `git http-backend` serves a request: the variables
/// and values, in the order in which they are set.
pub fn backend_env(req: &BackendRequest) -> (env: Vec<(String, String)>)
    ensures
        pair_views(env@) == backend_env_spec(*req),
{
    let mut env: Vec<(String, String)> = Vec::new();
    assert(pair_views(env@) =~= Seq::<(Seq<char>, Seq<char>)>::empty());
    push_radicle_vars(&mut env, req);
    push_cgi_vars(&mut env, req);
    assert(pair_views(env@) =~= backend_env_spec(*req));
    env
}

/// The request is for `git-receive-pack` (a push): either its path or its
/// query names that service.
pub fn is_receive_pack(path: &str, query: &str) -> (r: bool)
    ensures
        r == (path@ == "git-receive-pack"@ || query@ == "service=git-receive-pack"@),
{
    str_eq(path, "git-receive-pack") || str_eq(query, "service=git-receive-pack")
}

/// The request body is gzip-compressed: its `Content-Encoding` header reads `gzip`.
pub fn is_gzip(content_encoding: Option<&str>) -> (r: bool)
    ensures
        r == (content_encoding matches Some(e) && e@ == "gzip"@),
{
    match content_encoding {
        Some(e) => str_eq(e, "gzip"),
        None => false,
    }
}

/// The project named in a request path: with a `.git` suffix the name
/// without it, which may also be an alias (`true`); else the whole segment,
/// which must be a project id (`false`).
pub fn project_request(project_id: &str) -> (r: (String, bool))
    ensures
        has_suffix(project_id@, ".git"@) ==> r.1 && r.0@ == project_id@.take(project_id@.len() - 4),
        !has_suffix(project_id@, ".git"@) ==> !r.1 && r.0@ == project_id@,
{
    let v = chars_of(project_id);
    let suffix = ['.', 'g', 'i', 't'];
    proof {
        reveal_strlit(".git");
        assert(suffix@ =~= ".git"@);
    }
    if ends_with(v.as_slice(), suffix.as_slice()) {
        let name = string_of_range(v.as_slice(), 0, v.len() - 4);
        assert(name@ =~= project_id@.take(project_id@.len() - 4));
        (name, true)
    } else {
        (project_id.to_owned(), false)
    }
}

/// Whether a request may go ahead, and whether the authorized keys must be
/// loaded for it: a push (`git-receive-pack`) needs them, and is refused
/// when pushes are disabled.
pub fn receive_pack_gate(path: &str, query: &str, receive_pack_enabled: bool) -> (r: Result<bool, Error>)
    ensures
        (path@ == "git-receive-pack"@ || query@ == "service=git-receive-pack"@) ==> if receive_pack_enabled {
            r == Ok::<bool, Error>(true)
        } else {
            r matches Err(Error::ServiceUnavailable(s)) && s@ == "git-receive-pack"@
        },
        !(path@ == "git-receive-pack"@ || query@ == "service=git-receive-pack"@) ==> r == Ok::<bool, Error>(false),
{
    if is_receive_pack(path, query) {
        if !receive_pack_enabled {
            return Err(Error::ServiceUnavailable("git-receive-pack"));
        }
        Ok(true)
    } else {
        Ok(false)
    }
}

} // verus!

verus! {

// ---------------------------------------------------------------------------
// Reading what the backend answers
// ---------------------------------------------------------------------------

/// Position of the first line feed at or after `pos` in `b`, or `b.len()`.
pub open spec fn lf_index(b: Seq<u8>, pos: int) -> int
    decreases b.len() - pos,
{
    if pos >= b.len() {
        b.len() as int
    } else if b[pos] == 10 {
        pos
    } else {
        lf_index(b, pos + 1)
    }
}

/// Where the line after the one at `pos` starts.
pub open spec fn line_next(b: Seq<u8>, pos: int) -> int {
    if lf_index(b, pos) < b.len() {
        lf_index(b, pos) + 1
    } else {
        b.len() as int
    }
}

/// The bytes of the line at `pos`, as `BufRead::lines` yields it: without the
/// line feed, and without a carriage return before the line feed.
pub open spec fn line_text(b: Seq<u8>, pos: int) -> Seq<u8> {
    let raw = b.subrange(pos, lf_index(b, pos));
    if lf_index(b, pos) < b.len() && raw.len() > 0 && raw.last() == 13 {
        raw.drop_last()
    } else {
        raw
    }
}

/// How a line of the backend's header section reads.
pub enum HeaderLine {
    /// The empty line that ends the headers.
    End,
    /// A line without a `:`.
    NoColon,
    /// A header whose value does not start with a character after the `:`
    /// that can be cut off at one byte (an empty or non-ASCII start).
    BadValue,
    /// A header: its name and its value, without the character that follows the `:`.
    Header(Seq<char>, Seq<char>),
}

/// How the line `line` reads as a header line.
pub open spec fn header_line(line: Seq<char>) -> HeaderLine {
    let k = first_index(line, ':');
    if line.len() == 0 || line == seq!['\r'] {
        HeaderLine::End
    } else if k >= line.len() {
        HeaderLine::NoColon
    } else if line.len() <= k + 1 || (line[k + 1] as u32) >= 128 {
        HeaderLine::BadValue
    } else {
        HeaderLine::Header(line.take(k), line.skip(k + 2))
    }
}

/// The outcome of reading the header section from a position on.
pub enum HeaderScan {
    /// The headers read, in order, and where the body starts.
    Done(Seq<(Seq<char>, Seq<char>)>, int),
    /// A line is not UTF-8.
    NotText,
    /// A line has no `:`.
    Invalid,
    /// A header value cannot be cut as the server cuts it.
    Panics,
}

/// Where the line at `pos` ends, and that the next line starts after it.
pub proof fn lemma_lf_index(b: Seq<u8>, pos: int)
    requires
        0 <= pos,
    ensures
        pos <= b.len() ==> pos <= lf_index(b, pos) <= b.len(),
        pos < b.len() ==> line_next(b, pos) > pos,
        forall|i: int| pos <= i < lf_index(b, pos) ==> b[i] != 10,
        lf_index(b, pos) < b.len() ==> b[lf_index(b, pos)] == 10,
    decreases b.len() - pos,
{
    if pos < b.len() && b[pos] != 10 {
        lemma_lf_index(b, pos + 1);
    }
}

/// Reads the header section of the backend's output from `pos` on.
pub open spec fn scan_headers(b: Seq<u8>, pos: int) -> HeaderScan
    decreases b.len() - pos,
{
    if pos < 0 || pos >= b.len() {
        HeaderScan::Done(Seq::empty(), b.len() as int)
    } else if !vstd::utf8::valid_utf8(line_text(b, pos)) {
        HeaderScan::NotText
    } else {
        match header_line(vstd::utf8::decode_utf8(line_text(b, pos))) {
            HeaderLine::End => HeaderScan::Done(Seq::empty(), line_next(b, pos)),
            HeaderLine::NoColon => HeaderScan::Invalid,
            HeaderLine::BadValue => HeaderScan::Panics,
            HeaderLine::Header(name, value) => {
                proof {
                    lemma_lf_index(b, pos);
                }
                match scan_headers(b, line_next(b, pos)) {
                    HeaderScan::Done(rest, body) => HeaderScan::Done(
                        seq![(name, value)] + rest,
                        body,
                    ),
                    other => other,
                }
            },
        }
    }
}

/// `headers` read before the outcome `scan` of the rest of the section.
pub open spec fn after_headers(headers: Seq<(Seq<char>, Seq<char>)>, scan: HeaderScan) -> HeaderScan {
    match scan {
        HeaderScan::Done(rest, body) => HeaderScan::Done(headers + rest, body),
        other => other,
    }
}

/// The values of the headers named `name`, in order.
pub open spec fn values_of(pairs: Seq<(Seq<char>, Seq<char>)>, name: Seq<char>) -> Seq<Seq<char>>
    decreases pairs.len(),
{
    if pairs.len() == 0 {
        Seq::empty()
    } else if pairs.last().0 == name {
        values_of(pairs.drop_last(), name).push(pairs.last().1)
    } else {
        values_of(pairs.drop_last(), name)
    }
}

/// `text` is a status code as `http::StatusCode` reads one: three ASCII digits,
/// the first of them not zero.
pub open spec fn status_text_ok(text: Seq<char>) -> bool {
    text.len() == 3 && '1' <= text[0] <= '9' && '0' <= text[1] <= '9' && '0' <= text[2] <= '9'
}

/// The number that three decimal digits write.
pub open spec fn status_text_value(text: Seq<char>) -> int {
    (text[0] as int - 0x30) * 100 + (text[1] as int - 0x30) * 10 + (text[2] as int - 0x30)
}

/// The status of the response: the first word of the first `Status` header
/// when it is a status code, 200 otherwise.
pub open spec fn response_status(pairs: Seq<(Seq<char>, Seq<char>)>) -> int {
    let values = values_of(pairs, "Status"@);
    let first = if values.len() > 0 {
        values[0]
    } else {
        Seq::empty()
    };
    let word = split_on(first, ' ')[0];
    if status_text_ok(word) {
        status_text_value(word)
    } else {
        200
    }
}

/// Reads an HTTP status code (`http::StatusCode::from_str`): three ASCII
/// digits of which the first is not zero.
#[verifier::external_body]
fn http_status_from_str(s: &str) -> (r: Option<u16>)
    ensures
        r is Some <==> status_text_ok(s@),
        r matches Some(code) ==> code == status_text_value(s@),
{
    warp::http::StatusCode::from_str(s).ok().map(|c| c.as_u16())
}

/// Decodes UTF-8 text (`String::from_utf8`): fails unless the bytes are UTF-8.
#[verifier::external_body]
fn utf8_string(bytes: Vec<u8>) -> (r: Option<String>)
    ensures
        r is Some <==> vstd::utf8::valid_utf8(bytes@),
        r matches Some(s) ==> s@ == vstd::utf8::decode_utf8(bytes@),
{
    String::from_utf8(bytes).ok()
}

/// What `git http-backend` answered: a status, the headers by name, and the body.
pub struct BackendResponse {
    /// The HTTP status.
    pub status: u16,
    /// Each header name once, with its values in the order they came.
    pub headers: Vec<(String, Vec<String>)>,
    /// The body, the bytes after the empty line that ends the headers.
    pub body: Vec<u8>,
}

/// The names of grouped headers.
pub open spec fn group_names(groups: Seq<(String, Vec<String>)>) -> Seq<Seq<char>> {
    groups.map_values(|g: (String, Vec<String>)| g.0@)
}

/// `groups` holds the headers of `pairs` other than `Status`, each name once,
/// each with all its values in order.
pub open spec fn groups_headers(
    groups: Seq<(String, Vec<String>)>,
    pairs: Seq<(Seq<char>, Seq<char>)>,
) -> bool {
    &&& forall|i: int, j: int|
        0 <= i < j < groups.len() ==> (#[trigger] groups[i]).0@ != (#[trigger] groups[j]).0@
    &&& forall|i: int|
        0 <= i < groups.len() ==> (#[trigger] groups[i]).0@ != "Status"@ && views(groups[i].1@)
            == values_of(pairs, groups[i].0@)
    &&& forall|j: int|
        0 <= j < pairs.len() && (#[trigger] pairs[j]).0 != "Status"@ ==> group_names(
            groups,
        ).contains(pairs[j].0)
}

/// A name that no header has has no values.
pub proof fn lemma_values_of_absent(pairs: Seq<(Seq<char>, Seq<char>)>, name: Seq<char>)
    requires
        forall|j: int| 0 <= j < pairs.len() ==> (#[trigger] pairs[j]).0 != name,
    ensures
        values_of(pairs, name) == Seq::<Seq<char>>::empty(),
    decreases pairs.len(),
{
    if pairs.len() > 0 {
        assert(pairs.last() == pairs[pairs.len() - 1]);
        lemma_values_of_absent(pairs.drop_last(), name);
    }
}

/// Groups headers by name, leaving out `Status`.
pub fn group_headers(pairs: &[(String, String)]) -> (groups: Vec<(String, Vec<String>)>)
    ensures
        groups_headers(groups@, pair_views(pairs@)),
{
    let mut groups: Vec<(String, Vec<String>)> = Vec::new();
    let mut i: usize = 0;
    while i < pairs.len()
        invariant
            i <= pairs.len(),
            groups_headers(groups@, pair_views(pairs@).take(i as int)),
        decreases pairs.len() - i,
    {
        let ghost pv = pair_views(pairs@);
        let ghost prev = pv.take(i as int);
        let ghost next = pv.take(i + 1);
        proof {
            assert(next.drop_last() =~= prev);
            assert(next.last() == pv[i as int]);
        }
        let name = &pairs[i].0;
        let value = &pairs[i].1;
        if str_eq(name.as_str(), "Status") {
            proof {
                assert forall|k: int| 0 <= k < groups@.len() implies views(
                    (#[trigger] groups@[k]).1@,
                ) == values_of(next, groups@[k].0@) by {}
                assert forall|j: int| 0 <= j < next.len() && (#[trigger] next[j]).0 != "Status"@ implies group_names(groups@).contains(next[j].0) by {
                    assert(next[j] == prev[j]);
                }
            }
        } else {
            let mut found: Option<usize> = None;
            let mut j: usize = 0;
            while j < groups.len()
                invariant
                    j <= groups.len(),
                    found matches Some(f) ==> f < groups.len() && groups@[f as int].0@ == name@,
                    found is None ==> forall|k: int| 0 <= k < j ==> groups@[k].0@ != name@,
                decreases groups.len() - j,
            {
                if found.is_none() && str_eq(groups[j].0.as_str(), name.as_str()) {
                    found = Some(j);
                }
                j = j + 1;
            }
            let ghost old_groups = groups@;
            match found {
                Some(f) => {
                    let mut entry = groups.remove(f);
                    entry.1.push(value.clone());
                    groups.insert(f, entry);
                    proof {
                        assert forall|k: int| 0 <= k < groups@.len() && k != f implies groups@[k]
                            == old_groups[k] by {}
                        assert(views(groups@[f as int].1@) =~= views(old_groups[f as int].1@).push(
                            value@,
                        ));
                        assert forall|a: int, b: int|
                            0 <= a < b < groups@.len() implies (#[trigger] groups@[a]).0@ != (
                        #[trigger] groups@[b]).0@ by {
                            assert(groups@[a].0@ == old_groups[a].0@);
                            assert(groups@[b].0@ == old_groups[b].0@);
                        }
                        assert forall|k: int| 0 <= k < groups@.len() implies (#[trigger] groups@[
                            k]).0@ != "Status"@ && views(groups@[k].1@) == values_of(
                            next,
                            groups@[k].0@,
                        ) by {
                            assert(groups@[k].0@ == old_groups[k].0@);
                        }
                        assert forall|w: int|
                            0 <= w < next.len() && (#[trigger] next[w]).0 != "Status"@ implies group_names(
                            groups@,
                        ).contains(next[w].0) by {
                            if w < i {
                                assert(next[w] == prev[w]);
                                let z = choose|z: int|
                                    0 <= z < group_names(old_groups).len() && group_names(
                                        old_groups,
                                    )[z] == prev[w].0;
                                assert(group_names(groups@)[z] == group_names(old_groups)[z]);
                            } else {
                                assert(group_names(groups@)[f as int] == name@);
                            }
                        }
                    }
                },
                None => {
                    let mut values: Vec<String> = Vec::new();
                    values.push(value.clone());
                    groups.push((name.clone(), values));
                    proof {
                        let n = old_groups.len() as int;
                        lemma_values_of_absent(prev, name@);
                        assert forall|w: int| 0 <= w < prev.len() implies (#[trigger] prev[w]).0 != name@ by {
                            if prev[w].0 == name@ {
                                let z = choose|z: int|
                                    0 <= z < group_names(old_groups).len() && group_names(
                                        old_groups,
                                    )[z] == prev[w].0;
                                assert(old_groups[z].0@ == name@);
                            }
                        }
                        lemma_values_of_absent(prev, name@);
                        assert(views(groups@[n].1@) =~= seq![value@]);
                        assert(values_of(next, name@) =~= Seq::<Seq<char>>::empty().push(value@));
                        assert forall|k: int| 0 <= k < n implies groups@[k] == old_groups[k] by {}
                        assert forall|k: int| 0 <= k < groups@.len() implies (#[trigger] groups@[
                            k]).0@ != "Status"@ && views(groups@[k].1@) == values_of(
                            next,
                            groups@[k].0@,
                        ) by {}
                        assert forall|w: int|
                            0 <= w < next.len() && (#[trigger] next[w]).0 != "Status"@ implies group_names(
                            groups@,
                        ).contains(next[w].0) by {
                            if w < i {
                                assert(next[w] == prev[w]);
                                let z = choose|z: int|
                                    0 <= z < group_names(old_groups).len() && group_names(
                                        old_groups,
                                    )[z] == prev[w].0;
                                assert(group_names(groups@)[z] == group_names(old_groups)[z]);
                            } else {
                                assert(group_names(groups@)[n] == name@);
                            }
                        }
                    }
                },
            }
        }
        i = i + 1;
    }
    proof {
        assert(pair_views(pairs@).take(pairs.len() as int) =~= pair_views(pairs@));
    }
    groups
}


/// The status of a response: the first word of the first `Status` header when
/// it is a status code, 200 otherwise.
pub fn status_of_headers(pairs: &[(String, String)]) -> (status: u16)
    ensures
        status == response_status(pair_views(pairs@)),
{
    let ghost pv = pair_views(pairs@);
    let mut first: Option<usize> = None;
    let mut i: usize = 0;
    while i < pairs.len()
        invariant
            i <= pairs.len(),
            pv == pair_views(pairs@),
            first matches Some(f) ==> f < i && values_of(pv.take(i as int), "Status"@).len() > 0
                && values_of(pv.take(i as int), "Status"@)[0] == pairs@[f as int].1@,
            first is None ==> values_of(pv.take(i as int), "Status"@) == Seq::<Seq<char>>::empty(),
        decreases pairs.len() - i,
    {
        proof {
            assert(pv.take(i + 1).drop_last() =~= pv.take(i as int));
            assert(pv.take(i + 1).last() == pv[i as int]);
        }
        if first.is_none() && str_eq(pairs[i].0.as_str(), "Status") {
            first = Some(i);
        }
        i = i + 1;
    }
    assert(pv.take(pairs.len() as int) =~= pv);
    let value: String = match first {
        Some(f) => pairs[f].1.clone(),
        None => String::new(),
    };
    let v = chars_of(value.as_str());
    let word_end = match find_char(v.as_slice(), ' ') {
        Some(k) => k,
        None => v.len(),
    };
    let word = string_of_range(v.as_slice(), 0, word_end);
    proof {
        lemma_first_index(v@, ' ');
        let pieces = split_on(v@, ' ');
        if first_index(v@, ' ') >= v@.len() {
            assert(word@ =~= v@);
        } else {
            assert(pieces[0] == v@.take(first_index(v@, ' ')));
        }
        assert(word@ == split_on(v@, ' ')[0]);
    }
    match http_status_from_str(word.as_str()) {
        Some(code) => code,
        None => 200,
    }
}

/// Copies the line at `pos` as `BufRead::lines` yields it, and where the next line starts.
fn read_line(b: &[u8], pos: usize) -> (r: (Vec<u8>, usize))
    requires
        pos < b.len(),
    ensures
        r.0@ == line_text(b@, pos as int),
        r.1 == line_next(b@, pos as int),
{
    proof {
        lemma_lf_index(b@, pos as int);
    }
    let mut end = pos;
    while end < b.len() && b[end] != 10
        invariant
            pos <= end <= b.len(),
            lf_index(b@, end as int) == lf_index(b@, pos as int),
        decreases b.len() - end,
    {
        end = end + 1;
    }
    let mut text_end = end;
    if end < b.len() && end > pos && b[end - 1] == 13 {
        text_end = end - 1;
    }
    let mut text: Vec<u8> = Vec::new();
    let mut i = pos;
    while i < text_end
        invariant
            pos <= i <= text_end <= end <= b.len(),
            text@ == b@.subrange(pos as int, i as int),
        decreases text_end - i,
    {
        text.push(b[i]);
        assert(b@.subrange(pos as int, i + 1) =~= b@.subrange(pos as int, i as int).push(b@[i as int]));
        i = i + 1;
    }
    let next = if end < b.len() { end + 1 } else { b.len() };
    proof {
        let raw = b@.subrange(pos as int, end as int);
        if end < b.len() && raw.len() > 0 && raw.last() == 13 {
            assert(text@ =~= raw.drop_last());
        } else {
            assert(text@ =~= raw);
        }
    }
    (text, next)
}

/// Whether reading the header section panics where the server cuts a header
/// value off after its `:`.
pub open spec fn cuts_badly(b: Seq<u8>) -> bool {
    scan_headers(b, 0) is Panics
}

/// Reads what `git http-backend` wrote: CGI headers up to an empty line, then
/// the body. The headers are grouped by name; the `Status` header gives the
/// status of the response and is not among them.
pub fn parse_backend_output(out: &[u8]) -> (r: Result<BackendResponse, Error>)
    requires
        !cuts_badly(out@),
    ensures
        match scan_headers(out@, 0) {
            HeaderScan::Done(pairs, body_start) => r matches Ok(resp) && resp.status
                == response_status(pairs) && groups_headers(resp.headers@, pairs) && resp.body@
                == out@.skip(body_start),
            HeaderScan::NotText => r matches Err(Error::Io(_)),
            _ => r matches Err(Error::Backend),
        },
{
    let mut pairs: Vec<(String, String)> = Vec::new();
    let mut pos: usize = 0;
    let mut body_start: usize = out.len();
    assert(pair_views(pairs@) =~= Seq::<(Seq<char>, Seq<char>)>::empty());
    assert(after_headers(Seq::empty(), scan_headers(out@, 0)) == scan_headers(out@, 0)) by {
        match scan_headers(out@, 0) {
            HeaderScan::Done(rest, body) => {
                assert(Seq::<(Seq<char>, Seq<char>)>::empty() + rest =~= rest);
            },
            _ => {},
        }
    }
    let mut done = false;
    while pos < out.len()
        invariant
            pos <= out.len(),
            body_start <= out.len(),
            done ==> pos == out.len(),
            !done ==> body_start == out.len(),
            !cuts_badly(out@),
            !done ==> after_headers(pair_views(pairs@), scan_headers(out@, pos as int))
                == scan_headers(out@, 0),
            done ==> after_headers(
                pair_views(pairs@),
                HeaderScan::Done(Seq::empty(), body_start as int),
            ) == scan_headers(out@, 0),
        decreases out.len() - pos,
    {
        let ghost here = scan_headers(out@, pos as int);
        let (text, next) = read_line(out, pos);
        let ghost tb = text@;
        proof {
            lemma_lf_index(out@, pos as int);
        }
        let line = match utf8_string(text) {
            Some(line) => line,
            None => {
                proof {
                    assert(!vstd::utf8::valid_utf8(line_text(out@, pos as int)));
                    assert(here is NotText);
                }
                return Err(Error::Io("stream did not contain valid UTF-8".to_owned()));
            },
        };
        let v = chars_of(line.as_str());
        proof {
            assert(vstd::utf8::valid_utf8(line_text(out@, pos as int)));
            assert(v@ == vstd::utf8::decode_utf8(line_text(out@, pos as int)));
            assert(here == match header_line(v@) {
                HeaderLine::End => HeaderScan::Done(Seq::empty(), line_next(out@, pos as int)),
                HeaderLine::NoColon => HeaderScan::Invalid,
                HeaderLine::BadValue => HeaderScan::Panics,
                HeaderLine::Header(name, value) => match scan_headers(out@, line_next(out@, pos as int)) {
                    HeaderScan::Done(rest, body) => HeaderScan::Done(seq![(name, value)] + rest, body),
                    other => other,
                },
            });
        }
        if v.len() == 0 || (v.len() == 1 && v[0] == '\r') {
            proof {
                if v.len() == 1 {
                    assert(v@ =~= seq!['\r']);
                }
                assert(header_line(v@) is End);
                assert(here == HeaderScan::Done(Seq::empty(), next as int));
                assert(pair_views(pairs@) + Seq::<(Seq<char>, Seq<char>)>::empty() =~= pair_views(
                    pairs@,
                ));
            }
            body_start = next;
            done = true;
            pos = out.len();
        } else {
        let k = match find_char(v.as_slice(), ':') {
            Some(k) => k,
            None => {
                proof {
                    assert(header_line(v@) is NoColon);
                }
                return Err(Error::Backend);
            },
        };
        proof {
            lemma_first_index(v@, ':');
            if v@ == seq!['\r'] {
                assert(v@.len() == 1 && v@[0] == '\r');
            }
            if v@.len() <= k + 1 || (v@[k + 1] as u32) >= 128 {
                assert(header_line(v@) is BadValue);
                assert(here is Panics);
                assert(false);
            }
            assert(header_line(v@) == HeaderLine::Header(v@.take(k as int), v@.skip(k + 2)));
        }
        let name = string_of_range(v.as_slice(), 0, k);
        let value = string_of_range(v.as_slice(), k + 2, v.len());
        let ghost before = pair_views(pairs@);
        pairs.push((name, value));
        proof {
            assert(name@ =~= v@.take(k as int));
            assert(value@ =~= v@.skip(k + 2));
            assert(pair_views(pairs@) =~= before.push((v@.take(k as int), v@.skip(k + 2))));
            match scan_headers(out@, next as int) {
                HeaderScan::Done(rest, body) => {
                    assert(before + (seq![(v@.take(k as int), v@.skip(k + 2))] + rest) =~= pair_views(
                        pairs@,
                    ) + rest);
                },
                _ => {},
            }
        }
        pos = next;
        }
    }
    proof {
        assert(pair_views(pairs@) + Seq::<(Seq<char>, Seq<char>)>::empty() =~= pair_views(pairs@));
        if !done {
            assert(scan_headers(out@, pos as int) == HeaderScan::Done(Seq::empty(), out@.len() as int));
        }
        assert(scan_headers(out@, 0) == HeaderScan::Done(pair_views(pairs@), body_start as int));
    }
    let status = status_of_headers(pairs.as_slice());
    let headers = group_headers(pairs.as_slice());
    let mut body: Vec<u8> = Vec::new();
    let mut i = body_start;
    while i < out.len()
        invariant
            body_start <= i <= out.len(),
            body@ == out@.subrange(body_start as int, i as int),
        decreases out.len() - i,
    {
        body.push(out[i]);
        assert(out@.subrange(body_start as int, i + 1) =~= out@.subrange(body_start as int, i as int).push(out@[i as int]));
        i = i + 1;
    }
    assert(body@ =~= out@.skip(body_start as int));
    Ok(BackendResponse { status, headers, body })
}

/// What a run of `git http-backend` answers: a backend that exited with a
/// failure status is a backend error, whatever it wrote; else its output is
/// read as `parse_backend_output` reads it.
pub fn backend_outcome(exited_ok: bool, out: &[u8]) -> (r: Result<BackendResponse, Error>)
    requires
        exited_ok ==> !cuts_badly(out@),
    ensures
        !exited_ok ==> r matches Err(Error::Backend),
        exited_ok ==> match scan_headers(out@, 0) {
            HeaderScan::Done(pairs, body_start) => r matches Ok(resp) && resp.status
                == response_status(pairs) && groups_headers(resp.headers@, pairs) && resp.body@
                == out@.skip(body_start),
            HeaderScan::NotText => r matches Err(Error::Io(_)),
            _ => r matches Err(Error::Backend),
        },
{
    if !exited_ok {
        return Err(Error::Backend);
    }
    parse_backend_output(out)
}

/// Whether reading the header section of the backend's output would cut a
/// header value off where the server cannot (`cuts_badly`).
pub fn output_cuts_badly(out: &[u8]) -> (r: bool)
    ensures
        r == cuts_badly(out@),
{
    let mut pos: usize = 0;
    while pos < out.len()
        invariant
            pos <= out.len(),
            (scan_headers(out@, 0) is Panics) == (scan_headers(out@, pos as int) is Panics),
        decreases out.len() - pos,
    {
        let ghost here = scan_headers(out@, pos as int);
        let (text, next) = read_line(out, pos);
        proof {
            lemma_lf_index(out@, pos as int);
        }
        let line = match utf8_string(text) {
            Some(line) => line,
            None => {
                assert(here is NotText);
                return false;
            },
        };
        let v = chars_of(line.as_str());
        proof {
            assert(here == match header_line(v@) {
                HeaderLine::End => HeaderScan::Done(Seq::empty(), line_next(out@, pos as int)),
                HeaderLine::NoColon => HeaderScan::Invalid,
                HeaderLine::BadValue => HeaderScan::Panics,
                HeaderLine::Header(name, value) => match scan_headers(out@, line_next(out@, pos as int)) {
                    HeaderScan::Done(rest, body) => HeaderScan::Done(seq![(name, value)] + rest, body),
                    other => other,
                },
            });
        }
        if v.len() == 0 || (v.len() == 1 && v[0] == '\r') {
            proof {
                if v.len() == 1 {
                    assert(v@ =~= seq!['\r']);
                }
                assert(header_line(v@) is End);
            }
            return false;
        }
        let k = match find_char(v.as_slice(), ':') {
            Some(k) => k,
            None => {
                proof {
                    assert(v@ != seq!['\r']) by {
                        if v@ == seq!['\r'] {
                            assert(v@.len() == 1 && v@[0] == '\r');
                        }
                    }
                    assert(header_line(v@) is NoColon);
                }
                return false;
            },
        };
        proof {
            lemma_first_index(v@, ':');
            if v@ == seq!['\r'] {
                assert(v@.len() == 1 && v@[0] == '\r');
            }
        }
        if v.len() <= k + 1 || (v[k + 1] as u32) >= 128 {
            assert(header_line(v@) is BadValue);
            return true;
        }
        assert(header_line(v@) == HeaderLine::Header(v@.take(k as int), v@.skip(k + 2)));
        pos = next;
    }
    false
}

} // verus!
