//! The remote API gateway's logic: the session, the request URLs, and the
//! classification of what the remote service answers. The transport and the
//! JSON decoding stay outside the library.

use vstd::prelude::*;
use crate::error::FsError;
use crate::memo::{memo_hit, ResponseMemo};
use crate::responses::{FileAdditional, FileStationItem, ListFilesResult, LoginResult, SynologyResult};

verus! {

/// The status of a successful HTTP answer.
pub const HTTP_OK: u16 = 200;

/// The status reported for a transport failure that carries none.
pub const NO_STATUS: u16 = 0;

/// The remote error code for a path that does not exist.
pub const CODE_NO_SUCH_FILE: i64 = 408;

/// Whether the remote service leaves `c` as it is in a URL.
pub open spec fn is_unreserved(c: char) -> bool {
    ('a' <= c && c <= 'z') || ('A' <= c && c <= 'Z') || ('0' <= c && c <= '9') || c == '-' || c == '_'
        || c == '.' || c == '~'
}

/// The percent-encoding of `s`.
pub uninterp spec fn url_encoded(s: Seq<char>) -> Seq<char>;

/// Relies on urlencoding::encode: it percent-encodes every byte but ASCII
/// letters, digits and `-`, `_`, `.`, `~`, so its result depends on the text
/// alone, and text made of those characters only comes back unchanged.
#[verifier::external_body]
fn encode(s: &str) -> (r: String)
    ensures
        r@ == url_encoded(s@),
        (forall|i: int| 0 <= i < s@.len() ==> is_unreserved(#[trigger] s@[i])) ==> r@ == s@,
{
    urlencoding::encode(s).into_owned()
}

/// The decimal digits of `n`.
pub open spec fn decimal(n: nat) -> Seq<char>
    decreases n,
{
    if n < 10 {
        seq![digit_char(n)]
    } else {
        decimal(n / 10).push(digit_char(n % 10))
    }
}

/// The digit character for `d < 10`.
pub open spec fn digit_char(d: nat) -> char {
    "0123456789"@[d as int]
}

/// The decimal digits of `n`, as a string.
pub fn decimal_string(n: u64) -> (r: String)
    ensures
        r@ == decimal(n as nat),
    decreases n,
{
    let digits = "0123456789";
    proof {
        reveal_strlit("0123456789");
    }
    let d = (n % 10) as usize;
    let last = digits.substring_char(d, d + 1);
    assert(last@ =~= seq![digit_char((n % 10) as nat)]);
    if n < 10 {
        String::from_str(last)
    } else {
        let mut s = decimal_string(n / 10);
        s.append(last);
        s
    }
}

/// The query parameters `params`, each as `&key=value`.
pub open spec fn query_suffix(params: Seq<(Seq<char>, Seq<char>)>) -> Seq<char>
    decreases params.len(),
{
    if params.len() == 0 {
        Seq::empty()
    } else {
        query_suffix(params.drop_last()) + "&"@ + params.last().0 + "="@ + params.last().1
    }
}

/// The characters of each key and value of `params`.
pub open spec fn pairs_view(params: Seq<(String, String)>) -> Seq<(Seq<char>, Seq<char>)> {
    params.map_values(|p: (String, String)| (p.0@, p.1@))
}

/// The URL of a call to method `method` of API `api` at version `version`,
/// in session `sid`, with the extra (already encoded) parameters `params`.
pub open spec fn entry_url(
    base: Seq<char>,
    api: Seq<char>,
    version: u8,
    method: Seq<char>,
    sid: Seq<char>,
    params: Seq<(Seq<char>, Seq<char>)>,
) -> Seq<char> {
    base + "/webapi/entry.cgi?api="@ + api + "&version="@ + decimal(version as nat) + "&method="@ + method
        + "&_sid="@ + sid + query_suffix(params)
}

/// The URL of a login of `username` with `password`.
pub open spec fn login_url_of(base: Seq<char>, username: Seq<char>, password: Seq<char>) -> Seq<char> {
    base + "/webapi/auth.cgi?api=SYNO.API.Auth&version=3&method=login&account="@ + url_encoded(username)
        + "&passwd="@ + url_encoded(password) + "&session=FileStation&format=sid"@
}

/// The base URL of a host.
pub open spec fn base_url_of(hostname: Seq<char>, port: u16, secured: bool) -> Seq<char> {
    (if secured { "https"@ } else { "http"@ }) + "://"@ + hostname + ":"@ + decimal(port as nat)
}

/// The paths of `ps` separated by commas.
pub open spec fn joined(ps: Seq<Seq<char>>) -> Seq<char>
    decreases ps.len(),
{
    if ps.len() == 0 {
        Seq::empty()
    } else if ps.len() == 1 {
        ps[0]
    } else {
        joined(ps.drop_last()) + ","@ + ps.last()
    }
}

/// The attributes asked for with every file or directory.
pub open spec fn file_attributes() -> Seq<char> {
    "[\"size\",\"time\",\"perm\"]"@
}

/// The attributes asked for with every share.
pub open spec fn share_attributes() -> Seq<char> {
    "[\"volume_status\",\"time\",\"perm\"]"@
}

/// The remote API that lists shares and directories and answers metadata.
pub open spec fn list_api() -> Seq<char> {
    "SYNO.FileStation.List"@
}

/// The error that the remote error code `code` stands for.
pub open spec fn remote_error_of(code: i64) -> FsError {
    if code == CODE_NO_SUCH_FILE {
        FsError::NotFound
    } else if code == 105 || code == 106 || code == 107 || code == 119 {
        FsError::Unauthorized
    } else {
        FsError::Remote(code)
    }
}

/// The error that the remote error code `code` stands for: a missing path
/// is `NotFound`; a missing, expired or rejected session is `Unauthorized`;
/// any other code is passed through.
pub fn remote_error(code: i64) -> (r: FsError)
    ensures
        r == remote_error_of(code),
{
    if code == CODE_NO_SUCH_FILE {
        FsError::NotFound
    } else if code == 105 || code == 106 || code == 107 || code == 119 {
        FsError::Unauthorized
    } else {
        FsError::Remote(code)
    }
}

/// The outcome of an answer with HTTP status `status` whose envelope, where
/// it could be read, says `success` and carries `error_code`.
pub open spec fn envelope_outcome(status: u16, success: Option<bool>, error_code: Option<i64>) -> Result<(), FsError> {
    if status != HTTP_OK {
        Err(FsError::RemoteUnavailable(status))
    } else {
        match success {
            None => Err(FsError::ProtocolError),
            Some(true) => Ok(()),
            Some(false) => match error_code {
                Some(c) => Err(remote_error_of(c)),
                None => Err(FsError::ProtocolError),
            },
        }
    }
}

/// Whether an answer succeeded (see [`envelope_outcome`]).
pub fn check_envelope(status: u16, success: Option<bool>, error_code: Option<i64>) -> (r: Result<(), FsError>)
    ensures
        r == envelope_outcome(status, success, error_code),
{
    if status != HTTP_OK {
        return Err(FsError::RemoteUnavailable(status));
    }
    match success {
        None => Err(FsError::ProtocolError),
        Some(true) => Ok(()),
        Some(false) => match error_code {
            Some(c) => Err(remote_error(c)),
            None => Err(FsError::ProtocolError),
        },
    }
}

/// The error for a request that got no answer, with the transport's status
/// where it has one.
pub fn transport_failure(status: Option<u16>) -> (r: FsError)
    ensures
        r == FsError::RemoteUnavailable(
            match status {
                Some(s) => s,
                None => NO_STATUS,
            },
        ),
{
    match status {
        Some(s) => FsError::RemoteUnavailable(s),
        None => FsError::RemoteUnavailable(NO_STATUS),
    }
}

/// Position `i` holds the first error code of `codes`, and `e` is its error.
pub open spec fn first_code_fails(codes: Seq<Option<i64>>, i: int, e: FsError) -> bool {
    &&& 0 <= i < codes.len()
    &&& forall|j: int| 0 <= j < i ==> codes[j] is None
    &&& match codes[i] {
        Some(c) => e == remote_error_of(c),
        None => false,
    }
}

/// The per-item error codes of a metadata answer: the first item that
/// carries one fails the whole answer.
pub fn check_item_codes(codes: &Vec<Option<i64>>) -> (r: Result<(), FsError>)
    ensures
        match r {
            Ok(()) => forall|i: int| 0 <= i < codes@.len() ==> codes@[i] is None,
            Err(e) => exists|i: int| #[trigger] first_code_fails(codes@, i, e),
        },
{
    let mut i: usize = 0;
    while i < codes.len()
        invariant
            i <= codes@.len(),
            forall|j: int| 0 <= j < i ==> codes@[j] is None,
        decreases codes@.len() - i,
    {
        match codes[i] {
            Some(c) => {
                let e = remote_error(c);
                assert(first_code_fails(codes@, i as int, e));
                return Err(e);
            },
            None => {},
        }
        i = i + 1;
    }
    Ok(())
}

/// The first item of a metadata answer; an answer without items is a
/// protocol error.
pub fn first_file(result: &ListFilesResult) -> (r: Result<FileStationItem<FileAdditional>, FsError>)
    ensures
        match r {
            Ok(item) => result.files@.len() > 0 && same_item(item, result.files@[0]),
            Err(e) => result.files@.len() == 0 && e == FsError::ProtocolError,
        },
{
    if result.files.len() == 0 {
        return Err(FsError::ProtocolError);
    }
    let f = &result.files[0];
    Ok(FileStationItem { isdir: f.isdir, name: f.name.clone(), path: f.path.clone(), additional: f.additional })
}

/// `a` and `b` describe the same item.
pub open spec fn same_item(a: FileStationItem<FileAdditional>, b: FileStationItem<FileAdditional>) -> bool {
    &&& a.isdir == b.isdir
    &&& a.name@ == b.name@
    &&& a.path@ == b.path@
    &&& a.additional == b.additional
}

/// Whether a memoized answer of age `age` (none where its age is unknown)
/// may still be served under lifetime `lifetime`, both in seconds.
pub fn memo_fresh(age: Option<u64>, lifetime: u64) -> (r: bool)
    ensures
        r == match age {
            Some(a) => a < lifetime,
            None => false,
        },
{
    match age {
        Some(a) => a < lifetime,
        None => false,
    }
}

/// Whether an answer with HTTP status `status` is remembered: only a
/// successful answer to a call that allows memoization.
pub fn should_memoize(status: u16, allow_cache: bool) -> (r: bool)
    ensures
        r == (status == HTTP_OK && allow_cache),
{
    status == HTTP_OK && allow_cache
}

/// The outcome of a login answer with HTTP status `status` and envelope
/// `answer`, where it could be read: the session identifier, or why not.
pub open spec fn login_outcome(status: u16, answer: Option<SynologyResult<LoginResult>>) -> Result<Seq<char>, FsError> {
    if status != HTTP_OK {
        Err(FsError::RemoteUnavailable(status))
    } else {
        match answer {
            None => Err(FsError::ProtocolError),
            Some(a) => if a.success {
                Ok(a.data.sid@)
            } else {
                Err(FsError::Unauthorized)
            },
        }
    }
}

/// The gateway to one host's remote service: its base URL, the response
/// memoization lifetime, and the session, if one is open.
pub struct FileStation {
    hostname: String,
    base_url: String,
    cache_lifetime: u64,
    sid: Option<String>,
    memo: ResponseMemo,
}

impl FileStation {
    /// The host this gateway talks to.
    pub closed spec fn host(&self) -> Seq<char> {
        self.hostname@
    }

    /// The URL that every request starts with.
    pub closed spec fn base(&self) -> Seq<char> {
        self.base_url@
    }

    /// The host this gateway talks to.
    pub fn hostname(&self) -> (r: &str)
        ensures
            r@ == self.host(),
    {
        self.hostname.as_str()
    }

    /// The URL that every request starts with.
    pub fn base_url(&self) -> (r: &str)
        ensures
            r@ == self.base(),
    {
        self.base_url.as_str()
    }

    /// The identifier of the open session, if any.
    pub closed spec fn session(&self) -> Option<Seq<char>> {
        match self.sid {
            Some(s) => Some(s@),
            None => None,
        }
    }

    /// The memoized answers to read-only calls.
    pub closed spec fn memo(&self) -> Map<Seq<char>, (u64, Seq<char>)> {
        self.memo.contents()
    }

    /// How long, in seconds, an answer to a read-only call may be reused.
    pub closed spec fn lifetime(&self) -> u64 {
        self.cache_lifetime
    }

    /// A gateway to `hostname` on `port`, over HTTPS where `secured`, with no
    /// session yet.
    pub fn new(hostname: &str, port: u16, secured: bool, cache_lifetime: u64) -> (r: FileStation)
        ensures
            r.host() == hostname@,
            r.base() == base_url_of(hostname@, port, secured),
            r.lifetime() == cache_lifetime,
            r.session() is None,
            r.memo() == Map::<Seq<char>, (u64, Seq<char>)>::empty(),
    {
        let mut base_url = String::from_str(if secured { "https" } else { "http" });
        base_url.append("://");
        base_url.append(hostname);
        base_url.append(":");
        let port_digits = decimal_string(port as u64);
        base_url.append(port_digits.as_str());
        FileStation {
            hostname: String::from_str(hostname),
            base_url,
            cache_lifetime,
            sid: None,
            memo: ResponseMemo::new(),
        }
    }

    /// How long, in seconds, an answer to a read-only call may be reused.
    pub fn cache_lifetime(&self) -> (r: u64)
        ensures
            r == self.lifetime(),
    {
        self.cache_lifetime
    }

    /// The memoized answer to `url` that may be served at time `now`, where
    /// the call allows memoization (see [`memo_hit`]); an answer that may
    /// not be served is then forgotten. A call that may not be memoized
    /// leaves the memo untouched.
    pub fn cached_answer(&mut self, url: &str, now: u64, allow_cache: bool) -> (r: Option<String>)
        ensures
            final(self).host() == old(self).host(),
            final(self).base() == old(self).base(),
            final(self).lifetime() == old(self).lifetime(),
            final(self).session() == old(self).session(),
            !allow_cache ==> r is None && final(self).memo() == old(self).memo(),
            allow_cache ==> if memo_hit(old(self).memo(), url@, now, old(self).lifetime()) {
                r is Some && r->Some_0@ == old(self).memo()[url@].1 && final(self).memo() == old(self).memo()
            } else {
                r is None && final(self).memo() == old(self).memo().remove(url@)
            },
    {
        self.memo.lookup(url, now, self.cache_lifetime, allow_cache)
    }

    /// Remembers `body` as the answer to `url`, fetched at time `now`.
    pub fn remember(&mut self, url: &str, now: u64, body: &str)
        ensures
            final(self).host() == old(self).host(),
            final(self).base() == old(self).base(),
            final(self).lifetime() == old(self).lifetime(),
            final(self).session() == old(self).session(),
            final(self).memo() == old(self).memo().insert(url@, (now, body@)),
    {
        self.memo.store(url, now, body)
    }

    /// Whether a session is open.
    pub fn has_session(&self) -> (r: bool)
        ensures
            r == self.session() is Some,
    {
        self.sid.is_some()
    }

    /// The URL of a call to `method` of `api` at `version` with the extra
    /// parameters `params`, in the open session; `Unauthorized` without one.
    pub fn request_url(&self, api: &str, version: u8, method: &str, params: &Vec<(String, String)>) -> (r: Result<String, FsError>)
        ensures
            match self.session() {
                Some(sid) => r is Ok && r->Ok_0@ == entry_url(self.base(), api@, version, method@, sid, pairs_view(params@)),
                None => r == Err::<String, FsError>(FsError::Unauthorized),
            },
    {
        match &self.sid {
            None => Err(FsError::Unauthorized),
            Some(sid) => {
                let mut url = self.base_url.clone();
                url.append("/webapi/entry.cgi?api=");
                url.append(api);
                url.append("&version=");
                let v = decimal_string(version as u64);
                url.append(v.as_str());
                url.append("&method=");
                url.append(method);
                url.append("&_sid=");
                url.append(sid.as_str());
                let ghost head = url@;
                let mut i: usize = 0;
                while i < params.len()
                    invariant
                        i <= params@.len(),
                        url@ == head + query_suffix(pairs_view(params@).take(i as int)),
                    decreases params@.len() - i,
                {
                    assert(pairs_view(params@).take(i as int + 1).drop_last() =~= pairs_view(params@).take(i as int));
                    url.append("&");
                    url.append(params[i].0.as_str());
                    url.append("=");
                    url.append(params[i].1.as_str());
                    i = i + 1;
                }
                assert(pairs_view(params@).take(params@.len() as int) =~= pairs_view(params@));
                Ok(url)
            },
        }
    }

    /// The URL that lists all shares with their capacity, timestamps and
    /// permissions; `Unauthorized` without a session.
    pub fn list_shares(&self) -> (r: Result<String, FsError>)
        ensures
            match self.session() {
                Some(sid) => r is Ok && r->Ok_0@ == entry_url(
                    self.base(),
                    list_api(),
                    2,
                    "list_share"@,
                    sid,
                    seq![("additional"@, url_encoded(share_attributes()))],
                ),
                None => r == Err::<String, FsError>(FsError::Unauthorized),
            },
    {
        let mut params: Vec<(String, String)> = Vec::new();
        params.push((String::from_str("additional"), encode("[\"volume_status\",\"time\",\"perm\"]")));
        assert(pairs_view(params@) =~= seq![("additional"@, url_encoded(share_attributes()))]);
        self.request_url("SYNO.FileStation.List", 2, "list_share", &params)
    }

    /// The URL that lists the directory `path` with sizes, timestamps and
    /// permissions; `Unauthorized` without a session.
    pub fn list_files(&self, path: &str) -> (r: Result<String, FsError>)
        ensures
            match self.session() {
                Some(sid) => r is Ok && r->Ok_0@ == entry_url(
                    self.base(),
                    list_api(),
                    2,
                    "list"@,
                    sid,
                    seq![("folder_path"@, url_encoded(path@)), ("additional"@, url_encoded(file_attributes()))],
                ),
                None => r == Err::<String, FsError>(FsError::Unauthorized),
            },
    {
        let mut params: Vec<(String, String)> = Vec::new();
        params.push((String::from_str("folder_path"), encode(path)));
        params.push((String::from_str("additional"), encode("[\"size\",\"time\",\"perm\"]")));
        assert(pairs_view(params@) =~= seq![
            ("folder_path"@, url_encoded(path@)),
            ("additional"@, url_encoded(file_attributes())),
        ]);
        self.request_url("SYNO.FileStation.List", 2, "list", &params)
    }

    /// The URL that asks for the metadata of all of `paths` at once;
    /// `Unauthorized` without a session.
    pub fn get_info_for_paths(&self, paths: &Vec<String>) -> (r: Result<String, FsError>)
        ensures
            match self.session() {
                Some(sid) => r is Ok && r->Ok_0@ == entry_url(
                    self.base(),
                    list_api(),
                    2,
                    "getinfo"@,
                    sid,
                    seq![
                        ("path"@, url_encoded(joined(paths@.map_values(|p: String| p@)))),
                        ("additional"@, url_encoded(file_attributes())),
                    ],
                ),
                None => r == Err::<String, FsError>(FsError::Unauthorized),
            },
    {
        let ghost ps = paths@.map_values(|p: String| p@);
        let mut all = String::new();
        let mut i: usize = 0;
        while i < paths.len()
            invariant
                i <= paths@.len(),
                ps == paths@.map_values(|p: String| p@),
                all@ == joined(ps.take(i as int)),
            decreases paths@.len() - i,
        {
            assert(ps.take(i as int + 1).drop_last() =~= ps.take(i as int));
            if i > 0 {
                all.append(",");
            } else {
                assert(all@ =~= Seq::<char>::empty());
            }
            all.append(paths[i].as_str());
            proof {
                if i == 0 {
                    assert(ps.take(1) =~= seq![ps[0]]);
                    assert(all@ =~= ps[0]);
                }
            }
            i = i + 1;
        }
        assert(ps.take(paths@.len() as int) =~= ps);
        let mut params: Vec<(String, String)> = Vec::new();
        params.push((String::from_str("path"), encode(all.as_str())));
        params.push((String::from_str("additional"), encode("[\"size\",\"time\",\"perm\"]")));
        assert(pairs_view(params@) =~= seq![
            ("path"@, url_encoded(joined(ps))),
            ("additional"@, url_encoded(file_attributes())),
        ]);
        self.request_url("SYNO.FileStation.List", 2, "getinfo", &params)
    }

    /// The URL that downloads the whole file `path`; `Unauthorized` without
    /// a session.
    pub fn download(&self, path: &str) -> (r: Result<String, FsError>)
        ensures
            match self.session() {
                Some(sid) => r is Ok && r->Ok_0@ == entry_url(
                    self.base(),
                    "SYNO.FileStation.Download"@,
                    2,
                    "download"@,
                    sid,
                    seq![("path"@, url_encoded(path@)), ("mode"@, "download"@)],
                ),
                None => r == Err::<String, FsError>(FsError::Unauthorized),
            },
    {
        let mut params: Vec<(String, String)> = Vec::new();
        params.push((String::from_str("path"), encode(path)));
        params.push((String::from_str("mode"), String::from_str("download")));
        assert(pairs_view(params@) =~= seq![("path"@, url_encoded(path@)), ("mode"@, "download"@)]);
        self.request_url("SYNO.FileStation.Download", 2, "download", &params)
    }

    /// The URL that asks for the metadata of `path`; `Unauthorized` without
    /// a session.
    pub fn get_info_for_path(&self, path: &str) -> (r: Result<String, FsError>)
        ensures
            match self.session() {
                Some(sid) => r is Ok && r->Ok_0@ == entry_url(
                    self.base(),
                    list_api(),
                    2,
                    "getinfo"@,
                    sid,
                    seq![("path"@, url_encoded(path@)), ("additional"@, url_encoded(file_attributes()))],
                ),
                None => r == Err::<String, FsError>(FsError::Unauthorized),
            },
    {
        let mut paths: Vec<String> = Vec::new();
        paths.push(String::from_str(path));
        let ghost ps = paths@.map_values(|p: String| p@);
        assert(ps =~= seq![path@]);
        assert(joined(ps) == path@);
        self.get_info_for_paths(&paths)
    }

    /// The URL of a login of `username` with `password`; both are
    /// percent-encoded.
    pub fn login_url(&self, username: &str, password: &str) -> (r: String)
        ensures
            r@ == login_url_of(self.base(), username@, password@),
    {
        let mut url = self.base_url.clone();
        url.append("/webapi/auth.cgi?api=SYNO.API.Auth&version=3&method=login&account=");
        let u = encode(username);
        url.append(u.as_str());
        url.append("&passwd=");
        let p = encode(password);
        url.append(p.as_str());
        url.append("&session=FileStation&format=sid");
        url
    }

    /// Opens the session that a login answer carries (see
    /// [`login_outcome`]); any other answer leaves the session as it was.
    pub fn login(&mut self, status: u16, answer: Option<SynologyResult<LoginResult>>) -> (r: Result<(), FsError>)
        ensures
            final(self).host() == old(self).host(),
            final(self).base() == old(self).base(),
            final(self).lifetime() == old(self).lifetime(),
            final(self).memo() == old(self).memo(),
            match login_outcome(status, answer) {
                Ok(sid) => r is Ok && final(self).session() == Some(sid),
                Err(e) => r == Err::<(), FsError>(e) && final(self).session() == old(self).session(),
            },
    {
        if status != HTTP_OK {
            return Err(FsError::RemoteUnavailable(status));
        }
        match answer {
            None => Err(FsError::ProtocolError),
            Some(a) => {
                if a.success {
                    self.sid = Some(a.data.sid);
                    Ok(())
                } else {
                    Err(FsError::Unauthorized)
                }
            },
        }
    }

    /// The URL that ends the open session, which is closed here for good:
    /// every later request is `Unauthorized`. Without a session,
    /// `Unauthorized`.
    pub fn logout(&mut self) -> (r: Result<String, FsError>)
        ensures
            final(self).host() == old(self).host(),
            final(self).base() == old(self).base(),
            final(self).lifetime() == old(self).lifetime(),
            final(self).memo() == old(self).memo(),
            final(self).session() is None,
            match old(self).session() {
                Some(sid) => r is Ok && r->Ok_0@ == entry_url(
                    old(self).base(),
                    "SYNO.API.Auth"@,
                    1,
                    "logout"@,
                    sid,
                    seq![("session"@, "FileStation"@)]
                ),
                None => r == Err::<String, FsError>(FsError::Unauthorized),
            },
    {
        let mut params: Vec<(String, String)> = Vec::new();
        params.push((String::from_str("session"), String::from_str("FileStation")));
        assert(pairs_view(params@) =~= seq![("session"@, "FileStation"@)]);
        let r = self.request_url("SYNO.API.Auth", 1, "logout", &params);
        self.sid = None;
        r
    }
}

} // verus!
