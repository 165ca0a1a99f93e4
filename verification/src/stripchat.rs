//! The streaming site's API: its URLs (optionally through a mirror), the
//! CDN host names, what a broadcast description means, and the playlist URL
//! of a stream.
//!
//! The caller sends the requests and reads the JSON answers into the plain
//! types here; the meaning of the answers is decided here.
use vstd::prelude::*;
use crate::text::{concat, contains, contains_seq, decimal, decimal_chars, find_char, first_index, from_chars,
    has_prefix, lemma_first_index, replace_all, replace_all_exec, slice, str_eq, strip_prefix, to_chars};

verus! {

/// The CDN domains that serve the same content, in order.
pub open spec fn cdn_tlds() -> Seq<Seq<char>> {
    seq!["doppiocdn.com"@, "doppiocdn.media"@, "doppiocdn.net"@, "doppiocdn.org"@, "doppiocdn.live"@]
}

/// The CDN domains, in order (executable).
pub fn cdn_tld_list() -> (r: Vec<&'static str>)
    ensures
        r@.map_values(|s: &str| s@) == cdn_tlds(),
{
    let v: Vec<&'static str> = vec!["doppiocdn.com", "doppiocdn.media", "doppiocdn.net", "doppiocdn.org", "doppiocdn.live"];
    assert(v@.map_values(|s: &str| s@) =~= cdn_tlds());
    v
}

/// Every CDN domain is a non-empty name.
proof fn lemma_tlds_nonempty()
    ensures
        forall|k: int| 0 <= k < cdn_tlds().len() ==> (#[trigger] cdn_tlds()[k]).len() > 0,
{
    reveal_strlit("doppiocdn.com");
    reveal_strlit("doppiocdn.media");
    reveal_strlit("doppiocdn.net");
    reveal_strlit("doppiocdn.org");
    reveal_strlit("doppiocdn.live");
}

/// How the API is reached: directly, or through a mirror host with a scheme.
#[derive(Debug, Clone)]
pub struct ApiEndpoint {
    pub mirror: Option<String>,
    pub scheme: String,
}

/// The endpoint for the settings: an empty mirror counts as none; the
/// scheme is `http` or `https`, anything else becoming `https`.
pub fn api_endpoint(mirror: Option<&str>, scheme: Option<&str>) -> (r: ApiEndpoint)
    ensures
        match mirror {
            Some(m) => if m@.len() > 0 { r.mirror matches Some(x) && x@ == m@ } else { r.mirror is None },
            None => r.mirror is None,
        },
        r.scheme@ == (match scheme {
            Some(s) => if s@ == "http"@ || s@ == "https"@ { s@ } else { "https"@ },
            None => "https"@,
        }),
{
    let m = match mirror {
        Some(m) => if m.is_empty() { None } else { Some(m.to_owned()) },
        None => None,
    };
    let s = match scheme {
        Some(s) => if str_eq(s, "http") || str_eq(s, "https") { s.to_owned() } else { String::from_str("https") },
        None => String::from_str("https"),
    };
    ApiEndpoint { mirror: m, scheme: s }
}

/// `s` with its first `https://` turned into `http://`.
pub open spec fn downgrade_spec(s: Seq<char>) -> Seq<char> {
    if crate::text::contains_seq(s, "https://"@) {
        let i = crate::text::first_occurrence(s, "https://"@);
        s.subrange(0, i) + "http://"@ + s.subrange(i + 8, s.len() as int)
    } else {
        s
    }
}

/// A site URL as reached through the endpoint: the site's host replaced by
/// the mirror, and the first `https://` made `http://` for an `http` mirror.
pub open spec fn via_endpoint(url: Seq<char>, mirror: Option<Seq<char>>, scheme: Seq<char>) -> Seq<char> {
    match mirror {
        Some(m) => {
            let replaced = replace_all(url, "stripchat.com"@, m);
            if scheme == "http"@ {
                downgrade_spec(replaced)
            } else {
                replaced
            }
        },
        None => url,
    }
}

/// `s` with its first `https://` turned into `http://` (executable).
fn downgrade(s: &Vec<char>) -> (r: Vec<char>)
    ensures
        r@ == downgrade_spec(s@),
{
    proof {
        reveal_strlit("https://");
        reveal_strlit("http://");
    }
    let pat = to_chars("https://");
    match crate::text::find_seq_from(s, &pat, 0) {
        Some(i) => {
            proof {
                assert(crate::text::contains_seq(s@, "https://"@));
                let f = crate::text::first_occurrence(s@, "https://"@);
                assert(crate::text::occurs_at(s@, "https://"@, f) && forall|j: int| 0 <= j < f ==> !crate::text::occurs_at(s@, "https://"@, j));
                if f != i {
                    if f < i {
                        assert(!crate::text::occurs_at(s@, "https://"@, f));
                    } else {
                        assert(!crate::text::occurs_at(s@, "https://"@, i as int));
                    }
                }
            }
            let head = slice(s, 0, i);
            let tail = slice(s, i + 8, s.len());
            concat(&concat(&head, &to_chars("http://")), &tail)
        },
        None => {
            proof {
                assert(!crate::text::contains_seq(s@, "https://"@));
            }
            slice(s, 0, s.len())
        },
    }
}

impl ApiEndpoint {
    /// The view of the mirror.
    pub open spec fn mirror_view(&self) -> Option<Seq<char>> {
        match self.mirror {
            Some(m) => Some(m@),
            None => None,
        }
    }

    /// A site URL as reached through this endpoint.
    pub fn api_url(&self, url: &str) -> (r: String)
        ensures
            r@ == via_endpoint(url@, self.mirror_view(), self.scheme@),
    {
        proof {
            reveal_strlit("stripchat.com");
        }
        match &self.mirror {
            Some(m) => {
                let replaced = replace_all_exec(&to_chars(url), &to_chars("stripchat.com"), &to_chars(m.as_str()));
                if str_eq(self.scheme.as_str(), "http") {
                    from_chars(&downgrade(&replaced))
                } else {
                    from_chars(&replaced)
                }
            },
            None => url.to_owned(),
        }
    }

    /// The `Referer` sent to the site: `https://stripchat.com/` through this endpoint.
    pub fn referer(&self) -> (r: String)
        ensures
            r@ == via_endpoint("https://stripchat.com/"@, self.mirror_view(), self.scheme@),
    {
        self.api_url("https://stripchat.com/")
    }
}

/// The CDN node of a URL: the first label of its host, for `https://` URLs.
pub open spec fn node_id_spec(url: Seq<char>) -> Option<Seq<char>> {
    if has_prefix(url, "https://"@) {
        let rest = url.subrange(8, url.len() as int);
        let host = if first_index(rest, '/') >= 0 { rest.subrange(0, first_index(rest, '/')) } else { rest };
        Some(if first_index(host, '.') >= 0 { host.subrange(0, first_index(host, '.')) } else { host })
    } else {
        None
    }
}

/// The CDN node of a URL (executable).
pub fn extract_node_id(url: &str) -> (r: Option<String>)
    ensures
        r matches Some(n) ==> node_id_spec(url@) == Some(n@),
        r is None ==> node_id_spec(url@) is None,
{
    proof {
        reveal_strlit("https://");
        assert("https://"@.len() == 8);
    }
    let u = to_chars(url);
    let pre = to_chars("https://");
    match strip_prefix(&u, &pre) {
        Some(rest) => {
            proof {
                lemma_first_index(rest@, '/');
            }
            assert(rest@ == url@.subrange(8, url@.len() as int));
            let host = match find_char(&rest, '/') {
                Some(i) => slice(&rest, 0, i),
                None => slice(&rest, 0, rest.len()),
            };
            assert(host@ == (if first_index(rest@, '/') >= 0 { rest@.subrange(0, first_index(rest@, '/')) } else { rest@ }));
            proof {
                lemma_first_index(host@, '.');
            }
            let label = match find_char(&host, '.') {
                Some(i) => slice(&host, 0, i),
                None => slice(&host, 0, host.len()),
            };
            assert(label@ == (if first_index(host@, '.') >= 0 { host@.subrange(0, first_index(host@, '.')) } else { host@ }));
            let out = from_chars(&label);
            assert(node_id_spec(url@) == Some(label@));
            Some(out)
        },
        None => None,
    }
}

/// The first CDN domain that occurs in `url`, if any.
pub open spec fn source_tld(url: Seq<char>) -> Option<Seq<char>> {
    let t = cdn_tlds();
    if exists|i: int| 0 <= i < t.len() && contains_seq(url, #[trigger] t[i]) {
        let i = choose|i: int| 0 <= i < t.len() && contains_seq(url, t[i]) && forall|j: int| 0 <= j < i ==> !contains_seq(url, #[trigger] t[j]);
        Some(t[i])
    } else {
        None
    }
}

/// The URLs to try for a CDN resource: when it names one of the CDN
/// domains, the same URL on each domain in order (the first domain named
/// replaced everywhere); otherwise only the URL itself.
pub fn cdn_candidates(url: &str) -> (r: Vec<String>)
    ensures
        source_tld(url@) is None ==> r@.len() == 1 && r@[0]@ == url@,
        source_tld(url@) matches Some(src) ==> r@.len() == 5 && forall|k: int| 0 <= k < 5 ==> (#[trigger] r@[k])@ == replace_all(url@, src, cdn_tlds()[k]),
{
    let tlds = cdn_tld_list();
    let ghost t = cdn_tlds();
    let u = to_chars(url);
    let mut i: usize = 0;
    while i < tlds.len()
        invariant
            i <= tlds.len(),
            tlds@.map_values(|s: &str| s@) == t,
            t == cdn_tlds(),
            u@ == url@,
            forall|j: int| 0 <= j < i ==> !contains_seq(url@, #[trigger] t[j]),
        ensures
            i <= tlds.len(),
            forall|j: int| 0 <= j < i ==> !contains_seq(url@, #[trigger] t[j]),
            i < tlds.len() ==> contains_seq(url@, t[i as int]),
        decreases tlds.len() - i,
    {
        assert(tlds@[i as int]@ == t[i as int]);
        if contains(&u, &to_chars(tlds[i])) {
            break;
        }
        i += 1;
    }
    if i == tlds.len() {
        let mut r: Vec<String> = Vec::new();
        r.push(url.to_owned());
        return r;
    }
    let ghost src = t[i as int];
    proof {
        let k = choose|k: int| 0 <= k < t.len() && contains_seq(url@, t[k]) && forall|j: int| 0 <= j < k ==> !contains_seq(url@, #[trigger] t[j]);
        assert(0 <= i < t.len() && contains_seq(url@, t[i as int]) && forall|j: int| 0 <= j < i ==> !contains_seq(url@, #[trigger] t[j]));
        if k != i {
            if k < i {
                assert(!contains_seq(url@, t[k]));
            } else {
                assert(!contains_seq(url@, t[i as int]));
            }
        }
        lemma_tlds_nonempty();
        assert(src.len() > 0);
    }
    let from = to_chars(tlds[i]);
    assert(from@ == src);
    let mut r: Vec<String> = Vec::new();
    let mut k: usize = 0;
    while k < tlds.len()
        invariant
            k <= tlds.len(),
            tlds.len() == 5,
            tlds@.map_values(|s: &str| s@) == t,
            t == cdn_tlds(),
            from@ == src,
            src.len() > 0,
            u@ == url@,
            r@.len() == k,
            forall|q: int| 0 <= q < k ==> (#[trigger] r@[q])@ == replace_all(url@, src, t[q]),
        decreases tlds.len() - k,
    {
        assert(tlds@[k as int]@ == t[k as int]);
        r.push(from_chars(&replace_all_exec(&u, &from, &to_chars(tlds[k]))));
        k += 1;
    }
    r
}

/// The URL of a model's adaptive master playlist on a CDN domain.
pub fn auto_playlist_url(tld: &str, model_id: u64) -> (r: String)
    ensures
        r@ == "https://edge-hls."@ + tld@ + "/hls/"@ + decimal(model_id as nat) + "/master/"@ + decimal(model_id as nat) + "_auto.m3u8"@,
{
    let id = decimal_chars(model_id);
    let mut v = concat(&to_chars("https://edge-hls."), &to_chars(tld));
    v = concat(&v, &to_chars("/hls/"));
    v = concat(&v, &id);
    v = concat(&v, &to_chars("/master/"));
    v = concat(&v, &id);
    v = concat(&v, &to_chars("_auto.m3u8"));
    from_chars(&v)
}

// ───────────────────────── broadcast descriptions ─────────────────────────

/// What a broadcast description says, as read from the site's JSON.
#[derive(Debug, Clone)]
pub struct BroadcastItem {
    pub is_live: bool,
    pub status: String,
    pub model_id: Option<u64>,
    pub snapshot_timestamp: u64,
    pub stream_name: String,
    pub preview_url: Option<String>,
}

/// What is known of a stream.
#[derive(Debug, Clone)]
pub struct StreamInfo {
    pub is_online: bool,
    pub is_recordable: bool,
    pub status: String,
    pub thumbnail_url: Option<String>,
    pub playlist_url: Option<String>,
    pub model_id: Option<u64>,
    pub renamed_to: Option<String>,
}

/// The shown status of a stream that is not a live group show.
pub open spec fn plain_status(s: Seq<char>) -> Seq<char> {
    if s == "public"@ {
        "公开秀"@
    } else if s == "private"@ {
        "私密秀"@
    } else if s == "virtualPrivate"@ {
        "虚拟私密"@
    } else if s == "p2p"@ || s == "p2pVoice"@ {
        "P2P"@
    } else if s == "idle"@ {
        "等待"@
    } else if s == "off"@ {
        "离线"@
    } else {
        s
    }
}

/// The shown status of a live group show, from the show mode found on the
/// model's cam page (`groupShow:{type}` for group shows), if any.
pub open spec fn group_status(detail: Option<Seq<char>>) -> Seq<char> {
    match detail {
        Some(d) => if has_prefix(d, "groupShow:"@) {
            let t = d.subrange(10, d.len() as int);
            if t == "ticket"@ {
                "票务秀"@
            } else if t == "perMinute"@ {
                "计时秀"@
            } else {
                "群组秀"@
            }
        } else if d == "private"@ {
            "私密秀"@
        } else if d == "p2pVoice"@ || d == "p2p"@ {
            "P2P"@
        } else if d == "virtualPrivate"@ {
            "虚拟私密"@
        } else {
            "群组秀"@
        },
        None => "群组秀"@,
    }
}

/// Whether the show mode of a live group show must be looked up on the cam page.
pub fn needs_group_detail(item: &BroadcastItem) -> (r: bool)
    ensures
        r == (item.is_live && item.status@ == "groupShow"@ && item.model_id is Some),
{
    item.is_live && str_eq(item.status.as_str(), "groupShow") && item.model_id.is_some()
}

/// The show mode on a model's cam page: `groupShow:{type}` for group shows,
/// otherwise the mode itself.
pub fn show_detail(mode: &str, group_type: &str) -> (r: String)
    ensures
        mode@ == "groupShow"@ ==> r@ == "groupShow:"@ + group_type@,
        mode@ != "groupShow"@ ==> r@ == mode@,
{
    if str_eq(mode, "groupShow") {
        from_chars(&concat(&to_chars("groupShow:"), &to_chars(group_type)))
    } else {
        mode.to_owned()
    }
}

/// The shown status of a stream; `detail` is the show mode looked up for a
/// live group show (see `needs_group_detail`).
pub fn shown_status(item: &BroadcastItem, detail: Option<&str>) -> (r: String)
    ensures
        (item.is_live && item.status@ == "groupShow"@) ==> r@ == (if item.model_id is Some {
            group_status(match detail { Some(d) => Some(d@), None => None })
        } else {
            "群组秀"@
        }),
        !(item.is_live && item.status@ == "groupShow"@) ==> r@ == plain_status(item.status@),
{
    proof {
        reveal_strlit("groupShow:");
    }
    let s = item.status.as_str();
    if item.is_live && str_eq(s, "groupShow") {
        if item.model_id.is_none() {
            return String::from_str("群组秀");
        }
        return match detail {
            Some(d) => {
                let dv = to_chars(d);
                match strip_prefix(&dv, &to_chars("groupShow:")) {
                    Some(t) => {
                        let ts = from_chars(&t);
                        if str_eq(ts.as_str(), "ticket") {
                            String::from_str("票务秀")
                        } else if str_eq(ts.as_str(), "perMinute") {
                            String::from_str("计时秀")
                        } else {
                            String::from_str("群组秀")
                        }
                    },
                    None => {
                        if str_eq(d, "private") {
                            String::from_str("私密秀")
                        } else if str_eq(d, "p2pVoice") || str_eq(d, "p2p") {
                            String::from_str("P2P")
                        } else if str_eq(d, "virtualPrivate") {
                            String::from_str("虚拟私密")
                        } else {
                            String::from_str("群组秀")
                        }
                    },
                }
            },
            None => String::from_str("群组秀"),
        };
    }
    if str_eq(s, "public") {
        String::from_str("公开秀")
    } else if str_eq(s, "private") {
        String::from_str("私密秀")
    } else if str_eq(s, "virtualPrivate") {
        String::from_str("虚拟私密")
    } else if str_eq(s, "p2p") || str_eq(s, "p2pVoice") {
        String::from_str("P2P")
    } else if str_eq(s, "idle") {
        String::from_str("等待")
    } else if str_eq(s, "off") {
        String::from_str("离线")
    } else {
        s.to_owned()
    }
}

/// The thumbnail of a live stream: the snapshot when its time stamp and
/// stream name are known, otherwise the preview URL.
pub fn live_thumbnail(item: &BroadcastItem) -> (r: Option<String>)
    ensures
        item.snapshot_timestamp > 0 && item.stream_name@.len() > 0 ==> (r matches Some(u) && u@ == "https://img.doppiocdn.net/thumbs/"@ + decimal(item.snapshot_timestamp as nat) + "/"@ + item.stream_name@),
        !(item.snapshot_timestamp > 0 && item.stream_name@.len() > 0) ==> r == item.preview_url,
{
    proof {
        reveal_strlit("/");
        assert("/"@ =~= seq!['/']);
    }
    if item.snapshot_timestamp > 0 && !item.stream_name.as_str().is_empty() {
        let mut v = concat(&to_chars("https://img.doppiocdn.net/thumbs/"), &decimal_chars(item.snapshot_timestamp));
        v.push('/');
        let v = concat(&v, &to_chars(item.stream_name.as_str()));
        Some(from_chars(&v))
    } else {
        crate::pipeline::copy_opt_string(&item.preview_url)
    }
}

/// Whether a stream can be recorded: it is live and public.
pub fn is_recordable(item: &BroadcastItem) -> (r: bool)
    ensures
        r == (item.is_live && item.status@ == "public"@),
{
    item.is_live && str_eq(item.status.as_str(), "public")
}

/// Whether the playlist URL is looked up: the stream is recordable, the
/// caller asked for it, and the model id is known.
pub fn wants_playlist(item: &BroadcastItem, fetch_playlist: bool) -> (r: bool)
    ensures
        r == (item.is_live && item.status@ == "public"@ && fetch_playlist && item.model_id is Some),
{
    is_recordable(item) && fetch_playlist && item.model_id.is_some()
}

/// The stream information from a broadcast description, the shown status,
/// the thumbnail and the playlist URL found for it.
pub fn stream_info(item: &BroadcastItem, status: String, thumbnail_url: Option<String>, playlist_url: Option<String>) -> (r: StreamInfo)
    ensures
        r.is_online == item.is_live,
        r.is_recordable == (item.is_live && item.status@ == "public"@),
        r.status == status,
        r.thumbnail_url == thumbnail_url,
        r.playlist_url == playlist_url,
        r.model_id == item.model_id,
        r.renamed_to is None,
{
    StreamInfo {
        is_online: item.is_live,
        is_recordable: is_recordable(item),
        status,
        thumbnail_url,
        playlist_url,
        model_id: item.model_id,
        renamed_to: None,
    }
}

/// Why reading a broadcast description failed.
#[derive(Debug, Clone)]
pub enum BroadcastError {
    /// The user does not exist.
    UserNotFound(String),
    /// Another failure, with its message.
    Other(String),
}

/// How a broadcast answer is judged: a body that is not JSON, or a failed
/// HTTP status, gives `API 返回 {status} ({username})`; an error whose
/// description mentions "not found" means the user does not exist.
pub fn check_broadcast_response(
    http_status: u16,
    success: bool,
    is_json: bool,
    title: Option<&str>,
    description: Option<&str>,
    username: &str,
) -> (r: Result<(), BroadcastError>)
    ensures
        !is_json ==> (r matches Err(BroadcastError::Other(m)) && m@ == "API 返回 "@ + decimal(http_status as nat) + " ("@ + username@ + ")"@),
        is_json && (title matches Some(t) && t@ == "An error occurred"@) && (description matches Some(d) && contains_seq(d@, "not found"@)) ==> (r matches Err(BroadcastError::UserNotFound(m)) && m@ == "用户 "@ + username@ + " 不存在"@),
        is_json && !((title matches Some(t) && t@ == "An error occurred"@) && (description matches Some(d) && contains_seq(d@, "not found"@))) && !success ==> (r matches Err(BroadcastError::Other(m)) && m@ == "API 返回 "@ + decimal(http_status as nat) + " ("@ + username@ + ")"@),
        is_json && !((title matches Some(t) && t@ == "An error occurred"@) && (description matches Some(d) && contains_seq(d@, "not found"@))) && success ==> r is Ok,
{
    let api_err = from_chars(&concat(&concat(&concat(&concat(&to_chars("API 返回 "), &decimal_chars(http_status as u64)), &to_chars(" (")), &to_chars(username)), &to_chars(")")));
    if !is_json {
        return Err(BroadcastError::Other(api_err));
    }
    let titled = match title {
        Some(t) => str_eq(t, "An error occurred"),
        None => false,
    };
    let not_found = match description {
        Some(d) => contains(&to_chars(d), &to_chars("not found")),
        None => false,
    };
    if titled && not_found {
        return Err(BroadcastError::UserNotFound(from_chars(&concat(&concat(&to_chars("用户 "), &to_chars(username)), &to_chars(" 不存在")))));
    }
    if !success {
        return Err(BroadcastError::Other(api_err));
    }
    Ok(())
}

/// The characters of `s` lowercased (`str::to_lowercase`).
pub uninterp spec fn lowercase(s: Seq<char>) -> Seq<char>;

/// `str::to_lowercase`: the Unicode lowercase form of `s`.
#[verifier::external_body]
pub(crate) fn to_lowercase(s: &str) -> (r: String)
    ensures
        r@ == lowercase(s@),
{
    s.to_lowercase()
}

/// Whether the name found for a model id shows that the streamer was renamed:
/// it differs from the name used, ignoring case.
pub fn is_renamed(found: &str, username: &str) -> (r: bool)
    ensures
        r == (lowercase(found@) != lowercase(username@)),
{
    !str_eq(to_lowercase(found).as_str(), to_lowercase(username).as_str())
}

// ───────────────────────── playlist URLs ─────────────────────────

/// The playlist URL with a key pair: `{url}?psch=..&pkey=..`, or with `&`
/// when the URL already has a query.
pub open spec fn with_key_pair(url: Seq<char>, psch: Seq<char>, pkey: Seq<char>) -> Seq<char> {
    url + (if url.contains('?') { "&"@ } else { "?"@ }) + "psch="@ + psch + "&pkey="@ + pkey
}

/// The playlist URL to record from: the variant's URL, with the first
/// announced scheme/key pair whose key is known, or else the first pair.
pub open spec fn playlist_url_spec(url: Seq<char>, pairs: Seq<(Seq<char>, Seq<char>)>, known: Seq<(String, String)>) -> Seq<char> {
    if pairs.len() == 0 {
        url
    } else if exists|i: int| 0 <= i < pairs.len() && crate::assoc::key_index(known, (#[trigger] pairs[i]).1) >= 0 {
        let i = choose|i: int| 0 <= i < pairs.len() && crate::assoc::key_index(known, pairs[i].1) >= 0 && forall|j: int| 0 <= j < i ==> crate::assoc::key_index(known, (#[trigger] pairs[j]).1) < 0;
        with_key_pair(url, pairs[i].0, pairs[i].1)
    } else {
        with_key_pair(url, pairs[0].0, pairs[0].1)
    }
}

/// The playlist URL with a key pair (executable).
fn with_key_pair_exec(url: &str, psch: &str, pkey: &str) -> (r: String)
    ensures
        r@ == with_key_pair(url@, psch@, pkey@),
{
    let u = to_chars(url);
    let has_q = crate::text::contains_char(&u, '?');
    let sep = if has_q { to_chars("&") } else { to_chars("?") };
    let mut v = concat(&u, &sep);
    v = concat(&v, &to_chars("psch="));
    v = concat(&v, &to_chars(psch));
    v = concat(&v, &to_chars("&pkey="));
    v = concat(&v, &to_chars(pkey));
    from_chars(&v)
}

/// The playlist URL to record from, given the chosen variant's URL, the
/// scheme/key pairs of the master playlist, and the known keys.
pub fn playlist_url_with_keys(url: &str, pairs: &Vec<(String, String)>, known: &Vec<(String, String)>) -> (r: String)
    ensures
        r@ == playlist_url_spec(url@, pairs@.map_values(|q: (String, String)| (q.0@, q.1@)), known@),
{
    let ghost pv = pairs@.map_values(|q: (String, String)| (q.0@, q.1@));
    if pairs.len() == 0 {
        return url.to_owned();
    }
    let mut i: usize = 0;
    while i < pairs.len()
        invariant
            i <= pairs.len(),
            pv == pairs@.map_values(|q: (String, String)| (q.0@, q.1@)),
            forall|j: int| 0 <= j < i ==> crate::assoc::key_index(known@, (#[trigger] pv[j]).1) < 0,
        decreases pairs.len() - i,
    {
        proof {
            crate::assoc::lemma_key_index(known@, pairs@[i as int].1@);
        }
        if crate::assoc::find_key(known, pairs[i].1.as_str()).is_some() {
            assert(pv[i as int].1 == pairs@[i as int].1@);
            proof {
                let k = choose|k: int| 0 <= k < pv.len() && crate::assoc::key_index(known@, pv[k].1) >= 0 && forall|j: int| 0 <= j < k ==> crate::assoc::key_index(known@, (#[trigger] pv[j]).1) < 0;
                assert(0 <= i < pv.len() && crate::assoc::key_index(known@, pv[i as int].1) >= 0 && forall|j: int| 0 <= j < i ==> crate::assoc::key_index(known@, (#[trigger] pv[j]).1) < 0);
                if k != i {
                    if k < i {
                        assert(crate::assoc::key_index(known@, pv[k].1) < 0);
                    } else {
                        assert(crate::assoc::key_index(known@, pv[i as int].1) < 0);
                    }
                }
            }
            return with_key_pair_exec(url, pairs[i].0.as_str(), pairs[i].1.as_str());
        }
        i += 1;
    }
    assert(pv[0] == (pairs@[0].0@, pairs@[0].1@));
    with_key_pair_exec(url, pairs[0].0.as_str(), pairs[0].1.as_str())
}

} // verus!
