//! The dsh runtime: update channels, the state files that record versions,
//! the registry answers of `npm view`, plugin compatibility and the choice of
//! the version to run.

use vstd::prelude::*;
use crate::json::{self, Json};
use crate::text;
use crate::version;
use crate::config::{self, Config};

verus! {

/// Minimum dsh version the shell supports (interface contract C1–C3 plus
/// the two ops routes). A compatibility floor: the shell refuses to drive
/// anything below it.
pub const MIN_DSH_VERSION: &'static str = "0.1.0-rc.6";

// ---------------------------------------------------------------------------
// Update channel
// ---------------------------------------------------------------------------

/// Which dsh version the shell runs:
/// - `Latest`: the official npm `latest` dist-tag (the promoted release);
/// - `Preview`: the highest version number on the registry (prereleases
///   included).
#[derive(Clone, Copy, Debug, PartialEq, Eq, Structural)]
pub enum Channel {
    Latest,
    Preview,
}

impl Channel {
    /// Label shown in the channel picker.
    pub fn label(self) -> (r: &'static str)
        ensures
            r@ == (match self {
                Channel::Latest => "稳定版 (latest)"@,
                Channel::Preview => "预览版 (最高版本号)"@,
            }),
    {
        match self {
            Channel::Latest => "稳定版 (latest)",
            Channel::Preview => "预览版 (最高版本号)",
        }
    }

    /// The name stored in `dsh-channel.json`.
    pub fn name(self) -> (r: &'static str)
        ensures
            r@ == (match self {
                Channel::Latest => "latest"@,
                Channel::Preview => "preview"@,
            }),
    {
        match self {
            Channel::Latest => "latest",
            Channel::Preview => "preview",
        }
    }
}

/// `<data dir>\cache\dsh-channel.json`: the persisted channel.
pub fn channel_path(appdata: &str, windows: bool) -> (r: String)
    ensures
        r@ == config::join(windows, config::join(windows, config::join(windows, appdata@, "DshDesktop"@), "cache"@), "dsh-channel.json"@),
{
    proof {
        reveal_strlit("dsh-channel.json");
    }
    config::cache_file(appdata, "dsh-channel.json", windows)
}

/// `<data dir>\cache\dsh-current.json`: the version last run successfully.
pub fn current_version_path(appdata: &str, windows: bool) -> (r: String)
    ensures
        r@ == config::join(windows, config::join(windows, config::join(windows, appdata@, "DshDesktop"@), "cache"@), "dsh-current.json"@),
{
    proof {
        reveal_strlit("dsh-current.json");
    }
    config::cache_file(appdata, "dsh-current.json", windows)
}

/// `<data dir>\cache\dsh-remote.json`: the cached registry snapshot.
pub fn remote_cache_path(appdata: &str, windows: bool) -> (r: String)
    ensures
        r@ == config::join(windows, config::join(windows, config::join(windows, appdata@, "DshDesktop"@), "cache"@), "dsh-remote.json"@),
{
    proof {
        reveal_strlit("dsh-remote.json");
    }
    config::cache_file(appdata, "dsh-remote.json", windows)
}

/// The views of a vector of named numbers.
pub open spec fn number_views(v: Seq<(String, u64)>) -> Seq<(Seq<char>, u64)> {
    v.map_values(|p: (String, u64)| (p.0@, p.1))
}

/// The compact text that `serde_json` writes for a JSON object built by
/// inserting the string members `strings`, then the number members
/// `numbers`, in order.
pub uninterp spec fn json_object_text(strings: Seq<(Seq<char>, Seq<char>)>, numbers: Seq<(Seq<char>, u64)>) -> Seq<char>;

/// `serde_json::Value::Object(..).to_string()` for an object built from
/// string and number members. Trusted: the text is
/// `json_object_text(strings, numbers)`, a function of the members alone.
#[verifier::external_body]
fn object_text(strings: &Vec<(String, String)>, numbers: &Vec<(String, u64)>) -> (r: String)
    ensures
        r@ == json_object_text(pair_views(strings@), number_views(numbers@)),
{
    let members: serde_json::Map<String, serde_json::Value> = strings
        .iter()
        .map(|(k, v)| (k.clone(), serde_json::Value::from(v.as_str())))
        .chain(numbers.iter().map(|(k, n)| (k.clone(), serde_json::Value::from(*n))))
        .collect();
    serde_json::Value::Object(members).to_string()
}

fn one_string_member(key: &str, value: &str) -> (r: Vec<(String, String)>)
    ensures
        pair_views(r@) == seq![(key@, value@)],
{
    let mut v: Vec<(String, String)> = Vec::new();
    v.push((key.to_owned(), value.to_owned()));
    assert(pair_views(v@) =~= seq![(key@, value@)]);
    v
}

/// The text of `dsh-channel.json` for `channel`: `{"channel":"<name>"}`.
pub fn channel_file_text(channel: Channel) -> (r: String)
    ensures
        r@ == json_object_text(
            seq![("channel"@, (match channel {
                Channel::Latest => "latest"@,
                Channel::Preview => "preview"@,
            }))],
            Seq::empty(),
        ),
{
    let strings = one_string_member("channel", channel.name());
    let numbers: Vec<(String, u64)> = Vec::new();
    assert(number_views(numbers@) =~= Seq::<(Seq<char>, u64)>::empty());
    object_text(&strings, &numbers)
}

/// The text of `dsh-current.json` for `version`: `{"version":"<version>"}`.
pub fn current_version_text(version: &str) -> (r: String)
    ensures
        r@ == json_object_text(seq![("version"@, version@)], Seq::empty()),
{
    let strings = one_string_member("version", version);
    let numbers: Vec<(String, u64)> = Vec::new();
    assert(number_views(numbers@) =~= Seq::<(Seq<char>, u64)>::empty());
    object_text(&strings, &numbers)
}

/// The text of `dsh-remote.json` for a registry snapshot taken at `ts`
/// (seconds since the epoch): `{"latest":..,"preview":..,"ts":..}`.
pub fn remote_cache_text(latest: &str, preview: &str, ts: u64) -> (r: String)
    ensures
        r@ == json_object_text(seq![("latest"@, latest@), ("preview"@, preview@)], seq![("ts"@, ts)]),
{
    let mut strings: Vec<(String, String)> = Vec::new();
    strings.push(("latest".to_owned(), latest.to_owned()));
    strings.push(("preview".to_owned(), preview.to_owned()));
    assert(pair_views(strings@) =~= seq![("latest"@, latest@), ("preview"@, preview@)]);
    let mut numbers: Vec<(String, u64)> = Vec::new();
    numbers.push(("ts".to_owned(), ts));
    assert(number_views(numbers@) =~= seq![("ts"@, ts)]);
    object_text(&strings, &numbers)
}

/// The channel recorded in the text of `dsh-channel.json` (`None`: the file
/// could not be read): `Preview` exactly where the text is JSON whose member
/// `channel` is the string `preview`.
pub open spec fn channel_of(text: Option<Seq<char>>) -> Channel {
    match text {
        Some(t) => match json::json_document(t) {
            Some(j) => if json::member_str(j, "channel"@) == Some("preview"@) {
                Channel::Preview
            } else {
                Channel::Latest
            },
            None => Channel::Latest,
        },
        None => Channel::Latest,
    }
}

/// Persisted channel choice (missing or invalid file: `Latest`).
pub fn channel_from_file(text: Option<&str>) -> (r: Channel)
    ensures
        r == channel_of(match text { Some(t) => Some(t@), None => None }),
{
    let t = match text {
        Some(t) => t,
        None => {
            return Channel::Latest;
        },
    };
    let doc = match json::parse_json(t) {
        Some(j) => j,
        None => {
            return Channel::Latest;
        },
    };
    match doc.member_string("channel") {
        Some(c) => {
            if text::str_eq(c.as_str(), "preview") {
                Channel::Preview
            } else {
                Channel::Latest
            }
        },
        None => Channel::Latest,
    }
}

// ---------------------------------------------------------------------------
// Current version state file
// ---------------------------------------------------------------------------

/// The version recorded in the text of `dsh-current.json`: its member
/// `version`, where that is a string.
pub open spec fn recorded_version(text: Option<Seq<char>>) -> Option<Seq<char>> {
    match text {
        Some(t) => match json::json_document(t) {
            Some(j) => json::member_str(j, "version"@),
            None => None,
        },
        None => None,
    }
}

/// Version of the dsh the shell last ran successfully, read from the text
/// of its state file.
pub fn current_version_from_file(text: Option<&str>) -> (r: Option<String>)
    ensures
        match r {
            Some(v) => recorded_version(match text { Some(t) => Some(t@), None => None }) == Some(v@),
            None => recorded_version(match text { Some(t) => Some(t@), None => None }) is None,
        },
{
    let t = match text {
        Some(t) => t,
        None => {
            return None;
        },
    };
    match json::parse_json(t) {
        Some(j) => j.member_string("version"),
        None => None,
    }
}

// ---------------------------------------------------------------------------
// Registry snapshot
// ---------------------------------------------------------------------------

/// Both channel targets from one registry snapshot.
#[derive(Clone, Debug)]
pub struct RemoteVersions {
    pub latest: String,
    pub preview: String,
}

/// Age past which the cached registry snapshot is stale (6 hours).
pub const REMOTE_CACHE_TTL_SECS: u64 = 21600;

/// The snapshot held by the text of `dsh-remote.json` at time `now` (seconds
/// since the Unix epoch; `None` where the clock is before it): the members
/// `latest` and `preview`, unless the member `ts` is missing or the snapshot
/// is older than `REMOTE_CACHE_TTL_SECS`.
pub open spec fn cached_remote(text: Option<Seq<char>>, now: Option<u64>) -> Option<(Seq<char>, Seq<char>)> {
    match (text, now) {
        (Some(t), Some(n)) => match json::json_document(t) {
            Some(j) => match json::member_u64(j, "ts"@) {
                Some(ts) => {
                    let age = if n >= ts { n - ts } else { 0 };
                    if age > REMOTE_CACHE_TTL_SECS {
                        None
                    } else {
                        match (json::member_str(j, "latest"@), json::member_str(j, "preview"@)) {
                            (Some(l), Some(p)) => Some((l, p)),
                            _ => None,
                        }
                    }
                },
                None => None,
            },
            None => None,
        },
        _ => None,
    }
}

/// Optional text, viewed.
pub open spec fn opt_view(t: Option<&str>) -> Option<Seq<char>> {
    match t {
        Some(s) => Some(s@),
        None => None,
    }
}

/// Optional snapshot, viewed.
pub open spec fn remote_view(r: Option<RemoteVersions>) -> Option<(Seq<char>, Seq<char>)> {
    match r {
        Some(v) => Some((v.latest@, v.preview@)),
        None => None,
    }
}

/// Fresh cached remote versions (`None` when stale or missing: the caller
/// fetches them again).
pub fn read_remote_cache(text: Option<&str>, now: Option<u64>) -> (r: Option<RemoteVersions>)
    ensures
        remote_view(r) == cached_remote(opt_view(text), now),
{
    let t = match text {
        Some(t) => t,
        None => {
            return None;
        },
    };
    let j = match json::parse_json(t) {
        Some(j) => j,
        None => {
            return None;
        },
    };
    let n = match now {
        Some(n) => n,
        None => {
            return None;
        },
    };
    let ts = match j.member_number("ts") {
        Some(ts) => ts,
        None => {
            return None;
        },
    };
    let age = n.saturating_sub(ts);
    if age > REMOTE_CACHE_TTL_SECS {
        return None;
    }
    let latest = match j.member_string("latest") {
        Some(l) => l,
        None => {
            return None;
        },
    };
    let preview = match j.member_string("preview") {
        Some(p) => p,
        None => {
            return None;
        },
    };
    Some(RemoteVersions { latest, preview })
}

/// Whether a fresh remote-version cache exists.
pub fn remote_cache_fresh(text: Option<&str>, now: Option<u64>) -> (r: bool)
    ensures
        r == cached_remote(opt_view(text), now) is Some,
{
    read_remote_cache(text, now).is_some()
}

/// The strings among `arr`, in order (`filter_map(as_str)`).
pub open spec fn strings_of(arr: Seq<Json>) -> Seq<Seq<char>>
    decreases arr.len(),
{
    if arr.len() == 0 {
        Seq::empty()
    } else {
        let rest = strings_of(arr.drop_last());
        match json::str_of(arr.last()) {
            Some(s) => rest.push(s),
            None => rest,
        }
    }
}

/// `max_by(version_cmp)` over `xs[i..]` starting from `best`: each element
/// replaces the running maximum unless the maximum compares greater, so the
/// last of equal maxima wins.
pub open spec fn max_from(xs: Seq<Seq<char>>, i: int, best: Seq<char>) -> Seq<char>
    decreases xs.len() - i,
{
    if i >= xs.len() {
        best
    } else {
        let next = if version::version_order(best, xs[i]) == version::Order::Greater {
            best
        } else {
            xs[i]
        };
        max_from(xs, i + 1, next)
    }
}

/// The highest version of `xs` by `version_cmp`, `None` for no versions.
pub open spec fn highest(xs: Seq<Seq<char>>) -> Option<Seq<char>> {
    if xs.len() == 0 {
        None
    } else {
        Some(max_from(xs, 1, xs[0]))
    }
}

proof fn lemma_max_from(xs: Seq<Seq<char>>, i: int, best: Seq<char>)
    requires
        0 <= i <= xs.len(),
        version::canonical_version(best),
        forall|k: int| 0 <= k < xs.len() ==> version::canonical_version(#[trigger] xs[k]),
        forall|k: int| 0 <= k < i ==> version::version_order(#[trigger] xs[k], best) != version::Order::Greater,
        best == xs[0] || exists|k: int| 0 <= k < i && xs[k] == best,
    ensures
        forall|k: int| 0 <= k < xs.len() ==> version::version_order(#[trigger] xs[k], max_from(xs, i, best))
            != version::Order::Greater,
        max_from(xs, i, best) == xs[0] || exists|k: int| 0 <= k < xs.len() && xs[k] == max_from(xs, i, best),
    decreases xs.len() - i,
{
    if i < xs.len() {
        let x = xs[i];
        assert(version::canonical_version(x));
        version::law_version_order_antisymmetric(best, x);
        version::law_version_order_reflexive(x);
        if version::version_order(best, x) == version::Order::Greater {
            lemma_max_from(xs, i + 1, best);
        } else {
            assert forall|k: int| 0 <= k < i + 1 implies version::version_order(#[trigger] xs[k], x)
                != version::Order::Greater by {
                if k < i {
                    version::law_version_order_transitive(xs[k], best, x);
                }
            }
            lemma_max_from(xs, i + 1, x);
        }
    }
}

/// The highest version is one of the versions and no version is above it,
/// for versions whose numeric prerelease identifiers are canonical.
pub proof fn law_highest_is_maximum(xs: Seq<Seq<char>>)
    requires
        xs.len() > 0,
        forall|k: int| 0 <= k < xs.len() ==> version::canonical_version(#[trigger] xs[k]),
    ensures
        exists|k: int| 0 <= k < xs.len() && xs[k] == highest(xs).unwrap(),
        forall|k: int| 0 <= k < xs.len() ==> version::version_order(#[trigger] xs[k], highest(xs).unwrap())
            != version::Order::Greater,
{
    assert(version::canonical_version(xs[0]));
    version::law_version_order_reflexive(xs[0]);
    lemma_max_from(xs, 1, xs[0]);
}

/// The targets of both channels in the answer of
/// `npm view @deepseek-ai/dsh dist-tags versions --json`: `latest` is the
/// `latest` dist-tag (else the highest version), `preview` the highest of all
/// published versions (else `latest`).
pub open spec fn remote_targets(text: Seq<char>) -> Option<(Seq<char>, Seq<char>)> {
    match json::json_document(text) {
        Some(j) => {
            let tag = match json::member(j, "dist-tags"@) {
                Some(t) => match t {
                    Json::Object(_) => json::member_str(t, "latest"@),
                    _ => None,
                },
                None => None,
            };
            let max = match json::member(j, "versions"@) {
                Some(Json::Array(a)) => highest(strings_of(a@)),
                _ => None,
            };
            let latest = match tag {
                Some(l) => Some(l),
                None => max,
            };
            match latest {
                Some(l) => Some((l, match max { Some(m) => m, None => l })),
                None => None,
            }
        },
        None => None,
    }
}

/// The views of a vector of strings.
pub open spec fn string_views(v: Seq<String>) -> Seq<Seq<char>> {
    v.map_values(|s: String| s@)
}

fn strings_in(arr: &Vec<Json>) -> (r: Vec<String>)
    ensures
        string_views(r@) == strings_of(arr@),
{
    let n = arr.len();
    let mut r: Vec<String> = Vec::new();
    let mut i: usize = 0;
    while i < n
        invariant
            n == arr@.len(),
            i <= n,
            string_views(r@) == strings_of(arr@.take(i as int)),
        decreases n - i,
    {
        let ghost before = r@;
        assert(arr@.take(i + 1).drop_last() =~= arr@.take(i as int));
        assert(arr@.take(i + 1).last() == arr@[i as int]);
        match arr[i].string() {
            Some(s) => {
                r.push(s);
                assert(string_views(r@) =~= string_views(before).push(s@));
            },
            None => {},
        }
        i = i + 1;
    }
    assert(arr@.take(n as int) =~= arr@);
    r
}

fn highest_of(xs: &Vec<String>) -> (r: Option<String>)
    ensures
        match r {
            Some(s) => highest(string_views(xs@)) == Some(s@),
            None => highest(string_views(xs@)) is None,
        },
{
    let n = xs.len();
    if n == 0 {
        return None;
    }
    let mut best: usize = 0;
    let mut i: usize = 1;
    while i < n
        invariant
            n == xs@.len(),
            1 <= i <= n,
            best < n,
            string_views(xs@).len() == n,
            highest(string_views(xs@)) == Some(max_from(string_views(xs@), i as int, xs@[best as int]@)),
        decreases n - i,
    {
        assert(string_views(xs@)[i as int] == xs@[i as int]@);
        if version::compare_versions(xs[best].as_str(), xs[i].as_str()) != version::Order::Greater {
            best = i;
        }
        i = i + 1;
    }
    Some(xs[best].clone())
}

/// Reads both channel targets from the answer of `npm view`.
pub fn remote_versions_from_npm(text: &str) -> (r: Option<RemoteVersions>)
    ensures
        remote_view(r) == remote_targets(text@),
{
    let j = match json::parse_json(text) {
        Some(j) => j,
        None => {
            return None;
        },
    };
    let tag = match j.get("dist-tags") {
        Some(t) => match t {
            Json::Object(_) => t.member_string("latest"),
            _ => None,
        },
        None => None,
    };
    let max = match j.get("versions") {
        Some(Json::Array(a)) => {
            let strs = strings_in(a);
            highest_of(&strs)
        },
        _ => None,
    };
    let latest = match tag {
        Some(l) => l,
        None => match &max {
            Some(m) => m.clone(),
            None => {
                return None;
            },
        },
    };
    let preview = match max {
        Some(m) => m,
        None => latest.clone(),
    };
    Some(RemoteVersions { latest, preview })
}

/// Where the registry snapshot comes from.
pub enum RemoteStep {
    /// The cached snapshot is fresh: use it.
    Cached(RemoteVersions),
    /// Ask the registry (`npm view`).
    Query,
}

/// The cache comes first: a fresh cached snapshot (`cache_text`: the text
/// of `dsh-remote.json`, `now`: the clock) is used as is, else the
/// registry is asked.
pub fn remote_step(cache_text: Option<&str>, now: Option<u64>) -> (r: RemoteStep)
    ensures
        match r {
            RemoteStep::Cached(v) => cached_remote(opt_view(cache_text), now) == Some((v.latest@, v.preview@)),
            RemoteStep::Query => cached_remote(opt_view(cache_text), now) is None,
        },
{
    match read_remote_cache(cache_text, now) {
        Some(v) => RemoteStep::Cached(v),
        None => RemoteStep::Query,
    }
}

/// The snapshot read from the registry's answer, and the text to cache it
/// with, stamped `now` (0 where the clock cannot be read); nothing to cache
/// where the answer gives no snapshot.
pub fn remote_from_query(answer: &str, now: Option<u64>) -> (r: (Option<RemoteVersions>, Option<String>))
    ensures
        remote_view(r.0) == remote_targets(answer@),
        match r.0 {
            Some(v) => r.1 is Some && r.1.unwrap()@ == json_object_text(
                seq![("latest"@, v.latest@), ("preview"@, v.preview@)],
                seq![("ts"@, match now { Some(n) => n, None => 0u64 })],
            ),
            None => r.1 is None,
        },
{
    match remote_versions_from_npm(answer) {
        Some(v) => {
            let ts = match now {
                Some(n) => n,
                None => 0,
            };
            let text = remote_cache_text(v.latest.as_str(), v.preview.as_str(), ts);
            (Some(v), Some(text))
        },
        None => (None, None),
    }
}

// ---------------------------------------------------------------------------
// Dependencies and plugin compatibility
// ---------------------------------------------------------------------------

/// The views of a vector of string pairs.
pub open spec fn pair_views(v: Seq<(String, String)>) -> Seq<(Seq<char>, Seq<char>)> {
    v.map_values(|p: (String, String)| (p.0@, p.1@))
}

/// No key occurs twice among the pairs.
pub open spec fn keys_unique(p: Seq<(Seq<char>, Seq<char>)>) -> bool {
    forall|i: int, j: int| 0 <= i < j < p.len() ==> #[trigger] p[i].0 != #[trigger] p[j].0
}

proof fn lemma_lookup_none(p: Seq<(Seq<char>, Seq<char>)>, k: Seq<char>, i: int)
    requires
        0 <= i,
        pair_lookup(p, k, i) is None,
    ensures
        forall|j: int| i <= j < p.len() ==> #[trigger] p[j].0 != k,
    decreases p.len() - i,
{
    if i < p.len() {
        lemma_lookup_none(p, k, i + 1);
    }
}

/// The map that `serde_json::from_str::<BTreeMap<String, String>>` reads
/// from `text`, as its pairs in key order; `None` where it rejects the text
/// (not JSON, not an object, or a value that is not a string, wherever it
/// stands).
pub uninterp spec fn string_map_document(text: Seq<char>) -> Option<Seq<(Seq<char>, Seq<char>)>>;

/// Parses `text` with `serde_json::from_str::<BTreeMap<String, String>>`.
/// Trusted: the result is `string_map_document(text)`, a function of the
/// text alone, and no key occurs twice (a `BTreeMap` holds each key once).
/// A `BTreeMap` accepts and rejects exactly the texts a
/// `HashMap<String, String>` does, and is walked in key order rather than
/// in an order seeded per process.
#[verifier::external_body]
fn parse_string_map(text: &str) -> (r: Option<Vec<(String, String)>>)
    ensures
        match r {
            Some(v) => string_map_document(text@) == Some(pair_views(v@)) && keys_unique(pair_views(v@)),
            None => string_map_document(text@) is None,
        },
{
    serde_json::from_str::<std::collections::BTreeMap<String, String>>(text).ok().map(|m| m.into_iter().collect())
}

/// The dependency map of `npm view @deepseek-ai/dsh@<v> dependencies --json`
/// (name to range), read as a map from strings to strings.
pub open spec fn dependency_map(text: Seq<char>) -> Option<Seq<(Seq<char>, Seq<char>)>> {
    string_map_document(text)
}

/// Reads the dependency map of a dsh version from the answer of `npm view`.
pub fn dependencies_from_npm(text: &str) -> (r: Option<Vec<(String, String)>>)
    ensures
        match r {
            Some(v) => dependency_map(text@) == Some(pair_views(v@)) && keys_unique(pair_views(v@)),
            None => dependency_map(text@) is None,
        },
{
    parse_string_map(text)
}

/// The value of the first pair whose key is `key` in `pairs[i..]`.
pub open spec fn pair_lookup(pairs: Seq<(Seq<char>, Seq<char>)>, key: Seq<char>, i: int) -> Option<Seq<char>>
    decreases pairs.len() - i,
{
    if i >= pairs.len() {
        None
    } else if pairs[i].0 == key {
        Some(pairs[i].1)
    } else {
        pair_lookup(pairs, key, i + 1)
    }
}

/// Looks `key` up in a list of pairs.
pub fn lookup_pair(pairs: &Vec<(String, String)>, key: &str) -> (r: Option<String>)
    ensures
        match r {
            Some(v) => pair_lookup(pair_views(pairs@), key@, 0) == Some(v@),
            None => pair_lookup(pair_views(pairs@), key@, 0) is None,
        },
{
    let n = pairs.len();
    let mut i: usize = 0;
    while i < n
        invariant
            n == pairs@.len(),
            i <= n,
            pair_lookup(pair_views(pairs@), key@, 0) == pair_lookup(pair_views(pairs@), key@, i as int),
        decreases n - i,
    {
        assert(pair_views(pairs@)[i as int] == (pairs@[i as int].0@, pairs@[i as int].1@));
        if text::str_eq(pairs[i].0.as_str(), key) {
            return Some(pairs[i].1.clone());
        }
        i = i + 1;
    }
    None
}

/// The concrete version in the answer of
/// `npm view <pkg>@<range> version --json`: a string, or the last entry of
/// an array when the range matches several versions.
pub open spec fn resolved_version(text: Seq<char>) -> Option<Seq<char>> {
    match json::json_document(text) {
        Some(Json::Str(s)) => Some(s@),
        Some(Json::Array(a)) => if a@.len() > 0 {
            json::str_of(a@.last())
        } else {
            None
        },
        _ => None,
    }
}

/// Reads the version npm would install from the answer of `npm view`.
pub fn resolved_version_from_npm(text: &str) -> (r: Option<String>)
    ensures
        match r {
            Some(v) => resolved_version(text@) == Some(v@),
            None => resolved_version(text@) is None,
        },
{
    match json::parse_json(text) {
        Some(Json::Str(s)) => Some(s),
        Some(Json::Array(a)) => {
            if a.len() > 0 {
                a[a.len() - 1].string()
            } else {
                None
            }
        },
        _ => None,
    }
}

/// Versions of the dsh subpackages resolved so far, by package name.
pub struct ResolvedVersions {
    pub entries: Vec<(String, String)>,
}

impl ResolvedVersions {
    /// No package is recorded twice.
    pub open spec fn wf(&self) -> bool {
        keys_unique(pair_views(self.entries@))
    }

    /// No package resolved yet.
    pub fn new() -> (r: Self)
        ensures
            r.entries@.len() == 0,
            r.wf(),
    {
        ResolvedVersions { entries: Vec::new() }
    }

    /// The version resolved for `dep`, if any.
    pub fn get(&self, dep: &str) -> (r: Option<String>)
        ensures
            match r {
                Some(v) => pair_lookup(pair_views(self.entries@), dep@, 0) == Some(v@),
                None => pair_lookup(pair_views(self.entries@), dep@, 0) is None,
            },
    {
        lookup_pair(&self.entries, dep)
    }

    /// Records the version resolved for `dep` (in front, so that it is
    /// what `get` finds from now on).
    pub fn record(&mut self, dep: String, version: String)
        requires
            old(self).wf(),
            pair_lookup(pair_views(old(self).entries@), dep@, 0) is None,
        ensures
            pair_views(final(self).entries@) == seq![(dep@, version@)] + pair_views(old(self).entries@),
            final(self).wf(),
    {
        let mut entries: Vec<(String, String)> = Vec::new();
        let ghost d = dep@;
        let ghost v = version@;
        entries.push((dep, version));
        let n = self.entries.len();
        let mut i: usize = 0;
        while i < n
            invariant
                n == self.entries@.len(),
                i <= n,
                pair_views(entries@) == seq![(d, v)] + pair_views(self.entries@).take(i as int),
            decreases n - i,
        {
            let ghost before = entries@;
            let (a, b) = (self.entries[i].0.clone(), self.entries[i].1.clone());
            entries.push((a, b));
            assert(pair_views(entries@) =~= pair_views(before).push((self.entries@[i as int].0@, self.entries@[i as int].1@)));
            assert(pair_views(self.entries@).take(i + 1) =~= pair_views(self.entries@).take(i as int).push(
                (self.entries@[i as int].0@, self.entries@[i as int].1@),
            ));
            i = i + 1;
        }
        assert(pair_views(self.entries@).take(n as int) =~= pair_views(self.entries@));
        proof { lemma_lookup_none(pair_views(self.entries@), d, 0); }
        let ghost old_p = pair_views(self.entries@);
        self.entries = entries;
        assert(keys_unique(pair_views(self.entries@))) by {
            let p = pair_views(self.entries@);
            assert forall|a: int, b: int| 0 <= a < b < p.len() implies #[trigger] p[a].0 != #[trigger] p[b].0 by {
                assert(p[b] == old_p[b - 1]);
                if a > 0 {
                    assert(p[a] == old_p[a - 1]);
                }
            }
        }
    }
}

/// After `record(dep, v)`, `get(dep)` gives `v`.
pub proof fn law_record_then_get(before: Seq<(Seq<char>, Seq<char>)>, dep: Seq<char>, v: Seq<char>)
    ensures
        pair_lookup(seq![(dep, v)] + before, dep, 0) == Some(v),
{
    assert((seq![(dep, v)] + before)[0] == (dep, v));
}

/// One `@deepseek-ai/*` peer dependency of a profile plugin that dsh also
/// provides: the plugin's name, the dependency, the plugin's range and the
/// range dsh depends on.
pub struct PeerCheck {
    pub name: String,
    pub dep: String,
    pub range: String,
    pub dsh_range: String,
}

/// A `PeerCheck`, viewed.
pub struct PeerCheckView {
    pub name: Seq<char>,
    pub dep: Seq<char>,
    pub range: Seq<char>,
    pub dsh_range: Seq<char>,
}

impl View for PeerCheck {
    type V = PeerCheckView;

    open spec fn view(&self) -> PeerCheckView {
        PeerCheckView { name: self.name@, dep: self.dep@, range: self.range@, dsh_range: self.dsh_range@ }
    }
}

/// The views of a vector of checks.
pub open spec fn check_views(v: Seq<PeerCheck>) -> Seq<PeerCheckView> {
    v.map_values(|c: PeerCheck| c@)
}

/// The scope of the dsh packages.
pub open spec fn dsh_scope() -> Seq<char> {
    "@deepseek-ai/"@
}

/// The checks that the peer dependencies `entries` of plugin `name` give
/// rise to, in order: those in the `@deepseek-ai/` scope that dsh depends on
/// too; a range that is not a string counts as the empty range.
pub open spec fn checks_from(
    entries: Seq<(String, Json)>,
    name: Seq<char>,
    deps: Seq<(Seq<char>, Seq<char>)>,
) -> Seq<PeerCheckView>
    decreases entries.len(),
{
    if entries.len() == 0 {
        Seq::empty()
    } else {
        let rest = checks_from(entries.drop_last(), name, deps);
        let dep = entries.last().0@;
        let range = match json::str_of(entries.last().1) {
            Some(r) => r,
            None => Seq::empty(),
        };
        if !text::starts_with(dep, dsh_scope()) {
            rest
        } else {
            match pair_lookup(deps, dep, 0) {
                Some(d) => rest.push(PeerCheckView { name, dep, range, dsh_range: d }),
                None => rest,
            }
        }
    }
}

/// The checks for one plugin, from the text of its `package.json`: none if
/// it is not JSON or has no `peerDependencies` object; the plugin's name is
/// its member `name`, or `plugin`.
pub open spec fn peer_checks(manifest: Seq<char>, deps: Seq<(Seq<char>, Seq<char>)>) -> Seq<PeerCheckView> {
    match json::json_document(manifest) {
        Some(j) => match json::member(j, "peerDependencies"@) {
            Some(Json::Object(e)) => {
                let name = match json::member_str(j, "name"@) {
                    Some(n) => n,
                    None => "plugin"@,
                };
                checks_from(e@, name, deps)
            },
            _ => Seq::empty(),
        },
        None => Seq::empty(),
    }
}

/// The peer-dependency checks one profile plugin needs, given the text of
/// its `package.json` and the dependency map of the candidate dsh.
pub fn plugin_peer_checks(manifest: &str, dsh_deps: &Vec<(String, String)>) -> (r: Vec<PeerCheck>)
    ensures
        check_views(r@) == peer_checks(manifest@, pair_views(dsh_deps@)),
{
    let mut out: Vec<PeerCheck> = Vec::new();
    let j = match json::parse_json(manifest) {
        Some(j) => j,
        None => {
            assert(check_views(out@) =~= Seq::<PeerCheckView>::empty());
            return out;
        },
    };
    let entries = match j.get("peerDependencies") {
        Some(Json::Object(e)) => e,
        _ => {
            assert(check_views(out@) =~= Seq::<PeerCheckView>::empty());
            return out;
        },
    };
    let name = match j.member_string("name") {
        Some(n) => n,
        None => "plugin".to_owned(),
    };
    let scope = text::chars_of("@deepseek-ai/");
    let n = entries.len();
    let mut i: usize = 0;
    assert(check_views(out@) =~= Seq::<PeerCheckView>::empty());
    assert(entries@.take(0) =~= Seq::<(String, Json)>::empty());
    while i < n
        invariant
            n == entries@.len(),
            i <= n,
            scope@ == dsh_scope(),
            check_views(out@) == checks_from(entries@.take(i as int), name@, pair_views(dsh_deps@)),
        decreases n - i,
    {
        let ghost before = out@;
        assert(entries@.take(i + 1).drop_last() =~= entries@.take(i as int));
        assert(entries@.take(i + 1).last() == entries@[i as int]);
        let dep_chars = text::chars_of(entries[i].0.as_str());
        if text::starts_with_chars(&dep_chars, &scope) {
            match lookup_pair(dsh_deps, entries[i].0.as_str()) {
                Some(d) => {
                    let range = match entries[i].1.string() {
                        Some(r) => r,
                        None => {
                            let e = "".to_owned();
                            proof { reveal_strlit(""); }
                            e
                        },
                    };
                    let c = PeerCheck {
                        name: name.clone(),
                        dep: entries[i].0.clone(),
                        range,
                        dsh_range: d,
                    };
                    let ghost cv = c@;
                    out.push(c);
                    assert(check_views(out@) =~= check_views(before).push(cv));
                    assert(cv.dep == entries@[i as int].0@);
                    assert(cv.name == name@);
                    assert(text::starts_with(cv.dep, dsh_scope()));
                    assert(pair_lookup(pair_views(dsh_deps@), cv.dep, 0) == Some(cv.dsh_range));
                    assert(cv.range == (match json::str_of(entries@[i as int].1) {
                        Some(r) => r,
                        None => Seq::empty(),
                    }));
                },
                None => {},
            }
        }
        i = i + 1;
    }
    assert(entries@.take(n as int) =~= entries@);
    out
}

/// The message for a plugin whose peer range `range` the resolved version
/// `provided` does not satisfy.
pub open spec fn incompatibility_message(c: PeerCheckView, provided: Seq<char>) -> Seq<char> {
    c.name + ": "@ + c.dep + " 需要 "@ + c.range + "，但 dsh 提供 "@ + provided
}

/// Checks one peer dependency against the version dsh provides: a message
/// exactly where that version does not satisfy the plugin's range (a range
/// whose caret, tilde or wildcard bound overflows a `u64` is not satisfied).
pub fn peer_incompatibility(check: &PeerCheck, provided: &str) -> (r: Option<String>)
    ensures
        r is Some <==> version::range_outcome(provided@, check.range@) != Some(true),
        match r {
            Some(m) => m@ == incompatibility_message(check@, provided@),
            None => true,
        },
{
    match version::range_check(provided, check.range.as_str()) {
        Some(true) => {
            return None;
        },
        _ => {},
    }
    let mut m = check.name.clone();
    m.append(": ");
    m.append(check.dep.as_str());
    m.append(" 需要 ");
    m.append(check.range.as_str());
    m.append("，但 dsh 提供 ");
    m.append(provided);
    Some(m)
}

// ---------------------------------------------------------------------------
// Scanning the whole profile
// ---------------------------------------------------------------------------

/// The checks of all profile plugins, plugin after plugin in the order of
/// their manifests.
pub open spec fn all_checks(manifests: Seq<Seq<char>>, deps: Seq<(Seq<char>, Seq<char>)>) -> Seq<PeerCheckView>
    decreases manifests.len(),
{
    if manifests.len() == 0 {
        Seq::empty()
    } else {
        all_checks(manifests.drop_last(), deps) + peer_checks(manifests.last(), deps)
    }
}

/// What one check reports against the version `provided`: its message where
/// the version does not satisfy the plugin's range, nothing where it does.
pub open spec fn verdict(c: PeerCheckView, provided: Seq<char>) -> Seq<Seq<char>> {
    if version::range_outcome(provided, c.range) == Some(true) {
        Seq::empty()
    } else {
        seq![incompatibility_message(c, provided)]
    }
}

/// The messages of `checks[i..]`, where `cache` holds the versions
/// resolved so far (newest first) and `answers` the registry's answers to
/// the lookups still to come, in order. A dependency found in the cache is
/// not looked up again; one that is not takes the next answer, which is
/// cached where it is a version and skips the check where the lookup
/// failed. The list stops where the answers run out.
pub open spec fn scan_messages(
    checks: Seq<PeerCheckView>,
    cache: Seq<(Seq<char>, Seq<char>)>,
    answers: Seq<Option<Seq<char>>>,
    i: int,
) -> Seq<Seq<char>>
    decreases checks.len() - i,
{
    if i < 0 || i >= checks.len() {
        Seq::empty()
    } else {
        let c = checks[i];
        match pair_lookup(cache, c.dep, 0) {
            Some(v) => verdict(c, v) + scan_messages(checks, cache, answers, i + 1),
            None => if answers.len() == 0 {
                Seq::empty()
            } else {
                match answers[0] {
                    Some(v) => verdict(c, v) + scan_messages(
                        checks,
                        seq![(c.dep, v)] + cache,
                        answers.drop_first(),
                        i + 1,
                    ),
                    None => scan_messages(checks, cache, answers.drop_first(), i + 1),
                }
            },
        }
    }
}

/// A check that a plugin's peer dependency `c.dep` needs: the dependency is
/// in the `@deepseek-ai/` scope, and `c.dsh_range` is the range of its first
/// entry in the dependency map `deps` of dsh.
pub open spec fn scoped_check(c: PeerCheckView, deps: Seq<(Seq<char>, Seq<char>)>) -> bool {
    &&& "@deepseek-ai/"@.is_prefix_of(c.dep)
    &&& exists|j: int|
        #![trigger deps[j]]
        0 <= j < deps.len() && deps[j] == (c.dep, c.dsh_range) && forall|i: int|
            0 <= i < j ==> (#[trigger] deps[i]).0 != c.dep
}

proof fn lemma_lookup_found(p: Seq<(Seq<char>, Seq<char>)>, k: Seq<char>, v: Seq<char>, i: int)
    requires
        0 <= i,
        pair_lookup(p, k, i) == Some(v),
        forall|t: int| 0 <= t < i ==> (#[trigger] p[t]).0 != k,
    ensures
        exists|j: int|
            #![trigger p[j]]
            0 <= j < p.len() && p[j] == (k, v) && forall|t: int| 0 <= t < j ==> (#[trigger] p[t]).0 != k,
    decreases p.len() - i,
{
    if i < p.len() {
        if p[i].0 == k {
            assert(p[i] == (k, v));
        } else {
            lemma_lookup_found(p, k, v, i + 1);
        }
    }
}

proof fn lemma_checks_from_scoped(entries: Seq<(String, Json)>, name: Seq<char>, deps: Seq<(Seq<char>, Seq<char>)>)
    ensures
        forall|k: int| 0 <= k < checks_from(entries, name, deps).len()
            ==> scoped_check(#[trigger] checks_from(entries, name, deps)[k], deps),
    decreases entries.len(),
{
    if entries.len() > 0 {
        lemma_checks_from_scoped(entries.drop_last(), name, deps);
        let rest = checks_from(entries.drop_last(), name, deps);
        let dep = entries.last().0@;
        if text::starts_with(dep, dsh_scope()) {
            match pair_lookup(deps, dep, 0) {
                Some(d) => {
                    lemma_lookup_found(deps, dep, d, 0);
                    assert("@deepseek-ai/"@.is_prefix_of(dep));
                    let all = checks_from(entries, name, deps);
                    assert forall|k: int| 0 <= k < all.len() implies scoped_check(#[trigger] all[k], deps) by {
                        if k < rest.len() {
                            assert(all[k] == rest[k]);
                        }
                    }
                },
                None => {},
            }
        }
    }
}

/// Only `@deepseek-ai/*` peer dependencies that dsh also depends on are
/// checked: every check for a plugin, and so every check of the profile,
/// names a dependency in that scope, with the range dsh gives it.
pub proof fn law_checks_are_scoped(
    manifest: Seq<char>,
    manifests: Seq<Seq<char>>,
    deps: Seq<(Seq<char>, Seq<char>)>,
)
    ensures
        forall|k: int| 0 <= k < peer_checks(manifest, deps).len()
            ==> scoped_check(#[trigger] peer_checks(manifest, deps)[k], deps),
        forall|k: int| 0 <= k < all_checks(manifests, deps).len()
            ==> scoped_check(#[trigger] all_checks(manifests, deps)[k], deps),
{
    lemma_peer_checks_scoped(manifest, deps);
    lemma_all_checks_scoped(manifests, deps);
}

proof fn lemma_peer_checks_scoped(manifest: Seq<char>, deps: Seq<(Seq<char>, Seq<char>)>)
    ensures
        forall|k: int| 0 <= k < peer_checks(manifest, deps).len()
            ==> scoped_check(#[trigger] peer_checks(manifest, deps)[k], deps),
{
    match json::json_document(manifest) {
        Some(j) => match json::member(j, "peerDependencies"@) {
            Some(Json::Object(e)) => {
                let name = match json::member_str(j, "name"@) {
                    Some(n) => n,
                    None => "plugin"@,
                };
                lemma_checks_from_scoped(e@, name, deps);
            },
            _ => {},
        },
        None => {},
    }
}

proof fn lemma_all_checks_scoped(manifests: Seq<Seq<char>>, deps: Seq<(Seq<char>, Seq<char>)>)
    ensures
        forall|k: int| 0 <= k < all_checks(manifests, deps).len()
            ==> scoped_check(#[trigger] all_checks(manifests, deps)[k], deps),
    decreases manifests.len(),
{
    if manifests.len() > 0 {
        lemma_all_checks_scoped(manifests.drop_last(), deps);
        lemma_peer_checks_scoped(manifests.last(), deps);
        let a = all_checks(manifests.drop_last(), deps);
        let b = peer_checks(manifests.last(), deps);
        let all = all_checks(manifests, deps);
        assert forall|k: int| 0 <= k < all.len() implies scoped_check(#[trigger] all[k], deps) by {
            if k < a.len() {
                assert(all[k] == a[k]);
            } else {
                assert(all[k] == b[k - a.len()]);
            }
        }
    }
}

/// The incompatibility list of a profile: the plugin manifests in directory
/// order, the dependency map of the candidate dsh, and the registry's
/// answers to the version lookups the scan asked for, in order.
pub open spec fn profile_incompatibilities(
    manifests: Seq<Seq<char>>,
    deps: Seq<(Seq<char>, Seq<char>)>,
    answers: Seq<Option<Seq<char>>>,
) -> Seq<Seq<char>> {
    scan_messages(all_checks(manifests, deps), Seq::empty(), answers, 0)
}

/// The peer-dependency checks of every manifest, in order.
pub fn profile_checks(manifests: &Vec<String>, dsh_deps: &Vec<(String, String)>) -> (r: Vec<PeerCheck>)
    ensures
        check_views(r@) == all_checks(string_views(manifests@), pair_views(dsh_deps@)),
{
    let mut out: Vec<PeerCheck> = Vec::new();
    let n = manifests.len();
    let mut i: usize = 0;
    assert(string_views(manifests@).take(0) =~= Seq::<Seq<char>>::empty());
    assert(check_views(out@) =~= Seq::<PeerCheckView>::empty());
    while i < n
        invariant
            n == manifests@.len(),
            i <= n,
            check_views(out@) == all_checks(string_views(manifests@).take(i as int), pair_views(dsh_deps@)),
        decreases n - i,
    {
        let ghost before = out@;
        let mut more = plugin_peer_checks(manifests[i].as_str(), dsh_deps);
        let ghost added = more@;
        out.append(&mut more);
        assert(check_views(out@) =~= check_views(before) + check_views(added));
        let ghost ms = string_views(manifests@).take(i + 1);
        assert(ms.drop_last() =~= string_views(manifests@).take(i as int));
        assert(ms.last() == manifests@[i as int]@);
        i = i + 1;
    }
    assert(string_views(manifests@).take(n as int) =~= string_views(manifests@));
    out
}

/// What the scan asks of its caller.
pub enum ScanAction {
    /// Resolve the version npm would install for `dep@dsh_range`, then call
    /// `answer` with it (`None` where the lookup failed).
    Ask { dep: String, dsh_range: String },
    /// The scan is over; the list is in `found`.
    Done,
}

/// The scan of the profile plugins for peer dependencies that the
/// candidate dsh would not satisfy.
pub struct CompatScan {
    /// All checks, plugin after plugin.
    pub checks: Vec<PeerCheck>,
    /// The check under way.
    pub next: usize,
    /// Versions resolved so far.
    pub provided: ResolvedVersions,
    /// Messages found so far.
    pub found: Vec<String>,
    /// Whether the scan waits for an answer about `checks[next]`.
    pub asking: bool,
    /// The registry's answers so far.
    pub answers: Ghost<Seq<Option<Seq<char>>>>,
    /// The plugin manifests and the dependency map the scan started from.
    pub profile: Ghost<(Seq<Seq<char>>, Seq<(Seq<char>, Seq<char>)>)>,
}

/// The view of an answer.
pub open spec fn answer_view(a: Option<String>) -> Option<Seq<char>> {
    match a {
        Some(v) => Some(v@),
        None => None,
    }
}

impl CompatScan {
    /// The scan is consistent: for whatever answers come next, the list
    /// over the whole profile is what was found so far followed by what the
    /// rest of the checks give.
    pub open spec fn wf(&self) -> bool {
        let cv = check_views(self.checks@);
        &&& cv == all_checks(self.profile@.0, self.profile@.1)
        &&& self.provided.wf()
        &&& self.next <= self.checks@.len()
        &&& (self.asking ==> self.next < self.checks@.len() && pair_lookup(
            pair_views(self.provided.entries@),
            cv[self.next as int].dep,
            0,
        ) is None)
        &&& forall|f: Seq<Option<Seq<char>>>|
            #[trigger] scan_messages(cv, Seq::empty(), self.answers@ + f, 0) == string_views(self.found@)
                + scan_messages(cv, pair_views(self.provided.entries@), f, self.next as int)
    }

    /// Goes through the checks whose version is already resolved, up to the
    /// first that needs a lookup.
    fn advance(&mut self) -> (a: ScanAction)
        requires
            old(self).wf(),
            !old(self).asking,
        ensures
            final(self).wf(),
            final(self).checks@ == old(self).checks@,
            final(self).answers@ == old(self).answers@,
            final(self).profile@ == old(self).profile@,
            match a {
                ScanAction::Ask { dep, dsh_range } => final(self).asking
                    && dep@ == check_views(final(self).checks@)[final(self).next as int].dep
                    && dsh_range@ == check_views(final(self).checks@)[final(self).next as int].dsh_range,
                ScanAction::Done => !final(self).asking && final(self).next == final(self).checks@.len(),
            },
    {
        let n = self.checks.len();
        while self.next < n
            invariant
                n == self.checks@.len(),
                self.wf(),
                !self.asking,
                self.checks@ == old(self).checks@,
                self.answers@ == old(self).answers@,
                self.profile@ == old(self).profile@,
            decreases n - self.next,
        {
            let i = self.next;
            let ghost cv = check_views(self.checks@);
            assert(cv[i as int] == self.checks@[i as int]@);
            match self.provided.get(self.checks[i].dep.as_str()) {
                Some(v) => {
                    let ghost cache = pair_views(self.provided.entries@);
                    let ghost before = string_views(self.found@);
                    let msg = peer_incompatibility(&self.checks[i], v.as_str());
                    let ghost vd = verdict(cv[i as int], v@);
                    match msg {
                        Some(m) => {
                            self.found.push(m);
                        },
                        None => {},
                    }
                    assert(string_views(self.found@) =~= before + vd);
                    self.next = i + 1;
                    assert forall|f: Seq<Option<Seq<char>>>|
                        #[trigger] scan_messages(cv, Seq::empty(), self.answers@ + f, 0)
                            == string_views(self.found@) + scan_messages(cv, cache, f, self.next as int) by {
                        assert(scan_messages(cv, cache, f, i as int) == vd + scan_messages(cv, cache, f, i + 1));
                        assert(before + (vd + scan_messages(cv, cache, f, i + 1)) =~= (before + vd) + scan_messages(
                            cv,
                            cache,
                            f,
                            i + 1,
                        ));
                    }
                },
                None => {
                    self.asking = true;
                    return ScanAction::Ask {
                        dep: self.checks[i].dep.clone(),
                        dsh_range: self.checks[i].dsh_range.clone(),
                    };
                },
            }
        }
        ScanAction::Done
    }

    /// Starts the scan over the plugin manifests (in directory order) with
    /// the dependency map of the candidate dsh.
    pub fn start(manifests: &Vec<String>, dsh_deps: &Vec<(String, String)>) -> (r: (CompatScan, ScanAction))
        ensures
            r.0.wf(),
            check_views(r.0.checks@) == all_checks(string_views(manifests@), pair_views(dsh_deps@)),
            r.0.answers@ == Seq::<Option<Seq<char>>>::empty(),
            r.0.profile@ == (string_views(manifests@), pair_views(dsh_deps@)),
            match r.1 {
                ScanAction::Ask { dep, dsh_range } => r.0.asking
                    && dep@ == check_views(r.0.checks@)[r.0.next as int].dep
                    && dsh_range@ == check_views(r.0.checks@)[r.0.next as int].dsh_range,
                ScanAction::Done => !r.0.asking && string_views(r.0.found@) == profile_incompatibilities(
                    string_views(manifests@),
                    pair_views(dsh_deps@),
                    Seq::empty(),
                ),
            },
    {
        let checks = profile_checks(manifests, dsh_deps);
        let mut scan = CompatScan {
            checks,
            next: 0,
            provided: ResolvedVersions::new(),
            found: Vec::new(),
            asking: false,
            answers: Ghost(Seq::empty()),
            profile: Ghost((string_views(manifests@), pair_views(dsh_deps@))),
        };
        assert(pair_views(scan.provided.entries@) =~= Seq::<(Seq<char>, Seq<char>)>::empty());
        assert(string_views(scan.found@) =~= Seq::<Seq<char>>::empty());
        assert forall|f: Seq<Option<Seq<char>>>|
            #[trigger] scan_messages(check_views(scan.checks@), Seq::empty(), scan.answers@ + f, 0)
                == string_views(scan.found@) + scan_messages(
                check_views(scan.checks@),
                pair_views(scan.provided.entries@),
                f,
                scan.next as int,
            ) by {
            assert(scan.answers@ + f =~= f);
            assert(string_views(scan.found@) + scan_messages(check_views(scan.checks@), Seq::empty(), f, 0)
                =~= scan_messages(check_views(scan.checks@), Seq::empty(), f, 0));
        }
        let a = scan.advance();
        proof { scan.lemma_done(); }
        (scan, a)
    }

    /// When no check is left, `found` is the whole list for the answers given.
    proof fn lemma_done(&self)
        requires
            self.wf(),
        ensures
            self.next == self.checks@.len() ==> string_views(self.found@) == scan_messages(
                check_views(self.checks@),
                Seq::empty(),
                self.answers@,
                0,
            ),
    {
        let cv = check_views(self.checks@);
        assert(self.answers@ + Seq::<Option<Seq<char>>>::empty() =~= self.answers@);
        let e = Seq::<Option<Seq<char>>>::empty();
        assert(scan_messages(cv, Seq::empty(), self.answers@ + e, 0) == string_views(self.found@)
            + scan_messages(cv, pair_views(self.provided.entries@), e, self.next as int));
        if self.next == self.checks@.len() {
            assert(string_views(self.found@) + Seq::<Seq<char>>::empty() =~= string_views(self.found@));
        }
    }

    /// Takes the registry's answer about the check under way (`None` where
    /// the lookup failed) and goes on.
    pub fn answer(&mut self, resolved: Option<String>) -> (a: ScanAction)
        requires
            old(self).wf(),
            old(self).asking,
        ensures
            final(self).wf(),
            final(self).checks@ == old(self).checks@,
            final(self).answers@ == old(self).answers@.push(answer_view(resolved)),
            final(self).profile@ == old(self).profile@,
            match a {
                ScanAction::Ask { dep, dsh_range } => final(self).asking
                    && dep@ == check_views(final(self).checks@)[final(self).next as int].dep
                    && dsh_range@ == check_views(final(self).checks@)[final(self).next as int].dsh_range,
                ScanAction::Done => !final(self).asking && string_views(final(self).found@)
                    == profile_incompatibilities(
                    final(self).profile@.0,
                    final(self).profile@.1,
                    final(self).answers@,
                ),
            },
    {
        let i = self.next;
        let n = self.checks.len();
        assert(i < n);
        let ghost cv = check_views(self.checks@);
        let ghost cache = pair_views(self.provided.entries@);
        let ghost before = string_views(self.found@);
        let ghost old_answers = self.answers@;
        let ghost av = answer_view(resolved);
        assert(cv[i as int] == self.checks@[i as int]@);
        let ghost c = cv[i as int];
        match resolved {
            Some(v) => {
                let msg = peer_incompatibility(&self.checks[i], v.as_str());
                match msg {
                    Some(m) => {
                        self.found.push(m);
                    },
                    None => {},
                }
                assert(string_views(self.found@) =~= before + verdict(c, v@));
                let dep = self.checks[i].dep.clone();
                self.provided.record(dep, v);
            },
            None => {},
        }
        assert(self.checks@.len() == n);
        self.next = i + 1;
        self.asking = false;
        self.answers = Ghost(old_answers.push(av));
        let ghost new_cache = pair_views(self.provided.entries@);
        assert forall|f: Seq<Option<Seq<char>>>|
            #[trigger] scan_messages(cv, Seq::empty(), self.answers@ + f, 0)
                == string_views(self.found@) + scan_messages(cv, new_cache, f, self.next as int) by {
            let g = seq![av] + f;
            assert(old_answers + g =~= self.answers@ + f);
            assert(g[0] == av);
            assert(g.drop_first() =~= f);
            assert(scan_messages(cv, Seq::empty(), old_answers + g, 0) == before + scan_messages(cv, cache, g, i as int));
            match av {
                Some(v) => {
                    assert(new_cache == seq![(c.dep, v)] + cache);
                    assert(scan_messages(cv, cache, g, i as int) == verdict(c, v) + scan_messages(cv, new_cache, f, i + 1));
                    assert(before + (verdict(c, v) + scan_messages(cv, new_cache, f, i + 1)) =~= (before + verdict(c, v))
                        + scan_messages(cv, new_cache, f, i + 1));
                },
                None => {
                    assert(new_cache == cache);
                    assert(string_views(self.found@) == before);
                    assert(scan_messages(cv, cache, g, i as int) == scan_messages(cv, cache, f, i + 1));
                },
            }
        }
        let a = self.advance();
        proof { self.lemma_done(); }
        a
    }
}

// ---------------------------------------------------------------------------
// Choosing the version to run
// ---------------------------------------------------------------------------

/// What the startup does about the dsh version, before plugin checks.
pub enum VersionPlan {
    /// The registry could not be reached: stay on the recorded version.
    StayOffline,
    /// First run: install the channel's target.
    Install(String),
    /// The channel's target differs from the recorded version: upgrade if
    /// the profile plugins stay compatible.
    CheckUpgrade { current: String, wanted: String },
    /// Already on the channel's target.
    Stay,
}

/// Why no version can be run.
#[derive(Clone, Copy, Debug, PartialEq, Eq, Structural)]
pub enum VersionError {
    /// The registry could not be reached and no version was ever recorded
    /// (the first run needs the network).
    OfflineFirstRun,
    /// The version is below `MIN_DSH_VERSION`.
    BelowMinimum,
}

/// The plan, viewed.
pub enum PlanView {
    StayOffline,
    Install(Seq<char>),
    CheckUpgrade(Seq<char>, Seq<char>),
    Stay,
}

impl VersionPlan {
    pub open spec fn view_plan(&self) -> PlanView {
        match self {
            VersionPlan::StayOffline => PlanView::StayOffline,
            VersionPlan::Install(w) => PlanView::Install(w@),
            VersionPlan::CheckUpgrade { current, wanted } => PlanView::CheckUpgrade(current@, wanted@),
            VersionPlan::Stay => PlanView::Stay,
        }
    }
}

/// The target of `channel` in a registry snapshot.
pub open spec fn channel_target(remote: (Seq<char>, Seq<char>), channel: Channel) -> Seq<char> {
    match channel {
        Channel::Latest => remote.0,
        Channel::Preview => remote.1,
    }
}

/// The plan for the confirmed channel, given the recorded version and the
/// registry snapshot (`None`: the registry could not be reached).
pub open spec fn version_plan(
    current: Option<Seq<char>>,
    remote: Option<(Seq<char>, Seq<char>)>,
    channel: Channel,
) -> Result<PlanView, VersionError> {
    match remote {
        None => match current {
            None => Err(VersionError::OfflineFirstRun),
            Some(_) => Ok(PlanView::StayOffline),
        },
        Some(r) => {
            let wanted = channel_target(r, channel);
            match current {
                None => Ok(PlanView::Install(wanted)),
                Some(cur) => if cur != wanted {
                    Ok(PlanView::CheckUpgrade(cur, wanted))
                } else {
                    Ok(PlanView::Stay)
                },
            }
        },
    }
}

/// Optional string, viewed.
pub open spec fn opt_string_view(s: Option<String>) -> Option<Seq<char>> {
    match s {
        Some(v) => Some(v@),
        None => None,
    }
}

/// Decides what to do about the dsh version for the confirmed channel.
pub fn plan_version(
    current: Option<String>,
    remote: Option<RemoteVersions>,
    channel: Channel,
) -> (r: Result<VersionPlan, VersionError>)
    ensures
        match r {
            Ok(p) => version_plan(opt_string_view(current), remote_view(remote), channel) == Ok::<PlanView, VersionError>(p.view_plan()),
            Err(e) => version_plan(opt_string_view(current), remote_view(remote), channel) == Err::<PlanView, VersionError>(e),
        },
{
    let r = match remote {
        Some(r) => r,
        None => {
            return match current {
                None => Err(VersionError::OfflineFirstRun),
                Some(_) => Ok(VersionPlan::StayOffline),
            };
        },
    };
    let wanted = match channel {
        Channel::Latest => r.latest,
        Channel::Preview => r.preview,
    };
    match current {
        None => Ok(VersionPlan::Install(wanted)),
        Some(cur) => {
            if !text::str_eq(cur.as_str(), wanted.as_str()) {
                Ok(VersionPlan::CheckUpgrade { current: cur, wanted })
            } else {
                Ok(VersionPlan::Stay)
            }
        },
    }
}

/// The outcome of the plugin-compatibility gate for an upgrade to `wanted`:
/// upgrade only when the candidate's dependencies are known and no plugin
/// is incompatible; else stay on the current version.
pub fn upgrade_target(wanted: String, deps_known: bool, incompatibilities: &Vec<String>) -> (r: Option<String>)
    ensures
        match r {
            Some(v) => v@ == wanted@ && deps_known && incompatibilities@.len() == 0,
            None => !deps_known || incompatibilities@.len() > 0,
        },
{
    if deps_known && incompatibilities.len() == 0 {
        Some(wanted)
    } else {
        None
    }
}

/// The version the session runs: the decided target, else the recorded
/// version, else the empty text.
pub open spec fn session_version(target: Option<Seq<char>>, current: Option<Seq<char>>) -> Seq<char> {
    match target {
        Some(t) => t,
        None => match current {
            Some(c) => c,
            None => Seq::empty(),
        },
    }
}

/// Picks the version for the session and applies the compatibility floor:
/// `Err(BelowMinimum)` exactly where that version is below
/// `MIN_DSH_VERSION`.
pub fn select_version(target: Option<String>, current: Option<String>) -> (r: Result<String, VersionError>)
    ensures
        match r {
            Ok(v) => v@ == session_version(opt_string_view(target), opt_string_view(current))
                && version::version_order(v@, MIN_DSH_VERSION@) != version::Order::Less,
            Err(e) => e == VersionError::BelowMinimum
                && version::version_order(
                    session_version(opt_string_view(target), opt_string_view(current)),
                    MIN_DSH_VERSION@,
                ) == version::Order::Less,
        },
{
    let v = match target {
        Some(t) => t,
        None => match current {
            Some(c) => c,
            None => {
                let e = "".to_owned();
                proof { reveal_strlit(""); }
                e
            },
        },
    };
    if version::version_at_least(v.as_str(), MIN_DSH_VERSION) {
        Ok(v)
    } else {
        Err(VersionError::BelowMinimum)
    }
}

/// A version that the plan installs or upgrades to is always the confirmed
/// channel's target, and the plan never moves away from the recorded
/// version while the registry is unreachable.
pub proof fn law_plan_follows_channel(
    current: Option<Seq<char>>,
    remote: Option<(Seq<char>, Seq<char>)>,
    channel: Channel,
)
    ensures
        match version_plan(current, remote, channel) {
            Ok(PlanView::Install(w)) => remote is Some && w == channel_target(remote.unwrap(), channel) && current is None,
            Ok(PlanView::CheckUpgrade(c, w)) => remote is Some && w == channel_target(remote.unwrap(), channel)
                && current == Some(c) && c != w,
            Ok(PlanView::StayOffline) => remote is None && current is Some,
            Ok(PlanView::Stay) => remote is Some && current == Some(channel_target(remote.unwrap(), channel)),
            Err(_) => remote is None && current is None,
        },
{
}

// ---------------------------------------------------------------------------
// Running dsh through npx
// ---------------------------------------------------------------------------

/// A process to start: program, arguments and environment additions.
pub struct CommandSpec {
    pub program: String,
    pub args: Vec<String>,
    pub env: Vec<(String, String)>,
}

/// A `CommandSpec`, viewed.
pub struct CommandView {
    pub program: Seq<char>,
    pub args: Seq<Seq<char>>,
    pub env: Seq<(Seq<char>, Seq<char>)>,
}

impl View for CommandSpec {
    type V = CommandView;

    open spec fn view(&self) -> CommandView {
        CommandView { program: self.program@, args: string_views(self.args@), env: pair_views(self.env@) }
    }
}

/// Why the dsh runtime cannot be located.
#[derive(Clone, Copy, Debug, PartialEq, Eq, Structural)]
pub enum InstallError {
    /// No Node.js runtime on `PATH`.
    NoNode,
    /// `npx-cli.js` is not next to the node binary.
    NpxCliMissing,
}

/// How dsh is run: the node binary, npm's `npx-cli.js` next to it, and a
/// dedicated npx cache (keeps the dsh install isolated and cleanable).
#[derive(Clone, Debug)]
pub struct DshInstall {
    pub node: String,
    pub npx_cli: String,
    pub npx_cache: String,
}

/// `<node dir>\node_modules\npm\bin\npx-cli.js`.
pub open spec fn npx_cli_of(node_dir: Seq<char>, windows: bool) -> Seq<char> {
    config::join(windows, config::join(windows, config::join(windows, config::join(windows, node_dir, "node_modules"@), "npm"@), "bin"@), "npx-cli.js"@)
}

/// Where `npx-cli.js` is expected for a node binary in `node_dir`.
pub fn npx_cli_path(node_dir: &str, windows: bool) -> (r: String)
    ensures
        r@ == npx_cli_of(node_dir@, windows),
{
    proof {
        reveal_strlit("node_modules");
        reveal_strlit("npm");
        reveal_strlit("bin");
        reveal_strlit("npx-cli.js");
    }
    let a = config::join_path(windows, node_dir, "node_modules");
    let b = config::join_path(windows, a.as_str(), "npm");
    let c = config::join_path(windows, b.as_str(), "bin");
    config::join_path(windows, c.as_str(), "npx-cli.js")
}

/// Where `npm-cli.js` is expected for a node binary in `node_dir`
/// (`<node dir>\node_modules\npm\bin\npm-cli.js`).
pub fn npm_cli_path(node_dir: &str, windows: bool) -> (r: String)
    ensures
        r@ == config::join(windows, 
            config::join(windows, config::join(windows, config::join(windows, node_dir@, "node_modules"@), "npm"@), "bin"@),
            "npm-cli.js"@,
        ),
{
    proof {
        reveal_strlit("node_modules");
        reveal_strlit("npm");
        reveal_strlit("bin");
        reveal_strlit("npm-cli.js");
    }
    let a = config::join_path(windows, node_dir, "node_modules");
    let b = config::join_path(windows, a.as_str(), "npm");
    let c = config::join_path(windows, b.as_str(), "bin");
    config::join_path(windows, c.as_str(), "npm-cli.js")
}

/// The arguments of `npm view` after the CLI script: JSON output, quiet,
/// then the query.
pub fn npm_view_args(npm_cli: &str, query: &Vec<String>) -> (r: Vec<String>)
    ensures
        string_views(r@) == seq![
            npm_cli@,
            "view"@,
            "--json"@,
            "--no-audit"@,
            "--no-fund"@,
            "--loglevel"@,
            "error"@,
        ] + string_views(query@),
{
    let mut r: Vec<String> = Vec::new();
    push_str_arg(&mut r, npm_cli);
    push_str_arg(&mut r, "view");
    push_str_arg(&mut r, "--json");
    push_str_arg(&mut r, "--no-audit");
    push_str_arg(&mut r, "--no-fund");
    push_str_arg(&mut r, "--loglevel");
    push_str_arg(&mut r, "error");
    let ghost head = string_views(r@);
    let n = query.len();
    let mut i: usize = 0;
    while i < n
        invariant
            n == query@.len(),
            i <= n,
            string_views(r@) == head + string_views(query@).take(i as int),
        decreases n - i,
    {
        push_str_arg(&mut r, query[i].as_str());
        i = i + 1;
        assert(string_views(query@).take(i as int) =~= string_views(query@).take(i - 1).push(query@[i - 1]@));
        assert(string_views(r@) =~= head + string_views(query@).take(i as int));
    }
    assert(string_views(query@).take(n as int) =~= string_views(query@));
    assert(head =~= seq![
        npm_cli@,
        "view"@,
        "--json"@,
        "--no-audit"@,
        "--no-fund"@,
        "--loglevel"@,
        "error"@,
    ]);
    r
}

/// The npm package spec `@deepseek-ai/dsh@<version>`.
pub open spec fn package_spec(version: Seq<char>) -> Seq<char> {
    "@deepseek-ai/dsh@"@ + version
}

fn package_spec_of(version: &str) -> (r: String)
    ensures
        r@ == package_spec(version@),
{
    let mut r = "@deepseek-ai/dsh@".to_owned();
    r.append(version);
    r
}

/// `parts` joined with `sep` between them.
pub open spec fn join_with(parts: Seq<Seq<char>>, sep: Seq<char>) -> Seq<char>
    decreases parts.len(),
{
    if parts.len() == 0 {
        Seq::empty()
    } else if parts.len() == 1 {
        parts[0]
    } else {
        join_with(parts.drop_last(), sep) + sep + parts.last()
    }
}

/// Joins strings with a separator.
pub fn join_strings(parts: &Vec<String>, sep: &str) -> (r: String)
    ensures
        r@ == join_with(string_views(parts@), sep@),
{
    let mut r = "".to_owned();
    proof { reveal_strlit(""); }
    let n = parts.len();
    let mut i: usize = 0;
    while i < n
        invariant
            n == parts@.len(),
            i <= n,
            r@ == join_with(string_views(parts@).take(i as int), sep@),
        decreases n - i,
    {
        assert(string_views(parts@).take(i + 1).drop_last() =~= string_views(parts@).take(i as int));
        assert(string_views(parts@).take(i + 1).last() == parts@[i as int]@);
        if i > 0 {
            r.append(sep);
        } else {
            assert(string_views(parts@).take(1) =~= seq![parts@[0]@]);
            assert(r@ + parts@[0]@ =~= parts@[0]@);
        }
        r.append(parts[i].as_str());
        i = i + 1;
    }
    assert(string_views(parts@).take(n as int) =~= string_views(parts@));
    r
}

/// The `PATH` separator (`;` on Windows, `:` elsewhere).
pub open spec fn path_list_separator(windows: bool) -> Seq<char> {
    if windows { ";"@ } else { ":"@ }
}

fn path_separator(windows: bool) -> (r: &'static str)
    ensures
        r@ == path_list_separator(windows),
{
    if windows { ";" } else { ":" }
}

/// The arguments of the `dsh web` command line.
pub open spec fn web_args(
    npx_cli: Seq<char>,
    npx_cache: Seq<char>,
    version: Seq<char>,
    patch: Option<Seq<char>>,
    port: Seq<char>,
    extra: Seq<Seq<char>>,
) -> Seq<Seq<char>> {
    seq![npx_cli, "--cache"@, npx_cache, "-y"@, package_spec(version), "web"@]
        + (match patch {
        Some(p) => seq!["--patch"@, p],
        None => Seq::empty(),
    }) + seq!["--port"@, port] + extra
}

/// The environment additions of the `dsh web` process: the shutdown token,
/// `DSH_HOME` where configured, and `PATH` with the extra directories in
/// front where there are any.
pub open spec fn web_env(
    token: Seq<char>,
    home: Option<Seq<char>>,
    extra_path: Seq<Seq<char>>,
    current_path: Seq<char>,
    windows: bool,
) -> Seq<(Seq<char>, Seq<char>)> {
    seq![("DSH_DESKTOP_SHUTDOWN_TOKEN"@, token)] + (match home {
        Some(h) => seq![("DSH_HOME"@, h)],
        None => Seq::empty(),
    }) + (if extra_path.len() > 0 {
        seq![(
            "PATH"@,
            join_with(extra_path, path_list_separator(windows)) + path_list_separator(windows) + current_path,
        )]
    } else {
        Seq::empty()
    })
}

fn push_str_arg(v: &mut Vec<String>, s: &str)
    ensures
        string_views(final(v)@) == string_views(old(v)@).push(s@),
{
    let ghost before = v@;
    v.push(s.to_owned());
    assert(string_views(v@) =~= string_views(before).push(s@));
}

impl DshInstall {
    /// Locates the runtime: `node_dir` is the `PATH` directory that holds
    /// the node binary `node_exe` (`None`: none does), `npx_cli_found`
    /// whether `npx_cli_path(node_dir)` is a file.
    pub fn resolve(
        node_dir: Option<&str>,
        node_exe: &str,
        npx_cli_found: bool,
        appdata: &str,
        windows: bool,
    ) -> (r: Result<
        DshInstall,
        InstallError,
    >)
        requires
            config::relative_part(windows, node_exe@),
        ensures
            match r {
                Ok(i) => node_dir is Some && npx_cli_found && i.node@ == config::join(windows, node_dir.unwrap()@, node_exe@)
                    && i.npx_cli@ == npx_cli_of(node_dir.unwrap()@, windows)
                    && i.npx_cache@ == config::join(windows, config::join(windows, appdata@, "DshDesktop"@), "npx-cache"@),
                Err(e) => (e == InstallError::NoNode && node_dir is None)
                    || (e == InstallError::NpxCliMissing && node_dir is Some && !npx_cli_found),
            },
    {
        proof {
            reveal_strlit("npx-cache");
        }
        let dir = match node_dir {
            Some(d) => d,
            None => {
                return Err(InstallError::NoNode);
            },
        };
        let node = config::join_path(windows, dir, node_exe);
        let npx_cli = npx_cli_path(dir, windows);
        if !npx_cli_found {
            return Err(InstallError::NpxCliMissing);
        }
        let npx_cache = config::data_subdir(appdata, "npx-cache", windows);
        Ok(DshInstall { node, npx_cli, npx_cache })
    }

    /// The `dsh web` command:
    /// `node <npx-cli> --cache <cache> -y @deepseek-ai/dsh@<version> web [--patch <patch>] --port <port> <extra args>`,
    /// with the shutdown token, `DSH_HOME` and `PATH` in its environment.
    pub fn command(
        &self,
        version: &str,
        port: u16,
        token: &str,
        config: &Config,
        patch: Option<&str>,
        current_path: &str,
        windows: bool,
    ) -> (r: CommandSpec)
        ensures
            r@.program == self.node@,
            r@.args == web_args(
                self.npx_cli@,
                self.npx_cache@,
                version@,
                opt_view(patch),
                text::decimal(port as nat),
                string_views(config.extra_dsh_args@),
            ),
            r@.env == web_env(
                token@,
                opt_string_view(config.dsh_home),
                string_views(config.extra_path@),
                current_path@,
                windows,
            ),
    {
        let mut args: Vec<String> = Vec::new();
        push_str_arg(&mut args, self.npx_cli.as_str());
        push_str_arg(&mut args, "--cache");
        push_str_arg(&mut args, self.npx_cache.as_str());
        push_str_arg(&mut args, "-y");
        let spec = package_spec_of(version);
        push_str_arg(&mut args, spec.as_str());
        push_str_arg(&mut args, "web");
        let ghost a1 = string_views(args@);
        match patch {
            Some(p) => {
                push_str_arg(&mut args, "--patch");
                push_str_arg(&mut args, p);
            },
            None => {},
        }
        let ghost a2 = string_views(args@);
        let port_text = text::decimal_string(port as u64);
        push_str_arg(&mut args, "--port");
        push_str_arg(&mut args, port_text.as_str());
        let ghost a3 = string_views(args@);
        let n = config.extra_dsh_args.len();
        let mut i: usize = 0;
        while i < n
            invariant
                n == config.extra_dsh_args@.len(),
                i <= n,
                string_views(args@) == a3 + string_views(config.extra_dsh_args@).take(i as int),
            decreases n - i,
        {
            push_str_arg(&mut args, config.extra_dsh_args[i].as_str());
            i = i + 1;
            assert(string_views(config.extra_dsh_args@).take(i as int) =~= string_views(
                config.extra_dsh_args@,
            ).take(i - 1).push(config.extra_dsh_args@[i - 1]@));
            assert(string_views(args@) =~= a3 + string_views(config.extra_dsh_args@).take(i as int));
        }
        assert(string_views(config.extra_dsh_args@).take(n as int) =~= string_views(config.extra_dsh_args@));
        assert(string_views(args@) =~= web_args(
            self.npx_cli@,
            self.npx_cache@,
            version@,
            opt_view(patch),
            text::decimal(port as nat),
            string_views(config.extra_dsh_args@),
        ));
        let mut env: Vec<(String, String)> = Vec::new();
        env.push(("DSH_DESKTOP_SHUTDOWN_TOKEN".to_owned(), token.to_owned()));
        let ghost e1 = pair_views(env@);
        match &config.dsh_home {
            Some(h) => {
                env.push(("DSH_HOME".to_owned(), h.clone()));
            },
            None => {},
        }
        let ghost e2 = pair_views(env@);
        if config.extra_path.len() > 0 {
            let sep = path_separator(windows);
            let mut value = join_strings(&config.extra_path, sep);
            value.append(sep);
            value.append(current_path);
            env.push(("PATH".to_owned(), value));
        }
        assert(pair_views(env@) =~= web_env(
            token@,
            opt_string_view(config.dsh_home),
            string_views(config.extra_path@),
            current_path@,
            windows,
        ));
        CommandSpec { program: self.node.clone(), args, env }
    }

    /// The install probe:
    /// `node <npx-cli> --cache <cache> --prefer-offline -y @deepseek-ai/dsh@<version> --version`,
    /// with `npm_config_loglevel=info` so that a long download shows
    /// activity. It installs the version into the npx cache and exits.
    pub fn probe_command(&self, version: &str) -> (r: CommandSpec)
        ensures
            r@.program == self.node@,
            r@.args == seq![
                self.npx_cli@,
                "--cache"@,
                self.npx_cache@,
                "--prefer-offline"@,
                "-y"@,
                package_spec(version@),
                "--version"@,
            ],
            r@.env == seq![("npm_config_loglevel"@, "info"@)],
    {
        let mut args: Vec<String> = Vec::new();
        push_str_arg(&mut args, self.npx_cli.as_str());
        push_str_arg(&mut args, "--cache");
        push_str_arg(&mut args, self.npx_cache.as_str());
        push_str_arg(&mut args, "--prefer-offline");
        push_str_arg(&mut args, "-y");
        let spec = package_spec_of(version);
        push_str_arg(&mut args, spec.as_str());
        push_str_arg(&mut args, "--version");
        let mut env: Vec<(String, String)> = Vec::new();
        env.push(("npm_config_loglevel".to_owned(), "info".to_owned()));
        assert(string_views(args@) =~= seq![
            self.npx_cli@,
            "--cache"@,
            self.npx_cache@,
            "--prefer-offline"@,
            "-y"@,
            package_spec(version@),
            "--version"@,
        ]);
        assert(pair_views(env@) =~= seq![("npm_config_loglevel"@, "info"@)]);
        CommandSpec { program: self.node.clone(), args, env }
    }
}

// ---------------------------------------------------------------------------
// Shutdown token
// ---------------------------------------------------------------------------

/// A lowercase hexadecimal digit.
pub open spec fn is_lower_hex(c: char) -> bool {
    ('0' <= c && c <= '9') || ('a' <= c && c <= 'f')
}

/// The shape of a random version-4 UUID in its simple form: 32 lowercase
/// hexadecimal digits, with the version digit `4` at index 12 and the
/// variant digit (`8`, `9`, `a` or `b`) at index 16.
pub open spec fn is_simple_uuid_v4(t: Seq<char>) -> bool {
    &&& t.len() == 32
    &&& forall|i: int| 0 <= i < 32 ==> is_lower_hex(#[trigger] t[i])
    &&& t[12] == '4'
    &&& (t[16] == '8' || t[16] == '9' || t[16] == 'a' || t[16] == 'b')
}

/// `uuid::Uuid::new_v4().simple().to_string()`. Trusted: the text is 32
/// lowercase hexadecimal digits (uuid formats the simple form with lowercase
/// nibbles) with the version and variant bits of version 4 set; which
/// random value it holds is not stated.
#[verifier::external_body]
fn uuid_v4_simple() -> (r: String)
    ensures
        is_simple_uuid_v4(r@),
{
    uuid::Uuid::new_v4().simple().to_string()
}

/// Fresh per-boot secret the shell passes to `/api/admin/shutdown`.
pub fn fresh_token() -> (r: String)
    ensures
        is_simple_uuid_v4(r@),
{
    uuid_v4_simple()
}

} // verus!
