//! Version ordering and npm-style range matching for the dsh runtime
//! ("semver-lite": a numeric dotted core, then an optional prerelease after
//! the first `-`).
//!
//! Every function here is specified over the characters of its arguments:
//! `parse_version` says how a version string is read, `compare_parsed` how
//! two read versions are ordered, and `range_eval` which versions a range
//! admits.

use vstd::prelude::*;
use crate::text;

verus! {

/// The outcome of comparing two versions.
#[derive(Clone, Copy, Debug, PartialEq, Eq, Structural)]
pub enum Order {
    Less,
    Equal,
    Greater,
}

/// The same comparison seen from the other side.
pub open spec fn flip(o: Order) -> Order {
    match o {
        Order::Less => Order::Greater,
        Order::Equal => Order::Equal,
        Order::Greater => Order::Less,
    }
}

/// Orders two integers.
pub open spec fn order_of(x: int, y: int) -> Order {
    if x < y {
        Order::Less
    } else if x > y {
        Order::Greater
    } else {
        Order::Equal
    }
}

/// A version as it is read: the numbers of the dotted core (a field that is
/// not a `u64` counts as 0) and the dot-separated identifiers of the
/// prerelease, if the text holds a `-`.
pub struct SpecVersion {
    pub core: Seq<u64>,
    pub pre: Option<Seq<Seq<char>>>,
}

/// How a version string is read: everything before the first `-` is the
/// core, split at `.`; everything after it is the prerelease, split at `.`.
pub open spec fn parse_version(s: Seq<char>) -> SpecVersion {
    let k = text::find_from(s, '-', 0);
    let core = s.take(k);
    SpecVersion {
        core: text::split_fields(core, '.').map_values(|f: Seq<char>| text::parse_u64_or_zero(f)),
        pre: if k < s.len() {
            Some(text::split_fields(s.skip(k + 1), '.'))
        } else {
            None
        },
    }
}

/// Element `i` of a core, 0 past its end.
pub open spec fn num_at(a: Seq<u64>, i: int) -> u64 {
    if 0 <= i < a.len() {
        a[i]
    } else {
        0
    }
}

/// The longer of two lengths.
pub open spec fn longer(x: nat, y: nat) -> nat {
    if x >= y {
        x
    } else {
        y
    }
}

/// Orders two cores from position `i` on, as if the shorter one were
/// padded with zeros.
pub open spec fn compare_numeric_from(a: Seq<u64>, b: Seq<u64>, i: int) -> Order
    decreases longer(a.len(), b.len()) - i,
{
    if i >= longer(a.len(), b.len()) {
        Order::Equal
    } else if num_at(a, i) < num_at(b, i) {
        Order::Less
    } else if num_at(a, i) > num_at(b, i) {
        Order::Greater
    } else {
        compare_numeric_from(a, b, i + 1)
    }
}

/// Orders `x` and `y` character by character from position `i` on (code
/// point order, which is the byte order of their UTF-8 encodings); a proper
/// prefix comes first.
pub open spec fn lex_from(x: Seq<char>, y: Seq<char>, i: int) -> Order
    decreases x.len() - i,
{
    if i >= x.len() {
        if i >= y.len() {
            Order::Equal
        } else {
            Order::Less
        }
    } else if i >= y.len() {
        Order::Greater
    } else if x[i] < y[i] {
        Order::Less
    } else if x[i] > y[i] {
        Order::Greater
    } else {
        lex_from(x, y, i + 1)
    }
}

/// Orders two prerelease identifiers: `None` when they are the same text
/// (the comparison goes on with the next pair). An empty identifier comes
/// first; a numeric one comes before a non-numeric one; two numeric ones
/// are ordered by value, two others by their text.
pub open spec fn compare_idents(x: Seq<char>, y: Seq<char>) -> Option<Order> {
    if x == y {
        None
    } else if x.len() == 0 {
        Some(Order::Less)
    } else if y.len() == 0 {
        Some(Order::Greater)
    } else {
        match (text::parse_u64(x), text::parse_u64(y)) {
            (Some(p), Some(q)) => Some(order_of(p as int, q as int)),
            (Some(_), None) => Some(Order::Less),
            (None, Some(_)) => Some(Order::Greater),
            (None, None) => Some(lex_from(x, y, 0)),
        }
    }
}

/// Identifier `i` of a prerelease, the empty text past its end.
pub open spec fn field_at(a: Seq<Seq<char>>, i: int) -> Seq<char> {
    if 0 <= i < a.len() {
        a[i]
    } else {
        Seq::empty()
    }
}

/// Orders two prereleases from identifier `i` on.
pub open spec fn compare_prerelease_from(a: Seq<Seq<char>>, b: Seq<Seq<char>>, i: int) -> Order
    decreases longer(a.len(), b.len()) - i,
{
    if i >= longer(a.len(), b.len()) {
        Order::Equal
    } else {
        match compare_idents(field_at(a, i), field_at(b, i)) {
            None => compare_prerelease_from(a, b, i + 1),
            Some(o) => o,
        }
    }
}

/// Orders two read versions: by core, then a version without prerelease
/// comes after one with a prerelease, then by prerelease.
pub open spec fn compare_parsed(a: SpecVersion, b: SpecVersion) -> Order {
    let c = compare_numeric_from(a.core, b.core, 0);
    if c != Order::Equal {
        c
    } else {
        match (a.pre, b.pre) {
            (None, None) => Order::Equal,
            (None, Some(_)) => Order::Greater,
            (Some(_), None) => Order::Less,
            (Some(x), Some(y)) => compare_prerelease_from(x, y, 0),
        }
    }
}

/// The order of two version strings.
pub open spec fn version_order(a: Seq<char>, b: Seq<char>) -> Order {
    compare_parsed(parse_version(a), parse_version(b))
}

/// A version string, read.
pub struct ParsedVersion {
    pub core: Vec<u64>,
    pub pre: Option<Vec<Vec<char>>>,
}

impl View for ParsedVersion {
    type V = SpecVersion;

    open spec fn view(&self) -> SpecVersion {
        SpecVersion {
            core: self.core@,
            pre: match self.pre {
                Some(p) => Some(text::views(p@)),
                None => None,
            },
        }
    }
}

/// Reads the numbers of a dotted core.
fn core_numbers(fields: &Vec<Vec<char>>) -> (r: Vec<u64>)
    ensures
        r@ == text::views(fields@).map_values(|f: Seq<char>| text::parse_u64_or_zero(f)),
{
    let mut r: Vec<u64> = Vec::new();
    let n = fields.len();
    let mut i: usize = 0;
    while i < n
        invariant
            n == fields@.len(),
            i <= n,
            r@ == text::views(fields@).map_values(|f: Seq<char>| text::parse_u64_or_zero(f)).take(i as int),
        decreases n - i,
    {
        let v = match text::parse_u64_chars(&fields[i]) {
            Some(x) => x,
            None => 0,
        };
        r.push(v);
        i = i + 1;
        assert(r@ =~= text::views(fields@).map_values(|f: Seq<char>| text::parse_u64_or_zero(f)).take(i as int));
    }
    assert(r@ =~= text::views(fields@).map_values(|f: Seq<char>| text::parse_u64_or_zero(f)));
    r
}

/// Reads a version string given as characters.
pub fn parse_version_chars(s: &Vec<char>) -> (r: ParsedVersion)
    ensures
        r@ == parse_version(s@),
{
    let k = text::find_char(s, '-');
    let core = text::slice_chars(s, 0, k);
    assert(core@ =~= s@.take(k as int));
    let fields = text::split_chars(&core, '.');
    let nums = core_numbers(&fields);
    let pre = if k < s.len() {
        let rest = text::slice_chars(s, k + 1, s.len());
        assert(rest@ =~= s@.skip(k + 1));
        Some(text::split_chars(&rest, '.'))
    } else {
        None
    };
    ParsedVersion { core: nums, pre }
}

/// Reads a version string.
pub fn parse_version_str(s: &str) -> (r: ParsedVersion)
    ensures
        r@ == parse_version(s@),
{
    let cs = text::chars_of(s);
    parse_version_chars(&cs)
}

fn longer_len(x: usize, y: usize) -> (r: usize)
    ensures
        r == longer(x as nat, y as nat),
{
    if x >= y {
        x
    } else {
        y
    }
}

/// Orders two cores, padding the shorter with zeros.
pub fn compare_numeric(a: &Vec<u64>, b: &Vec<u64>) -> (r: Order)
    ensures
        r == compare_numeric_from(a@, b@, 0),
{
    let m = longer_len(a.len(), b.len());
    let mut i: usize = 0;
    while i < m
        invariant
            m == longer(a@.len(), b@.len()),
            i <= m,
            compare_numeric_from(a@, b@, 0) == compare_numeric_from(a@, b@, i as int),
        decreases m - i,
    {
        let x = if i < a.len() { a[i] } else { 0 };
        let y = if i < b.len() { b[i] } else { 0 };
        assert(x == num_at(a@, i as int) && y == num_at(b@, i as int));
        if x < y {
            return Order::Less;
        }
        if x > y {
            return Order::Greater;
        }
        i = i + 1;
    }
    Order::Equal
}

/// Orders two texts character by character.
pub fn lex_compare(x: &Vec<char>, y: &Vec<char>) -> (r: Order)
    ensures
        r == lex_from(x@, y@, 0),
{
    let mut i: usize = 0;
    while i < x.len() && i < y.len()
        invariant
            i <= x@.len(),
            i <= y@.len(),
            lex_from(x@, y@, 0) == lex_from(x@, y@, i as int),
        decreases x@.len() - i,
    {
        if x[i] < y[i] {
            return Order::Less;
        }
        if x[i] > y[i] {
            return Order::Greater;
        }
        i = i + 1;
    }
    if i >= x.len() {
        if i >= y.len() {
            Order::Equal
        } else {
            Order::Less
        }
    } else {
        Order::Greater
    }
}

/// Orders two prerelease identifiers (`None`: same text).
pub fn compare_ident_chars(x: &Vec<char>, y: &Vec<char>) -> (r: Option<Order>)
    ensures
        r == compare_idents(x@, y@),
{
    if text::chars_eq(x, y) {
        return None;
    }
    if x.len() == 0 {
        return Some(Order::Less);
    }
    if y.len() == 0 {
        return Some(Order::Greater);
    }
    match (text::parse_u64_chars(x), text::parse_u64_chars(y)) {
        (Some(p), Some(q)) => {
            if p < q {
                Some(Order::Less)
            } else if p > q {
                Some(Order::Greater)
            } else {
                Some(Order::Equal)
            }
        },
        (Some(_), None) => Some(Order::Less),
        (None, Some(_)) => Some(Order::Greater),
        (None, None) => Some(lex_compare(x, y)),
    }
}

/// Orders two prereleases given as identifier lists.
pub fn compare_prerelease(a: &Vec<Vec<char>>, b: &Vec<Vec<char>>) -> (r: Order)
    ensures
        r == compare_prerelease_from(text::views(a@), text::views(b@), 0),
{
    let m = longer_len(a.len(), b.len());
    let empty: Vec<char> = Vec::new();
    let mut i: usize = 0;
    while i < m
        invariant
            m == longer(text::views(a@).len(), text::views(b@).len()),
            i <= m,
            empty@ == Seq::<char>::empty(),
            compare_prerelease_from(text::views(a@), text::views(b@), 0) == compare_prerelease_from(
                text::views(a@),
                text::views(b@),
                i as int,
            ),
        decreases m - i,
    {
        let x = if i < a.len() { &a[i] } else { &empty };
        let y = if i < b.len() { &b[i] } else { &empty };
        assert(x@ == field_at(text::views(a@), i as int));
        assert(y@ == field_at(text::views(b@), i as int));
        match compare_ident_chars(x, y) {
            Some(o) => {
                return o;
            },
            None => {},
        }
        i = i + 1;
    }
    Order::Equal
}

/// Orders two read versions.
pub fn compare_parsed_versions(a: &ParsedVersion, b: &ParsedVersion) -> (r: Order)
    ensures
        r == compare_parsed(a@, b@),
{
    let c = compare_numeric(&a.core, &b.core);
    if c != Order::Equal {
        return c;
    }
    match (&a.pre, &b.pre) {
        (None, None) => Order::Equal,
        (None, Some(_)) => Order::Greater,
        (Some(_), None) => Order::Less,
        (Some(x), Some(y)) => compare_prerelease(x, y),
    }
}

/// Orders two version strings: numeric core first, then prerelease.
pub fn compare_versions(a: &str, b: &str) -> (r: Order)
    ensures
        r == version_order(a@, b@),
{
    let pa = parse_version_str(a);
    let pb = parse_version_str(b);
    compare_parsed_versions(&pa, &pb)
}

// ---------------------------------------------------------------------------
// Public comparison API
// ---------------------------------------------------------------------------

/// The `std` ordering that corresponds to `o`.
pub open spec fn to_std_ordering(o: Order) -> std::cmp::Ordering {
    match o {
        Order::Less => std::cmp::Ordering::Less,
        Order::Equal => std::cmp::Ordering::Equal,
        Order::Greater => std::cmp::Ordering::Greater,
    }
}

/// Full semver-lite comparison: numeric core, then prerelease.
pub fn version_cmp(a: &str, b: &str) -> (r: std::cmp::Ordering)
    ensures
        r == to_std_ordering(version_order(a@, b@)),
{
    match compare_versions(a, b) {
        Order::Less => std::cmp::Ordering::Less,
        Order::Equal => std::cmp::Ordering::Equal,
        Order::Greater => std::cmp::Ordering::Greater,
    }
}

/// `installed >= minimum`.
pub fn version_at_least(installed: &str, minimum: &str) -> (r: bool)
    ensures
        r == (version_order(installed@, minimum@) != Order::Less),
{
    compare_versions(installed, minimum) != Order::Less
}

// ---------------------------------------------------------------------------
// Ranges
// ---------------------------------------------------------------------------

/// The comparison a range token asks for.
#[derive(Clone, Copy, Debug, PartialEq, Eq, Structural)]
pub enum RangeOp {
    AtLeast,
    AtMost,
    Above,
    Below,
    Caret,
    Tilde,
    Exactly,
}

/// Splits a range token into its operator and its version: the prefixes
/// `>=`, `<=`, `>`, `<`, `^`, `~`, `=` are tried in this order; a token with
/// none of them asks for equality with the whole token.
pub open spec fn token_parts(t: Seq<char>) -> (RangeOp, Seq<char>) {
    if t.len() >= 2 && t[0] == '>' && t[1] == '=' {
        (RangeOp::AtLeast, t.skip(2))
    } else if t.len() >= 2 && t[0] == '<' && t[1] == '=' {
        (RangeOp::AtMost, t.skip(2))
    } else if t.len() >= 1 && t[0] == '>' {
        (RangeOp::Above, t.skip(1))
    } else if t.len() >= 1 && t[0] == '<' {
        (RangeOp::Below, t.skip(1))
    } else if t.len() >= 1 && t[0] == '^' {
        (RangeOp::Caret, t.skip(1))
    } else if t.len() >= 1 && t[0] == '~' {
        (RangeOp::Tilde, t.skip(1))
    } else if t.len() >= 1 && t[0] == '=' {
        (RangeOp::Exactly, t.skip(1))
    } else {
        (RangeOp::Exactly, t)
    }
}

/// The version `M.m.p-0`, as it is read.
pub open spec fn bound_version(major: u64, minor: u64, patch: u64) -> SpecVersion {
    SpecVersion { core: seq![major, minor, patch], pre: Some(seq![seq!['0']]) }
}

/// Upper end of a caret range `^v`: the first prerelease of the next major
/// version (or of the next minor version below 1.0, or of the next patch
/// below 0.1). `None` where the bumped number does not fit in a `u64`.
pub open spec fn caret_upper(core: Seq<u64>) -> Option<SpecVersion> {
    let major = num_at(core, 0);
    let minor = num_at(core, 1);
    let patch = num_at(core, 2);
    if major > 0 {
        if major == u64::MAX { None } else { Some(bound_version((major + 1) as u64, 0, 0)) }
    } else if minor > 0 {
        if minor == u64::MAX { None } else { Some(bound_version(0, (minor + 1) as u64, 0)) }
    } else {
        if patch == u64::MAX { None } else { Some(bound_version(0, 0, (patch + 1) as u64)) }
    }
}

/// Upper end of a tilde range `~v`: the first prerelease of the next minor
/// version. `None` where the bumped number does not fit in a `u64`.
pub open spec fn tilde_upper(core: Seq<u64>) -> Option<SpecVersion> {
    let major = num_at(core, 0);
    let minor = num_at(core, 1);
    if minor == u64::MAX { None } else { Some(bound_version(major, (minor + 1) as u64, 0)) }
}

/// Whether a version field is a wildcard: `*`, `x` or `X`.
pub open spec fn is_wild(f: Seq<char>) -> bool {
    f == seq!['*'] || f == seq!['x'] || f == seq!['X']
}

/// The fields of the dotted core of a version text (before its first `-`).
pub open spec fn core_fields(w: Seq<char>) -> Seq<Seq<char>> {
    text::split_fields(w.take(text::find_from(w, '-', 0)), '.')
}

/// The position of the first wildcard among the first three core fields
/// (`*` and `x` give 0, `1.x` gives 1, `1.2.x` gives 2).
pub open spec fn wild_index(fs: Seq<Seq<char>>) -> Option<int> {
    if fs.len() > 0 && is_wild(fs[0]) {
        Some(0)
    } else if fs.len() > 1 && is_wild(fs[1]) {
        Some(1)
    } else if fs.len() > 2 && is_wild(fs[2]) {
        Some(2)
    } else {
        None
    }
}

/// Lower end of the wildcard range `M.x` (`k == 1`) or `M.m.x` (`k == 2`):
/// `M.0.0` or `M.m.0`, with the prerelease `0` where `pre` holds.
pub open spec fn wild_lower(core: Seq<u64>, k: int, pre: bool) -> SpecVersion {
    SpecVersion {
        core: seq![num_at(core, 0), if k > 1 { num_at(core, 1) } else { 0 }, 0],
        pre: if pre { Some(seq![seq!['0']]) } else { None },
    }
}

/// Upper end of the wildcard range `M.x` (`(M+1).0.0-0`) or `M.m.x`
/// (`M.(m+1).0-0`); `None` where the bumped number does not fit a `u64`.
pub open spec fn wild_upper(core: Seq<u64>, k: int) -> Option<SpecVersion> {
    let major = num_at(core, 0);
    let minor = num_at(core, 1);
    if k == 1 {
        if major == u64::MAX { None } else { Some(bound_version((major + 1) as u64, 0, 0)) }
    } else {
        if minor == u64::MAX { None } else { Some(bound_version(major, (minor + 1) as u64, 0)) }
    }
}

/// Upper end of `^M.m.x` with `M > 0`: `(M+1).0.0-0`; otherwise as
/// `wild_upper`.
pub open spec fn wild_caret_upper(core: Seq<u64>, k: int) -> Option<SpecVersion> {
    let major = num_at(core, 0);
    if k == 2 && major > 0 {
        if major == u64::MAX { None } else { Some(bound_version((major + 1) as u64, 0, 0)) }
    } else {
        wild_upper(core, k)
    }
}

/// A version without its prerelease.
pub open spec fn release_of(v: SpecVersion) -> SpecVersion {
    SpecVersion { core: v.core, pre: None }
}

/// Whether `v` meets a token whose version has its first wildcard at
/// field `k` (npm's X-ranges): `*` admits every version under `>=`, `<=`,
/// `=`, `^`, `~` and none under `>` or `<`; `M.x` and `M.m.x` stand for the
/// versions from their lower end up to (not including) their upper end,
/// and the operators read them as npm does (`>1.x` is `>=2.0.0`, `<=1.x`
/// is `<2.0.0-0`, `<1.x` is `<1.0.0-0`, `^0.1.x` is `>=0.1.0 <0.2.0-0`).
/// `None` where a bumped number does not fit a `u64`.
pub open spec fn wild_check(v: SpecVersion, op: RangeOp, core: Seq<u64>, k: int) -> Option<bool> {
    if k == 0 {
        Some(!(op == RangeOp::Above || op == RangeOp::Below))
    } else {
        let at_low = compare_parsed(v, wild_lower(core, k, false)) != Order::Less;
        match op {
            RangeOp::AtLeast => Some(at_low),
            RangeOp::Below => Some(compare_parsed(v, wild_lower(core, k, true)) == Order::Less),
            RangeOp::Caret => match wild_caret_upper(core, k) {
                Some(hi) => Some(at_low && compare_parsed(v, hi) == Order::Less),
                None => None,
            },
            RangeOp::Above => match wild_upper(core, k) {
                Some(hi) => Some(compare_parsed(v, release_of(hi)) != Order::Less),
                None => None,
            },
            RangeOp::AtMost => match wild_upper(core, k) {
                Some(hi) => Some(compare_parsed(v, hi) == Order::Less),
                None => None,
            },
            _ => match wild_upper(core, k) {
                Some(hi) => Some(at_low && compare_parsed(v, hi) == Order::Less),
                None => None,
            },
        }
    }
}

/// Whether the read version `v` meets one range token without wildcards.
pub open spec fn plain_check(v: SpecVersion, op: RangeOp, w: SpecVersion) -> Option<bool> {
    let c = compare_parsed(v, w);
    match op {
        RangeOp::AtLeast => Some(c != Order::Less),
        RangeOp::AtMost => Some(c != Order::Greater),
        RangeOp::Above => Some(c == Order::Greater),
        RangeOp::Below => Some(c == Order::Less),
        RangeOp::Exactly => Some(c == Order::Equal),
        RangeOp::Caret => match caret_upper(w.core) {
            Some(hi) => Some(c != Order::Less && compare_parsed(v, hi) == Order::Less),
            None => None,
        },
        RangeOp::Tilde => match tilde_upper(w.core) {
            Some(hi) => Some(c != Order::Less && compare_parsed(v, hi) == Order::Less),
            None => None,
        },
    }
}

/// Whether the read version `v` meets one range token; `None` where the
/// token's upper bound overflows.
pub open spec fn token_check(v: SpecVersion, t: Seq<char>) -> Option<bool> {
    let op = token_parts(t).0;
    let wt = token_parts(t).1;
    match wild_index(core_fields(wt)) {
        Some(k) => wild_check(v, op, parse_version(wt).core, k),
        None => plain_check(v, op, parse_version(wt)),
    }
}

/// Evaluates the tokens of one alternative from token `i` on, left to
/// right: the first token that fails makes it `Some(false)`; a token whose
/// bound overflows, reached before any failing one, makes it `None`. No
/// token at all admits every version.
pub open spec fn range_eval(v: SpecVersion, tokens: Seq<Seq<char>>, i: int) -> Option<bool>
    decreases tokens.len() - i,
{
    if i >= tokens.len() {
        Some(true)
    } else {
        match token_check(v, tokens[i]) {
            None => None,
            Some(false) => Some(false),
            Some(true) => range_eval(v, tokens, i + 1),
        }
    }
}

/// The alternatives of `cur + rest` separated by `||`, where `cur` is the
/// part of the current alternative already read.
pub open spec fn alts_acc(cur: Seq<char>, rest: Seq<char>) -> Seq<Seq<char>>
    decreases rest.len(),
{
    if rest.len() == 0 {
        seq![cur]
    } else if rest.len() >= 2 && rest[0] == '|' && rest[1] == '|' {
        seq![cur] + alts_acc(Seq::empty(), rest.skip(2))
    } else {
        alts_acc(cur.push(rest[0]), rest.drop_first())
    }
}

/// The alternatives of a range: its text split at every `||`, left to
/// right; there is always at least one.
pub open spec fn alternatives(s: Seq<char>) -> Seq<Seq<char>> {
    alts_acc(Seq::empty(), s)
}

/// Evaluates the alternatives of a range from alternative `i` on, left to
/// right: the first that holds makes it `Some(true)`; one whose bound
/// overflows, reached before any that holds, makes it `None`.
pub open spec fn union_eval(v: SpecVersion, alts: Seq<Seq<char>>, i: int) -> Option<bool>
    decreases alts.len() - i,
{
    if i >= alts.len() {
        Some(false)
    } else {
        match range_eval(v, text::words(alts[i]), 0) {
            Some(true) => Some(true),
            None => None,
            Some(false) => union_eval(v, alts, i + 1),
        }
    }
}

/// What `range_satisfied(version, range)` computes: `range` is a union of
/// `||`-separated alternatives, each the conjunction of its
/// white-space-separated tokens; `None` where it would overflow a bound.
pub open spec fn range_outcome(version: Seq<char>, range: Seq<char>) -> Option<bool> {
    union_eval(parse_version(version), alternatives(range), 0)
}

fn version3(major: u64, minor: u64, patch: u64, pre: bool) -> (r: ParsedVersion)
    ensures
        r@ == (SpecVersion {
            core: seq![major, minor, patch],
            pre: if pre { Some(seq![seq!['0']]) } else { None },
        }),
{
    let mut core: Vec<u64> = Vec::new();
    core.push(major);
    core.push(minor);
    core.push(patch);
    assert(core@ =~= seq![major, minor, patch]);
    if pre {
        let mut zero: Vec<char> = Vec::new();
        zero.push('0');
        assert(zero@ =~= seq!['0']);
        let mut ids: Vec<Vec<char>> = Vec::new();
        ids.push(zero);
        assert(text::views(ids@) =~= seq![seq!['0']]);
        ParsedVersion { core, pre: Some(ids) }
    } else {
        ParsedVersion { core, pre: None }
    }
}

fn upper_version(major: u64, minor: u64, patch: u64) -> (r: ParsedVersion)
    ensures
        r@ == bound_version(major, minor, patch),
{
    version3(major, minor, patch, true)
}

fn core_at(core: &Vec<u64>, i: usize) -> (r: u64)
    ensures
        r == num_at(core@, i as int),
{
    if i < core.len() {
        core[i]
    } else {
        0
    }
}

/// Splits a range token into operator and version text.
pub fn token_parts_chars(t: &Vec<char>) -> (r: (RangeOp, Vec<char>))
    ensures
        r.0 == token_parts(t@).0,
        r.1@ == token_parts(t@).1,
{
    let n = t.len();
    if n >= 2 && t[0] == '>' && t[1] == '=' {
        (RangeOp::AtLeast, text::slice_chars(t, 2, n))
    } else if n >= 2 && t[0] == '<' && t[1] == '=' {
        (RangeOp::AtMost, text::slice_chars(t, 2, n))
    } else if n >= 1 && t[0] == '>' {
        (RangeOp::Above, text::slice_chars(t, 1, n))
    } else if n >= 1 && t[0] == '<' {
        (RangeOp::Below, text::slice_chars(t, 1, n))
    } else if n >= 1 && t[0] == '^' {
        (RangeOp::Caret, text::slice_chars(t, 1, n))
    } else if n >= 1 && t[0] == '~' {
        (RangeOp::Tilde, text::slice_chars(t, 1, n))
    } else if n >= 1 && t[0] == '=' {
        (RangeOp::Exactly, text::slice_chars(t, 1, n))
    } else {
        (RangeOp::Exactly, text::slice_chars(t, 0, n))
    }
}

/// Checks the read version `v` against a token without wildcards.
fn check_plain(v: &ParsedVersion, op: RangeOp, w: &ParsedVersion) -> (r: Option<bool>)
    ensures
        r == plain_check(v@, op, w@),
{
    let c = compare_parsed_versions(v, w);
    match op {
        RangeOp::AtLeast => Some(c != Order::Less),
        RangeOp::AtMost => Some(c != Order::Greater),
        RangeOp::Above => Some(c == Order::Greater),
        RangeOp::Below => Some(c == Order::Less),
        RangeOp::Exactly => Some(c == Order::Equal),
        RangeOp::Caret => {
            let major = core_at(&w.core, 0);
            let minor = core_at(&w.core, 1);
            let patch = core_at(&w.core, 2);
            let hi = if major > 0 {
                if major == u64::MAX {
                    return None;
                }
                upper_version(major + 1, 0, 0)
            } else if minor > 0 {
                if minor == u64::MAX {
                    return None;
                }
                upper_version(0, minor + 1, 0)
            } else {
                if patch == u64::MAX {
                    return None;
                }
                upper_version(0, 0, patch + 1)
            };
            Some(c != Order::Less && compare_parsed_versions(v, &hi) == Order::Less)
        },
        RangeOp::Tilde => {
            let major = core_at(&w.core, 0);
            let minor = core_at(&w.core, 1);
            if minor == u64::MAX {
                return None;
            }
            let hi = upper_version(major, minor + 1, 0);
            Some(c != Order::Less && compare_parsed_versions(v, &hi) == Order::Less)
        },
    }
}

/// Tests `is_wild`.
fn wild_field(f: &Vec<char>) -> (r: bool)
    ensures
        r == is_wild(f@),
{
    if f.len() == 1 && (f[0] == '*' || f[0] == 'x' || f[0] == 'X') {
        assert(f@ =~= seq![f@[0]]);
        true
    } else {
        assert(f@.len() != 1 ==> f@ != seq!['*'] && f@ != seq!['x'] && f@ != seq!['X']);
        false
    }
}

/// The position of the first wildcard among the first three core fields of
/// a version text.
fn wild_position(w: &Vec<char>) -> (r: Option<usize>)
    ensures
        match r {
            Some(k) => wild_index(core_fields(w@)) == Some(k as int) && k <= 2,
            None => wild_index(core_fields(w@)) is None,
        },
{
    let k = text::find_char(w, '-');
    let core = text::slice_chars(w, 0, k);
    assert(core@ =~= w@.take(k as int));
    let fields = text::split_chars(&core, '.');
    let ghost fs = core_fields(w@);
    assert(text::views(fields@) == fs);
    assert forall|i: int| 0 <= i < fields@.len() implies fields@[i]@ == fs[i] by {
        assert(text::views(fields@)[i] == fields@[i]@);
    }
    if fields.len() > 0 && wild_field(&fields[0]) {
        Some(0)
    } else if fields.len() > 1 && wild_field(&fields[1]) {
        Some(1)
    } else if fields.len() > 2 && wild_field(&fields[2]) {
        Some(2)
    } else {
        None
    }
}

/// The numbers of `wild_upper(core, k)`, where it fits.
fn wild_upper_numbers(core: &Vec<u64>, k: usize) -> (r: Option<(u64, u64, u64)>)
    ensures
        match r {
            Some(t) => wild_upper(core@, k as int) == Some(bound_version(t.0, t.1, t.2)),
            None => wild_upper(core@, k as int) is None,
        },
{
    let major = core_at(core, 0);
    let minor = core_at(core, 1);
    if k == 1 {
        if major == u64::MAX { None } else { Some((major + 1, 0, 0)) }
    } else {
        if minor == u64::MAX { None } else { Some((major, minor + 1, 0)) }
    }
}

/// The numbers of `wild_caret_upper(core, k)`, where it fits.
fn wild_caret_numbers(core: &Vec<u64>, k: usize) -> (r: Option<(u64, u64, u64)>)
    ensures
        match r {
            Some(t) => wild_caret_upper(core@, k as int) == Some(bound_version(t.0, t.1, t.2)),
            None => wild_caret_upper(core@, k as int) is None,
        },
{
    let major = core_at(core, 0);
    if k == 2 && major > 0 {
        if major == u64::MAX { None } else { Some((major + 1, 0, 0)) }
    } else {
        wild_upper_numbers(core, k)
    }
}

/// Checks the read version `v` against a token whose first wildcard is at
/// field `k`.
fn check_wild(v: &ParsedVersion, op: RangeOp, core: &Vec<u64>, k: usize) -> (r: Option<bool>)
    requires
        k <= 2,
    ensures
        r == wild_check(v@, op, core@, k as int),
{
    if k == 0 {
        return Some(!(op == RangeOp::Above || op == RangeOp::Below));
    }
    let major = core_at(core, 0);
    let minor = if k > 1 { core_at(core, 1) } else { 0 };
    let low = version3(major, minor, 0, false);
    assert(low@ == wild_lower(core@, k as int, false));
    let at_low = compare_parsed_versions(v, &low) != Order::Less;
    match op {
        RangeOp::AtLeast => Some(at_low),
        RangeOp::Below => {
            let low0 = version3(major, minor, 0, true);
            assert(low0@ == wild_lower(core@, k as int, true));
            Some(compare_parsed_versions(v, &low0) == Order::Less)
        },
        RangeOp::Caret => match wild_caret_numbers(core, k) {
            Some(t) => {
                let hi = upper_version(t.0, t.1, t.2);
                Some(at_low && compare_parsed_versions(v, &hi) == Order::Less)
            },
            None => None,
        },
        RangeOp::Above => match wild_upper_numbers(core, k) {
            Some(t) => {
                let hi = version3(t.0, t.1, t.2, false);
                assert(hi@ == release_of(bound_version(t.0, t.1, t.2)));
                Some(compare_parsed_versions(v, &hi) != Order::Less)
            },
            None => None,
        },
        RangeOp::AtMost => match wild_upper_numbers(core, k) {
            Some(t) => {
                let hi = upper_version(t.0, t.1, t.2);
                Some(compare_parsed_versions(v, &hi) == Order::Less)
            },
            None => None,
        },
        _ => match wild_upper_numbers(core, k) {
            Some(t) => {
                let hi = upper_version(t.0, t.1, t.2);
                Some(at_low && compare_parsed_versions(v, &hi) == Order::Less)
            },
            None => None,
        },
    }
}

/// Checks the read version `v` against one range token.
pub fn check_token(v: &ParsedVersion, t: &Vec<char>) -> (r: Option<bool>)
    ensures
        r == token_check(v@, t@),
{
    let (op, ver) = token_parts_chars(t);
    let w = parse_version_chars(&ver);
    match wild_position(&ver) {
        Some(k) => check_wild(v, op, &w.core, k),
        None => check_plain(v, op, &w),
    }
}

/// Splits a range at every `||`.
pub fn split_alternatives(s: &Vec<char>) -> (r: Vec<Vec<char>>)
    ensures
        text::views(r@) == alternatives(s@),
{
    let n = s.len();
    let mut out: Vec<Vec<char>> = Vec::new();
    let mut cur: Vec<char> = Vec::new();
    let mut i: usize = 0;
    assert(s@.skip(0) =~= s@);
    assert(text::views(out@) + alternatives(s@) =~= alternatives(s@));
    while i < n
        invariant
            n == s@.len(),
            i <= n,
            alternatives(s@) == text::views(out@) + alts_acc(cur@, s@.skip(i as int)),
        decreases n - i,
    {
        let ghost rest = s@.skip(i as int);
        assert(rest[0] == s@[i as int]);
        if i + 1 < n && s[i] == '|' && s[i + 1] == '|' {
            assert(rest[1] == s@[i + 1]);
            assert(rest.skip(2) =~= s@.skip(i + 2));
            let ghost old_out = out@;
            let ghost old_cur = cur@;
            out.push(cur);
            cur = Vec::new();
            assert(text::views(out@) =~= text::views(old_out) + seq![old_cur]);
            assert(text::views(old_out) + (seq![old_cur] + alts_acc(Seq::empty(), rest.skip(2)))
                =~= text::views(out@) + alts_acc(cur@, s@.skip(i + 2)));
            i = i + 2;
        } else {
            if i + 1 < n {
                assert(rest[1] == s@[i + 1]);
            }
            assert(rest.drop_first() =~= s@.skip(i + 1));
            let ghost old_cur = cur@;
            cur.push(s[i]);
            assert(alts_acc(old_cur, rest) == alts_acc(cur@, rest.drop_first()));
            i = i + 1;
        }
    }
    assert(s@.skip(n as int) =~= Seq::<char>::empty());
    let ghost old_out = out@;
    let ghost last = cur@;
    out.push(cur);
    assert(text::views(out@) =~= text::views(old_out) + seq![last]);
    out
}

/// Evaluates one alternative: all of its white-space-separated tokens.
fn alternative_check(v: &ParsedVersion, alt: &Vec<char>) -> (r: Option<bool>)
    ensures
        r == range_eval(v@, text::words(alt@), 0),
{
    let tokens = text::split_words(alt);
    let n = tokens.len();
    let mut i: usize = 0;
    while i < n
        invariant
            n == tokens@.len(),
            i <= n,
            text::views(tokens@).len() == n,
            text::views(tokens@) == text::words(alt@),
            range_eval(v@, text::words(alt@), 0) == range_eval(v@, text::views(tokens@), i as int),
        decreases n - i,
    {
        assert(text::views(tokens@)[i as int] == tokens@[i as int]@);
        match check_token(v, &tokens[i]) {
            None => {
                return None;
            },
            Some(false) => {
                return Some(false);
            },
            Some(true) => {},
        }
        i = i + 1;
    }
    Some(true)
}

/// Evaluates `range` for `version`: `Some(b)` where `range_satisfied` gives
/// `b`, `None` where a caret, tilde or wildcard bound it reaches overflows a
/// `u64`.
pub fn range_check(version: &str, range: &str) -> (r: Option<bool>)
    ensures
        r == range_outcome(version@, range@),
{
    let v = parse_version_str(version);
    let rc = text::chars_of(range);
    let alts = split_alternatives(&rc);
    let n = alts.len();
    let mut j: usize = 0;
    while j < n
        invariant
            n == alts@.len(),
            j <= n,
            text::views(alts@).len() == n,
            v@ == parse_version(version@),
            text::views(alts@) == alternatives(range@),
            range_outcome(version@, range@) == union_eval(v@, text::views(alts@), j as int),
        decreases n - j,
    {
        assert(text::views(alts@)[j as int] == alts@[j as int]@);
        match alternative_check(&v, &alts[j]) {
            Some(true) => {
                return Some(true);
            },
            None => {
                return None;
            },
            Some(false) => {},
        }
        j = j + 1;
    }
    Some(false)
}

/// Whether `version` satisfies an npm-style range string: the range is a
/// union of `||`-separated alternatives, each holding where all of its
/// white-space-separated comparators hold; `*`, `x` and `X` are wildcards
/// (`*` admits every version, `1.x` stands for `>=1.0.0 <2.0.0-0`), and an
/// empty alternative admits every version.
pub fn range_satisfied(version: &str, range: &str) -> (r: bool)
    requires
        range_outcome(version@, range@) is Some,
    ensures
        range_outcome(version@, range@) == Some(r),
{
    match range_check(version, range) {
        Some(b) => b,
        None => false,
    }
}

// ---------------------------------------------------------------------------
// Laws
// ---------------------------------------------------------------------------

proof fn lemma_numeric_refl(a: Seq<u64>, i: int)
    ensures
        compare_numeric_from(a, a, i) == Order::Equal,
    decreases longer(a.len(), a.len()) - i,
{
    if i < longer(a.len(), a.len()) {
        lemma_numeric_refl(a, i + 1);
    }
}

proof fn lemma_prerelease_refl(a: Seq<Seq<char>>, i: int)
    ensures
        compare_prerelease_from(a, a, i) == Order::Equal,
    decreases longer(a.len(), a.len()) - i,
{
    if i < longer(a.len(), a.len()) {
        lemma_prerelease_refl(a, i + 1);
    }
}

proof fn lemma_numeric_flip(a: Seq<u64>, b: Seq<u64>, i: int)
    ensures
        compare_numeric_from(a, b, i) == flip(compare_numeric_from(b, a, i)),
    decreases longer(a.len(), b.len()) - i,
{
    assert(longer(a.len(), b.len()) == longer(b.len(), a.len()));
    if i < longer(a.len(), b.len()) {
        lemma_numeric_flip(a, b, i + 1);
    }
}

proof fn lemma_lex_flip(x: Seq<char>, y: Seq<char>, i: int)
    ensures
        lex_from(x, y, i) == flip(lex_from(y, x, i)),
    decreases x.len() - i,
{
    if i < x.len() && i < y.len() && x[i] == y[i] {
        lemma_lex_flip(x, y, i + 1);
    }
}

proof fn lemma_idents_flip(x: Seq<char>, y: Seq<char>)
    ensures
        compare_idents(x, y) == (match compare_idents(y, x) {
            Some(o) => Some(flip(o)),
            None => None,
        }),
{
    lemma_lex_flip(x, y, 0);
    if x.len() == 0 && y.len() == 0 {
        assert(x =~= y);
    }
    if x != y && x.len() != 0 && y.len() != 0 {
        match (text::parse_u64(x), text::parse_u64(y)) {
            (Some(p), Some(q)) => {
                assert(compare_idents(x, y) == Some(order_of(p as int, q as int)));
                assert(compare_idents(y, x) == Some(order_of(q as int, p as int)));
                assert(order_of(p as int, q as int) == flip(order_of(q as int, p as int)));
            },
            (None, None) => {
                assert(compare_idents(x, y) == Some(lex_from(x, y, 0)));
                assert(compare_idents(y, x) == Some(lex_from(y, x, 0)));
                assert(lex_from(x, y, 0) == flip(lex_from(y, x, 0)));
            },
            (Some(_), None) => {
                assert(compare_idents(x, y) == Some(Order::Less));
                assert(compare_idents(y, x) == Some(Order::Greater));
            },
            (None, Some(_)) => {
                assert(compare_idents(x, y) == Some(Order::Greater));
                assert(compare_idents(y, x) == Some(Order::Less));
            },
        }
    }
}

proof fn lemma_prerelease_flip(a: Seq<Seq<char>>, b: Seq<Seq<char>>, i: int)
    ensures
        compare_prerelease_from(a, b, i) == flip(compare_prerelease_from(b, a, i)),
    decreases longer(a.len(), b.len()) - i,
{
    assert(longer(a.len(), b.len()) == longer(b.len(), a.len()));
    if i < longer(a.len(), b.len()) {
        lemma_idents_flip(field_at(a, i), field_at(b, i));
        lemma_prerelease_flip(a, b, i + 1);
    }
}

/// Every version is equal to itself: `version_cmp(a, a)` is `Equal`, and
/// so `version_at_least(a, a)` holds.
pub proof fn law_version_order_reflexive(a: Seq<char>)
    ensures
        version_order(a, a) == Order::Equal,
{
    let p = parse_version(a);
    lemma_numeric_refl(p.core, 0);
    match p.pre {
        Some(x) => lemma_prerelease_refl(x, 0),
        None => {},
    }
}

/// Swapping the arguments of `version_cmp` reverses its result.
pub proof fn law_version_order_antisymmetric(a: Seq<char>, b: Seq<char>)
    ensures
        version_order(a, b) == flip(version_order(b, a)),
{
    let p = parse_version(a);
    let q = parse_version(b);
    lemma_numeric_flip(p.core, q.core, 0);
    match (p.pre, q.pre) {
        (Some(x), Some(y)) => lemma_prerelease_flip(x, y, 0),
        _ => {},
    }
}

proof fn lemma_words_single(cur: Seq<char>, rest: Seq<char>)
    requires
        cur.len() + rest.len() > 0,
        forall|k: int| 0 <= k < rest.len() ==> !text::is_white_space(#[trigger] rest[k]),
    ensures
        text::words_acc(cur, rest) == seq![cur + rest],
    decreases rest.len(),
{
    if rest.len() == 0 {
        assert(cur + rest =~= cur);
    } else {
        assert(!text::is_white_space(rest[0]));
        let r2 = rest.drop_first();
        assert forall|k: int| 0 <= k < r2.len() implies !text::is_white_space(#[trigger] r2[k]) by {
            assert(r2[k] == rest[k + 1]);
        }
        lemma_words_single(cur.push(rest[0]), r2);
        assert(cur.push(rest[0]) + r2 =~= cur + rest);
    }
}

/// A token without white space is a range of that one token.
pub proof fn lemma_single_token_range(t: Seq<char>)
    requires
        t.len() > 0,
        forall|k: int| 0 <= k < t.len() ==> !text::is_white_space(#[trigger] t[k]),
    ensures
        text::words(t) == seq![t],
{
    lemma_words_single(Seq::empty(), t);
    assert(Seq::<char>::empty() + t =~= t);
}

/// No white space and no `||` in the text.
pub open spec fn plain_text(s: Seq<char>) -> bool {
    &&& forall|k: int| 0 <= k < s.len() ==> !text::is_white_space(#[trigger] s[k])
    &&& has_no_bars(s)
}

/// No two adjacent `|` in the text.
pub open spec fn has_no_bars(s: Seq<char>) -> bool {
    forall|k: int| 0 <= k < s.len() - 1 ==> !(#[trigger] s[k] == '|' && s[k + 1] == '|')
}

proof fn lemma_alts_no_bars(cur: Seq<char>, rest: Seq<char>)
    requires
        has_no_bars(rest),
    ensures
        alts_acc(cur, rest) == seq![cur + rest],
    decreases rest.len(),
{
    if rest.len() == 0 {
        assert(cur + rest =~= cur);
    } else {
        if rest.len() >= 2 {
            assert(!(rest[0] == '|' && rest[1] == '|'));
        }
        let r2 = rest.drop_first();
        assert forall|k: int| 0 <= k < r2.len() - 1 implies !(#[trigger] r2[k] == '|' && r2[k + 1] == '|') by {
            assert(r2[k] == rest[k + 1] && r2[k + 1] == rest[k + 2]);
        }
        lemma_alts_no_bars(cur.push(rest[0]), r2);
        assert(cur.push(rest[0]) + r2 =~= cur + rest);
    }
}

/// A range without `||` is a single alternative.
proof fn lemma_single_alternative(v: Seq<char>, r: Seq<char>)
    requires
        has_no_bars(r),
    ensures
        range_outcome(v, r) == range_eval(parse_version(v), text::words(r), 0),
{
    lemma_alts_no_bars(Seq::empty(), r);
    assert(Seq::<char>::empty() + r =~= r);
    assert(alternatives(r) == seq![r]);
    assert(union_eval(parse_version(v), seq![r], 1) == Some(false));
}

proof fn lemma_plain_no_bars(s: Seq<char>)
    requires
        plain_text(s),
    ensures
        has_no_bars(s),
{
}

proof fn lemma_plain_prefixed(p: Seq<char>, w: Seq<char>)
    requires
        plain_text(w),
        forall|k: int| 0 <= k < p.len() ==> (#[trigger] p[k] == '>' || p[k] == '<' || p[k] == '=' || p[k] == '^' || p[k] == '~'),
    ensures
        plain_text(p + w),
{
    let t = p + w;
    assert forall|k: int| 0 <= k < t.len() implies !text::is_white_space(#[trigger] t[k]) by {
        if k < p.len() {
            assert(t[k] == p[k]);
        } else {
            assert(t[k] == w[k - p.len()]);
        }
    }
    assert forall|k: int| 0 <= k < t.len() - 1 implies !(#[trigger] t[k] == '|' && t[k + 1] == '|') by {
        if k < p.len() {
            assert(t[k] == p[k]);
        } else {
            assert(t[k] == w[k - p.len()] && t[k + 1] == w[k + 1 - p.len()]);
        }
    }
}

/// A single token without white space or `||` is a range that holds exactly
/// where the token holds.
proof fn lemma_token_range(v: Seq<char>, t: Seq<char>)
    requires
        t.len() > 0,
        plain_text(t),
    ensures
        range_outcome(v, t) == token_check(parse_version(v), t),
{
    lemma_plain_no_bars(t);
    lemma_single_alternative(v, t);
    lemma_single_token_range(t);
    assert(seq![t][0] == t);
    assert(range_eval(parse_version(v), seq![t], 1) == Some(true));
}

/// Each comparator on a version `w` (without white space, `||` or wildcards,
/// and not starting with an operator) orders as `version_cmp` does:
/// `>=w`, `<=w`, `>w`, `<w` admit the versions at least, at most, above and
/// below `w`; `=w` and the bare `w` admit the versions equal to `w`.
pub proof fn law_comparator_ranges(v: Seq<char>, w: Seq<char>)
    requires
        w.len() > 0,
        plain_text(w),
        w[0] != '>' && w[0] != '<' && w[0] != '=' && w[0] != '^' && w[0] != '~',
        wild_index(core_fields(w)) is None,
    ensures
        range_outcome(v, seq!['>', '='] + w) == Some(version_order(v, w) != Order::Less),
        range_outcome(v, seq!['<', '='] + w) == Some(version_order(v, w) != Order::Greater),
        range_outcome(v, seq!['>'] + w) == Some(version_order(v, w) == Order::Greater),
        range_outcome(v, seq!['<'] + w) == Some(version_order(v, w) == Order::Less),
        range_outcome(v, seq!['='] + w) == Some(version_order(v, w) == Order::Equal),
        range_outcome(v, w) == Some(version_order(v, w) == Order::Equal),
{
    let ge = seq!['>', '='] + w;
    let le = seq!['<', '='] + w;
    let gt = seq!['>'] + w;
    let lt = seq!['<'] + w;
    let eq = seq!['='] + w;
    lemma_plain_prefixed(seq!['>', '='], w);
    lemma_plain_prefixed(seq!['<', '='], w);
    lemma_plain_prefixed(seq!['>'], w);
    lemma_plain_prefixed(seq!['<'], w);
    lemma_plain_prefixed(seq!['='], w);
    lemma_token_range(v, ge);
    lemma_token_range(v, le);
    lemma_token_range(v, gt);
    lemma_token_range(v, lt);
    lemma_token_range(v, eq);
    lemma_token_range(v, w);
    assert(ge.skip(2) =~= w && ge[0] == '>' && ge[1] == '=');
    assert(le.skip(2) =~= w && le[0] == '<' && le[1] == '=');
    assert(gt.skip(1) =~= w && gt[0] == '>' && gt[1] == w[0]);
    assert(lt.skip(1) =~= w && lt[0] == '<' && lt[1] == w[0]);
    assert(eq.skip(1) =~= w && eq[0] == '=');
}

/// The range `>=m` admits exactly the versions that `version_at_least`
/// accepts against `m` (for `m` without white space, `||` or wildcards,
/// not starting with an operator).
pub proof fn law_at_least_range(v: Seq<char>, m: Seq<char>)
    requires
        m.len() > 0,
        plain_text(m),
        m[0] != '>' && m[0] != '<' && m[0] != '=' && m[0] != '^' && m[0] != '~',
        wild_index(core_fields(m)) is None,
    ensures
        range_outcome(v, seq!['>', '='] + m) == Some(version_order(v, m) != Order::Less),
{
    law_comparator_ranges(v, m);
}

proof fn lemma_words_blank(cur: Seq<char>, rest: Seq<char>)
    requires
        cur.len() == 0,
        forall|k: int| 0 <= k < rest.len() ==> text::is_white_space(#[trigger] rest[k]),
    ensures
        text::words_acc(cur, rest) == Seq::<Seq<char>>::empty(),
    decreases rest.len(),
{
    if rest.len() > 0 {
        assert(text::is_white_space(rest[0]));
        let r2 = rest.drop_first();
        assert forall|k: int| 0 <= k < r2.len() implies text::is_white_space(#[trigger] r2[k]) by {
            assert(r2[k] == rest[k + 1]);
        }
        lemma_words_blank(Seq::empty(), r2);
        assert(Seq::<Seq<char>>::empty() + Seq::<Seq<char>>::empty() =~= Seq::<Seq<char>>::empty());
    }
}

/// An empty range, or one of white space only, admits every version.
pub proof fn law_blank_range(v: Seq<char>, r: Seq<char>)
    requires
        forall|k: int| 0 <= k < r.len() ==> text::is_white_space(#[trigger] r[k]),
    ensures
        range_outcome(v, r) == Some(true),
{
    assert forall|k: int| 0 <= k < r.len() - 1 implies !(#[trigger] r[k] == '|' && r[k + 1] == '|') by {
        assert(text::is_white_space(r[k]));
    }
    lemma_single_alternative(v, r);
    lemma_words_blank(Seq::empty(), r);
}

/// The wildcard range `*` admits every version.
pub proof fn law_star_admits_all(v: Seq<char>)
    ensures
        range_outcome(v, seq!['*']) == Some(true),
{
    let t = seq!['*'];
    lemma_token_range(v, t);
    assert(token_parts(t).1 == t);
    assert(text::find_from(t, '-', 0) == 1) by {
        assert(text::find_from(t, '-', 1) == 1);
    }
    assert(t.take(1) =~= t);
    assert(t.drop_first() =~= Seq::<char>::empty());
    assert(text::split_acc(seq!['*'], Seq::empty(), '.') == seq![seq!['*']]);
    assert(Seq::<char>::empty().push('*') =~= seq!['*']);
    assert(core_fields(t) == seq![seq!['*']]);
}

proof fn lemma_alts_split(cur: Seq<char>, a: Seq<char>, rest: Seq<char>)
    requires
        forall|k: int| 0 <= k < a.len() ==> #[trigger] a[k] != '|',
    ensures
        alts_acc(cur, a + seq!['|', '|'] + rest) == seq![cur + a] + alts_acc(Seq::empty(), rest),
    decreases a.len(),
{
    let x = a + seq!['|', '|'] + rest;
    if a.len() == 0 {
        assert(x =~= seq!['|', '|'] + rest);
        assert(x[0] == '|' && x[1] == '|');
        assert(x.skip(2) =~= rest);
        assert(cur + a =~= cur);
    } else {
        assert(x[0] == a[0]);
        assert(a[0] != '|');
        assert(x.drop_first() =~= a.drop_first() + seq!['|', '|'] + rest);
        let a2 = a.drop_first();
        assert forall|k: int| 0 <= k < a2.len() implies #[trigger] a2[k] != '|' by {
            assert(a2[k] == a[k + 1]);
        }
        lemma_alts_split(cur.push(a[0]), a2, rest);
        assert(cur.push(a[0]) + a2 =~= cur + a);
    }
}

proof fn lemma_union_shift(v: SpecVersion, a: Seq<Seq<char>>, b: Seq<Seq<char>>, j: int)
    requires
        0 <= j <= b.len(),
    ensures
        union_eval(v, a + b, a.len() + j) == union_eval(v, b, j),
    decreases b.len() - j,
{
    if j < b.len() {
        assert((a + b)[a.len() + j] == b[j]);
        lemma_union_shift(v, a, b, j + 1);
    }
}

/// `r1 || r2` is the union of `r1` and `r2`, evaluated left to right (for
/// `r1` without `|`): it holds where `r1` holds, else where `r2` holds.
pub proof fn law_range_union(v: Seq<char>, r1: Seq<char>, r2: Seq<char>)
    requires
        forall|k: int| 0 <= k < r1.len() ==> #[trigger] r1[k] != '|',
    ensures
        range_outcome(v, r1 + seq!['|', '|'] + r2) == (match range_outcome(v, r1) {
            Some(false) => range_outcome(v, r2),
            other => other,
        }),
{
    lemma_alts_split(Seq::empty(), r1, r2);
    assert(Seq::<char>::empty() + r1 =~= r1);
    let a = seq![r1];
    let b = alternatives(r2);
    assert(alternatives(r1 + seq!['|', '|'] + r2) == a + b);
    assert((a + b)[0] == r1);
    lemma_union_shift(parse_version(v), a, b, 0);
    assert forall|k: int| 0 <= k < r1.len() - 1 implies !(#[trigger] r1[k] == '|' && r1[k + 1] == '|') by {
        assert(r1[k] != '|');
    }
    lemma_single_alternative(v, r1);
}

/// A caret range `^v` admits `v` itself, unless its upper bound overflows
/// (for `v` without white space, `||` or wildcards).
pub proof fn law_caret_admits_base(v: Seq<char>)
    requires
        plain_text(v),
        wild_index(core_fields(v)) is None,
        caret_upper(parse_version(v).core) is Some,
    ensures
        range_outcome(v, seq!['^'] + v) == Some(true),
{
    let t = seq!['^'] + v;
    lemma_plain_prefixed(seq!['^'], v);
    lemma_token_range(v, t);
    assert(t.skip(1) =~= v);
    assert(t[0] == '^');
    law_version_order_reflexive(v);
    let p = parse_version(v);
    let hi = caret_upper(p.core).unwrap();
    let major = num_at(p.core, 0);
    let minor = num_at(p.core, 1);
    if major > 0 {
        assert(compare_numeric_from(p.core, hi.core, 0) == Order::Less);
    } else if minor > 0 {
        assert(num_at(hi.core, 0) == 0);
        assert(compare_numeric_from(p.core, hi.core, 1) == Order::Less);
    } else {
        assert(num_at(hi.core, 0) == 0);
        assert(num_at(hi.core, 1) == 0);
        assert(compare_numeric_from(p.core, hi.core, 2) == Order::Less);
    }
}

proof fn lemma_words_split(cur: Seq<char>, a: Seq<char>, rest: Seq<char>)
    requires
        rest.len() > 0,
        text::is_white_space(rest[0]),
    ensures
        text::words_acc(cur, a + rest) == text::words_acc(cur, a) + text::words_acc(Seq::empty(), rest.drop_first()),
    decreases a.len(),
{
    let emit = if cur.len() == 0 { Seq::<Seq<char>>::empty() } else { seq![cur] };
    if a.len() == 0 {
        assert(a + rest =~= rest);
        assert(text::words_acc(cur, a) == emit);
    } else {
        assert((a + rest)[0] == a[0]);
        assert((a + rest).drop_first() =~= a.drop_first() + rest);
        if text::is_white_space(a[0]) {
            lemma_words_split(Seq::empty(), a.drop_first(), rest);
            assert(emit + (text::words_acc(Seq::empty(), a.drop_first()) + text::words_acc(
                Seq::empty(),
                rest.drop_first(),
            )) =~= (emit + text::words_acc(Seq::empty(), a.drop_first())) + text::words_acc(
                Seq::empty(),
                rest.drop_first(),
            ));
        } else {
            lemma_words_split(cur.push(a[0]), a.drop_first(), rest);
        }
    }
}

proof fn lemma_range_eval_shift(v: SpecVersion, t1: Seq<Seq<char>>, t2: Seq<Seq<char>>, j: int)
    requires
        0 <= j <= t2.len(),
    ensures
        range_eval(v, t1 + t2, t1.len() + j) == range_eval(v, t2, j),
    decreases t2.len() - j,
{
    if j < t2.len() {
        assert((t1 + t2)[t1.len() + j] == t2[j]);
        lemma_range_eval_shift(v, t1, t2, j + 1);
    }
}

proof fn lemma_range_eval_concat(v: SpecVersion, t1: Seq<Seq<char>>, t2: Seq<Seq<char>>, i: int)
    requires
        0 <= i <= t1.len(),
    ensures
        range_eval(v, t1 + t2, i) == (match range_eval(v, t1, i) {
            Some(true) => range_eval(v, t2, 0),
            other => other,
        }),
    decreases t1.len() - i,
{
    if i == t1.len() {
        lemma_range_eval_shift(v, t1, t2, 0);
    } else {
        assert((t1 + t2)[i] == t1[i]);
        lemma_range_eval_concat(v, t1, t2, i + 1);
    }
}

/// An alternative is the conjunction of its parts: `r1 r2` (joined by a
/// space, neither holding `||`) holds exactly where `r1` holds and then
/// `r2` holds, evaluated left to right (an overflowing bound in `r2`
/// matters only once `r1` holds).
pub proof fn law_range_conjunction(v: Seq<char>, r1: Seq<char>, r2: Seq<char>)
    requires
        has_no_bars(r1),
        has_no_bars(r2),
    ensures
        range_outcome(v, r1 + " "@ + r2) == (match range_outcome(v, r1) {
            Some(true) => range_outcome(v, r2),
            other => other,
        }),
{
    reveal_strlit(" ");
    let rest = " "@ + r2;
    let r = r1 + rest;
    assert(rest[0] == ' ');
    assert(r1 + " "@ + r2 =~= r);
    assert forall|k: int| 0 <= k < r.len() - 1 implies !(#[trigger] r[k] == '|' && r[k + 1] == '|') by {
        if k + 1 < r1.len() {
            assert(r[k] == r1[k] && r[k + 1] == r1[k + 1]);
        } else if k + 1 == r1.len() {
            assert(r[k + 1] == ' ');
        } else if k == r1.len() {
            assert(r[k] == ' ');
        } else {
            assert(r[k] == r2[k - r1.len() - 1] && r[k + 1] == r2[k - r1.len()]);
        }
    }
    lemma_single_alternative(v, r);
    lemma_single_alternative(v, r1);
    lemma_single_alternative(v, r2);
    lemma_words_split(Seq::empty(), r1, rest);
    assert(rest.drop_first() =~= r2);
    lemma_range_eval_concat(parse_version(v), text::words(r1), text::words(r2), 0);
}

/// A prerelease identifier that reads as a number is written as that
/// number is (no sign, no leading zeros): `7`, not `07` or `+7`.
pub open spec fn canonical_ident(x: Seq<char>) -> bool {
    match text::parse_u64(x) {
        Some(n) => x == text::decimal(n as nat),
        None => true,
    }
}

/// Every prerelease identifier of the version string is canonical.
pub open spec fn canonical_version(v: Seq<char>) -> bool {
    match parse_version(v).pre {
        Some(ids) => forall|k: int| 0 <= k < ids.len() ==> canonical_ident(#[trigger] ids[k]),
        None => true,
    }
}

/// An identifier's class in the prerelease order: empty, numeric, other.
pub open spec fn ident_class(x: Seq<char>) -> int {
    if x.len() == 0 {
        0
    } else if text::parse_u64(x) is Some {
        1
    } else {
        2
    }
}

proof fn lemma_lex_refl(x: Seq<char>, i: int)
    requires
        0 <= i,
    ensures
        lex_from(x, x, i) == Order::Equal,
    decreases x.len() - i,
{
    if i < x.len() {
        lemma_lex_refl(x, i + 1);
    }
}

proof fn lemma_lex_equal(x: Seq<char>, y: Seq<char>, i: int)
    requires
        0 <= i <= x.len(),
        x.take(i) == y.take(i),
        i <= y.len(),
        lex_from(x, y, i) == Order::Equal,
    ensures
        x == y,
    decreases x.len() - i,
{
    if i >= x.len() {
        assert(i >= y.len());
        assert(x.take(i) =~= x);
        assert(y.take(i) =~= y);
    } else {
        assert(i < y.len() && x[i] == y[i]);
        assert(x.take(i + 1) =~= x.take(i).push(x[i]));
        assert(y.take(i + 1) =~= y.take(i).push(y[i]));
        lemma_lex_equal(x, y, i + 1);
    }
}

proof fn lemma_lex_trans(x: Seq<char>, y: Seq<char>, z: Seq<char>, i: int)
    requires
        0 <= i,
        lex_from(x, y, i) == Order::Less,
        lex_from(y, z, i) == Order::Less,
    ensures
        lex_from(x, z, i) == Order::Less,
    decreases x.len() - i,
{
    if i < x.len() && i < y.len() && i < z.len() && x[i] == y[i] && y[i] == z[i] {
        lemma_lex_trans(x, y, z, i + 1);
    }
}

/// Between two different identifiers, `compare_idents` orders by class,
/// then by value or text.
proof fn lemma_idents_less(x: Seq<char>, y: Seq<char>)
    requires
        x != y,
    ensures
        (compare_idents(x, y) == Some(Order::Less)) == (ident_class(x) < ident_class(y) || (ident_class(x)
            == 1 && ident_class(y) == 1 && text::parse_u64(x).unwrap() < text::parse_u64(y).unwrap()) || (
        ident_class(x) == 2 && ident_class(y) == 2 && lex_from(x, y, 0) == Order::Less)),
{
    if x.len() == 0 && y.len() == 0 {
        assert(x =~= y);
    }
}

proof fn lemma_idents_not_equal(x: Seq<char>, y: Seq<char>)
    requires
        x != y,
        canonical_ident(x),
        canonical_ident(y),
    ensures
        compare_idents(x, y) != Some(Order::Equal),
{
    if x.len() == 0 && y.len() == 0 {
        assert(x =~= y);
    }
    if x.len() != 0 && y.len() != 0 {
        match (text::parse_u64(x), text::parse_u64(y)) {
            (None, None) => {
                if lex_from(x, y, 0) == Order::Equal {
                    assert(x.take(0) =~= y.take(0));
                    lemma_lex_equal(x, y, 0);
                }
            },
            _ => {},
        }
    }
}

proof fn lemma_idents_trans(x: Seq<char>, y: Seq<char>, z: Seq<char>)
    requires
        compare_idents(x, y) == Some(Order::Less),
        compare_idents(y, z) == Some(Order::Less),
    ensures
        compare_idents(x, z) == Some(Order::Less),
{
    lemma_idents_less(x, y);
    lemma_idents_less(y, z);
    if x == z {
        lemma_idents_flip(x, y);
    } else {
        lemma_idents_less(x, z);
        if ident_class(x) == 2 && ident_class(y) == 2 && ident_class(z) == 2 {
            lemma_lex_trans(x, y, z, 0);
        }
    }
}

proof fn lemma_pre_step(a: Seq<Seq<char>>, b: Seq<Seq<char>>, i: int)
    requires
        0 <= i,
    ensures
        compare_prerelease_from(a, b, i) == (match compare_idents(field_at(a, i), field_at(b, i)) {
            None => compare_prerelease_from(a, b, i + 1),
            Some(o) => o,
        }),
{
    if i >= longer(a.len(), b.len()) {
        assert(field_at(a, i) == field_at(b, i));
    }
}

proof fn lemma_pre_trans(a: Seq<Seq<char>>, b: Seq<Seq<char>>, c: Seq<Seq<char>>, i: int)
    requires
        0 <= i,
        forall|k: int| 0 <= k < a.len() ==> canonical_ident(#[trigger] a[k]),
        forall|k: int| 0 <= k < b.len() ==> canonical_ident(#[trigger] b[k]),
        forall|k: int| 0 <= k < c.len() ==> canonical_ident(#[trigger] c[k]),
        compare_prerelease_from(a, b, i) != Order::Greater,
        compare_prerelease_from(b, c, i) != Order::Greater,
    ensures
        compare_prerelease_from(a, c, i) != Order::Greater,
    decreases longer(longer(a.len(), b.len()), c.len()) - i,
{
    let fa = field_at(a, i);
    let fb = field_at(b, i);
    let fc = field_at(c, i);
    if i >= longer(longer(a.len(), b.len()), c.len()) {
        assert(i >= longer(a.len(), c.len()));
    } else {
        lemma_pre_step(a, b, i);
        lemma_pre_step(b, c, i);
        lemma_pre_step(a, c, i);
        assert(canonical_ident(fa) && canonical_ident(fb) && canonical_ident(fc)) by {
            if 0 <= i < a.len() { assert(canonical_ident(a[i])); }
            if 0 <= i < b.len() { assert(canonical_ident(b[i])); }
            if 0 <= i < c.len() { assert(canonical_ident(c[i])); }
        }
        if fa == fb {
            if fb == fc {
                lemma_pre_trans(a, b, c, i + 1);
            }
        } else if fb == fc {
        } else {
            lemma_idents_not_equal(fa, fb);
            lemma_idents_not_equal(fb, fc);
            assert(compare_idents(fa, fb) == Some(Order::Less));
            assert(compare_idents(fb, fc) == Some(Order::Less));
            lemma_idents_trans(fa, fb, fc);
        }
    }
}

proof fn lemma_num_step(a: Seq<u64>, b: Seq<u64>, i: int)
    requires
        0 <= i,
    ensures
        compare_numeric_from(a, b, i) == (if num_at(a, i) < num_at(b, i) {
            Order::Less
        } else if num_at(a, i) > num_at(b, i) {
            Order::Greater
        } else {
            compare_numeric_from(a, b, i + 1)
        }),
{
}

proof fn lemma_num_trans(a: Seq<u64>, b: Seq<u64>, c: Seq<u64>, i: int)
    requires
        0 <= i,
        compare_numeric_from(a, b, i) != Order::Greater,
        compare_numeric_from(b, c, i) != Order::Greater,
    ensures
        compare_numeric_from(a, c, i) != Order::Greater,
        compare_numeric_from(a, b, i) == Order::Less || compare_numeric_from(b, c, i) == Order::Less
            ==> compare_numeric_from(a, c, i) == Order::Less,
    decreases longer(longer(a.len(), b.len()), c.len()) - i,
{
    if i < longer(longer(a.len(), b.len()), c.len()) {
        lemma_num_step(a, b, i);
        lemma_num_step(b, c, i);
        lemma_num_step(a, c, i);
        if num_at(a, i) == num_at(b, i) && num_at(b, i) == num_at(c, i) {
            lemma_num_trans(a, b, c, i + 1);
        }
    }
}

/// Version order is transitive where every prerelease identifier that reads
/// as a number is written canonically: `a <= b` and `b <= c` give `a <= c`,
/// and `a == b` and `b == c` give `a == c` (so `max_by` and sorting with
/// `version_cmp` are well defined on such versions).
pub proof fn law_version_order_transitive(a: Seq<char>, b: Seq<char>, c: Seq<char>)
    requires
        canonical_version(a),
        canonical_version(b),
        canonical_version(c),
    ensures
        version_order(a, b) != Order::Greater && version_order(b, c) != Order::Greater
            ==> version_order(a, c) != Order::Greater,
        version_order(a, b) == Order::Equal && version_order(b, c) == Order::Equal
            ==> version_order(a, c) == Order::Equal,
{
    lemma_order_le_trans(a, b, c);
    lemma_order_le_trans(c, b, a);
    law_version_order_antisymmetric(a, b);
    law_version_order_antisymmetric(b, c);
    law_version_order_antisymmetric(a, c);
}

proof fn lemma_order_le_trans(a: Seq<char>, b: Seq<char>, c: Seq<char>)
    requires
        canonical_version(a),
        canonical_version(b),
        canonical_version(c),
    ensures
        version_order(a, b) != Order::Greater && version_order(b, c) != Order::Greater
            ==> version_order(a, c) != Order::Greater,
{
    let pa = parse_version(a);
    let pb = parse_version(b);
    let pc = parse_version(c);
    if version_order(a, b) != Order::Greater && version_order(b, c) != Order::Greater {
        let n1 = compare_numeric_from(pa.core, pb.core, 0);
        let n2 = compare_numeric_from(pb.core, pc.core, 0);
        lemma_num_trans(pa.core, pb.core, pc.core, 0);
        if n1 == Order::Equal && n2 == Order::Equal {
            lemma_numeric_flip(pa.core, pb.core, 0);
            lemma_numeric_flip(pb.core, pc.core, 0);
            lemma_numeric_flip(pa.core, pc.core, 0);
            lemma_num_trans(pc.core, pb.core, pa.core, 0);
            match (pa.pre, pb.pre, pc.pre) {
                (Some(x), Some(y), Some(z)) => lemma_pre_trans(x, y, z, 0),
                _ => {},
            }
        }
    }
}

proof fn lemma_below_bound_below_release(v: SpecVersion, hi: SpecVersion)
    requires
        hi.pre is Some,
        compare_parsed(v, hi) == Order::Less,
    ensures
        compare_parsed(v, SpecVersion { core: hi.core, pre: None }) == Order::Less,
{
}

/// A tilde range `~w` admits only versions from `w` on and below the next
/// minor release `M.(m+1).0` of `w = M.m.p`; a caret range `^w` only
/// versions from `w` on and below the next release that changes its first
/// non-zero number (`(M+1).0.0`, else `0.(m+1).0`, else `0.0.(p+1)`). And
/// `~w` admits `w` itself (for `w` without white space, `||` or
/// wildcards, where `m + 1` fits).
pub proof fn law_tilde_caret_bounds(v: Seq<char>, w: Seq<char>)
    requires
        w.len() > 0,
        plain_text(w),
        wild_index(core_fields(w)) is None,
    ensures
        ({
            let major = num_at(parse_version(w).core, 0);
            let minor = num_at(parse_version(w).core, 1);
            let patch = num_at(parse_version(w).core, 2);
            &&& range_outcome(v, seq!['~'] + w) == Some(true) ==> version_order(v, w) != Order::Less
                && compare_parsed(
                parse_version(v),
                SpecVersion { core: seq![major, (minor + 1) as u64, 0], pre: None },
            ) == Order::Less
            &&& range_outcome(v, seq!['^'] + w) == Some(true) ==> version_order(v, w) != Order::Less
                && compare_parsed(
                parse_version(v),
                SpecVersion {
                    core: if major > 0 {
                        seq![(major + 1) as u64, 0, 0]
                    } else if minor > 0 {
                        seq![0, (minor + 1) as u64, 0]
                    } else {
                        seq![0, 0, (patch + 1) as u64]
                    },
                    pre: None,
                },
            ) == Order::Less
            &&& minor < u64::MAX ==> range_outcome(w, seq!['~'] + w) == Some(true)
        }),
{
    let pv = parse_version(v);
    let pw = parse_version(w);
    let tt = seq!['~'] + w;
    let tc = seq!['^'] + w;
    lemma_plain_prefixed(seq!['~'], w);
    lemma_plain_prefixed(seq!['^'], w);
    lemma_token_range(v, tt);
    lemma_token_range(v, tc);
    lemma_token_range(w, tt);
    assert(tt.skip(1) =~= w && tt[0] == '~');
    assert(tc.skip(1) =~= w && tc[0] == '^');
    match tilde_upper(pw.core) {
        Some(hi) => {
            if compare_parsed(pv, hi) == Order::Less {
                lemma_below_bound_below_release(pv, hi);
            }
            law_version_order_reflexive(w);
            let m = num_at(pw.core, 1);
            assert(compare_numeric_from(pw.core, hi.core, 0) == Order::Less) by {
                assert(num_at(hi.core, 0) == num_at(pw.core, 0));
                assert(num_at(hi.core, 1) == m + 1);
                assert(compare_numeric_from(pw.core, hi.core, 1) == Order::Less);
            }
        },
        None => {},
    }
    match caret_upper(pw.core) {
        Some(hi) => {
            if compare_parsed(pv, hi) == Order::Less {
                lemma_below_bound_below_release(pv, hi);
            }
        },
        None => {},
    }
}

} // verus!
