//! The `Cache-Control` header: its directives, how they are written and how
//! they are read back.

use crate::text::{
    chars_of, decimal, find, find_in, join, parse_unsigned, parse_unsigned_in, push_decimal,
    push_str, range_eq, split, string_from, trim, trim_bounds,
};
use vstd::prelude::*;
use vstd::string::*;

verus! {

/// Indicates the basic cacheability of a response.
#[derive(Clone, Copy, Debug, PartialEq, Eq, Structural, Hash)]
pub enum Cachability {
    /// `public`: the response can be stored in a shared cache.
    Public,
    /// `private`: the response can be stored only in a private cache.
    Private,
    /// `no-cache`: the response must be validated with the origin server before each reuse.
    NoCache,
}

impl Cachability {
    /// The directive's name in kebab case.
    pub open spec fn spec_name(self) -> Seq<char> {
        match self {
            Cachability::Public => "public"@,
            Cachability::Private => "private"@,
            Cachability::NoCache => "no-cache"@,
        }
    }

    /// The directive's name in kebab case (`public`, `private`, `no-cache`).
    pub fn as_str(&self) -> (s: &'static str)
        ensures
            s@ == self.spec_name(),
    {
        match self {
            Cachability::Public => "public",
            Cachability::Private => "private",
            Cachability::NoCache => "no-cache",
        }
    }

    /// The directive's name, as the value is displayed.
    pub fn to_string(&self) -> (s: String)
        ensures
            s@ == self.spec_name(),
    {
        self.as_str().to_owned()
    }
}

/// The directives of a `Cache-Control` header, in requests and responses.
/// Durations are whole seconds.
#[derive(Clone, Copy, Debug, PartialEq, Eq, Structural, Hash)]
pub struct CacheControl {
    /// `public`, `private` or `no-cache`.
    pub cachability: Option<Cachability>,
    /// `max-age=N`: fresh until N seconds after the response was generated.
    pub max_age: Option<u64>,
    /// `s-maxage=N`: how long the response stays fresh in a shared cache.
    pub s_maxage: Option<u64>,
    /// `no-store`: no cache of any kind should store the response.
    pub no_store: bool,
    /// `no-transform`: intermediaries should not transform the response.
    pub no_transform: bool,
    /// `must-revalidate`: a stale response must be validated before reuse.
    pub must_revalidate: bool,
    /// `proxy-revalidate`: `must-revalidate` for shared caches only.
    pub proxy_revalidate: bool,
    /// `must-understand`: store only if the caching rules of the status are understood.
    pub must_understand: bool,
    /// `immutable`: the response will not change while it is fresh.
    pub immutable: bool,
    /// `stale-while-revalidate=N`: a stale response may be reused for N seconds while it is revalidated.
    pub stale_while_revalidate: Option<u64>,
    /// `stale-if-error=N`: a stale response may be reused for N seconds when the origin fails.
    pub stale_if_error: Option<u64>,
}

/// No directive at all.
pub open spec fn empty_cache_control() -> CacheControl {
    CacheControl {
        cachability: None,
        max_age: None,
        s_maxage: None,
        no_store: false,
        no_transform: false,
        must_revalidate: false,
        proxy_revalidate: false,
        must_understand: false,
        immutable: false,
        stale_while_revalidate: None,
        stale_if_error: None,
    }
}

impl Default for CacheControl {
    /// No directive at all.
    fn default() -> (cc: CacheControl)
        ensures
            cc == empty_cache_control(),
    {
        CacheControl {
            cachability: None,
            max_age: None,
            s_maxage: None,
            no_store: false,
            no_transform: false,
            must_revalidate: false,
            proxy_revalidate: false,
            must_understand: false,
            immutable: false,
            stale_while_revalidate: None,
            stale_if_error: None,
        }
    }
}

// ---------- writing ----------

/// The text `name=N` when a duration is set, nothing otherwise.
pub open spec fn seconds_part(name: Seq<char>, v: Option<u64>) -> Seq<Seq<char>> {
    match v {
        Some(n) => seq![name + "="@ + decimal(n as nat)],
        None => Seq::empty(),
    }
}

/// The text `name` when a flag is set, nothing otherwise.
pub open spec fn flag_part(name: Seq<char>, b: bool) -> Seq<Seq<char>> {
    if b {
        seq![name]
    } else {
        Seq::empty()
    }
}

/// The name of the cachability when one is set, nothing otherwise.
pub open spec fn cachability_part(c: Option<Cachability>) -> Seq<Seq<char>> {
    match c {
        Some(c) => seq![c.spec_name()],
        None => Seq::empty(),
    }
}

/// The directives that are set, in the order in which they are written.
pub open spec fn cache_control_parts(cc: CacheControl) -> Seq<Seq<char>> {
    cachability_part(cc.cachability) + seconds_part("max-age"@, cc.max_age) + seconds_part(
        "s-maxage"@,
        cc.s_maxage,
    ) + flag_part("no-store"@, cc.no_store) + flag_part("no-transform"@, cc.no_transform)
        + flag_part("must-revalidate"@, cc.must_revalidate) + flag_part(
        "proxy-revalidate"@,
        cc.proxy_revalidate,
    ) + flag_part("must-understand"@, cc.must_understand) + flag_part(
        "immutable"@,
        cc.immutable,
    ) + seconds_part("stale-while-revalidate"@, cc.stale_while_revalidate) + seconds_part(
        "stale-if-error"@,
        cc.stale_if_error,
    )
}

/// The header value: the directives that are set, separated by `", "`.
pub open spec fn cache_control_text(cc: CacheControl) -> Seq<char> {
    join(cache_control_parts(cc), ", "@)
}

/// Appends one more directive to the text written so far.
fn append_part(s: &mut String, parts: Ghost<Seq<Seq<char>>>, part: &str) -> (r: Ghost<
    Seq<Seq<char>>,
>)
    requires
        old(s)@ == join(parts@, ", "@),
        (parts@.len() == 0) == (old(s)@.len() == 0),
        part@.len() > 0,
    ensures
        r@ == parts@.push(part@),
        final(s)@ == join(r@, ", "@),
        final(s)@.len() > 0,
{
    let ghost ps = parts@.push(part@);
    assert(ps.drop_last() =~= parts@);
    if !s.as_str().is_empty() {
        push_str(s, ", ");
    } else {
        assert(s@ =~= Seq::<char>::empty());
    }
    push_str(s, part);
    proof {
        if parts@.len() == 0 {
            assert(s@ =~= ps[0]);
        }
    }
    Ghost(ps)
}

/// Appends `name=N` when a duration is set.
fn append_seconds(s: &mut String, parts: Ghost<Seq<Seq<char>>>, name: &str, v: Option<u64>) -> (r:
    Ghost<Seq<Seq<char>>>)
    requires
        old(s)@ == join(parts@, ", "@),
        (parts@.len() == 0) == (old(s)@.len() == 0),
    ensures
        r@ == parts@ + seconds_part(name@, v),
        final(s)@ == join(r@, ", "@),
        (r@.len() == 0) == (final(s)@.len() == 0),
{
    match v {
        Some(n) => {
            let mut part = String::new();
            push_str(&mut part, name);
            push_str(&mut part, "=");
            push_decimal(&mut part, n);
            assert(decimal(n as nat).len() > 0);
            let r = append_part(s, parts, part.as_str());
            assert(r@ =~= parts@ + seconds_part(name@, v));
            r
        },
        None => {
            assert(parts@ + seconds_part(name@, v) =~= parts@);
            parts
        },
    }
}

/// Appends `name` when a flag is set.
fn append_flag(s: &mut String, parts: Ghost<Seq<Seq<char>>>, name: &str, b: bool) -> (r: Ghost<
    Seq<Seq<char>>,
>)
    requires
        old(s)@ == join(parts@, ", "@),
        (parts@.len() == 0) == (old(s)@.len() == 0),
        name@.len() > 0,
    ensures
        r@ == parts@ + flag_part(name@, b),
        final(s)@ == join(r@, ", "@),
        (r@.len() == 0) == (final(s)@.len() == 0),
{
    if b {
        let r = append_part(s, parts, name);
        assert(r@ =~= parts@ + flag_part(name@, b));
        r
    } else {
        assert(parts@ + flag_part(name@, b) =~= parts@);
        parts
    }
}

impl CacheControl {
    /// The header value: the directives that are set, in a fixed order,
    /// separated by `", "` (e.g. `public, max-age=604800, immutable`).
    pub fn to_string(&self) -> (s: String)
        ensures
            s@ == cache_control_text(*self),
    {
        proof {
            reveal_strlit("public");
            reveal_strlit("private");
            reveal_strlit("no-cache");
            reveal_strlit("no-store");
            reveal_strlit("no-transform");
            reveal_strlit("must-revalidate");
            reveal_strlit("proxy-revalidate");
            reveal_strlit("must-understand");
            reveal_strlit("immutable");
        }
        let mut s = String::new();
        let mut parts: Ghost<Seq<Seq<char>>> = Ghost(Seq::empty());
        assert(s@ =~= join(parts@, ", "@));
        match self.cachability {
            Some(c) => {
                parts = append_part(&mut s, parts, c.as_str());
            },
            None => {},
        }
        assert(parts@ =~= cachability_part(self.cachability));
        parts = append_seconds(&mut s, parts, "max-age", self.max_age);
        parts = append_seconds(&mut s, parts, "s-maxage", self.s_maxage);
        parts = append_flag(&mut s, parts, "no-store", self.no_store);
        parts = append_flag(&mut s, parts, "no-transform", self.no_transform);
        parts = append_flag(&mut s, parts, "must-revalidate", self.must_revalidate);
        parts = append_flag(&mut s, parts, "proxy-revalidate", self.proxy_revalidate);
        parts = append_flag(&mut s, parts, "must-understand", self.must_understand);
        parts = append_flag(&mut s, parts, "immutable", self.immutable);
        parts = append_seconds(&mut s, parts, "stale-while-revalidate", self.stale_while_revalidate);
        parts = append_seconds(&mut s, parts, "stale-if-error", self.stale_if_error);
        assert(parts@ =~= cache_control_parts(*self));
        s
    }
}

// ---------- reading ----------

/// The message of a `Cache-Control` parse error.
#[derive(Debug)]
pub struct ParseCacheControlError(String);

impl ParseCacheControlError {
    /// What went wrong with which directive.
    pub closed spec fn spec_message(&self) -> Seq<char> {
        self.0@
    }

    /// What went wrong with which directive, e.g. `'max-age' requires a value`.
    pub fn message(&self) -> (m: &str)
        ensures
            m@ == self.spec_message(),
    {
        self.0.as_str()
    }

    /// The error as displayed: `invalid Cache-Control directive: ` and the message.
    pub fn to_string(&self) -> (s: String)
        ensures
            s@ == "invalid Cache-Control directive: "@ + self.spec_message(),
    {
        let mut s = String::new();
        push_str(&mut s, "invalid Cache-Control directive: ");
        push_str(&mut s, self.0.as_str());
        s
    }
}

/// The key of a trimmed directive: what stands before the first `=`, trimmed,
/// or the whole directive when it has no `=`.
pub open spec fn directive_key(d: Seq<char>) -> Seq<char> {
    let i = find(d, '=');
    if i < d.len() {
        trim(d.subrange(0, i as int))
    } else {
        d
    }
}

/// The value of a trimmed directive: what stands after the first `=`, trimmed.
pub open spec fn directive_value(d: Seq<char>) -> Option<Seq<char>> {
    let i = find(d, '=');
    if i < d.len() {
        Some(trim(d.subrange(i + 1int, d.len() as int)))
    } else {
        None
    }
}

/// The seconds of a directive that needs them, or the error message.
pub open spec fn directive_seconds(key: Seq<char>, value: Option<Seq<char>>) -> Result<u64, Seq<char>> {
    match value {
        None => Err("'"@ + key + "' requires a value"@),
        Some(v) => match parse_unsigned(v, u64::MAX as nat) {
            Some(n) => Ok(n as u64),
            None => Err("'"@ + key + "="@ + v + "' is not a valid integer"@),
        },
    }
}

/// The effect of one directive on the directives read so far. Unknown keys
/// change nothing.
pub open spec fn apply_key(cc: CacheControl, key: Seq<char>, value: Option<Seq<char>>) -> Result<
    CacheControl,
    Seq<char>,
> {
    if key == "public"@ {
        Ok(CacheControl { cachability: Some(Cachability::Public), ..cc })
    } else if key == "private"@ {
        Ok(CacheControl { cachability: Some(Cachability::Private), ..cc })
    } else if key == "no-cache"@ {
        Ok(CacheControl { cachability: Some(Cachability::NoCache), ..cc })
    } else if key == "max-age"@ {
        match directive_seconds(key, value) {
            Ok(n) => Ok(CacheControl { max_age: Some(n), ..cc }),
            Err(m) => Err(m),
        }
    } else if key == "s-maxage"@ {
        match directive_seconds(key, value) {
            Ok(n) => Ok(CacheControl { s_maxage: Some(n), ..cc }),
            Err(m) => Err(m),
        }
    } else if key == "no-store"@ {
        Ok(CacheControl { no_store: true, ..cc })
    } else if key == "no-transform"@ {
        Ok(CacheControl { no_transform: true, ..cc })
    } else if key == "must-revalidate"@ {
        Ok(CacheControl { must_revalidate: true, ..cc })
    } else if key == "proxy-revalidate"@ {
        Ok(CacheControl { proxy_revalidate: true, ..cc })
    } else if key == "must-understand"@ {
        Ok(CacheControl { must_understand: true, ..cc })
    } else if key == "immutable"@ {
        Ok(CacheControl { immutable: true, ..cc })
    } else if key == "stale-while-revalidate"@ {
        match directive_seconds(key, value) {
            Ok(n) => Ok(CacheControl { stale_while_revalidate: Some(n), ..cc }),
            Err(m) => Err(m),
        }
    } else if key == "stale-if-error"@ {
        match directive_seconds(key, value) {
            Ok(n) => Ok(CacheControl { stale_if_error: Some(n), ..cc }),
            Err(m) => Err(m),
        }
    } else {
        Ok(cc)
    }
}

/// The effect of one comma-separated piece: it is trimmed, and an empty
/// piece changes nothing.
pub open spec fn apply_directive(cc: CacheControl, piece: Seq<char>) -> Result<CacheControl, Seq<char>> {
    let d = trim(piece);
    if d.len() == 0 {
        Ok(cc)
    } else {
        apply_key(cc, directive_key(d), directive_value(d))
    }
}

/// The pieces applied in order; the first error ends the reading.
pub open spec fn apply_directives(cc: CacheControl, pieces: Seq<Seq<char>>) -> Result<
    CacheControl,
    Seq<char>,
>
    decreases pieces.len(),
{
    if pieces.len() == 0 {
        Ok(cc)
    } else {
        match apply_directive(cc, pieces[0]) {
            Ok(c) => apply_directives(c, pieces.drop_first()),
            Err(m) => Err(m),
        }
    }
}

/// What a header value reads as: its comma-separated pieces applied to no directive.
pub open spec fn parse_cache_control(s: Seq<char>) -> Result<CacheControl, Seq<char>> {
    apply_directives(empty_cache_control(), split(s, ','))
}

/// The message for a directive whose seconds are missing or not an integer.
fn seconds_in(v: &Vec<char>, ka: usize, kb: usize, value: Option<(usize, usize)>) -> (r: Result<
    u64,
    String,
>)
    requires
        ka <= kb <= v@.len(),
        value matches Some((va, vb)) ==> va <= vb <= v@.len(),
    ensures
        r matches Ok(n) ==> directive_seconds(
            v@.subrange(ka as int, kb as int),
            match value {
                Some((va, vb)) => Some(v@.subrange(va as int, vb as int)),
                None => None,
            },
        ) == Ok::<u64, Seq<char>>(n),
        r matches Err(m) ==> directive_seconds(
            v@.subrange(ka as int, kb as int),
            match value {
                Some((va, vb)) => Some(v@.subrange(va as int, vb as int)),
                None => None,
            },
        ) == Err::<u64, Seq<char>>(m@),
{
    let key = string_from(v, ka, kb);
    match value {
        None => {
            let mut m = String::new();
            push_str(&mut m, "'");
            push_str(&mut m, key.as_str());
            push_str(&mut m, "' requires a value");
            Err(m)
        },
        Some((va, vb)) => match parse_unsigned_in(v, va, vb, u64::MAX) {
            Some(n) => Ok(n),
            None => {
                let text = string_from(v, va, vb);
                let mut m = String::new();
                push_str(&mut m, "'");
                push_str(&mut m, key.as_str());
                push_str(&mut m, "=");
                push_str(&mut m, text.as_str());
                push_str(&mut m, "' is not a valid integer");
                Err(m)
            },
        },
    }
}

/// Applies the directive with key `v[ka..kb]` and value `v[va..vb]` (if any).
fn apply_key_in(cc: &mut CacheControl, v: &Vec<char>, ka: usize, kb: usize, value: Option<(usize, usize)>) -> (r: Result<(), String>)
    requires
        ka <= kb <= v@.len(),
        value matches Some((va, vb)) ==> va <= vb <= v@.len(),
    ensures
        r is Ok ==> apply_key(
            *old(cc),
            v@.subrange(ka as int, kb as int),
            match value {
                Some((va, vb)) => Some(v@.subrange(va as int, vb as int)),
                None => None,
            },
        ) == Ok::<CacheControl, Seq<char>>(*final(cc)),
        r matches Err(m) ==> apply_key(
            *old(cc),
            v@.subrange(ka as int, kb as int),
            match value {
                Some((va, vb)) => Some(v@.subrange(va as int, vb as int)),
                None => None,
            },
        ) == Err::<CacheControl, Seq<char>>(m@),
{
    if range_eq(v, ka, kb, "public") {
        cc.cachability = Some(Cachability::Public);
    } else if range_eq(v, ka, kb, "private") {
        cc.cachability = Some(Cachability::Private);
    } else if range_eq(v, ka, kb, "no-cache") {
        cc.cachability = Some(Cachability::NoCache);
    } else if range_eq(v, ka, kb, "max-age") {
        match seconds_in(v, ka, kb, value) {
            Ok(n) => cc.max_age = Some(n),
            Err(m) => return Err(m),
        }
    } else if range_eq(v, ka, kb, "s-maxage") {
        match seconds_in(v, ka, kb, value) {
            Ok(n) => cc.s_maxage = Some(n),
            Err(m) => return Err(m),
        }
    } else if range_eq(v, ka, kb, "no-store") {
        cc.no_store = true;
    } else if range_eq(v, ka, kb, "no-transform") {
        cc.no_transform = true;
    } else if range_eq(v, ka, kb, "must-revalidate") {
        cc.must_revalidate = true;
    } else if range_eq(v, ka, kb, "proxy-revalidate") {
        cc.proxy_revalidate = true;
    } else if range_eq(v, ka, kb, "must-understand") {
        cc.must_understand = true;
    } else if range_eq(v, ka, kb, "immutable") {
        cc.immutable = true;
    } else if range_eq(v, ka, kb, "stale-while-revalidate") {
        match seconds_in(v, ka, kb, value) {
            Ok(n) => cc.stale_while_revalidate = Some(n),
            Err(m) => return Err(m),
        }
    } else if range_eq(v, ka, kb, "stale-if-error") {
        match seconds_in(v, ka, kb, value) {
            Ok(n) => cc.stale_if_error = Some(n),
            Err(m) => return Err(m),
        }
    }
    Ok(())
}

/// Applies the comma-separated piece `v[lo..hi]`.
fn apply_directive_in(cc: &mut CacheControl, v: &Vec<char>, lo: usize, hi: usize) -> (r: Result<(), String>)
    requires
        lo <= hi <= v@.len(),
    ensures
        r is Ok ==> apply_directive(*old(cc), v@.subrange(lo as int, hi as int)) == Ok::<
            CacheControl,
            Seq<char>,
        >(*final(cc)),
        r matches Err(m) ==> apply_directive(*old(cc), v@.subrange(lo as int, hi as int))
            == Err::<CacheControl, Seq<char>>(m@),
{
    let (a, b) = trim_bounds(v, lo, hi);
    let ghost d = v@.subrange(a as int, b as int);
    if a == b {
        return Ok(());
    }
    let e = find_in(v, a, b, '=');
    if e < b {
        let (ka, kb) = trim_bounds(v, a, e);
        let (va, vb) = trim_bounds(v, e + 1, b);
        proof {
            assert(v@.subrange(a as int, e as int) =~= d.subrange(0, (e - a) as int));
            assert(v@.subrange(e + 1, b as int) =~= d.subrange((e - a) + 1, d.len() as int));
        }
        apply_key_in(cc, v, ka, kb, Some((va, vb)))
    } else {
        apply_key_in(cc, v, a, b, None)
    }
}

impl CacheControl {
    /// Reads a header value: the comma-separated directives are trimmed and
    /// applied in order to no directive. Empty pieces and unknown directives are
    /// skipped. A duration directive without `=value`, or with a value that is
    /// not an unsigned integer, is an error.
    pub fn parse(s: &str) -> (r: Result<CacheControl, ParseCacheControlError>)
        ensures
            r matches Ok(cc) ==> parse_cache_control(s@) == Ok::<CacheControl, Seq<char>>(cc),
            r matches Err(e) ==> parse_cache_control(s@) == Err::<CacheControl, Seq<char>>(
                e.spec_message(),
            ),
    {
        let v = chars_of(s);
        let n = v.len();
        let mut cc = CacheControl::default();
        let mut p: usize = 0;
        assert(v@.subrange(0, n as int) =~= s@);
        loop
            invariant
                p <= n,
                n == v@.len(),
                v@ == s@,
                parse_cache_control(s@) == apply_directives(cc, split(v@.subrange(p as int, n as int), ',')),
            decreases n - p,
        {
            let i = find_in(&v, p, n, ',');
            let ghost rest = v@.subrange(p as int, n as int);
            let ghost before = cc;
            if i < n {
                proof {
                    assert(rest.subrange(0, (i - p) as int) =~= v@.subrange(p as int, i as int));
                    assert(rest.subrange((i - p) + 1, rest.len() as int) =~= v@.subrange(i + 1, n as int));
                    let pieces = split(rest, ',');
                    assert(pieces[0] == v@.subrange(p as int, i as int));
                    assert(pieces.drop_first() =~= split(v@.subrange(i + 1, n as int), ','));
                }
                match apply_directive_in(&mut cc, &v, p, i) {
                    Ok(()) => {},
                    Err(m) => return Err(ParseCacheControlError(m)),
                }
                p = i + 1;
            } else {
                proof {
                    let pieces = split(rest, ',');
                    assert(pieces =~= seq![rest]);
                    assert(pieces.drop_first() =~= Seq::<Seq<char>>::empty());
                }
                match apply_directive_in(&mut cc, &v, p, n) {
                    Ok(()) => {
                        assert(apply_directives(cc, Seq::<Seq<char>>::empty()) == Ok::<CacheControl, Seq<char>>(cc));
                        return Ok(cc);
                    },
                    Err(m) => return Err(ParseCacheControlError(m)),
                }
            }
        }
    }
}

impl core::str::FromStr for CacheControl {
    type Err = ParseCacheControlError;

    /// Same as [`CacheControl::parse`].
    fn from_str(s: &str) -> (r: Result<CacheControl, ParseCacheControlError>)
        ensures
            r matches Ok(cc) ==> parse_cache_control(s@) == Ok::<CacheControl, Seq<char>>(cc),
            r matches Err(e) ==> parse_cache_control(s@) == Err::<CacheControl, Seq<char>>(
                e.spec_message(),
            ),
    {
        CacheControl::parse(s)
    }
}

} // verus!
