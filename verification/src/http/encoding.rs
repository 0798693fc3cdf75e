//! Content encodings and the `Accept-Encoding` header.

use crate::http::headers::{utf8_str, Header, ParseHeaderError, ACCEPT_ENCODING};
use crate::text::{chars_of, float_literal_in, float_literal_ok, is_whitespace, is_ws, range_eq, string_from};
use vstd::prelude::*;
use vstd::string::*;
use vstd::utf8::{decode_utf8, valid_utf8};

verus! {

/// Which content encoding, without a weight.
#[derive(Debug, Clone, Copy, PartialEq, Eq, Structural, Hash)]
pub enum EncodingKind {
    Gzip,
    Compress,
    Deflate,
    Br,
    Zstd,
    Dcb,
    Dcz,
    Identity,
    Wildcard,
    Unknown,
}

impl EncodingKind {
    /// The token that names the encoding (`unknown` for one that is not known).
    pub open spec fn spec_name(self) -> Seq<char> {
        match self {
            EncodingKind::Gzip => "gzip"@,
            EncodingKind::Compress => "compress"@,
            EncodingKind::Deflate => "deflate"@,
            EncodingKind::Br => "br"@,
            EncodingKind::Zstd => "zstd"@,
            EncodingKind::Dcb => "dcb"@,
            EncodingKind::Dcz => "dcz"@,
            EncodingKind::Identity => "identity"@,
            EncodingKind::Wildcard => "*"@,
            EncodingKind::Unknown => "unknown"@,
        }
    }

    /// The token that names the encoding.
    pub fn as_str(&self) -> (s: &'static str)
        ensures
            s@ == self.spec_name(),
    {
        match self {
            EncodingKind::Gzip => "gzip",
            EncodingKind::Compress => "compress",
            EncodingKind::Deflate => "deflate",
            EncodingKind::Br => "br",
            EncodingKind::Zstd => "zstd",
            EncodingKind::Dcb => "dcb",
            EncodingKind::Dcz => "dcz",
            EncodingKind::Identity => "identity",
            EncodingKind::Wildcard => "*",
            EncodingKind::Unknown => "unknown",
        }
    }
}

/// The encoding that a token names; any other token is `Unknown`.
pub open spec fn kind_for_name(s: Seq<char>) -> EncodingKind {
    if s == "gzip"@ {
        EncodingKind::Gzip
    } else if s == "compress"@ {
        EncodingKind::Compress
    } else if s == "deflate"@ {
        EncodingKind::Deflate
    } else if s == "br"@ {
        EncodingKind::Br
    } else if s == "zstd"@ {
        EncodingKind::Zstd
    } else if s == "dcb"@ {
        EncodingKind::Dcb
    } else if s == "dcz"@ {
        EncodingKind::Dcz
    } else if s == "identity"@ {
        EncodingKind::Identity
    } else if s == "*"@ {
        EncodingKind::Wildcard
    } else {
        EncodingKind::Unknown
    }
}

/// Each known encoding is named by its registered token, and that token reads
/// back as the encoding: `kind_for_name(k.spec_name()) == k` for every kind but
/// `Unknown`.
pub proof fn lemma_encoding_names(k: EncodingKind)
    ensures
        k != EncodingKind::Unknown ==> kind_for_name(k.spec_name()) == k,
        EncodingKind::Gzip.spec_name() == "gzip"@,
        EncodingKind::Compress.spec_name() == "compress"@,
        EncodingKind::Deflate.spec_name() == "deflate"@,
        EncodingKind::Br.spec_name() == "br"@,
        EncodingKind::Zstd.spec_name() == "zstd"@,
        EncodingKind::Dcb.spec_name() == "dcb"@,
        EncodingKind::Dcz.spec_name() == "dcz"@,
        EncodingKind::Identity.spec_name() == "identity"@,
        EncodingKind::Wildcard.spec_name() == "*"@,
        kind_for_name("gzip"@) == EncodingKind::Gzip,
        kind_for_name("compress"@) == EncodingKind::Compress,
        kind_for_name("deflate"@) == EncodingKind::Deflate,
        kind_for_name("br"@) == EncodingKind::Br,
        kind_for_name("zstd"@) == EncodingKind::Zstd,
        kind_for_name("dcb"@) == EncodingKind::Dcb,
        kind_for_name("dcz"@) == EncodingKind::Dcz,
        kind_for_name("identity"@) == EncodingKind::Identity,
        kind_for_name("*"@) == EncodingKind::Wildcard,
        kind_for_name("unknown"@) == EncodingKind::Unknown,
{
    reveal_strlit("gzip");
    reveal_strlit("compress");
    reveal_strlit("deflate");
    reveal_strlit("br");
    reveal_strlit("zstd");
    reveal_strlit("dcb");
    reveal_strlit("dcz");
    reveal_strlit("identity");
    reveal_strlit("*");
    reveal_strlit("unknown");
    // Distinct first letters, then the second and third where they agree.
    assert("compress"@[0] != "gzip"@[0]);
    assert("deflate"@[0] != "gzip"@[0] && "deflate"@[0] != "compress"@[0]);
    assert("br"@[0] != "gzip"@[0] && "br"@[0] != "compress"@[0] && "br"@[0] != "deflate"@[0]);
    assert("zstd"@[0] != "gzip"@[0] && "zstd"@[0] != "compress"@[0] && "zstd"@[0] != "deflate"@[0]
        && "zstd"@[0] != "br"@[0]);
    assert("dcb"@[0] != "gzip"@[0] && "dcb"@[0] != "compress"@[0] && "dcb"@[1] != "deflate"@[1]
        && "dcb"@[0] != "br"@[0] && "dcb"@[0] != "zstd"@[0]);
    assert("dcz"@[0] != "gzip"@[0] && "dcz"@[0] != "compress"@[0] && "dcz"@[1] != "deflate"@[1]
        && "dcz"@[0] != "br"@[0] && "dcz"@[0] != "zstd"@[0] && "dcz"@[2] != "dcb"@[2]);
    assert("identity"@[0] != "gzip"@[0] && "identity"@[0] != "compress"@[0] && "identity"@[0]
        != "deflate"@[0] && "identity"@[0] != "br"@[0] && "identity"@[0] != "zstd"@[0]
        && "identity"@[0] != "dcb"@[0] && "identity"@[0] != "dcz"@[0]);
    assert("*"@[0] != "gzip"@[0] && "*"@[0] != "compress"@[0] && "*"@[0] != "deflate"@[0] && "*"@[0]
        != "br"@[0] && "*"@[0] != "zstd"@[0] && "*"@[0] != "dcb"@[0] && "*"@[0] != "dcz"@[0]
        && "*"@[0] != "identity"@[0]);
    assert("unknown"@[0] != "gzip"@[0] && "unknown"@[0] != "compress"@[0] && "unknown"@[0]
        != "deflate"@[0] && "unknown"@[0] != "br"@[0] && "unknown"@[0] != "zstd"@[0]
        && "unknown"@[0] != "dcb"@[0] && "unknown"@[0] != "dcz"@[0] && "unknown"@[0]
        != "identity"@[0] && "unknown"@[0] != "*"@[0]);
}

/// The encoding that `v[lo..hi]` names.
fn kind_in(v: &Vec<char>, lo: usize, hi: usize) -> (k: EncodingKind)
    requires
        lo <= hi <= v@.len(),
    ensures
        k == kind_for_name(v@.subrange(lo as int, hi as int)),
{
    if range_eq(v, lo, hi, "gzip") {
        EncodingKind::Gzip
    } else if range_eq(v, lo, hi, "compress") {
        EncodingKind::Compress
    } else if range_eq(v, lo, hi, "deflate") {
        EncodingKind::Deflate
    } else if range_eq(v, lo, hi, "br") {
        EncodingKind::Br
    } else if range_eq(v, lo, hi, "zstd") {
        EncodingKind::Zstd
    } else if range_eq(v, lo, hi, "dcb") {
        EncodingKind::Dcb
    } else if range_eq(v, lo, hi, "dcz") {
        EncodingKind::Dcz
    } else if range_eq(v, lo, hi, "identity") {
        EncodingKind::Identity
    } else if range_eq(v, lo, hi, "*") {
        EncodingKind::Wildcard
    } else {
        EncodingKind::Unknown
    }
}

/// The weight (`q` value) of an encoding, kept as the float literal it was
/// written with; `f32::from_str` accepts its text.
#[derive(Debug, PartialEq, Eq)]
pub struct Weight {
    text: String,
}

impl Weight {
    #[verifier::type_invariant]
    spec fn well_formed(self) -> bool {
        float_literal_ok(self.text@)
    }

    /// The literal.
    pub closed spec fn spec_text(self) -> Seq<char> {
        self.text@
    }

    /// A weight with this text, if `f32::from_str` accepts it.
    pub fn new(text: &str) -> (w: Option<Weight>)
        ensures
            w is Some <==> float_literal_ok(text@),
            w matches Some(w) ==> w.spec_text() == text@,
    {
        let v = chars_of(text);
        assert(v@.subrange(0, v@.len() as int) =~= text@);
        if float_literal_in(&v, 0, v.len()) {
            Some(Weight { text: text.to_owned() })
        } else {
            None
        }
    }

    /// The literal.
    pub fn as_str(&self) -> (s: &str)
        ensures
            s@ == self.spec_text(),
            float_literal_ok(s@),
    {
        proof {
            use_type_invariant(self);
        }
        self.text.as_str()
    }
}

impl Clone for Weight {
    /// The same literal.
    fn clone(&self) -> (w: Weight)
        ensures
            w.spec_text() == self.spec_text(),
    {
        proof {
            use_type_invariant(self);
        }
        Weight { text: self.text.clone() }
    }
}

/// A content encoding with its optional weight.
#[derive(Debug, Clone, PartialEq, Eq)]
pub enum Encoding {
    /// LZ77 with a 32-bit CRC.
    Gzip(Option<Weight>),
    /// Lempel-Ziv-Welch.
    Compress(Option<Weight>),
    /// zlib with deflate.
    Deflate(Option<Weight>),
    /// Brotli.
    Br(Option<Weight>),
    /// Zstandard.
    Zstd(Option<Weight>),
    /// Dictionary-compressed Brotli.
    Dcb(Option<Weight>),
    /// Dictionary-compressed Zstandard.
    Dcz(Option<Weight>),
    /// No encoding at all; always acceptable.
    Identity(Option<Weight>),
    /// `*`: any encoding not listed otherwise.
    Wildcard(Option<Weight>),
    /// An encoding unknown to the server.
    Unknown(Option<Weight>),
}

/// The weight text of an optional weight.
pub open spec fn weight_text(w: Option<Weight>) -> Option<Seq<char>> {
    match w {
        Some(w) => Some(w.spec_text()),
        None => None,
    }
}

impl View for Encoding {
    type V = (EncodingKind, Option<Seq<char>>);

    open spec fn view(&self) -> (EncodingKind, Option<Seq<char>>) {
        match self {
            Encoding::Gzip(w) => (EncodingKind::Gzip, weight_text(*w)),
            Encoding::Compress(w) => (EncodingKind::Compress, weight_text(*w)),
            Encoding::Deflate(w) => (EncodingKind::Deflate, weight_text(*w)),
            Encoding::Br(w) => (EncodingKind::Br, weight_text(*w)),
            Encoding::Zstd(w) => (EncodingKind::Zstd, weight_text(*w)),
            Encoding::Dcb(w) => (EncodingKind::Dcb, weight_text(*w)),
            Encoding::Dcz(w) => (EncodingKind::Dcz, weight_text(*w)),
            Encoding::Identity(w) => (EncodingKind::Identity, weight_text(*w)),
            Encoding::Wildcard(w) => (EncodingKind::Wildcard, weight_text(*w)),
            Encoding::Unknown(w) => (EncodingKind::Unknown, weight_text(*w)),
        }
    }
}

impl Encoding {
    /// The encoding of this kind with this weight.
    pub fn new(kind: EncodingKind, weight: Option<Weight>) -> (e: Encoding)
        ensures
            e@ == (kind, weight_text(weight)),
    {
        match kind {
            EncodingKind::Gzip => Encoding::Gzip(weight),
            EncodingKind::Compress => Encoding::Compress(weight),
            EncodingKind::Deflate => Encoding::Deflate(weight),
            EncodingKind::Br => Encoding::Br(weight),
            EncodingKind::Zstd => Encoding::Zstd(weight),
            EncodingKind::Dcb => Encoding::Dcb(weight),
            EncodingKind::Dcz => Encoding::Dcz(weight),
            EncodingKind::Identity => Encoding::Identity(weight),
            EncodingKind::Wildcard => Encoding::Wildcard(weight),
            EncodingKind::Unknown => Encoding::Unknown(weight),
        }
    }

    /// Which encoding this is.
    pub fn kind(&self) -> (k: EncodingKind)
        ensures
            k == self@.0,
    {
        match self {
            Encoding::Gzip(_) => EncodingKind::Gzip,
            Encoding::Compress(_) => EncodingKind::Compress,
            Encoding::Deflate(_) => EncodingKind::Deflate,
            Encoding::Br(_) => EncodingKind::Br,
            Encoding::Zstd(_) => EncodingKind::Zstd,
            Encoding::Dcb(_) => EncodingKind::Dcb,
            Encoding::Dcz(_) => EncodingKind::Dcz,
            Encoding::Identity(_) => EncodingKind::Identity,
            Encoding::Wildcard(_) => EncodingKind::Wildcard,
            Encoding::Unknown(_) => EncodingKind::Unknown,
        }
    }

    /// The weight, if one was given.
    pub fn weight_literal(&self) -> (w: Option<&Weight>)
        ensures
            weight_text(match w {
                Some(w) => Some(*w),
                None => None,
            }) == self@.1,
    {
        match self {
            Encoding::Gzip(w) | Encoding::Compress(w) | Encoding::Deflate(w) | Encoding::Br(w)
            | Encoding::Zstd(w) | Encoding::Dcb(w) | Encoding::Dcz(w) | Encoding::Identity(w)
            | Encoding::Wildcard(w) | Encoding::Unknown(w) => w.as_ref(),
        }
    }

    /// The name of the encoding, as the encoding is displayed (no weight).
    pub fn to_string(&self) -> (s: String)
        ensures
            s@ == self@.0.spec_name(),
    {
        self.kind().as_str().to_owned()
    }

    pub fn is_gzip(&self) -> (b: bool) ensures b == (self@.0 == EncodingKind::Gzip) { self.kind() == EncodingKind::Gzip }
    pub fn is_compress(&self) -> (b: bool) ensures b == (self@.0 == EncodingKind::Compress) { self.kind() == EncodingKind::Compress }
    pub fn is_deflate(&self) -> (b: bool) ensures b == (self@.0 == EncodingKind::Deflate) { self.kind() == EncodingKind::Deflate }
    pub fn is_br(&self) -> (b: bool) ensures b == (self@.0 == EncodingKind::Br) { self.kind() == EncodingKind::Br }
    pub fn is_zstd(&self) -> (b: bool) ensures b == (self@.0 == EncodingKind::Zstd) { self.kind() == EncodingKind::Zstd }
    pub fn is_dcb(&self) -> (b: bool) ensures b == (self@.0 == EncodingKind::Dcb) { self.kind() == EncodingKind::Dcb }
    pub fn is_dcz(&self) -> (b: bool) ensures b == (self@.0 == EncodingKind::Dcz) { self.kind() == EncodingKind::Dcz }
    pub fn is_identity(&self) -> (b: bool) ensures b == (self@.0 == EncodingKind::Identity) { self.kind() == EncodingKind::Identity }
    pub fn is_wildcard(&self) -> (b: bool) ensures b == (self@.0 == EncodingKind::Wildcard) { self.kind() == EncodingKind::Wildcard }
    pub fn is_unknown(&self) -> (b: bool) ensures b == (self@.0 == EncodingKind::Unknown) { self.kind() == EncodingKind::Unknown }
}

impl Default for Encoding {
    /// `identity` with no weight.
    fn default() -> (e: Encoding)
        ensures
            e@ == (EncodingKind::Identity, None::<Seq<char>>),
    {
        Encoding::Identity(None)
    }
}



// ---------- the Accept-Encoding header ----------

/// The end of the run of non-whitespace starting at `i`.
pub open spec fn token_end(s: Seq<char>, i: int) -> int
    decreases s.len() - i,
{
    if i >= s.len() {
        s.len() as int
    } else if is_ws(s[i]) {
        i
    } else {
        token_end(s, i + 1)
    }
}

/// Where a run of non-whitespace ends: not before its start, not after the end.
pub proof fn lemma_token_end(s: Seq<char>, i: int)
    requires
        0 <= i <= s.len(),
    ensures
        i <= token_end(s, i) <= s.len(),
        forall|j: int| i <= j < token_end(s, i) ==> !is_ws(#[trigger] s[j]),
        token_end(s, i) < s.len() ==> is_ws(s[token_end(s, i)]),
    decreases s.len() - i,
{
    if i < s.len() && !is_ws(s[i]) {
        lemma_token_end(s, i + 1);
    }
}

/// `split_whitespace` of `s` from index `i`: the maximal runs of non-whitespace.
pub open spec fn ws_tokens_from(s: Seq<char>, i: int) -> Seq<Seq<char>>
    decreases s.len() - i,
{
    if i < 0 || i >= s.len() {
        Seq::empty()
    } else if is_ws(s[i]) {
        ws_tokens_from(s, i + 1)
    } else {
        let j = token_end(s, i + 1);
        proof {
            lemma_token_end(s, i + 1);
        }
        seq![s.subrange(i, j)] + ws_tokens_from(s, j)
    }
}

/// `t` has the separator `;q=` at `k`.
pub open spec fn sep_at(t: Seq<char>, k: int) -> bool {
    &&& 0 <= k
    &&& k + 3 <= t.len()
    &&& t[k] == ';'
    &&& t[k + 1] == 'q'
    &&& t[k + 2] == '='
}

/// The first `;q=` at or after `k`, or the end.
pub open spec fn find_sep(t: Seq<char>, k: int) -> int
    decreases t.len() - k,
{
    if k < 0 || k >= t.len() {
        t.len() as int
    } else if sep_at(t, k) {
        k
    } else {
        find_sep(t, k + 1)
    }
}

pub proof fn lemma_find_sep(t: Seq<char>, k: int)
    requires
        0 <= k <= t.len(),
    ensures
        k <= find_sep(t, k) <= t.len(),
        find_sep(t, k) < t.len() ==> sep_at(t, find_sep(t, k)),
    decreases t.len() - k,
{
    if k < t.len() && !sep_at(t, k) {
        lemma_find_sep(t, k + 1);
    }
}

/// The encoding name of a token: what stands before its first `;q=`.
pub open spec fn token_name(t: Seq<char>) -> Seq<char> {
    t.subrange(0, find_sep(t, 0))
}

/// The weight text of a token: what stands between its first and second `;q=`.
pub open spec fn token_weight(t: Seq<char>) -> Option<Seq<char>> {
    let k = find_sep(t, 0);
    if k < t.len() {
        Some(t.subrange(k + 3, find_sep(t, k + 3)))
    } else {
        None
    }
}

/// The encodings that the tokens name, or the first weight text that is not
/// a float literal.
pub open spec fn parse_encoding_tokens(ts: Seq<Seq<char>>) -> Result<
    Seq<(EncodingKind, Option<Seq<char>>)>,
    Seq<char>,
>
    decreases ts.len(),
{
    if ts.len() == 0 {
        Ok(Seq::empty())
    } else {
        let t = ts[0];
        match token_weight(t) {
            Some(w) if !float_literal_ok(w) => Err(w),
            _ => match parse_encoding_tokens(ts.drop_first()) {
                Ok(rest) => Ok(seq![(kind_for_name(token_name(t)), token_weight(t))] + rest),
                Err(w) => Err(w),
            },
        }
    }
}

/// What an `Accept-Encoding` value reads as: one encoding per
/// whitespace-separated token.
pub open spec fn parse_accept_encoding(text: Seq<char>) -> Result<
    Seq<(EncodingKind, Option<Seq<char>>)>,
    Seq<char>,
> {
    parse_encoding_tokens(ws_tokens_from(text, 0))
}

/// Tokens that are all read give one encoding each, in order.
proof fn lemma_tokens_one_each(ts: Seq<Seq<char>>)
    ensures
        parse_encoding_tokens(ts) matches Ok(es) ==> es.len() == ts.len() && forall|i: int|
            0 <= i < ts.len() ==> (#[trigger] es[i]) == (kind_for_name(token_name(ts[i])), token_weight(ts[i])),
    decreases ts.len(),
{
    if ts.len() > 0 {
        lemma_tokens_one_each(ts.drop_first());
        if let Ok(es) = parse_encoding_tokens(ts) {
            let rest = parse_encoding_tokens(ts.drop_first())->Ok_0;
            assert forall|i: int| 0 <= i < ts.len() implies (#[trigger] es[i]) == (kind_for_name(
                token_name(ts[i]),
            ), token_weight(ts[i])) by {
                if i > 0 {
                    assert(es[i] == rest[i - 1]);
                    assert(ts.drop_first()[i - 1] == ts[i]);
                }
            }
        }
    }
}

/// An `Accept-Encoding` value that is read gives one encoding per
/// whitespace-separated token, in order: the kind its name says, with the
/// weight it carries.
pub proof fn lemma_one_encoding_per_token(text: Seq<char>)
    ensures
        parse_accept_encoding(text) matches Ok(es) ==> es.len() == ws_tokens_from(text, 0).len()
            && forall|i: int|
            0 <= i < es.len() ==> (#[trigger] es[i]) == (kind_for_name(
                token_name(ws_tokens_from(text, 0)[i]),
            ), token_weight(ws_tokens_from(text, 0)[i])),
{
    lemma_tokens_one_each(ws_tokens_from(text, 0));
}

/// The first `;q=` in `v` at or after `k`, below `hi`, or `hi`.
fn find_sep_in(v: &Vec<char>, lo: usize, k: usize, hi: usize) -> (r: usize)
    requires
        lo <= k <= hi <= v@.len(),
    ensures
        r == lo + find_sep(v@.subrange(lo as int, hi as int), k - lo),
        k <= r <= hi,
{
    let ghost t = v@.subrange(lo as int, hi as int);
    let mut i = k;
    while i < hi
        invariant
            lo <= k <= i <= hi <= v@.len(),
            t == v@.subrange(lo as int, hi as int),
            find_sep(t, k - lo) == find_sep(t, i - lo),
        decreases hi - i,
    {
        let found = hi - i >= 3 && v[i] == ';' && v[i + 1] == 'q' && v[i + 2] == '=';
        proof {
            if i + 3 <= hi {
                assert(t[i - lo] == v@[i as int]);
                assert(t[i - lo + 1] == v@[i + 1]);
                assert(t[i - lo + 2] == v@[i + 2]);
            }
        }
        if found {
            return i;
        }
        i = i + 1;
    }
    i
}

/// The encodings of the token `v[a..b]`, or the weight text that is not a float literal.
fn encoding_in(v: &Vec<char>, a: usize, b: usize) -> (r: Result<Encoding, String>)
    requires
        a < b <= v@.len(),
    ensures
        ({
            let t = v@.subrange(a as int, b as int);
            match r {
                Ok(e) => e@ == (kind_for_name(token_name(t)), token_weight(t)) && (token_weight(
                    t,
                ) matches Some(w) ==> float_literal_ok(w)),
                Err(w) => token_weight(t) == Some(w@) && !float_literal_ok(w@),
            }
        }),
{
    let ghost t = v@.subrange(a as int, b as int);
    proof {
        lemma_find_sep(t, 0);
    }
    let k = find_sep_in(v, a, a, b);
    assert(t.subrange(0, (k - a) as int) =~= v@.subrange(a as int, k as int));
    let kind = kind_in(v, a, k);
    if k < b {
        proof {
            lemma_find_sep(t, (k - a) + 3);
        }
        let k2 = find_sep_in(v, a, k + 3, b);
        assert(t.subrange((k - a) + 3, (k2 - a) as int) =~= v@.subrange(k + 3, k2 as int));
        let text = string_from(v, k + 3, k2);
        match Weight::new(text.as_str()) {
            Some(w) => Ok(Encoding::new(kind, Some(w))),
            None => Err(text),
        }
    } else {
        Ok(Encoding::new(kind, None))
    }
}

/// The encodings of an `Accept-Encoding` value, or the first weight text that
/// is not a float literal.
pub fn parse_accept_encoding_text(text: &str) -> (r: Result<Vec<Encoding>, String>)
    ensures
        match parse_accept_encoding(text@) {
            Ok(es) => r matches Ok(v) && v@.len() == es.len() && forall|i: int|
                0 <= i < es.len() ==> (#[trigger] v@[i])@ == es[i],
            Err(w) => r matches Err(e) && e@ == w,
        },
{
    let v = chars_of(text);
    let n = v.len();
    let mut out: Vec<Encoding> = Vec::new();
    let mut p: usize = 0;
    let ghost all = parse_accept_encoding(text@);
    loop
        invariant
            p <= n,
            n == v@.len(),
            v@ == text@,
            all == parse_accept_encoding(text@),
            all == match parse_encoding_tokens(ws_tokens_from(v@, p as int)) {
                Ok(rest) => Ok(out@.map_values(|e: Encoding| e@) + rest),
                Err(w) => Err(w),
            },
        decreases n - p,
    {
        if p == n {
            proof {
                assert(out@.map_values(|e: Encoding| e@) + Seq::<(EncodingKind, Option<Seq<char>>)>::empty()
                    =~= out@.map_values(|e: Encoding| e@));
            }
            return Ok(out);
        }
        if is_whitespace(v[p]) {
            p = p + 1;
        } else {
            let mut j = p + 1;
            proof {
                lemma_token_end(v@, p + 1);
            }
            while j < n && !is_whitespace(v[j])
                invariant
                    p < j <= n,
                    n == v@.len(),
                    token_end(v@, p + 1) == token_end(v@, j as int),
                decreases n - j,
            {
                j = j + 1;
            }
            let ghost tokens = ws_tokens_from(v@, p as int);
            assert(tokens == seq![v@.subrange(p as int, j as int)] + ws_tokens_from(v@, j as int));
            assert(tokens[0] == v@.subrange(p as int, j as int));
            assert(tokens.drop_first() =~= ws_tokens_from(v@, j as int));
            match encoding_in(&v, p, j) {
                Ok(e) => {
                    let ghost before = out@.map_values(|e: Encoding| e@);
                    out.push(e);
                    proof {
                        let after = out@.map_values(|e: Encoding| e@);
                        assert(after =~= before.push(e@));
                        match parse_encoding_tokens(ws_tokens_from(v@, j as int)) {
                            Ok(rest) => {
                                assert(after + rest =~= before + (seq![e@] + rest));
                            },
                            Err(w) => {},
                        }
                    }
                },
                Err(w) => return Err(w),
            }
            p = j;
        }
    }
}

impl Encoding {
    /// Reads an `Accept-Encoding` header: its value must be UTF-8 (else
    /// `BadValue("accept-encoding", _)`); each whitespace-separated token names
    /// an encoding by what stands before its first `;q=` (unknown names give
    /// `Unknown`) and carries as weight what stands between its first and second
    /// `;q=`, which must be a float literal (else `ExpectedFloat`).
    pub fn try_from_header(header: &Header) -> (r: Result<Vec<Encoding>, ParseHeaderError>)
        ensures
            !valid_utf8(header@.1) <==> (r matches Err(e) && e is BadValue),
            r matches Err(ParseHeaderError::BadValue(n, _)) ==> n@ == ACCEPT_ENCODING@,
            valid_utf8(header@.1) ==> match parse_accept_encoding(decode_utf8(header@.1)) {
                Ok(es) => r matches Ok(v) && v@.len() == es.len() && forall|i: int|
                    0 <= i < es.len() ==> (#[trigger] v@[i])@ == es[i],
                Err(w) => r matches Err(ParseHeaderError::ExpectedFloat(n, t)) && n@
                    == ACCEPT_ENCODING@ && t@ == w,
            },
    {
        let text = match utf8_str(header.value()) {
            Ok(t) => t,
            Err(e) => return Err(ParseHeaderError::BadValue(ACCEPT_ENCODING.to_owned(), e)),
        };
        match parse_accept_encoding_text(text) {
            Ok(v) => Ok(v),
            Err(w) => Err(ParseHeaderError::ExpectedFloat(ACCEPT_ENCODING.to_owned(), w)),
        }
    }
}

} // verus!
