//! What the `Cache-Control` reader and writer promise together.

use crate::http::cache_control::{
    apply_directive, apply_directives, apply_key, cache_control_parts, cache_control_text,
    cachability_part, directive_key, directive_seconds, directive_value, empty_cache_control,
    flag_part, parse_cache_control, seconds_part, Cachability, CacheControl,
};
use crate::text::{
    decimal, find, is_ws, join, lacks, lemma_decimal, lemma_find_unique, lemma_parse_decimal,
    lemma_split_join, lemma_split_single, lemma_trim_clean, split, trim,
};
use vstd::prelude::*;

verus! {

/// Text made of the letters and dashes that directive names use.
pub open spec fn is_name_text(k: Seq<char>) -> bool {
    &&& k.len() > 0
    &&& forall|i: int| 0 <= i < k.len() ==> ('a' <= #[trigger] k[i] <= 'z' || k[i] == '-')
}

/// A piece with nothing to trim, no comma and at least one character.
pub open spec fn is_clean_piece(p: Seq<char>) -> bool {
    &&& p.len() > 0
    &&& !is_ws(p[0])
    &&& !is_ws(p.last())
    &&& lacks(p, ',')
}

/// Applying pieces one list after another is applying their concatenation.
pub proof fn lemma_apply_directives_concat(c: CacheControl, xs: Seq<Seq<char>>, ys: Seq<Seq<char>>)
    ensures
        apply_directives(c, xs + ys) == match apply_directives(c, xs) {
            Ok(c2) => apply_directives(c2, ys),
            Err(m) => Err(m),
        },
    decreases xs.len(),
{
    if xs.len() > 0 {
        assert((xs + ys)[0] == xs[0]);
        assert((xs + ys).drop_first() =~= xs.drop_first() + ys);
        match apply_directive(c, xs[0]) {
            Ok(c2) => lemma_apply_directives_concat(c2, xs.drop_first(), ys),
            Err(m) => {},
        }
    } else {
        assert(xs + ys =~= ys);
    }
}

/// Pieces that trim to the same text have the same effect.
pub proof fn lemma_apply_directives_trim_eq(c: CacheControl, xs: Seq<Seq<char>>, ys: Seq<Seq<char>>)
    requires
        xs.len() == ys.len(),
        forall|i: int| 0 <= i < xs.len() ==> trim(#[trigger] xs[i]) == trim(ys[i]),
    ensures
        apply_directives(c, xs) == apply_directives(c, ys),
    decreases xs.len(),
{
    if xs.len() > 0 {
        assert(trim(xs[0]) == trim(ys[0]));
        match apply_directive(c, xs[0]) {
            Ok(c2) => {
                assert forall|i: int| 0 <= i < xs.drop_first().len() implies trim(
                    #[trigger] xs.drop_first()[i],
                ) == trim(ys.drop_first()[i]) by {
                    assert(xs.drop_first()[i] == xs[i + 1]);
                    assert(ys.drop_first()[i] == ys[i + 1]);
                }
                lemma_apply_directives_trim_eq(c2, xs.drop_first(), ys.drop_first());
            },
            Err(m) => {},
        }
    }
}

/// One clean piece is applied by its key and value.
pub proof fn lemma_apply_single(c: CacheControl, p: Seq<char>)
    requires
        is_clean_piece(p),
    ensures
        apply_directives(c, seq![p]) == apply_key(c, directive_key(p), directive_value(p)),
{
    lemma_trim_clean(p);
    assert(seq![p].drop_first() =~= Seq::<Seq<char>>::empty());
    match apply_key(c, directive_key(p), directive_value(p)) {
        Ok(c2) => {
            assert(apply_directives(c2, Seq::<Seq<char>>::empty()) == Ok::<CacheControl, Seq<char>>(c2));
        },
        Err(m) => {},
    }
}

/// A directive name alone is its own key, with no value.
pub proof fn lemma_flag_piece(k: Seq<char>)
    requires
        is_name_text(k),
    ensures
        is_clean_piece(k),
        directive_key(k) == k,
        directive_value(k) is None,
{
    assert(k[0] == k[0]);
    assert(k[k.len() - 1] == k.last());
    assert(lacks(k, '=')) by {
        assert forall|i: int| 0 <= i < k.len() implies k[i] != '=' by {
            assert('a' <= k[i] <= 'z' || k[i] == '-');
        }
    }
    lemma_find_unique(k, '=', k.len() as int);
}

/// `name=N` has the name as key and the digits of `N` as value.
pub proof fn lemma_seconds_piece(k: Seq<char>, n: nat)
    requires
        is_name_text(k),
    ensures
        is_clean_piece(k + "="@ + decimal(n)),
        directive_key(k + "="@ + decimal(n)) == k,
        directive_value(k + "="@ + decimal(n)) == Some(decimal(n)),
{
    reveal_strlit("=");
    lemma_decimal(n);
    let d = decimal(n);
    let p = k + "="@ + d;
    assert(k[0] == k[0]);
    assert(p[0] == k[0]);
    assert(p.last() == d.last());
    assert(crate::text::is_digit(d[d.len() - 1]));
    assert forall|i: int| 0 <= i < k.len() implies p[i] != '=' by {
        assert(p[i] == k[i]);
        assert('a' <= k[i] <= 'z' || k[i] == '-');
    }
    assert(p[k.len() as int] == '=');
    lemma_find_unique(p, '=', k.len() as int);
    assert forall|i: int| 0 <= i < p.len() implies p[i] != ',' by {
        if i < k.len() {
            assert(p[i] == k[i]);
            assert('a' <= k[i] <= 'z' || k[i] == '-');
        } else if i > k.len() {
            assert(p[i] == d[i - k.len() - 1]);
            assert(crate::text::is_digit(d[i - k.len() - 1]));
        }
    }
    assert(p.subrange(0, k.len() as int) =~= k);
    assert(p.subrange(k.len() + 1int, p.len() as int) =~= d);
    assert(k.last() == k[k.len() - 1]);
    lemma_trim_clean(k);
    assert(crate::text::is_digit(d[0]));
    lemma_trim_clean(d);
}

/// Every piece of a list is clean.
pub open spec fn all_clean(ps: Seq<Seq<char>>) -> bool {
    forall|i: int| 0 <= i < ps.len() ==> is_clean_piece(#[trigger] ps[i])
}

/// Two lists of clean pieces make a list of clean pieces.
pub proof fn lemma_all_clean_concat(a: Seq<Seq<char>>, b: Seq<Seq<char>>)
    requires
        all_clean(a),
        all_clean(b),
    ensures
        all_clean(a + b),
{
    assert forall|i: int| 0 <= i < (a + b).len() implies is_clean_piece(#[trigger] (a + b)[i]) by {
        if i < a.len() {
            assert((a + b)[i] == a[i]);
        } else {
            assert((a + b)[i] == b[i - a.len()]);
        }
    }
}

/// Two lists applied one after the other.
pub proof fn lemma_apply_step(
    c: CacheControl,
    xs: Seq<Seq<char>>,
    ys: Seq<Seq<char>>,
    c1: CacheControl,
    c2: CacheControl,
)
    requires
        apply_directives(c, xs) == Ok::<CacheControl, Seq<char>>(c1),
        apply_directives(c1, ys) == Ok::<CacheControl, Seq<char>>(c2),
    ensures
        apply_directives(c, xs + ys) == Ok::<CacheControl, Seq<char>>(c2),
{
    lemma_apply_directives_concat(c, xs, ys);
}

/// An empty list changes nothing.
pub proof fn lemma_apply_none(c: CacheControl)
    ensures
        apply_directives(c, Seq::<Seq<char>>::empty()) == Ok::<CacheControl, Seq<char>>(c),
{
}

/// The cachability part sets the cachability.
pub proof fn lemma_chunk_cachability(t: CacheControl, v: Option<Cachability>)
    requires
        t.cachability is None,
    ensures
        apply_directives(t, cachability_part(v)) == Ok::<CacheControl, Seq<char>>(
            CacheControl { cachability: v, ..t },
        ),
        all_clean(cachability_part(v)),
{
    reveal_strlit("public");
    reveal_strlit("private");
    reveal_strlit("no-cache");
    assert(is_name_text("public"@));
    assert(is_name_text("private"@));
    assert(is_name_text("no-cache"@));
    match v {
        Some(c) => {
            lemma_flag_piece(c.spec_name());
            lemma_apply_single(t, c.spec_name());
            assert(cachability_part(v) =~= seq![c.spec_name()]);
        },
        None => {
            assert(cachability_part(v) =~= Seq::<Seq<char>>::empty());
            lemma_apply_none(t);
        },
    }
}

/// The `max-age` part sets `max_age` when it was not set before.
pub proof fn lemma_chunk_max_age(t: CacheControl, v: Option<u64>)
    requires
        t.max_age is None,
    ensures
        apply_directives(t, seconds_part("max-age"@, v)) == Ok::<CacheControl, Seq<char>>(
            CacheControl { max_age: v, ..t },
        ),
        all_clean(seconds_part("max-age"@, v)),
{
    reveal_strlit("public");
    reveal_strlit("private");
    reveal_strlit("no-cache");
    reveal_strlit("max-age");
    assert("private"@[0] != "max-age"@[0]);
    assert(is_name_text("max-age"@));
    match v {
        Some(n) => {
            lemma_seconds_piece("max-age"@, n as nat);
            lemma_apply_single(t, "max-age"@ + "="@ + decimal(n as nat));
            lemma_parse_decimal(n as nat, u64::MAX as nat);
            assert(seconds_part("max-age"@, v) =~= seq!["max-age"@ + "="@ + decimal(n as nat)]);
        },
        None => {
            assert(seconds_part("max-age"@, v) =~= Seq::<Seq<char>>::empty());
            lemma_apply_none(t);
        },
    }
}

/// The `s-maxage` part sets `s_maxage` when it was not set before.
pub proof fn lemma_chunk_s_maxage(t: CacheControl, v: Option<u64>)
    requires
        t.s_maxage is None,
    ensures
        apply_directives(t, seconds_part("s-maxage"@, v)) == Ok::<CacheControl, Seq<char>>(
            CacheControl { s_maxage: v, ..t },
        ),
        all_clean(seconds_part("s-maxage"@, v)),
{
    reveal_strlit("public");
    reveal_strlit("private");
    reveal_strlit("no-cache");
    reveal_strlit("max-age");
    reveal_strlit("s-maxage");
    assert("no-cache"@[0] != "s-maxage"@[0]);
    assert(is_name_text("s-maxage"@));
    match v {
        Some(n) => {
            lemma_seconds_piece("s-maxage"@, n as nat);
            lemma_apply_single(t, "s-maxage"@ + "="@ + decimal(n as nat));
            lemma_parse_decimal(n as nat, u64::MAX as nat);
            assert(seconds_part("s-maxage"@, v) =~= seq!["s-maxage"@ + "="@ + decimal(n as nat)]);
        },
        None => {
            assert(seconds_part("s-maxage"@, v) =~= Seq::<Seq<char>>::empty());
            lemma_apply_none(t);
        },
    }
}

/// The `no-store` part sets `no_store` when it was not set before.
pub proof fn lemma_chunk_no_store(t: CacheControl, v: bool)
    requires
        !t.no_store,
    ensures
        apply_directives(t, flag_part("no-store"@, v)) == Ok::<CacheControl, Seq<char>>(
            CacheControl { no_store: v, ..t },
        ),
        all_clean(flag_part("no-store"@, v)),
{
    reveal_strlit("public");
    reveal_strlit("private");
    reveal_strlit("no-cache");
    reveal_strlit("max-age");
    reveal_strlit("s-maxage");
    reveal_strlit("no-store");
    assert("no-cache"@[3] != "no-store"@[3]);
    assert("s-maxage"@[0] != "no-store"@[0]);
    assert(is_name_text("no-store"@));
    if v {
        lemma_flag_piece("no-store"@);
        lemma_apply_single(t, "no-store"@);
        assert(flag_part("no-store"@, v) =~= seq!["no-store"@]);
    } else {
        assert(flag_part("no-store"@, v) =~= Seq::<Seq<char>>::empty());
        lemma_apply_none(t);
    }
}

/// The `no-transform` part sets `no_transform` when it was not set before.
pub proof fn lemma_chunk_no_transform(t: CacheControl, v: bool)
    requires
        !t.no_transform,
    ensures
        apply_directives(t, flag_part("no-transform"@, v)) == Ok::<CacheControl, Seq<char>>(
            CacheControl { no_transform: v, ..t },
        ),
        all_clean(flag_part("no-transform"@, v)),
{
    reveal_strlit("public");
    reveal_strlit("private");
    reveal_strlit("no-cache");
    reveal_strlit("max-age");
    reveal_strlit("s-maxage");
    reveal_strlit("no-store");
    reveal_strlit("no-transform");
    assert(is_name_text("no-transform"@));
    if v {
        lemma_flag_piece("no-transform"@);
        lemma_apply_single(t, "no-transform"@);
        assert(flag_part("no-transform"@, v) =~= seq!["no-transform"@]);
    } else {
        assert(flag_part("no-transform"@, v) =~= Seq::<Seq<char>>::empty());
        lemma_apply_none(t);
    }
}

/// The `must-revalidate` part sets `must_revalidate` when it was not set before.
pub proof fn lemma_chunk_must_revalidate(t: CacheControl, v: bool)
    requires
        !t.must_revalidate,
    ensures
        apply_directives(t, flag_part("must-revalidate"@, v)) == Ok::<CacheControl, Seq<char>>(
            CacheControl { must_revalidate: v, ..t },
        ),
        all_clean(flag_part("must-revalidate"@, v)),
{
    reveal_strlit("public");
    reveal_strlit("private");
    reveal_strlit("no-cache");
    reveal_strlit("max-age");
    reveal_strlit("s-maxage");
    reveal_strlit("no-store");
    reveal_strlit("no-transform");
    reveal_strlit("must-revalidate");
    assert(is_name_text("must-revalidate"@));
    if v {
        lemma_flag_piece("must-revalidate"@);
        lemma_apply_single(t, "must-revalidate"@);
        assert(flag_part("must-revalidate"@, v) =~= seq!["must-revalidate"@]);
    } else {
        assert(flag_part("must-revalidate"@, v) =~= Seq::<Seq<char>>::empty());
        lemma_apply_none(t);
    }
}

/// The `proxy-revalidate` part sets `proxy_revalidate` when it was not set before.
pub proof fn lemma_chunk_proxy_revalidate(t: CacheControl, v: bool)
    requires
        !t.proxy_revalidate,
    ensures
        apply_directives(t, flag_part("proxy-revalidate"@, v)) == Ok::<CacheControl, Seq<char>>(
            CacheControl { proxy_revalidate: v, ..t },
        ),
        all_clean(flag_part("proxy-revalidate"@, v)),
{
    reveal_strlit("public");
    reveal_strlit("private");
    reveal_strlit("no-cache");
    reveal_strlit("max-age");
    reveal_strlit("s-maxage");
    reveal_strlit("no-store");
    reveal_strlit("no-transform");
    reveal_strlit("must-revalidate");
    reveal_strlit("proxy-revalidate");
    assert(is_name_text("proxy-revalidate"@));
    if v {
        lemma_flag_piece("proxy-revalidate"@);
        lemma_apply_single(t, "proxy-revalidate"@);
        assert(flag_part("proxy-revalidate"@, v) =~= seq!["proxy-revalidate"@]);
    } else {
        assert(flag_part("proxy-revalidate"@, v) =~= Seq::<Seq<char>>::empty());
        lemma_apply_none(t);
    }
}

/// The `must-understand` part sets `must_understand` when it was not set before.
pub proof fn lemma_chunk_must_understand(t: CacheControl, v: bool)
    requires
        !t.must_understand,
    ensures
        apply_directives(t, flag_part("must-understand"@, v)) == Ok::<CacheControl, Seq<char>>(
            CacheControl { must_understand: v, ..t },
        ),
        all_clean(flag_part("must-understand"@, v)),
{
    reveal_strlit("public");
    reveal_strlit("private");
    reveal_strlit("no-cache");
    reveal_strlit("max-age");
    reveal_strlit("s-maxage");
    reveal_strlit("no-store");
    reveal_strlit("no-transform");
    reveal_strlit("must-revalidate");
    reveal_strlit("proxy-revalidate");
    reveal_strlit("must-understand");
    assert("must-revalidate"@[5] != "must-understand"@[5]);
    assert(is_name_text("must-understand"@));
    if v {
        lemma_flag_piece("must-understand"@);
        lemma_apply_single(t, "must-understand"@);
        assert(flag_part("must-understand"@, v) =~= seq!["must-understand"@]);
    } else {
        assert(flag_part("must-understand"@, v) =~= Seq::<Seq<char>>::empty());
        lemma_apply_none(t);
    }
}

/// The `immutable` part sets `immutable` when it was not set before.
pub proof fn lemma_chunk_immutable(t: CacheControl, v: bool)
    requires
        !t.immutable,
    ensures
        apply_directives(t, flag_part("immutable"@, v)) == Ok::<CacheControl, Seq<char>>(
            CacheControl { immutable: v, ..t },
        ),
        all_clean(flag_part("immutable"@, v)),
{
    reveal_strlit("public");
    reveal_strlit("private");
    reveal_strlit("no-cache");
    reveal_strlit("max-age");
    reveal_strlit("s-maxage");
    reveal_strlit("no-store");
    reveal_strlit("no-transform");
    reveal_strlit("must-revalidate");
    reveal_strlit("proxy-revalidate");
    reveal_strlit("must-understand");
    reveal_strlit("immutable");
    assert(is_name_text("immutable"@));
    if v {
        lemma_flag_piece("immutable"@);
        lemma_apply_single(t, "immutable"@);
        assert(flag_part("immutable"@, v) =~= seq!["immutable"@]);
    } else {
        assert(flag_part("immutable"@, v) =~= Seq::<Seq<char>>::empty());
        lemma_apply_none(t);
    }
}

/// The `stale-while-revalidate` part sets `stale_while_revalidate` when it was not set before.
pub proof fn lemma_chunk_stale_while_revalidate(t: CacheControl, v: Option<u64>)
    requires
        t.stale_while_revalidate is None,
    ensures
        apply_directives(t, seconds_part("stale-while-revalidate"@, v)) == Ok::<CacheControl, Seq<char>>(
            CacheControl { stale_while_revalidate: v, ..t },
        ),
        all_clean(seconds_part("stale-while-revalidate"@, v)),
{
    reveal_strlit("public");
    reveal_strlit("private");
    reveal_strlit("no-cache");
    reveal_strlit("max-age");
    reveal_strlit("s-maxage");
    reveal_strlit("no-store");
    reveal_strlit("no-transform");
    reveal_strlit("must-revalidate");
    reveal_strlit("proxy-revalidate");
    reveal_strlit("must-understand");
    reveal_strlit("immutable");
    reveal_strlit("stale-while-revalidate");
    assert(is_name_text("stale-while-revalidate"@));
    match v {
        Some(n) => {
            lemma_seconds_piece("stale-while-revalidate"@, n as nat);
            lemma_apply_single(t, "stale-while-revalidate"@ + "="@ + decimal(n as nat));
            lemma_parse_decimal(n as nat, u64::MAX as nat);
            assert(seconds_part("stale-while-revalidate"@, v) =~= seq!["stale-while-revalidate"@ + "="@ + decimal(n as nat)]);
        },
        None => {
            assert(seconds_part("stale-while-revalidate"@, v) =~= Seq::<Seq<char>>::empty());
            lemma_apply_none(t);
        },
    }
}

/// The `stale-if-error` part sets `stale_if_error` when it was not set before.
pub proof fn lemma_chunk_stale_if_error(t: CacheControl, v: Option<u64>)
    requires
        t.stale_if_error is None,
    ensures
        apply_directives(t, seconds_part("stale-if-error"@, v)) == Ok::<CacheControl, Seq<char>>(
            CacheControl { stale_if_error: v, ..t },
        ),
        all_clean(seconds_part("stale-if-error"@, v)),
{
    reveal_strlit("public");
    reveal_strlit("private");
    reveal_strlit("no-cache");
    reveal_strlit("max-age");
    reveal_strlit("s-maxage");
    reveal_strlit("no-store");
    reveal_strlit("no-transform");
    reveal_strlit("must-revalidate");
    reveal_strlit("proxy-revalidate");
    reveal_strlit("must-understand");
    reveal_strlit("immutable");
    reveal_strlit("stale-while-revalidate");
    reveal_strlit("stale-if-error");
    assert(is_name_text("stale-if-error"@));
    match v {
        Some(n) => {
            lemma_seconds_piece("stale-if-error"@, n as nat);
            lemma_apply_single(t, "stale-if-error"@ + "="@ + decimal(n as nat));
            lemma_parse_decimal(n as nat, u64::MAX as nat);
            assert(seconds_part("stale-if-error"@, v) =~= seq!["stale-if-error"@ + "="@ + decimal(n as nat)]);
        },
        None => {
            assert(seconds_part("stale-if-error"@, v) =~= Seq::<Seq<char>>::empty());
            lemma_apply_none(t);
        },
    }
}

/// Reading what [`CacheControl::to_string`] writes gives back the same
/// directives: the header value is a faithful encoding of a [`CacheControl`].
pub proof fn lemma_cache_control_roundtrip(cc: CacheControl)
    ensures
        parse_cache_control(cache_control_text(cc)) == Ok::<CacheControl, Seq<char>>(cc),
{
    let t0 = empty_cache_control();
    let t1 = CacheControl { cachability: cc.cachability, ..t0 };
    lemma_chunk_cachability(t0, cc.cachability);
    let a1 = cachability_part(cc.cachability);
    let t2 = CacheControl { max_age: cc.max_age, ..t1 };
    lemma_chunk_max_age(t1, cc.max_age);
    lemma_apply_step(t0, a1, seconds_part("max-age"@, cc.max_age), t1, t2);
    lemma_all_clean_concat(a1, seconds_part("max-age"@, cc.max_age));
    let a2 = a1 + seconds_part("max-age"@, cc.max_age);
    let t3 = CacheControl { s_maxage: cc.s_maxage, ..t2 };
    lemma_chunk_s_maxage(t2, cc.s_maxage);
    lemma_apply_step(t0, a2, seconds_part("s-maxage"@, cc.s_maxage), t2, t3);
    lemma_all_clean_concat(a2, seconds_part("s-maxage"@, cc.s_maxage));
    let a3 = a2 + seconds_part("s-maxage"@, cc.s_maxage);
    let t4 = CacheControl { no_store: cc.no_store, ..t3 };
    lemma_chunk_no_store(t3, cc.no_store);
    lemma_apply_step(t0, a3, flag_part("no-store"@, cc.no_store), t3, t4);
    lemma_all_clean_concat(a3, flag_part("no-store"@, cc.no_store));
    let a4 = a3 + flag_part("no-store"@, cc.no_store);
    let t5 = CacheControl { no_transform: cc.no_transform, ..t4 };
    lemma_chunk_no_transform(t4, cc.no_transform);
    lemma_apply_step(t0, a4, flag_part("no-transform"@, cc.no_transform), t4, t5);
    lemma_all_clean_concat(a4, flag_part("no-transform"@, cc.no_transform));
    let a5 = a4 + flag_part("no-transform"@, cc.no_transform);
    let t6 = CacheControl { must_revalidate: cc.must_revalidate, ..t5 };
    lemma_chunk_must_revalidate(t5, cc.must_revalidate);
    lemma_apply_step(t0, a5, flag_part("must-revalidate"@, cc.must_revalidate), t5, t6);
    lemma_all_clean_concat(a5, flag_part("must-revalidate"@, cc.must_revalidate));
    let a6 = a5 + flag_part("must-revalidate"@, cc.must_revalidate);
    let t7 = CacheControl { proxy_revalidate: cc.proxy_revalidate, ..t6 };
    lemma_chunk_proxy_revalidate(t6, cc.proxy_revalidate);
    lemma_apply_step(t0, a6, flag_part("proxy-revalidate"@, cc.proxy_revalidate), t6, t7);
    lemma_all_clean_concat(a6, flag_part("proxy-revalidate"@, cc.proxy_revalidate));
    let a7 = a6 + flag_part("proxy-revalidate"@, cc.proxy_revalidate);
    let t8 = CacheControl { must_understand: cc.must_understand, ..t7 };
    lemma_chunk_must_understand(t7, cc.must_understand);
    lemma_apply_step(t0, a7, flag_part("must-understand"@, cc.must_understand), t7, t8);
    lemma_all_clean_concat(a7, flag_part("must-understand"@, cc.must_understand));
    let a8 = a7 + flag_part("must-understand"@, cc.must_understand);
    let t9 = CacheControl { immutable: cc.immutable, ..t8 };
    lemma_chunk_immutable(t8, cc.immutable);
    lemma_apply_step(t0, a8, flag_part("immutable"@, cc.immutable), t8, t9);
    lemma_all_clean_concat(a8, flag_part("immutable"@, cc.immutable));
    let a9 = a8 + flag_part("immutable"@, cc.immutable);
    let t10 = CacheControl { stale_while_revalidate: cc.stale_while_revalidate, ..t9 };
    lemma_chunk_stale_while_revalidate(t9, cc.stale_while_revalidate);
    lemma_apply_step(t0, a9, seconds_part("stale-while-revalidate"@, cc.stale_while_revalidate), t9, t10);
    lemma_all_clean_concat(a9, seconds_part("stale-while-revalidate"@, cc.stale_while_revalidate));
    let a10 = a9 + seconds_part("stale-while-revalidate"@, cc.stale_while_revalidate);
    let t11 = CacheControl { stale_if_error: cc.stale_if_error, ..t10 };
    lemma_chunk_stale_if_error(t10, cc.stale_if_error);
    lemma_apply_step(t0, a10, seconds_part("stale-if-error"@, cc.stale_if_error), t10, t11);
    lemma_all_clean_concat(a10, seconds_part("stale-if-error"@, cc.stale_if_error));
    let a11 = a10 + seconds_part("stale-if-error"@, cc.stale_if_error);
    assert(t11 == cc);
    let parts = cache_control_parts(cc);
    assert(parts == a11);
    if parts.len() == 0 {
        let e = Seq::<char>::empty();
        assert(join(parts, ", "@) == e);
        lemma_split_single(e, ',');
        assert(trim(e) =~= e);
        assert(seq![e].drop_first() =~= Seq::<Seq<char>>::empty());
        assert(apply_directives(t0, seq![e]) == Ok::<CacheControl, Seq<char>>(t0));
    } else {
        assert forall|i: int| 0 <= i < parts.len() implies lacks(#[trigger] parts[i], ',') by {
            assert(is_clean_piece(parts[i]));
        }
        lemma_split_join(parts);
        let pieces = split(join(parts, ", "@), ',');
        assert forall|i: int| 0 <= i < pieces.len() implies trim(#[trigger] pieces[i]) == trim(
            parts[i],
        ) by {
            assert(is_clean_piece(parts[i]));
            lemma_trim_clean(parts[i]);
        }
        lemma_apply_directives_trim_eq(t0, pieces, parts);
    }
}

} // verus!
