//! Per-request credential extraction: the bearer-header path for access
//! tokens and the cookie path for refresh tokens.
//!
//! Both paths are pure functions of the incoming request metadata and the
//! shared signing key: they locate the credential, hand it to the token
//! codec, and yield validated claims or a typed failure, never partial state.
//! The header grammars — the `Bearer ` prefix and the semicolon-separated
//! cookie list — are parsed by verified code against the spec functions
//! below.

use vstd::prelude::*;

use crate::errors::{AppError, AuthError};
use crate::jwt::{
    access_decode_spec, decode_access, decode_refresh, refresh_decode_spec, AccessClaimsView,
    AccessTokenClaims, Keys, RefreshClaimsView, RefreshTokenClaims,
};
use crate::text::{chars_to_string, str_eq};
use vstd::string::StrSliceExecFns;

verus! {

/// The token carried by an `Authorization: Bearer <token>` header value, or
/// `None` where the value is not of that shape.
pub open spec fn spec_bearer_token(h: Seq<char>) -> Option<Seq<char>> {
    if h.len() >= 7 && h.subrange(0, 7) == "Bearer "@ {
        Some(h.subrange(7, h.len() as int))
    } else {
        None
    }
}

/// A cookie header split at every `;`: one item for each separator-delimited
/// stretch, empty stretches included.
pub open spec fn spec_split_semi(s: Seq<char>) -> Seq<Seq<char>>
    decreases s.len(),
{
    if s.len() == 0 {
        seq![Seq::<char>::empty()]
    } else if s[0] == ';' {
        seq![Seq::<char>::empty()] + spec_split_semi(s.drop_first())
    } else {
        let rest = spec_split_semi(s.drop_first());
        seq![seq![s[0]] + rest[0]] + rest.drop_first()
    }
}

pub proof fn lemma_split_semi_len(s: Seq<char>)
    ensures
        spec_split_semi(s).len() >= 1,
    decreases s.len(),
{
    if s.len() == 0 {
    } else {
        lemma_split_semi_len(s.drop_first());
    }
}

/// `s` without leading spaces.
pub open spec fn spec_ltrim(s: Seq<char>) -> Seq<char>
    decreases s.len(),
{
    if s.len() > 0 && s[0] == ' ' {
        spec_ltrim(s.drop_first())
    } else {
        s
    }
}

/// `s` without trailing spaces.
pub open spec fn spec_rtrim(s: Seq<char>) -> Seq<char>
    decreases s.len(),
{
    if s.len() > 0 && s[s.len() - 1] == ' ' {
        spec_rtrim(s.drop_last())
    } else {
        s
    }
}

/// `s` without leading and trailing spaces.
pub open spec fn spec_trim(s: Seq<char>) -> Seq<char> {
    spec_rtrim(spec_ltrim(s))
}

/// `s` split at its first `=`: the text before it and the text after it, or
/// `None` where `s` holds no `=` at all.
pub open spec fn spec_split_eq(s: Seq<char>) -> Option<(Seq<char>, Seq<char>)>
    decreases s.len(),
{
    if s.len() == 0 {
        None
    } else if s[0] == '=' {
        Some((Seq::<char>::empty(), s.drop_first()))
    } else {
        match spec_split_eq(s.drop_first()) {
            None => None,
            Some(p) => Some((seq![s[0]] + p.0, p.1)),
        }
    }
}

/// One cookie-list item parsed as `name=value`, after trimming surrounding
/// spaces. An item without `=` or with an empty name is not a cookie.
pub open spec fn spec_parse_item(item: Seq<char>) -> Option<(Seq<char>, Seq<char>)> {
    match spec_split_eq(spec_trim(item)) {
        None => None,
        Some(p) => if p.0.len() == 0 {
            None
        } else {
            Some(p)
        },
    }
}

/// All items parsed in order; `None` as soon as any item is not a cookie.
pub open spec fn spec_parse_items(items: Seq<Seq<char>>) -> Option<Seq<(Seq<char>, Seq<char>)>>
    decreases items.len(),
{
    if items.len() == 0 {
        Some(Seq::<(Seq<char>, Seq<char>)>::empty())
    } else {
        match (spec_parse_item(items[0]), spec_parse_items(items.drop_first())) {
            (Some(p), Some(r)) => Some(seq![p] + r),
            _ => None,
        }
    }
}

/// A cookie header value parsed as a cookie list, or `None` where it is not
/// one.
pub open spec fn spec_cookie_list(s: Seq<char>) -> Option<Seq<(Seq<char>, Seq<char>)>> {
    spec_parse_items(spec_split_semi(s))
}

/// The value of the first cookie with this name.
pub open spec fn spec_lookup(cs: Seq<(Seq<char>, Seq<char>)>, name: Seq<char>) -> Option<Seq<char>>
    decreases cs.len(),
{
    if cs.len() == 0 {
        None
    } else if cs[0].0 == name {
        Some(cs[0].1)
    } else {
        spec_lookup(cs.drop_first(), name)
    }
}

/// The view of an optional header value.
pub open spec fn spec_header(h: Option<&str>) -> Option<Seq<char>> {
    match h {
        Some(s) => Some(s@),
        None => None,
    }
}

/// The bearer path, end to end: absent or malformed `Authorization` header
/// means `TokenMissing`; a present bearer token is decoded as an access
/// token.
pub open spec fn spec_extract_access(h: Option<Seq<char>>, key: Seq<u8>, now: i64) -> Result<
    AccessClaimsView,
    AuthError,
> {
    match h {
        None => Err(AuthError::TokenMissing),
        Some(hs) => match spec_bearer_token(hs) {
            None => Err(AuthError::TokenMissing),
            Some(t) => access_decode_spec(t, key, now),
        },
    }
}

/// The cookie path, end to end: no `Cookie` header means `MissingCookie`; a
/// header that is not a cookie list means `InvalidCookie`; a cookie list
/// without a `refresh_token` entry means `MissingCookie`; a present entry is
/// decoded as a refresh token.
pub open spec fn spec_extract_refresh(h: Option<Seq<char>>, key: Seq<u8>, now: i64) -> Result<
    RefreshClaimsView,
    AuthError,
> {
    match h {
        None => Err(AuthError::MissingCookie),
        Some(hs) => match spec_cookie_list(hs) {
            None => Err(AuthError::InvalidCookie),
            Some(cs) => match spec_lookup(cs, "refresh_token"@) {
                None => Err(AuthError::MissingCookie),
                Some(t) => refresh_decode_spec(t, key, now),
            },
        },
    }
}

pub proof fn lemma_split_semi_no_sep(s: Seq<char>)
    requires
        s.len() > 0,
        forall|i: int| 0 <= i < s.len() ==> s[i] != ';',
    ensures
        spec_split_semi(s) == seq![s],
    decreases s.len(),
{
    if s.len() == 1 {
        assert(s.drop_first() =~= Seq::<char>::empty());
        assert(seq![s[0]] + spec_split_semi(s.drop_first())[0] =~= s);
        assert(spec_split_semi(s) =~= seq![s]);
    } else {
        assert forall|i: int| 0 <= i < s.drop_first().len() implies s.drop_first()[i] != ';' by {
            assert(s.drop_first()[i] == s[i + 1]);
        }
        lemma_split_semi_no_sep(s.drop_first());
        assert(seq![s[0]] + s.drop_first() =~= s);
        assert(spec_split_semi(s) =~= seq![s]);
    }
}

pub proof fn lemma_split_eq_at(p: Seq<char>, v: Seq<char>)
    requires
        forall|i: int| 0 <= i < p.len() ==> p[i] != '=',
    ensures
        spec_split_eq(p + seq!['='] + v) == Some((p, v)),
    decreases p.len(),
{
    let s = p + seq!['='] + v;
    if p.len() == 0 {
        assert(s[0] == '=');
        assert(s.drop_first() =~= v);
        assert(spec_split_eq(s)->Some_0.0 =~= p);
    } else {
        assert(s[0] == p[0]);
        assert forall|i: int| 0 <= i < p.drop_first().len() implies p.drop_first()[i] != '=' by {
            assert(p.drop_first()[i] == p[i + 1]);
        }
        lemma_split_eq_at(p.drop_first(), v);
        assert(s.drop_first() =~= p.drop_first() + seq!['='] + v);
        assert(seq![s[0]] + p.drop_first() =~= p);
    }
}

/// Law: the cookie path accepts exactly what the issuer hands out. For any
/// token text without `;`, without a trailing space and non-empty — which
/// every compact three-part token is — presenting `refresh_token=<t>` as the
/// cookie header reduces the whole extraction to decoding `t`: the list
/// parses, the lookup finds the entry, and nothing else decides.
pub proof fn lemma_cookie_path_accepts_issued_token(t: Seq<char>, key: Seq<u8>, now: i64)
    requires
        t.len() > 0,
        forall|i: int| 0 <= i < t.len() ==> t[i] != ';',
        t[t.len() - 1] != ' ',
    ensures
        spec_extract_refresh(Some("refresh_token="@ + t), key, now) == refresh_decode_spec(
            t,
            key,
            now,
        ),
{
    reveal_strlit("refresh_token=");
    reveal_strlit("refresh_token");
    let name = "refresh_token"@;
    let h = "refresh_token="@ + t;
    assert(h.len() == 14 + t.len());
    assert forall|i: int| 0 <= i < h.len() implies h[i] != ';' by {
        if i < 14 {
            assert(h[i] == "refresh_token="@[i]);
        } else {
            assert(h[i] == t[i - 14]);
        }
    }
    lemma_split_semi_no_sep(h);
    assert(h[0] == 'r');
    assert(spec_ltrim(h) == h);
    assert(h[h.len() - 1] != ' ');
    assert(spec_rtrim(h) == h);
    assert forall|i: int| 0 <= i < name.len() implies name[i] != '=' by {
        assert(name[i] == "refresh_token"@[i]);
    }
    lemma_split_eq_at(name, t);
    assert(name + seq!['='] + t =~= h);
    assert(spec_parse_item(h) == Some((name, t)));
    assert(spec_split_semi(h).drop_first() =~= Seq::<Seq<char>>::empty());
    assert(spec_split_semi(h)[0] == h);
    assert(spec_parse_items(Seq::<Seq<char>>::empty()) == Some(
        Seq::<(Seq<char>, Seq<char>)>::empty(),
    ));
    assert(spec_parse_items(spec_split_semi(h)) == Some(seq![(name, t)] + Seq::<(
        Seq<char>,
        Seq<char>,
    )>::empty()));
    assert(seq![(name, t)] + Seq::<(Seq<char>, Seq<char>)>::empty() =~= seq![(name, t)]);
    assert(spec_lookup(seq![(name, t)], name) == Some(t));
}

/// The views of a sequence of split items.
pub open spec fn items_view(s: Seq<Vec<char>>) -> Seq<Seq<char>> {
    s.map_values(|v: Vec<char>| v@)
}

/// The views of a sequence of parsed cookies.
pub open spec fn pairs_view(s: Seq<(Vec<char>, Vec<char>)>) -> Seq<(Seq<char>, Seq<char>)> {
    s.map_values(|p: (Vec<char>, Vec<char>)| (p.0@, p.1@))
}

/// Locate the token in an `Authorization` header value.
pub fn bearer_token(header: &str) -> (r: Option<&str>)
    ensures
        r matches Some(t) ==> spec_bearer_token(header@) == Some(t@),
        r is None ==> spec_bearer_token(header@) is None,
{
    let n = header.unicode_len();
    if n < 7 {
        return None;
    }
    let prefix = header.substring_char(0, 7);
    if str_eq(prefix, "Bearer ") {
        Some(header.substring_char(7, n))
    } else {
        None
    }
}

fn split_semi(s: &str) -> (items: Vec<Vec<char>>)
    ensures
        items_view(items@) == spec_split_semi(s@),
{
    let n = s.unicode_len();
    let mut done: Vec<Vec<char>> = Vec::new();
    let mut cur: Vec<char> = Vec::new();
    let mut i: usize = 0;
    proof {
        lemma_split_semi_len(s@);
        assert(s@.skip(0) =~= s@);
        assert(items_view(done@) + seq![cur@ + spec_split_semi(s@)[0]] + spec_split_semi(
            s@,
        ).drop_first() =~= spec_split_semi(s@));
    }
    while i < n
        invariant
            i <= n,
            n == s@.len(),
            items_view(done@) + seq![cur@ + spec_split_semi(s@.skip(i as int))[0]]
                + spec_split_semi(s@.skip(i as int)).drop_first() == spec_split_semi(s@),
        decreases n - i,
    {
        let ghost r = spec_split_semi(s@.skip(i as int));
        let ghost rn = spec_split_semi(s@.skip(i as int + 1));
        proof {
            assert(s@.skip(i as int)[0] == s@[i as int]);
            assert(s@.skip(i as int).drop_first() =~= s@.skip(i as int + 1));
            lemma_split_semi_len(s@.skip(i as int + 1));
        }
        let c = s.get_char(i);
        if c == ';' {
            proof {
                assert(r == seq![Seq::<char>::empty()] + rn);
            }
            let ghost donev = items_view(done@);
            let ghost curv = cur@;
            done.push(cur);
            cur = Vec::new();
            proof {
                assert(items_view(done@) =~= donev.push(curv));
                assert(curv + r[0] =~= curv);
                assert(r.drop_first() =~= rn);
                assert(rn =~= seq![rn[0]] + rn.drop_first());
                assert(donev.push(curv) + seq![cur@ + rn[0]] + rn.drop_first() =~= donev + seq![
                    curv + r[0],
                ] + r.drop_first());
            }
        } else {
            proof {
                assert(r == seq![seq![s@[i as int]] + rn[0]] + rn.drop_first());
            }
            let ghost curv = cur@;
            cur.push(c);
            proof {
                assert(cur@ =~= curv.push(c));
                assert(cur@ + rn[0] =~= curv + r[0]);
                assert(r.drop_first() =~= rn.drop_first());
                assert(items_view(done@) + seq![cur@ + rn[0]] + rn.drop_first() =~= items_view(
                    done@,
                ) + seq![curv + r[0]] + r.drop_first());
            }
        }
        i = i + 1;
    }
    proof {
        assert(s@.skip(n as int) =~= Seq::<char>::empty());
    }
    let ghost donev = items_view(done@);
    let ghost curv = cur@;
    done.push(cur);
    proof {
        let r = spec_split_semi(Seq::<char>::empty());
        assert(r == seq![Seq::<char>::empty()]);
        assert(curv + r[0] =~= curv);
        assert(items_view(done@) =~= donev.push(curv));
        assert(donev.push(curv) =~= donev + seq![curv + r[0]] + r.drop_first());
    }
    done
}

fn subvec(item: &Vec<char>, from: usize, to: usize) -> (v: Vec<char>)
    requires
        from <= to <= item@.len(),
    ensures
        v@ == item@.subrange(from as int, to as int),
{
    let mut v: Vec<char> = Vec::new();
    let mut j: usize = from;
    while j < to
        invariant
            from <= j <= to <= item@.len(),
            v@ =~= item@.subrange(from as int, j as int),
        decreases to - j,
    {
        v.push(item[j]);
        proof {
            assert(v@ =~= item@.subrange(from as int, j as int + 1));
        }
        j = j + 1;
    }
    v
}

#[verifier::rlimit(30)]
fn parse_item(item: &Vec<char>) -> (r: Option<(Vec<char>, Vec<char>)>)
    ensures
        r matches Some(p) ==> spec_parse_item(item@) == Some((p.0@, p.1@)),
        r is None ==> spec_parse_item(item@) is None,
{
    let n = item.len();
    let mut a: usize = 0;
    proof {
        assert(item@.skip(0) =~= item@);
    }
    while a < n && item[a] == ' '
        invariant
            a <= n,
            n == item@.len(),
            spec_ltrim(item@) == spec_ltrim(item@.skip(a as int)),
        decreases n - a,
    {
        proof {
            assert(item@.skip(a as int)[0] == item@[a as int]);
            assert(item@.skip(a as int).drop_first() =~= item@.skip(a as int + 1));
        }
        a = a + 1;
    }
    let ghost t = item@.skip(a as int);
    proof {
        assert(spec_ltrim(item@) == t);
    }
    let mut b: usize = n;
    proof {
        assert(t.take(n - a as int) =~= t);
    }
    while b > a && item[b - 1] == ' '
        invariant
            a <= b <= n,
            n == item@.len(),
            t == item@.skip(a as int),
            spec_rtrim(t) == spec_rtrim(t.take(b - a as int)),
        decreases b,
    {
        proof {
            assert(t.take(b - a as int)[b - a - 1] == item@[b as int - 1]);
            assert(t.take(b - a as int).drop_last() =~= t.take(b - 1 - a as int));
        }
        b = b - 1;
    }
    let ghost u = item@.subrange(a as int, b as int);
    proof {
        assert(t.take(b - a as int) =~= u);
        assert(spec_trim(item@) == u);
    }
    let mut k: usize = a;
    proof {
        assert(u.skip(0) =~= u);
        if spec_split_eq(u) is Some {
            let p0 = spec_split_eq(u)->Some_0.0;
            assert(u.take(0) + p0 =~= p0);
        }
    }
    while k < b && item[k] != '='
        invariant
            a <= k <= b <= n,
            n == item@.len(),
            u == item@.subrange(a as int, b as int),
            spec_split_eq(u) == match spec_split_eq(u.skip(k - a as int)) {
                None => None,
                Some(p) => Some::<(Seq<char>, Seq<char>)>((u.take(k - a as int) + p.0, p.1)),
            },
        decreases b - k,
    {
        proof {
            assert(u.skip(k - a as int)[0] == item@[k as int]);
            assert(u.skip(k - a as int).drop_first() =~= u.skip(k + 1 - a as int));
            assert(u.take(k - a as int).push(item@[k as int]) =~= u.take(k + 1 - a as int));
            if spec_split_eq(u.skip(k + 1 - a as int)) is Some {
                let p0 = spec_split_eq(u.skip(k + 1 - a as int))->Some_0.0;
                assert(u.take(k - a as int) + (seq![u[k - a as int]] + p0) =~= u.take(
                    k + 1 - a as int,
                ) + p0);
            }
        }
        k = k + 1;
    }
    if k == b {
        proof {
            assert(u.skip(b - a as int) =~= Seq::<char>::empty());
            assert(spec_split_eq(u) is None);
        }
        return None;
    }
    proof {
        assert(u.skip(k - a as int)[0] == item@[k as int]);
        assert(u.skip(k - a as int)[0] == '=');
        assert(u.skip(k - a as int).drop_first() =~= u.skip(k + 1 - a as int));
        assert(u.take(k - a as int) + Seq::<char>::empty() =~= u.take(k - a as int));
        assert(spec_split_eq(u) == Some::<(Seq<char>, Seq<char>)>(
            (u.take(k - a as int), u.skip(k + 1 - a as int)),
        ));
    }
    if k == a {
        return None;
    }
    let name = subvec(item, a, k);
    let value = subvec(item, k + 1, b);
    proof {
        assert(name@ =~= u.take(k - a as int));
        assert(value@ =~= u.skip(k + 1 - a as int));
    }
    Some((name, value))
}

fn parse_items(items: &Vec<Vec<char>>) -> (r: Option<Vec<(Vec<char>, Vec<char>)>>)
    ensures
        r matches Some(v) ==> spec_parse_items(items_view(items@)) == Some(pairs_view(v@)),
        r is None ==> spec_parse_items(items_view(items@)) is None,
{
    let ghost iv = items_view(items@);
    let n = items.len();
    let mut out: Vec<(Vec<char>, Vec<char>)> = Vec::new();
    let mut i: usize = 0;
    proof {
        assert(iv.skip(0) =~= iv);
    }
    while i < n
        invariant
            i <= n,
            n == items@.len(),
            iv == items_view(items@),
            match spec_parse_items(iv.skip(i as int)) {
                Some(rest) => spec_parse_items(iv) == Some(pairs_view(out@) + rest),
                None => spec_parse_items(iv) is None,
            },
        decreases n - i,
    {
        proof {
            assert(iv.skip(i as int)[0] == iv[i as int]);
            assert(iv[i as int] == items@[i as int]@);
            assert(iv.skip(i as int).drop_first() =~= iv.skip(i as int + 1));
        }
        match parse_item(&items[i]) {
            None => {
                return None;
            },
            Some(p) => {
                let ghost outv = pairs_view(out@);
                out.push(p);
                proof {
                    assert(pairs_view(out@) =~= outv.push((p.0@, p.1@)));
                    if spec_parse_items(iv.skip(i as int + 1)) is Some {
                        let rest = spec_parse_items(iv.skip(i as int + 1))->Some_0;
                        assert(outv + (seq![(p.0@, p.1@)] + rest) =~= outv.push((p.0@, p.1@))
                            + rest);
                    }
                }
            },
        }
        i = i + 1;
    }
    proof {
        assert(iv.skip(n as int) =~= Seq::<Seq<char>>::empty());
        assert(pairs_view(out@) + Seq::<(Seq<char>, Seq<char>)>::empty() =~= pairs_view(out@));
    }
    Some(out)
}

fn chars_eq_str(v: &Vec<char>, s: &str) -> (b: bool)
    ensures
        b == (v@ == s@),
{
    let n = s.unicode_len();
    if v.len() != n {
        return false;
    }
    let mut j: usize = 0;
    while j < n
        invariant
            j <= n,
            n == s@.len(),
            v@.len() == n,
            forall|k: int| 0 <= k < j ==> v@[k] == s@[k],
        decreases n - j,
    {
        if v[j] != s.get_char(j) {
            return false;
        }
        j = j + 1;
    }
    proof {
        assert(v@ =~= s@);
    }
    true
}

fn lookup_cookie(cs: &Vec<(Vec<char>, Vec<char>)>, name: &str) -> (r: Option<Vec<char>>)
    ensures
        r matches Some(v) ==> spec_lookup(pairs_view(cs@), name@) == Some(v@),
        r is None ==> spec_lookup(pairs_view(cs@), name@) is None,
{
    let ghost pv = pairs_view(cs@);
    let n = cs.len();
    let mut i: usize = 0;
    proof {
        assert(pv.skip(0) =~= pv);
    }
    while i < n
        invariant
            i <= n,
            n == cs@.len(),
            pv == pairs_view(cs@),
            spec_lookup(pv, name@) == spec_lookup(pv.skip(i as int), name@),
        decreases n - i,
    {
        proof {
            assert(pv.skip(i as int)[0] == pv[i as int]);
            assert(pv[i as int] == (cs@[i as int].0@, cs@[i as int].1@));
        }
        if chars_eq_str(&cs[i].0, name) {
            let v = subvec(&cs[i].1, 0, cs[i].1.len());
            proof {
                assert(v@ =~= cs@[i as int].1@);
            }
            return Some(v);
        }
        proof {
            assert(pv.skip(i as int).drop_first() =~= pv.skip(i as int + 1));
        }
        i = i + 1;
    }
    proof {
        assert(pv.skip(n as int) =~= Seq::<(Seq<char>, Seq<char>)>::empty());
    }
    None
}

/// Extract and validate the access-token claims a request presents through
/// its `Authorization` header.
pub fn extract_token_data(auth_header: Option<&str>, jwt_keys: &Keys, now: i64) -> (r: Result<
    AccessTokenClaims,
    AppError,
>)
    ensures
        r matches Ok(c) ==> spec_extract_access(spec_header(auth_header), jwt_keys@, now) == Ok::<
            AccessClaimsView,
            AuthError,
        >(c@),
        r matches Err(e) ==> spec_extract_access(spec_header(auth_header), jwt_keys@, now) matches
            Err(ae) && e == AppError::AuthError(ae),
{
    let header = match auth_header {
        Some(h) => h,
        None => {
            return Err(AppError::AuthError(AuthError::TokenMissing));
        },
    };
    let token = match bearer_token(header) {
        Some(t) => t,
        None => {
            return Err(AppError::AuthError(AuthError::TokenMissing));
        },
    };
    match decode_access(token, jwt_keys, now) {
        Ok(c) => Ok(c),
        Err(e) => Err(AppError::AuthError(e)),
    }
}

impl AccessTokenClaims {
    /// The bearer extraction path of a request's parts.
    pub fn from_request_parts(auth_header: Option<&str>, jwt_keys: &Keys, now: i64) -> (r: Result<
        Self,
        AppError,
    >)
        ensures
            r matches Ok(c) ==> spec_extract_access(spec_header(auth_header), jwt_keys@, now)
                == Ok::<AccessClaimsView, AuthError>(c@),
            r matches Err(e) ==> spec_extract_access(
                spec_header(auth_header),
                jwt_keys@,
                now,
            ) matches Err(ae) && e == AppError::AuthError(ae),
    {
        extract_token_data(auth_header, jwt_keys, now)
    }
}

impl RefreshTokenClaims {
    /// The cookie extraction path of a request's parts.
    pub fn from_request_parts(cookie_header: Option<&str>, jwt_keys: &Keys, now: i64) -> (r:
        Result<Self, AppError>)
        ensures
            r matches Ok(c) ==> spec_extract_refresh(spec_header(cookie_header), jwt_keys@, now)
                == Ok::<RefreshClaimsView, AuthError>(c@),
            r matches Err(e) ==> spec_extract_refresh(
                spec_header(cookie_header),
                jwt_keys@,
                now,
            ) matches Err(ae) && e == AppError::AuthError(ae),
    {
        let header = match cookie_header {
            Some(h) => h,
            None => {
                return Err(AppError::AuthError(AuthError::MissingCookie));
            },
        };
        let items = split_semi(header);
        let cookies = match parse_items(&items) {
            Some(cs) => cs,
            None => {
                return Err(AppError::AuthError(AuthError::InvalidCookie));
            },
        };
        let value = match lookup_cookie(&cookies, "refresh_token") {
            Some(v) => v,
            None => {
                return Err(AppError::AuthError(AuthError::MissingCookie));
            },
        };
        let token = chars_to_string(&value);
        match decode_refresh(token.as_str(), jwt_keys, now) {
            Ok(c) => Ok(c),
            Err(e) => Err(AppError::AuthError(e)),
        }
    }
}

} // verus!
