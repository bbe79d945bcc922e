//! Cookie-token extraction and the browser-auth decisions.
//!
//! Browser-facing routes authenticate from a `token=` cookie. The cookie
//! header is split on `;`, each piece is trimmed of ASCII whitespace, and
//! the first piece starting with `token=` yields the candidate token, with
//! every repetition of that leading marker removed. A missing or empty
//! token redirects to the login page; an invalid one, or one whose claims
//! carry an empty user identifier, does too. Validating the token itself
//! is the JWT library's job and happens outside; the decision on its
//! outcome is made here.

use vstd::prelude::*;

verus! {

/// The byte of the `;` cookie separator.
pub open spec fn semi() -> u8 {
    59u8
}

/// ASCII whitespace, as trimming removes it: space, tab, line feed,
/// vertical tab, form feed, carriage return.
pub open spec fn is_ws(b: u8) -> bool {
    b == 32 || b == 9 || b == 10 || b == 11 || b == 12 || b == 13
}

/// `s` without its leading whitespace.
pub open spec fn trim_front(s: Seq<u8>) -> Seq<u8>
    decreases s.len(),
{
    if s.len() > 0 && is_ws(s[0]) {
        trim_front(s.drop_first())
    } else {
        s
    }
}

/// `s` without its trailing whitespace.
pub open spec fn trim_back(s: Seq<u8>) -> Seq<u8>
    decreases s.len(),
{
    if s.len() > 0 && is_ws(s.last()) {
        trim_back(s.drop_last())
    } else {
        s
    }
}

/// `s` without leading and trailing whitespace.
pub open spec fn trim(s: Seq<u8>) -> Seq<u8> {
    trim_back(trim_front(s))
}

/// The bytes of the `token=` marker.
pub open spec fn token_marker() -> Seq<u8> {
    seq![116u8, 111u8, 107u8, 101u8, 110u8, 61u8]
}

/// `s` starts with the `token=` marker.
pub open spec fn has_token_marker(s: Seq<u8>) -> bool {
    s.len() >= 6 && s.take(6) == token_marker()
}

/// `s` with every repetition of the leading `token=` marker removed.
pub open spec fn strip_token_markers(s: Seq<u8>) -> Seq<u8>
    decreases s.len(),
{
    if has_token_marker(s) {
        strip_token_markers(s.skip(6))
    } else {
        s
    }
}

/// The index of the first `;` in `s`, or `s.len()` if there is none.
pub open spec fn first_semi(s: Seq<u8>) -> int
    decreases s.len(),
{
    if s.len() == 0 {
        0
    } else if s[0] == semi() {
        0
    } else {
        1 + first_semi(s.drop_first())
    }
}

/// `first_semi` names an index of `s` (or its length), the bytes before
/// it are not `;`, and the byte there — if any — is.
pub proof fn lemma_first_semi(s: Seq<u8>)
    ensures
        0 <= first_semi(s) <= s.len(),
        forall|k: int| 0 <= k < first_semi(s) ==> s[k] != semi(),
        first_semi(s) < s.len() ==> s[first_semi(s)] == semi(),
    decreases s.len(),
{
    if s.len() == 0 {
    } else if s[0] == semi() {
    } else {
        lemma_first_semi(s.drop_first());
        assert forall|k: int| 0 <= k < first_semi(s) implies s[k] != semi() by {
            if k > 0 {
                assert(s.drop_first()[k - 1] == s[k]);
            }
        }
        if first_semi(s) < s.len() {
            assert(s.drop_first()[first_semi(s) - 1] == s[first_semi(s)]);
        }
    }
}

/// An index below which no byte is `;`, and at which — if inside `s` —
/// the byte is `;`, is the first semicolon index.
pub proof fn lemma_first_semi_is(s: Seq<u8>, j: int)
    requires
        0 <= j <= s.len(),
        forall|k: int| 0 <= k < j ==> s[k] != semi(),
        j < s.len() ==> s[j] == semi(),
    ensures
        first_semi(s) == j,
    decreases s.len(),
{
    if s.len() == 0 {
    } else if s[0] == semi() {
        assert(j == 0);
    } else {
        assert(j > 0 || j < s.len());
        assert(j != 0);
        assert forall|k: int| 0 <= k < j - 1 implies s.drop_first()[k] != semi() by {
            assert(s.drop_first()[k] == s[k + 1]);
        }
        if j - 1 < s.drop_first().len() {
            assert(s.drop_first()[j - 1] == s[j]);
        }
        lemma_first_semi_is(s.drop_first(), j - 1);
    }
}

/// The token the cookie header yields: in the first `;`-separated piece
/// that, after trimming, starts with `token=`, the bytes after every
/// repetition of that leading marker; or nothing, if no piece matches.
pub open spec fn find_token(s: Seq<u8>) -> Option<Seq<u8>>
    decreases s.len(),
    via find_token_decreases
{
    let i = first_semi(s);
    let seg = trim(s.take(i));
    if has_token_marker(seg) {
        Option::Some(strip_token_markers(seg))
    } else if i == s.len() {
        Option::None
    } else {
        find_token(s.skip(i + 1))
    }
}

#[via_fn]
proof fn find_token_decreases(s: Seq<u8>) {
    lemma_first_semi(s);
}

/// Whether the byte at `i` is ASCII whitespace.
fn is_space(b: u8) -> (r: bool)
    ensures
        r == is_ws(b),
{
    b == 32 || b == 9 || b == 10 || b == 11 || b == 12 || b == 13
}

/// The token `find_token` names in `h` from position `start` on.
fn find_token_at(h: &[u8], start: usize) -> (r: Option<Vec<u8>>)
    requires
        start <= h@.len(),
    ensures
        match r {
            Option::Some(v) => find_token(h@.skip(start as int)) == Option::Some(v@),
            Option::None => find_token(h@.skip(start as int)) is None,
        },
    decreases h@.len() - start,
{
    let ghost s = h@.skip(start as int);

    // The end of the current piece: the first `;` at or after `start`.
    let mut i: usize = start;
    while i < h.len() && h[i] != 59
        invariant
            start <= i <= h@.len(),
            forall|k: int| start <= k < i ==> h@[k] != semi(),
        decreases h@.len() - i,
    {
        i = i + 1;
    }
    proof {
        assert forall|k: int| 0 <= k < i - start implies s[k] != semi() by {
            assert(s[k] == h@[start + k]);
        }
        if i - start < s.len() {
            assert(s[i - start] == h@[i as int]);
        }
        lemma_first_semi_is(s, i - start);
        assert(s.take(i - start) =~= h@.subrange(start as int, i as int));
    }

    // Trim the piece: move `lo` past leading whitespace, `hi` before
    // trailing whitespace.
    let mut lo: usize = start;
    let mut hi: usize = i;
    while lo < hi && is_space(h[lo])
        invariant
            start <= lo <= hi,
            hi == i <= h@.len(),
            trim_front(h@.subrange(start as int, i as int)) == trim_front(
                h@.subrange(lo as int, i as int),
            ),
        decreases hi - lo,
    {
        proof {
            assert(h@.subrange(lo as int, i as int).drop_first() =~= h@.subrange(
                lo as int + 1,
                i as int,
            ));
        }
        lo = lo + 1;
    }
    proof {
        assert(trim_front(h@.subrange(lo as int, i as int)) == h@.subrange(lo as int, i as int));
    }
    while hi > lo && is_space(h[hi - 1])
        invariant
            start <= lo <= hi <= i <= h@.len(),
            trim(h@.subrange(start as int, i as int)) == trim_back(
                h@.subrange(lo as int, hi as int),
            ),
        decreases hi - lo,
    {
        proof {
            assert(h@.subrange(lo as int, hi as int).drop_last() =~= h@.subrange(
                lo as int,
                hi as int - 1,
            ));
        }
        hi = hi - 1;
    }
    let ghost seg = h@.subrange(lo as int, hi as int);
    proof {
        assert(trim(s.take(i - start)) == seg);
    }

    // Does the trimmed piece start with the `token=` marker?
    let marked = hi - lo >= 6 && h[lo] == 116 && h[lo + 1] == 111 && h[lo + 2] == 107 && h[lo
        + 3] == 101 && h[lo + 4] == 110 && h[lo + 5] == 61;
    proof {
        if marked {
            assert(seg.take(6) =~= token_marker());
        } else if seg.len() >= 6 {
            assert(seg[0] == h@[lo as int] && seg[1] == h@[lo as int + 1] && seg[2] == h@[lo as int
                + 2] && seg[3] == h@[lo as int + 3] && seg[4] == h@[lo as int + 4] && seg[5]
                == h@[lo as int + 5]);
            if seg.take(6) == token_marker() {
                assert(seg.take(6)[0] == 116u8 && seg.take(6)[1] == 111u8 && seg.take(6)[2] == 107u8
                    && seg.take(6)[3] == 101u8 && seg.take(6)[4] == 110u8 && seg.take(6)[5]
                    == 61u8);
                assert(false);
            }
        }
        assert(marked == has_token_marker(seg));
    }

    if marked {
        // Skip every repetition of the marker, then copy the rest out.
        let mut p: usize = lo;
        while hi - p >= 6 && h[p] == 116 && h[p + 1] == 111 && h[p + 2] == 107 && h[p + 3] == 101
            && h[p + 4] == 110 && h[p + 5] == 61
            invariant
                lo <= p <= hi <= h@.len(),
                strip_token_markers(seg) == strip_token_markers(
                    h@.subrange(p as int, hi as int),
                ),
                seg == h@.subrange(lo as int, hi as int),
            decreases hi - p,
        {
            proof {
                let cur = h@.subrange(p as int, hi as int);
                assert(cur.take(6) =~= token_marker());
                assert(cur.skip(6) =~= h@.subrange(p as int + 6, hi as int));
            }
            p = p + 6;
        }
        proof {
            let cur = h@.subrange(p as int, hi as int);
            if cur.len() >= 6 {
                assert(cur[0] == h@[p as int] && cur[1] == h@[p as int + 1] && cur[2] == h@[p as int
                    + 2] && cur[3] == h@[p as int + 3] && cur[4] == h@[p as int + 4] && cur[5]
                    == h@[p as int + 5]);
                if cur.take(6) == token_marker() {
                    assert(cur.take(6)[0] == 116u8 && cur.take(6)[1] == 111u8 && cur.take(6)[2]
                        == 107u8 && cur.take(6)[3] == 101u8 && cur.take(6)[4] == 110u8
                        && cur.take(6)[5] == 61u8);
                    assert(false);
                }
            }
            assert(!has_token_marker(cur));
        }
        let mut v: Vec<u8> = Vec::new();
        let mut q: usize = p;
        while q < hi
            invariant
                p <= q <= hi <= h@.len(),
                v@ == h@.subrange(p as int, q as int),
            decreases hi - q,
        {
            v.push(h[q]);
            proof {
                assert(h@.subrange(p as int, q as int + 1) =~= h@.subrange(
                    p as int,
                    q as int,
                ).push(h@[q as int]));
            }
            q = q + 1;
        }
        proof {
            assert(v@ == strip_token_markers(seg));
        }
        Option::Some(v)
    } else if i == h.len() {
        Option::None
    } else {
        proof {
            assert(s.skip(i - start + 1) =~= h@.skip(i as int + 1));
        }
        find_token_at(h, i + 1)
    }
}

/// The token named by the cookie header, if any: the first `;`-separated,
/// whitespace-trimmed piece starting with `token=`, with every repetition
/// of that leading marker removed.
pub fn browser_token_from_cookies(header: &[u8]) -> (r: Option<Vec<u8>>)
    ensures
        match r {
            Option::Some(v) => find_token(header@) == Option::Some(v@),
            Option::None => find_token(header@) is None,
        },
{
    proof {
        assert(header@.skip(0) =~= header@);
    }
    find_token_at(header, 0)
}

/// What the middleware does before the JWT library is consulted: redirect
/// to the login page, or validate a candidate token.
#[derive(Debug, PartialEq)]
pub enum TokenStep {
    RedirectToLogin,
    Validate(Vec<u8>),
}

/// What the JWT library reported of the candidate token: the server's JWT
/// configuration could not be loaded, the token failed validation, or it
/// carried these claims (the user identifier, "pid").
#[derive(Debug, PartialEq)]
pub enum ValidationEvent {
    ConfigError,
    Invalid,
    Valid(String),
}

/// How the middleware answers: an internal server error, a redirect to
/// the login page, or letting the request proceed as the given user.
#[derive(Debug, PartialEq)]
pub enum AuthDecision {
    InternalError,
    RedirectToLogin,
    Proceed(String),
}

/// First half of the browser-auth middleware: a missing cookie header, a
/// header without a `token=` cookie, and an empty token all redirect to
/// the login page; anything else is handed to the JWT library.
pub fn browser_token_step(header: Option<&[u8]>) -> (r: TokenStep)
    ensures
        match header {
            Option::None => r is RedirectToLogin,
            Option::Some(h) => match find_token(h@) {
                Option::None => r is RedirectToLogin,
                Option::Some(t) => if t.len() == 0 {
                    r is RedirectToLogin
                } else {
                    r matches TokenStep::Validate(v) && v@ == t
                },
            },
        },
{
    match header {
        Option::None => TokenStep::RedirectToLogin,
        Option::Some(h) => match browser_token_from_cookies(h) {
            Option::None => TokenStep::RedirectToLogin,
            Option::Some(t) => {
                if t.len() == 0 {
                    TokenStep::RedirectToLogin
                } else {
                    TokenStep::Validate(t)
                }
            },
        },
    }
}

/// Second half of the browser-auth middleware, deciding on the JWT
/// library's outcome: a configuration failure is an internal error; an
/// invalid token, or valid claims with an empty user identifier, redirect
/// to the login page; otherwise the request proceeds as that user.
pub fn browser_claims_step(event: ValidationEvent) -> (r: AuthDecision)
    ensures
        match event {
            ValidationEvent::ConfigError => r is InternalError,
            ValidationEvent::Invalid => r is RedirectToLogin,
            ValidationEvent::Valid(pid) => if pid@.len() == 0 {
                r is RedirectToLogin
            } else {
                r matches AuthDecision::Proceed(p) && p == pid
            },
        },
{
    match event {
        ValidationEvent::ConfigError => AuthDecision::InternalError,
        ValidationEvent::Invalid => AuthDecision::RedirectToLogin,
        ValidationEvent::Valid(pid) => {
            if pid.as_str().is_empty() {
                AuthDecision::RedirectToLogin
            } else {
                AuthDecision::Proceed(pid)
            }
        },
    }
}

} // verus!
