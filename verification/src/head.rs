//! The head of a framed request: request line and header lines up to the
//! blank line, with header and cookie accessors and the declared content
//! length.

use vstd::prelude::*;

use crate::bytes::{
    bytes_eq, dec_val, find_byte, find_byte_from, find_crlf, find_crlf_from, is_digits, lower_seq,
    parse_usize, sub_vec, sub_vec_lower,
};
use crate::error::RequestError;

verus! {

/// The mathematical model of a parsed head: the three request-line
/// tokens and the header pairs, names lowercased, in line order.
pub ghost struct HeadView {
    pub method: Seq<u8>,
    pub path: Seq<u8>,
    pub version: Seq<u8>,
    pub headers: Seq<(Seq<u8>, Seq<u8>)>,
}

/// The request line of `s`: three non-empty tokens separated by single
/// spaces and closed by a carriage-return/line-feed pair, and the index
/// just past that pair; `None` if the line is missing or malformed.
pub open spec fn spec_request_line(s: Seq<u8>) -> Option<(Seq<u8>, Seq<u8>, Seq<u8>, int)> {
    let e = find_crlf(s, 0);
    if e == s.len() || e + 2 > s.len() {
        None
    } else {
        let sp1 = find_byte(s, 0, 32);
        let sp2 = find_byte(s, sp1 + 1, 32);
        let sp3 = find_byte(s, sp2 + 1, 32);
        if 0 < sp1 && sp1 + 1 < sp2 && sp2 + 1 < e && sp3 >= e {
            Some((s.subrange(0, sp1), s.subrange(sp1 + 1, sp2), s.subrange(sp2 + 1, e), e + 2))
        } else {
            None
        }
    }
}

/// The header lines of `s` from `i` to the closing blank line: each line
/// is a non-empty name, a colon, an optional single space, and a value;
/// the result pairs carry the name lowercased, and the index just past
/// the blank line's closing pair; `None` if a line is malformed or the
/// blank line is missing.
pub open spec fn spec_headers(s: Seq<u8>, i: int) -> Option<(Seq<(Seq<u8>, Seq<u8>)>, int)>
    decreases s.len() - i
{
    if !(0 <= i <= s.len()) {
        None
    } else {
        let e = find_crlf(s, i);
        if e == s.len() || e + 2 > s.len() {
            None
        } else if e == i {
            Some((Seq::<(Seq<u8>, Seq<u8>)>::empty(), i + 2))
        } else if e < i {
            None
        } else {
            let colon = find_byte(s, i, 58);
            if colon >= e || colon == i {
                None
            } else {
                let vs = if colon + 1 < e && s[colon + 1] == 32 {
                    colon + 2
                } else {
                    colon + 1
                };
                match spec_headers(s, e + 2) {
                    None => None,
                    Some((rest, end)) => Some(
                        (seq![(lower_seq(s.subrange(i, colon)), s.subrange(vs, e))] + rest, end),
                    ),
                }
            }
        }
    }
}

/// The head denoted by the start of `s`: request line, then header lines
/// to the blank line, and the index of the first body byte.
pub open spec fn spec_head(s: Seq<u8>) -> Option<(HeadView, int)> {
    match spec_request_line(s) {
        None => None,
        Some((m, p, v, i)) => match spec_headers(s, i) {
            None => None,
            Some((hs, end)) => Some(
                (HeadView { method: m, path: p, version: v, headers: hs }, end),
            ),
        },
    }
}

/// The value of the first pair of `ps`, at or after `i`, whose name is
/// `name`.
pub open spec fn pair_lookup(ps: Seq<(Seq<u8>, Seq<u8>)>, i: int, name: Seq<u8>) -> Option<
    Seq<u8>,
>
    decreases ps.len() - i
{
    if !(0 <= i < ps.len()) {
        None
    } else if ps[i].0 == name {
        Some(ps[i].1)
    } else {
        pair_lookup(ps, i + 1, name)
    }
}

/// One header line: a name (stored lowercased) and its value.
pub struct Header {
    pub name: Vec<u8>,
    pub value: Vec<u8>,
}

impl View for Header {
    type V = (Seq<u8>, Seq<u8>);

    open spec fn view(&self) -> (Seq<u8>, Seq<u8>) {
        (self.name@, self.value@)
    }
}

/// One cookie: a name and a value.
pub struct Cookie {
    pub name: Vec<u8>,
    pub value: Vec<u8>,
}

impl View for Cookie {
    type V = (Seq<u8>, Seq<u8>);

    open spec fn view(&self) -> (Seq<u8>, Seq<u8>) {
        (self.name@, self.value@)
    }
}

/// The cookies of a request, in header order.
pub struct Cookies {
    pub cookies: Vec<Cookie>,
}

impl View for Cookies {
    type V = Seq<(Seq<u8>, Seq<u8>)>;

    open spec fn view(&self) -> Seq<(Seq<u8>, Seq<u8>)> {
        self.cookies@.map_values(|c: Cookie| c@)
    }
}

impl Cookies {
    /// Cookies with no pairs at all.
    pub fn empty() -> (r: Cookies)
        ensures
            r@ == Seq::<(Seq<u8>, Seq<u8>)>::empty(),
    {
        let r = Cookies { cookies: Vec::new() };
        proof {
            assert(r@ =~= Seq::<(Seq<u8>, Seq<u8>)>::empty());
        }
        r
    }

    /// The value of the first cookie with the given name.
    pub fn get<'a>(&'a self, name: &Vec<u8>) -> (r: Option<&'a Vec<u8>>)
        ensures
            match r {
                Some(v) => pair_lookup(self@, 0, name@) == Some(v@),
                None => pair_lookup(self@, 0, name@) is None,
            },
    {
        let mut k: usize = 0;
        while k < self.cookies.len()
            invariant
                k <= self.cookies@.len(),
                pair_lookup(self@, 0, name@) == pair_lookup(self@, k as int, name@),
            decreases self.cookies@.len() - k,
        {
            if bytes_eq(&self.cookies[k].name, name) {
                return Some(&self.cookies[k].value);
            }
            k += 1;
        }
        None
    }
}

/// The cookie pairs encoded in `s` from `i` on: `name=value` parts
/// separated by a semicolon and an optional single space; a part with no
/// `=`, or with an empty name, contributes no pair.
pub open spec fn spec_cookie_pairs(s: Seq<u8>, i: int) -> Seq<(Seq<u8>, Seq<u8>)>
    decreases s.len() - i
{
    if !(0 <= i < s.len()) {
        Seq::<(Seq<u8>, Seq<u8>)>::empty()
    } else {
        let sc = find_byte(s, i, 59);
        let eq = find_byte(s, i, 61);
        let pair = if i < eq && eq < sc {
            seq![(s.subrange(i, eq), s.subrange(eq + 1, sc))]
        } else {
            Seq::<(Seq<u8>, Seq<u8>)>::empty()
        };
        if sc >= s.len() || sc < i {
            pair
        } else {
            let next = if sc + 2 <= s.len() && s[sc + 1] == 32 {
                sc + 2
            } else {
                sc + 1
            };
            pair + spec_cookie_pairs(s, next)
        }
    }
}

/// Parse the cookie pairs of the header value `v`.
fn parse_cookie_pairs(v: &Vec<u8>) -> (r: Vec<Cookie>)
    ensures
        r@.map_values(|c: Cookie| c@) == spec_cookie_pairs(v@, 0),
{
    let mut out: Vec<Cookie> = Vec::new();
    let mut i: usize = 0;
    proof {
        assert(out@.map_values(|c: Cookie| c@) =~= Seq::<(Seq<u8>, Seq<u8>)>::empty());
    }
    while i < v.len()
        invariant
            i <= v@.len(),
            spec_cookie_pairs(v@, 0) == out@.map_values(|c: Cookie| c@) + spec_cookie_pairs(
                v@,
                i as int,
            ),
        decreases v@.len() - i,
    {
        let ghost pre = out@.map_values(|c: Cookie| c@);
        let sc = find_byte_from(v, i, 59);
        let eq = find_byte_from(v, i, 61);
        let ghost pair = if i < eq && eq < sc {
            seq![(v@.subrange(i as int, eq as int), v@.subrange(eq as int + 1, sc as int))]
        } else {
            Seq::<(Seq<u8>, Seq<u8>)>::empty()
        };
        if i < eq && eq < sc {
            let name = sub_vec(v, i, eq);
            let value = sub_vec(v, eq + 1, sc);
            out.push(Cookie { name, value });
        }
        proof {
            assert(out@.map_values(|c: Cookie| c@) =~= pre + pair);
        }
        if sc == v.len() {
            proof {
                assert(spec_cookie_pairs(v@, i as int) == pair);
                assert(pre + pair =~= out@.map_values(|c: Cookie| c@) + Seq::<
                    (Seq<u8>, Seq<u8>),
                >::empty());
            }
            i = sc;
        } else {
            let next = if sc + 1 < v.len() && v[sc + 1] == 32 {
                sc + 2
            } else {
                sc + 1
            };
            proof {
                assert(spec_cookie_pairs(v@, i as int) == pair + spec_cookie_pairs(
                    v@,
                    next as int,
                ));
                assert(pre + (pair + spec_cookie_pairs(v@, next as int)) =~= (pre + pair)
                    + spec_cookie_pairs(v@, next as int));
            }
            i = next;
        }
    }
    proof {
        assert(spec_cookie_pairs(v@, i as int) =~= Seq::<(Seq<u8>, Seq<u8>)>::empty());
        assert(out@.map_values(|c: Cookie| c@) + Seq::<(Seq<u8>, Seq<u8>)>::empty() =~= out@
            .map_values(|c: Cookie| c@));
    }
    out
}

/// The bytes of the lowercase header name `content-length`.
pub open spec fn content_length_name() -> Seq<u8> {
    seq![99u8, 111u8, 110u8, 116u8, 101u8, 110u8, 116u8, 45u8, 108u8, 101u8, 110u8, 103u8, 116u8, 104u8]
}

/// The bytes of the lowercase header name `cookie`.
pub open spec fn cookie_name() -> Seq<u8> {
    seq![99u8, 111u8, 111u8, 107u8, 105u8, 101u8]
}

/// The declared content length of the head `h`: the value of its
/// `content-length` header, if that is present, all digits, and fits.
pub open spec fn spec_content_length(h: HeadView) -> Option<usize> {
    match pair_lookup(h.headers, 0, content_length_name()) {
        None => None,
        Some(v) => if is_digits(v) && dec_val(v) <= usize::MAX {
            Some(dec_val(v) as usize)
        } else {
            None
        },
    }
}

/// The cookie pairs of the head `h`: those of its `cookie` header, or
/// none when the header is absent.
pub open spec fn spec_head_cookies(h: HeadView) -> Seq<(Seq<u8>, Seq<u8>)> {
    match pair_lookup(h.headers, 0, cookie_name()) {
        None => Seq::<(Seq<u8>, Seq<u8>)>::empty(),
        Some(v) => spec_cookie_pairs(v, 0),
    }
}

/// The head of a framed request: the request line's method, path and
/// version, and the header lines, names lowercased, in line order.
pub struct Head {
    pub method: Vec<u8>,
    pub path: Vec<u8>,
    pub version: Vec<u8>,
    pub headers: Vec<Header>,
}

impl View for Head {
    type V = HeadView;

    open spec fn view(&self) -> HeadView {
        HeadView {
            method: self.method@,
            path: self.path@,
            version: self.version@,
            headers: self.headers@.map_values(|h: Header| h@),
        }
    }
}

impl Head {
    /// Parse the head of a framed request from the start of `buf`:
    /// the request line, then the header lines, up to and including the
    /// blank line. Returns the head and the index of the first body
    /// byte exactly when the head is well formed.
    pub fn parse(buf: &Vec<u8>) -> (r: Result<(Head, usize), RequestError>)
        ensures
            r is Ok <==> spec_head(buf@) is Some,
            r matches Ok(p) ==> Some((p.0@, p.1 as int)) == spec_head(buf@) && p.1 <= buf@.len(),
            r is Err ==> r == Err::<(Head, usize), RequestError>(RequestError::MalformedRequest),
    {
        let e0 = find_crlf_from(buf, 0);
        if e0 == buf.len() {
            return Err(RequestError::MalformedRequest);
        }
        let sp1 = find_byte_from(buf, 0, 32);
        let sp2 = if sp1 < buf.len() {
            find_byte_from(buf, sp1 + 1, 32)
        } else {
            buf.len()
        };
        let sp3 = if sp2 < buf.len() {
            find_byte_from(buf, sp2 + 1, 32)
        } else {
            buf.len()
        };
        let ghost ssp2 = find_byte(buf@, sp1 as int + 1, 32);
        let ghost ssp3 = find_byte(buf@, sp2 as int + 1, 32);
        proof {
            assert(ssp2 == sp2 as int);
            assert(ssp3 == sp3 as int);
        }
        let ok = 0 < sp1 && sp1 < buf.len() && sp1 + 1 < sp2 && sp2 < buf.len() && sp2 + 1 < e0
            && sp3 >= e0;
        if !ok {
            proof {
                assert(spec_request_line(buf@) is None);
            }
            return Err(RequestError::MalformedRequest);
        }
        let method = sub_vec(buf, 0, sp1);
        let path = sub_vec(buf, sp1 + 1, sp2);
        let version = sub_vec(buf, sp2 + 1, e0);
        let ghost i0 = e0 as int + 2;
        assert(spec_request_line(buf@) == Some((method@, path@, version@, i0)));
        let mut headers: Vec<Header> = Vec::new();
        let mut cur = e0 + 2;
        proof {
            assert(headers@.map_values(|h: Header| h@) =~= Seq::<(Seq<u8>, Seq<u8>)>::empty());
        }
        loop
            invariant
                cur <= buf@.len(),
                spec_request_line(buf@) == Some((method@, path@, version@, i0)),
                spec_headers(buf@, i0) is Some ==> spec_headers(buf@, cur as int) is Some,
                spec_headers(buf@, cur as int) matches Some(p) ==> spec_headers(buf@, i0) == Some(
                    (headers@.map_values(|h: Header| h@) + p.0, p.1),
                ),
                spec_headers(buf@, cur as int) is None ==> spec_headers(buf@, i0) is None,
            decreases buf@.len() - cur,
        {
            let ghost pre = headers@.map_values(|h: Header| h@);
            let e = find_crlf_from(buf, cur);
            if e == buf.len() {
                proof {
                    assert(spec_headers(buf@, cur as int) is None);
                }
                return Err(RequestError::MalformedRequest);
            }
            if e == cur {
                let end = cur + 2;
                proof {
                    assert(spec_headers(buf@, cur as int) == Some(
                        (Seq::<(Seq<u8>, Seq<u8>)>::empty(), end as int),
                    ));
                    assert(pre + Seq::<(Seq<u8>, Seq<u8>)>::empty() =~= pre);
                }
                let head = Head { method, path, version, headers };
                return Ok((head, end));
            }
            let colon = find_byte_from(buf, cur, 58);
            if colon >= e || colon == cur {
                proof {
                    assert(spec_headers(buf@, cur as int) is None);
                }
                return Err(RequestError::MalformedRequest);
            }
            let vs = if colon + 1 < e && buf[colon + 1] == 32 {
                colon + 2
            } else {
                colon + 1
            };
            let name = sub_vec_lower(buf, cur, colon);
            let value = sub_vec(buf, vs, e);
            let ghost hdr = (
                lower_seq(buf@.subrange(cur as int, colon as int)),
                buf@.subrange(vs as int, e as int),
            );
            headers.push(Header { name, value });
            proof {
                assert(headers@.map_values(|h: Header| h@) =~= pre + seq![hdr]);
                if spec_headers(buf@, e as int + 2) is Some {
                    let rest = spec_headers(buf@, e as int + 2)->Some_0.0;
                    let end2 = spec_headers(buf@, e as int + 2)->Some_0.1;
                    assert(spec_headers(buf@, cur as int) == Some((seq![hdr] + rest, end2)));
                    assert(pre + (seq![hdr] + rest) =~= (pre + seq![hdr]) + rest);
                } else {
                    assert(spec_headers(buf@, cur as int) is None);
                }
            }
            cur = e + 2;
        }
    }

    /// The value of the first header with the given name; header names
    /// are stored lowercased, so `name` should be lowercase.
    pub fn header<'a>(&'a self, name: &Vec<u8>) -> (r: Option<&'a Vec<u8>>)
        ensures
            match r {
                Some(v) => pair_lookup(self@.headers, 0, name@) == Some(v@),
                None => pair_lookup(self@.headers, 0, name@) is None,
            },
    {
        let mut k: usize = 0;
        while k < self.headers.len()
            invariant
                k <= self.headers@.len(),
                pair_lookup(self@.headers, 0, name@) == pair_lookup(self@.headers, k as int, name@),
            decreases self.headers@.len() - k,
        {
            if bytes_eq(&self.headers[k].name, name) {
                return Some(&self.headers[k].value);
            }
            k += 1;
        }
        None
    }

    /// The declared content length: the value of the `content-length`
    /// header, when it is present, all digits, and fits a `usize`.
    pub fn content_length(&self) -> (r: Option<usize>)
        ensures
            r == spec_content_length(self@),
    {
        let needle: Vec<u8> = vec![99u8, 111u8, 110u8, 116u8, 101u8, 110u8, 116u8, 45u8, 108u8, 101u8, 110u8, 103u8, 116u8, 104u8];
        proof {
            assert(needle@ =~= content_length_name());
        }
        match self.header(&needle) {
            None => None,
            Some(v) => parse_usize(v),
        }
    }

    /// The cookies carried by the `cookie` header, in order; an absent
    /// header gives no cookies.
    pub fn cookies(&self) -> (r: Cookies)
        ensures
            r@ == spec_head_cookies(self@),
    {
        let needle: Vec<u8> = vec![99u8, 111u8, 111u8, 107u8, 105u8, 101u8];
        proof {
            assert(needle@ =~= cookie_name());
        }
        match self.header(&needle) {
            None => Cookies::empty(),
            Some(v) => Cookies { cookies: parse_cookie_pairs(v) },
        }
    }
}

} // verus!
