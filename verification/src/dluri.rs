//! Digital Link URI construction: the primary key and its qualifiers
//! form the URI path in their declared order; every other element
//! becomes a query parameter keyed by its AI code.

use vstd::prelude::*;
use crate::chars::{hex_digit_char, hex_digit_str, pos_of, ascii_char_str};
use crate::dict::{DlRole, ai_info, code_key, valid_code};
use crate::elements::{ElemV, Element, ElementSet, elems_wf, elem_wf, elem_known, value_ok,
    unknown_elem_wf};
use crate::validate::known_info;

verus! {

/// `c` needs no percent-escaping in a Digital Link path segment or
/// query value.
pub open spec fn is_uri_unreserved(c: char) -> bool {
    let u = c as u32;
    (48 <= u && u <= 57) || (65 <= u && u <= 90) || (97 <= u && u <= 122) || u == 45 || u == 46
        || u == 95 || u == 126
}

pub fn char_is_uri_unreserved(c: char) -> (r: bool)
    ensures
        r == is_uri_unreserved(c),
{
    let u = c as u32;
    (48 <= u && u <= 57) || (65 <= u && u <= 90) || (97 <= u && u <= 122) || u == 45 || u == 46
        || u == 95 || u == 126
}

/// Percent-escape of one character.
pub open spec fn pct_encode_char(c: char) -> Seq<char> {
    if is_uri_unreserved(c) {
        seq![c]
    } else {
        seq!['%', hex_digit_char(c as u32 as int / 16), hex_digit_char(c as u32 as int % 16)]
    }
}

/// Percent-escape of a string.
pub open spec fn pct_encode(s: Seq<char>) -> Seq<char>
    decreases s.len(),
{
    if s.len() == 0 {
        Seq::empty()
    } else {
        pct_encode_char(s[0]) + pct_encode(s.skip(1))
    }
}

/// Executable percent-escaping of an ASCII string.
pub fn pct_encode_str(s: &str) -> (r: String)
    requires
        forall|i: int| 0 <= i < s@.len() ==> (#[trigger] s@[i] as u32) < 128,
    ensures
        r@ == pct_encode(s@),
{
    let n = s.unicode_len();
    let mut out = String::new();
    let mut i: usize = 0;
    proof {
        assert(Seq::<char>::empty() + pct_encode(s@) =~= pct_encode(s@));
        assert(s@.skip(0) =~= s@);
    }
    while i < n
        invariant
            i <= n,
            n == s@.len(),
            forall|j: int| 0 <= j < s@.len() ==> (#[trigger] s@[j] as u32) < 128,
            out@ + pct_encode(s@.skip(i as int)) == pct_encode(s@),
        decreases n - i,
    {
        let c = s.get_char(i);
        let ghost pre = out@;
        if char_is_uri_unreserved(c) {
            let piece = s.substring_char(i, i + 1);
            proof {
                assert(piece@ =~= seq![s@[i as int]]);
            }
            out.append(piece);
        } else {
            let u = c as u32;
            out.append("%");
            out.append(hex_digit_str((u / 16) as u8));
            out.append(hex_digit_str((u % 16) as u8));
            proof {
                reveal_strlit("%");
                assert("%"@ =~= seq!['%']);
            }
        }
        proof {
            let suf = s@.skip(i as int);
            assert(suf[0] == s@[i as int]);
            assert(suf.skip(1) =~= s@.skip(i as int + 1));
            assert(pct_encode(suf) == pct_encode_char(suf[0]) + pct_encode(suf.skip(1)));
            assert(out@ =~= pre + pct_encode_char(s@[i as int]));
            assert(out@ + pct_encode(s@.skip(i as int + 1)) =~= pre + pct_encode(suf));
        }
        i = i + 1;
    }
    proof {
        assert(s@.skip(n as int) =~= Seq::<char>::empty());
        assert(out@ + pct_encode(s@.skip(n as int)) =~= out@);
    }
    out
}

/// Percent-decoding; `None` on a malformed escape or one that does not
/// denote a printable ASCII character.
pub open spec fn pct_decode(s: Seq<char>) -> Option<Seq<char>>
    decreases s.len(),
{
    if s.len() == 0 {
        Some(Seq::empty())
    } else if s[0] == '%' {
        if s.len() >= 3 && crate::chars::is_hex_digit(s[1]) && crate::chars::is_hex_digit(s[2]) {
            let v = 16 * crate::chars::hex_val(s[1]) + crate::chars::hex_val(s[2]);
            if 32 <= v <= 126 {
                match pct_decode(s.skip(3)) {
                    Some(r) => Some(seq![((v as u32) as char)] + r),
                    None => None,
                }
            } else {
                None
            }
        } else {
            None
        }
    } else {
        match pct_decode(s.skip(1)) {
            Some(r) => Some(seq![s[0]] + r),
            None => None,
        }
    }
}

/// Executable percent-decoding.
pub fn pct_decode_str(s: &str) -> (r: Option<String>)
    ensures
        r is Some <==> pct_decode(s@) is Some,
        r matches Some(t) ==> t@ == pct_decode(s@).unwrap(),
    decreases s@.len(),
{
    let n = s.unicode_len();
    if n == 0 {
        return Some(String::new());
    }
    let c = s.get_char(0);
    if c == '%' {
        if n < 3 {
            return None;
        }
        let h1 = s.get_char(1);
        let h2 = s.get_char(2);
        if !crate::chars::char_is_hex_digit(h1) || !crate::chars::char_is_hex_digit(h2) {
            return None;
        }
        let v: u8 = 16 * crate::chars::char_hex_val(h1) + crate::chars::char_hex_val(h2);
        if v < 32 || v > 126 {
            return None;
        }
        let ch = v as char;
        let rest_s = s.substring_char(3, n);
        proof {
            assert(rest_s@ =~= s@.skip(3));
        }
        match pct_decode_str(rest_s) {
            Some(rt) => {
                let mut out = String::from_str(ascii_char_str(ch));
                out.append(rt.as_str());
                proof {
                    assert(out@ =~= seq![((v as u32) as char)] + rt@);
                }
                Some(out)
            },
            None => None,
        }
    } else {
        let rest_s = s.substring_char(1, n);
        proof {
            assert(rest_s@ =~= s@.skip(1));
        }
        match pct_decode_str(rest_s) {
            Some(rt) => {
                let mut out = String::from_str(s.substring_char(0, 1));
                out.append(rt.as_str());
                proof {
                    assert(s@.subrange(0, 1) =~= seq![s@[0]]);
                    assert(out@ =~= seq![s@[0]] + rt@);
                }
                Some(out)
            },
            None => None,
        }
    }
}

/// The element's AI is a Digital Link primary key.
pub open spec fn is_dl_key(e: ElemV) -> bool {
    match known_info(e) {
        Some(info) => info.role == DlRole::Key,
        None => false,
    }
}

/// The element's AI is a Digital Link qualifier with path position `q`.
pub open spec fn is_dl_qual(e: ElemV, q: int) -> bool {
    match known_info(e) {
        Some(info) => info.role == DlRole::Qualifier && info.qual_seq == q,
        None => false,
    }
}

/// Index of the first primary-key element at or after `i`.
pub open spec fn find_key(es: Seq<ElemV>, i: int) -> Option<int>
    decreases es.len() - i,
{
    if i < 0 || i >= es.len() {
        None
    } else if is_dl_key(es[i]) {
        Some(i)
    } else {
        find_key(es, i + 1)
    }
}

/// Index of the first qualifier element with path position `q` at or
/// after `i`.
pub open spec fn find_qual(es: Seq<ElemV>, q: int, i: int) -> Option<int>
    decreases es.len() - i,
{
    if i < 0 || i >= es.len() {
        None
    } else if is_dl_qual(es[i], q) {
        Some(i)
    } else {
        find_qual(es, q, i + 1)
    }
}

/// The set's primary key admits path qualifiers (it is the GTIN).
pub open spec fn gtin_path(es: Seq<ElemV>) -> bool {
    match find_key(es, 0) {
        Some(ki) => code_key(es[ki].code) == 101,
        None => false,
    }
}

/// The element at `i` goes into the URI path: it is the primary key, or
/// a qualifier chosen for a GTIN path.
pub open spec fn in_dl_path(es: Seq<ElemV>, i: int) -> bool {
    match find_key(es, 0) {
        None => false,
        Some(ki) => i == ki || (gtin_path(es) && (find_qual(es, 1, 0) == Some(i) || find_qual(
            es,
            2,
            0,
        ) == Some(i) || find_qual(es, 3, 0) == Some(i))),
    }
}

/// The path contribution of the qualifier with position `q`, if present.
pub open spec fn qual_part(es: Seq<ElemV>, q: int) -> Seq<char> {
    match find_qual(es, q, 0) {
        Some(i) => seq!['/'] + es[i].code + seq!['/'] + pct_encode(es[i].value),
        None => Seq::empty(),
    }
}

/// The query contributions of the elements from `i` on, each written
/// `&code=value`.
pub open spec fn dl_query_params(es: Seq<ElemV>, i: int) -> Seq<char>
    decreases es.len() - i,
{
    if i < 0 || i >= es.len() {
        Seq::empty()
    } else if in_dl_path(es, i) {
        dl_query_params(es, i + 1)
    } else {
        seq!['&'] + es[i].code + seq!['='] + pct_encode(es[i].value) + dl_query_params(es, i + 1)
    }
}

/// The stem with trailing slashes removed.
pub open spec fn trim_slashes(s: Seq<char>) -> Seq<char>
    decreases s.len(),
{
    if s.len() > 0 && s.last() == '/' {
        trim_slashes(s.drop_last())
    } else {
        s
    }
}

/// The Digital Link URI of an element set under a (trimmed) stem;
/// meaningful when a primary key is present.
pub open spec fn dl_uri_spec(es: Seq<ElemV>, stem: Seq<char>) -> Seq<char> {
    let ki = find_key(es, 0).unwrap();
    let path = stem + seq!['/'] + es[ki].code + seq!['/'] + pct_encode(es[ki].value) + (if gtin_path(
        es,
    ) {
        qual_part(es, 1) + qual_part(es, 2) + qual_part(es, 3)
    } else {
        Seq::empty()
    });
    let q = dl_query_params(es, 0);
    if q.len() == 0 {
        path
    } else {
        path + seq!['?'] + q.skip(1)
    }
}

/// A Digital Link URI can be built: a primary key is present, every
/// non-path element's AI is permitted as a query attribute, and — when
/// the unknown-AI rule is enabled — no unknown AI must be smuggled in
/// as an attribute.
pub open spec fn dl_buildable(es: Seq<ElemV>, unknown_flag: bool) -> bool {
    &&& find_key(es, 0) is Some
    &&& forall|i: int|
        0 <= i < es.len() && !in_dl_path(es, i) ==> match known_info(#[trigger] es[i]) {
            Some(info) => info.role != DlRole::NoDl,
            None => !unknown_flag,
        }
}

/// Some element outside the path carries the given code of an AI that a
/// Digital Link URI may not carry at all.
pub open spec fn nodl_blocker(es: Seq<ElemV>, c: Seq<char>) -> bool {
    exists|i: int|
        #![trigger es[i]]
        0 <= i < es.len() && !in_dl_path(es, i) && known_info(es[i]) is Some && known_info(
            es[i],
        ).unwrap().role == DlRole::NoDl && es[i].code == c
}

/// Some element outside the path carries the given code of an AI the
/// dictionary does not know.
pub open spec fn unknown_blocker(es: Seq<ElemV>, c: Seq<char>) -> bool {
    exists|i: int|
        #![trigger es[i]]
        0 <= i < es.len() && !in_dl_path(es, i) && known_info(es[i]) is None && es[i].code == c
}

/// Why a Digital Link URI could not be built.
#[derive(Debug)]
pub enum DlBuildErr {
    /// The element set has no primary-key AI.
    NoPrimaryKey,
    /// The named AI is not permitted in a Digital Link URI.
    NotPermitted(String),
    /// The named AI is unknown and may not become a Digital Link
    /// attribute.
    UnknownAi(String),
}

/// Find the primary-key element, executably.
fn find_key_exec(es: &ElementSet) -> (r: Option<usize>)
    ensures
        match r {
            Some(i) => find_key(es@, 0) == Some(i as int) && i < es@.len(),
            None => find_key(es@, 0) is None,
        },
{
    let n = es.len();
    let mut i: usize = 0;
    while i < n
        invariant
            i <= n,
            n == es@.len(),
            find_key(es@, 0) == find_key(es@, i as int),
        decreases n - i,
    {
        let e = es.get(i);
        let isk = match crate::validate::elem_info(e) {
            Some(info) => matches!(info.role, DlRole::Key),
            None => false,
        };
        if isk {
            return Some(i);
        }
        i = i + 1;
    }
    None
}

/// Find the first qualifier element with path position `q`, executably.
fn find_qual_exec(es: &ElementSet, q: usize) -> (r: Option<usize>)
    ensures
        match r {
            Some(i) => find_qual(es@, q as int, 0) == Some(i as int) && i < es@.len(),
            None => find_qual(es@, q as int, 0) is None,
        },
{
    let n = es.len();
    let mut i: usize = 0;
    while i < n
        invariant
            i <= n,
            n == es@.len(),
            find_qual(es@, q as int, 0) == find_qual(es@, q as int, i as int),
        decreases n - i,
    {
        let e = es.get(i);
        let isq = match crate::validate::elem_info(e) {
            Some(info) => matches!(info.role, DlRole::Qualifier) && info.qual_seq == q,
            None => false,
        };
        if isq {
            return Some(i);
        }
        i = i + 1;
    }
    None
}

/// Every stored element's value is printable ASCII, as the parsers
/// guarantee; needed before percent-escaping.
pub proof fn lemma_wf_value_ascii(e: ElemV)
    requires
        elem_wf(e),
    ensures
        forall|i: int| 0 <= i < e.value.len() ==> (#[trigger] e.value[i] as u32) < 128,
        forall|i: int| 0 <= i < e.code.len() ==> (#[trigger] e.code[i] as u32) < 128,
{
    if elem_known(e) {
        let info = ai_info(code_key(e.code)).unwrap();
        assert(value_ok(info, e.value));
        match info.cset {
            crate::dict::Cset::Numeric => {
                assert(forall|i: int|
                    0 <= i < e.value.len() ==> (#[trigger] e.value[i] as u32) < 128);
            },
            crate::dict::Cset::Alnum => {
                assert(forall|i: int|
                    0 <= i < e.value.len() ==> (#[trigger] e.value[i] as u32) < 128);
            },
        }
    } else {
        assert(unknown_elem_wf(e));
    }
}

/// Build the Digital Link URI of a validated element set under the
/// given stem (trailing slashes ignored).  Fails exactly when no
/// primary key is present or some element cannot be carried.
pub fn build_dl_uri(es: &ElementSet, stem: &str, unknown_flag: bool) -> (r: Result<
    String,
    DlBuildErr,
>)
    requires
        elems_wf(es@),
    ensures
        r is Ok <==> dl_buildable(es@, unknown_flag),
        r matches Ok(u) ==> u@ == dl_uri_spec(es@, trim_slashes(stem@)),
        r matches Err(e) ==> (e is NoPrimaryKey <==> find_key(es@, 0) is None),
        r matches Err(e) ==> match e {
            DlBuildErr::NoPrimaryKey => true,
            DlBuildErr::NotPermitted(c) => nodl_blocker(es@, c@),
            DlBuildErr::UnknownAi(c) => unknown_flag && unknown_blocker(es@, c@),
        },
{
    let ki = match find_key_exec(es) {
        Some(i) => i,
        None => {
            return Err(DlBuildErr::NoPrimaryKey);
        },
    };
    let pk = es.get(ki);
    let pk_key = crate::dict::code_key_str(pk.code.as_str()).unwrap();
    let gtin = pk_key == 101;
    let q1 = if gtin {
        find_qual_exec(es, 1)
    } else {
        None
    };
    let q2 = if gtin {
        find_qual_exec(es, 2)
    } else {
        None
    };
    let q3 = if gtin {
        find_qual_exec(es, 3)
    } else {
        None
    };
    proof {
        assert(gtin == gtin_path(es@));
    }
    let n = es.len();
    // reject elements that cannot be carried
    let mut i: usize = 0;
    while i < n
        invariant
            i <= n,
            n == es@.len(),
            elems_wf(es@),
            find_key(es@, 0) == Some(ki as int),
            ki < n,
            gtin == gtin_path(es@),
            match q1 {
                Some(a) => gtin && find_qual(es@, 1, 0) == Some(a as int),
                None => !gtin || find_qual(es@, 1, 0) is None,
            },
            match q2 {
                Some(a) => gtin && find_qual(es@, 2, 0) == Some(a as int),
                None => !gtin || find_qual(es@, 2, 0) is None,
            },
            match q3 {
                Some(a) => gtin && find_qual(es@, 3, 0) == Some(a as int),
                None => !gtin || find_qual(es@, 3, 0) is None,
            },
            forall|j: int|
                0 <= j < i && !in_dl_path(es@, j) ==> match known_info(#[trigger] es@[j]) {
                    Some(info) => info.role != DlRole::NoDl,
                    None => !unknown_flag,
                },
        decreases n - i,
    {
        let in_path = i == ki || (match q1 {
            Some(a) => a == i,
            None => false,
        }) || (match q2 {
            Some(a) => a == i,
            None => false,
        }) || (match q3 {
            Some(a) => a == i,
            None => false,
        });
        proof {
            assert(in_path == in_dl_path(es@, i as int));
        }
        if !in_path {
            let e = es.get(i);
            match crate::validate::elem_info(e) {
                Some(info) => {
                    if matches!(info.role, DlRole::NoDl) {
                        return Err(DlBuildErr::NotPermitted(e.code.clone()));
                    }
                },
                None => {
                    if unknown_flag {
                        return Err(DlBuildErr::UnknownAi(e.code.clone()));
                    }
                },
            }
        }
        i = i + 1;
    }
    // assemble the URI
    let stem_len = {
        let m = stem.unicode_len();
        let mut t = m;
        proof {
            assert(stem@.take(m as int) =~= stem@);
        }
        while t > 0 && s_last_is_slash(stem, t)
            invariant
                t <= m,
                m == stem@.len(),
                trim_slashes(stem@) == trim_slashes(stem@.take(t as int)),
            decreases t,
        {
            proof {
                assert(stem@.take(t as int).drop_last() =~= stem@.take(t as int - 1));
            }
            t = t - 1;
        }
        proof {
            assert(stem@.take(t as int).len() == t as int);
            if t > 0 {
                assert(stem@.take(t as int).last() == stem@[t as int - 1]);
            }
            assert(trim_slashes(stem@.take(t as int)) == stem@.take(t as int));
        }
        t
    };
    let mut out = String::from_str(stem.substring_char(0, stem_len));
    proof {
        assert(out@ =~= trim_slashes(stem@));
        lemma_wf_value_ascii(es@[ki as int]);
    }
    out.append("/");
    out.append(pk.code.as_str());
    out.append("/");
    let encv = pct_encode_str(pk.value.as_str());
    out.append(encv.as_str());
    proof {
        reveal_strlit("/");
        assert("/"@ =~= seq!['/']);
        assert(out@ =~= trim_slashes(stem@) + seq!['/'] + es@[ki as int].code + seq!['/']
            + pct_encode(es@[ki as int].value));
    }
    if gtin {
        append_qual(&mut out, es, q1, Ghost(1));
        append_qual(&mut out, es, q2, Ghost(2));
        append_qual(&mut out, es, q3, Ghost(3));
    }
    let ghost path_part = out@;
    proof {
        assert(path_part == trim_slashes(stem@) + seq!['/'] + es@[ki as int].code + seq!['/']
            + pct_encode(es@[ki as int].value) + (if gtin_path(es@) {
            qual_part(es@, 1) + qual_part(es@, 2) + qual_part(es@, 3)
        } else {
            Seq::<char>::empty()
        })) by {
            if !gtin {
                assert(path_part + Seq::<char>::empty() =~= path_part);
            }
        }
    }
    // query parameters
    let mut qs = String::new();
    let mut i: usize = 0;
    proof {
        assert(Seq::<char>::empty() + dl_query_params(es@, 0) =~= dl_query_params(es@, 0));
    }
    while i < n
        invariant
            i <= n,
            n == es@.len(),
            elems_wf(es@),
            find_key(es@, 0) == Some(ki as int),
            ki < n,
            gtin == gtin_path(es@),
            match q1 {
                Some(a) => gtin && find_qual(es@, 1, 0) == Some(a as int),
                None => !gtin || find_qual(es@, 1, 0) is None,
            },
            match q2 {
                Some(a) => gtin && find_qual(es@, 2, 0) == Some(a as int),
                None => !gtin || find_qual(es@, 2, 0) is None,
            },
            match q3 {
                Some(a) => gtin && find_qual(es@, 3, 0) == Some(a as int),
                None => !gtin || find_qual(es@, 3, 0) is None,
            },
            qs@ + dl_query_params(es@, i as int) == dl_query_params(es@, 0),
        decreases n - i,
    {
        let in_path = i == ki || (match q1 {
            Some(a) => a == i,
            None => false,
        }) || (match q2 {
            Some(a) => a == i,
            None => false,
        }) || (match q3 {
            Some(a) => a == i,
            None => false,
        });
        proof {
            assert(in_path == in_dl_path(es@, i as int));
        }
        let ghost pre = qs@;
        if !in_path {
            let e = es.get(i);
            proof {
                lemma_wf_value_ascii(es@[i as int]);
            }
            qs.append("&");
            qs.append(e.code.as_str());
            qs.append("=");
            let ev = pct_encode_str(e.value.as_str());
            qs.append(ev.as_str());
            proof {
                reveal_strlit("&");
                reveal_strlit("=");
                assert("&"@ =~= seq!['&']);
                assert("="@ =~= seq!['=']);
                assert(qs@ =~= pre + seq!['&'] + es@[i as int].code + seq!['=']
                    + pct_encode(es@[i as int].value));
                assert(qs@ + dl_query_params(es@, i as int + 1) =~= pre + dl_query_params(
                    es@,
                    i as int,
                ));
            }
        }
        i = i + 1;
    }
    proof {
        assert(dl_query_params(es@, n as int) =~= Seq::<char>::empty());
        assert(qs@ + dl_query_params(es@, n as int) =~= qs@);
        assert(qs@ == dl_query_params(es@, 0));
    }
    let qlen = qs.as_str().unicode_len();
    if qlen > 0 {
        out.append("?");
        let tail = qs.as_str().substring_char(1, qlen);
        out.append(tail);
        proof {
            reveal_strlit("?");
            assert("?"@ =~= seq!['?']);
            assert(tail@ =~= qs@.skip(1));
            assert(out@ =~= path_part + seq!['?'] + dl_query_params(es@, 0).skip(1));
        }
    }
    Ok(out)
}

/// Whether the `t`-th character (one-based end) of the stem is a slash.
fn s_last_is_slash(s: &str, t: usize) -> (r: bool)
    requires
        1 <= t <= s@.len(),
    ensures
        r == (s@.take(t as int).last() == '/'),
{
    let c = s.get_char(t - 1);
    proof {
        assert(s@.take(t as int).last() == s@[t as int - 1]);
    }
    c == '/'
}

/// Append one qualifier's path contribution.
fn append_qual(out: &mut String, es: &ElementSet, q: Option<usize>, Ghost(qn): Ghost<int>)
    requires
        elems_wf(es@),
        match q {
            Some(a) => find_qual(es@, qn, 0) == Some(a as int) && a < es@.len(),
            None => find_qual(es@, qn, 0) is None,
        },
    ensures
        final(out)@ == old(out)@ + qual_part(es@, qn),
{
    match q {
        Some(a) => {
            let e = es.get(a);
            proof {
                lemma_wf_value_ascii(es@[a as int]);
            }
            out.append("/");
            out.append(e.code.as_str());
            out.append("/");
            let ev = pct_encode_str(e.value.as_str());
            out.append(ev.as_str());
            proof {
                reveal_strlit("/");
                assert("/"@ =~= seq!['/']);
                assert(out@ =~= old(out)@ + qual_part(es@, qn));
            }
        },
        None => {
            proof {
                assert(old(out)@ + qual_part(es@, qn) =~= old(out)@);
            }
        },
    }
}

} // verus!
