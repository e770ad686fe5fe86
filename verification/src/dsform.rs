//! The unbracketed data-string form: parsing and serialization.
//!
//! A data string is the `'^'` start sentinel followed by fields.  Each
//! field is an AI code directly followed by its value.  Fixed-length AIs
//! consume exactly their defined length; variable-length AIs run to the
//! next `'^'` separator or to the end of the input.  AI codes are found
//! by longest-match lookup in the dictionary.
//!
//! The spec functions here work on the body after the sentinel; the
//! engine context strips and re-adds the sentinel.

use vstd::prelude::*;
use crate::chars::{is_dec_digit, digit_val, is_digits, char_is_digit};
use crate::dict::{AiInfo, ai_info, code_key, valid_code, lookup_key, lemma_code_key_push,
    lemma_dict_info_wf};
use crate::elements::{ElemV, Element, value_ok, check_passthrough_value};

verus! {

/// Longest-match dictionary lookup at the head of `s`: the length of
/// the matched code, if any.
pub open spec fn match_code(s: Seq<char>) -> Option<int> {
    if s.len() >= 4 && is_digits(s.take(4)) && ai_info(code_key(s.take(4))) is Some {
        Some(4int)
    } else if s.len() >= 3 && is_digits(s.take(3)) && ai_info(code_key(s.take(3))) is Some {
        Some(3int)
    } else if s.len() >= 2 && is_digits(s.take(2)) && ai_info(code_key(s.take(2))) is Some {
        Some(2int)
    } else {
        None
    }
}

/// Index of the first `'^'` separator in `s`, or `s.len()` when there
/// is none.
pub open spec fn sep_pos(s: Seq<char>) -> int
    decreases s.len(),
{
    if s.len() == 0 {
        0
    } else if s[0] == '^' {
        0
    } else {
        1 + sep_pos(s.skip(1))
    }
}

pub proof fn lemma_sep_pos_props(s: Seq<char>)
    ensures
        0 <= sep_pos(s) <= s.len(),
        forall|i: int| 0 <= i < sep_pos(s) ==> s[i] != '^',
        sep_pos(s) < s.len() ==> s[sep_pos(s)] == '^',
    decreases s.len(),
{
    if s.len() > 0 && s[0] != '^' {
        lemma_sep_pos_props(s.skip(1));
        assert(forall|i: int| 0 <= i < sep_pos(s.skip(1)) ==> s.skip(1)[i] != '^');
        assert(forall|i: int| 1 <= i < sep_pos(s) ==> s[i] == s.skip(1)[i - 1]);
    }
}

pub proof fn lemma_sep_pos_at(s: Seq<char>, p: int)
    requires
        0 <= p <= s.len(),
        forall|i: int| 0 <= i < p ==> s[i] != '^',
        p < s.len() ==> s[p] == '^',
    ensures
        sep_pos(s) == p,
    decreases s.len(),
{
    if s.len() > 0 && s[0] != '^' {
        assert(p >= 1);
        assert(forall|i: int| 0 <= i < p - 1 ==> s.skip(1)[i] == s[i + 1]);
        lemma_sep_pos_at(s.skip(1), p - 1);
    }
}

/// The first field of `s`: the parsed element and the number of
/// characters consumed (including a trailing separator where one is
/// taken), or `None` when the head of `s` is not a valid field.
pub open spec fn ds_first(s: Seq<char>, permit_unknown: bool) -> Option<(ElemV, int)> {
    match match_code(s) {
        Some(clen) => {
            let info = ai_info(code_key(s.take(clen))).unwrap();
            if info.fixed {
                let vlen = info.max_len as int;
                if s.len() >= clen + vlen && value_ok(info, s.subrange(clen, clen + vlen)) {
                    Some(
                        (
                            ElemV { code: s.take(clen), value: s.subrange(clen, clen + vlen) },
                            clen + vlen,
                        ),
                    )
                } else {
                    None
                }
            } else {
                let vlen = sep_pos(s.skip(clen));
                let v = s.subrange(clen, clen + vlen);
                if value_ok(info, v) {
                    let consumed = if clen + vlen < s.len() {
                        clen + vlen + 1
                    } else {
                        clen + vlen
                    };
                    Some((ElemV { code: s.take(clen), value: v }, consumed))
                } else {
                    None
                }
            }
        },
        None => {
            if permit_unknown && s.len() >= 2 && is_digits(s.take(2)) {
                let vlen = sep_pos(s.skip(2));
                let v = s.subrange(2, 2 + vlen);
                if 1 <= vlen <= 90 && (forall|i: int|
                    0 <= i < v.len() ==> crate::chars::is_passthrough_char(#[trigger] v[i])) {
                    let consumed = if 2 + vlen < s.len() {
                        2 + vlen + 1
                    } else {
                        2 + vlen
                    };
                    Some((ElemV { code: s.take(2), value: v }, consumed))
                } else {
                    None
                }
            } else {
                None
            }
        },
    }
}

/// Parse the body of a data string (after the `'^'` sentinel) into its
/// sequence of elements; `None` on any malformed field.
pub open spec fn ds_parse(s: Seq<char>, permit_unknown: bool) -> Option<Seq<ElemV>>
    decreases s.len(),
{
    if s.len() == 0 {
        Some(Seq::empty())
    } else {
        match ds_first(s, permit_unknown) {
            Some((e, consumed)) => {
                if 0 < consumed <= s.len() {
                    match ds_parse(s.skip(consumed), permit_unknown) {
                        Some(rest) => Some(seq![e] + rest),
                        None => None,
                    }
                } else {
                    None
                }
            },
            None => None,
        }
    }
}

/// Whether a field with this AI code serializes as variable-length
/// (needing a separator when another field follows).
pub open spec fn code_is_var(code: Seq<char>) -> bool {
    if valid_code(code) && ai_info(code_key(code)) is Some {
        !ai_info(code_key(code)).unwrap().fixed
    } else {
        true
    }
}

/// Whether the element serializes as a variable-length field.
pub open spec fn elem_is_var(e: ElemV) -> bool {
    code_is_var(e.code)
}

/// Executable form of `code_is_var`.
pub fn code_is_var_exec(code: &str) -> (r: bool)
    ensures
        r == code_is_var(code@),
{
    match crate::dict::code_key_str(code) {
        Some(k) => match lookup_key(k) {
            Some(info) => !info.fixed,
            None => true,
        },
        None => true,
    }
}

/// Serialized text of the body of a data string (after the sentinel):
/// each field is code then value, with a `'^'` separator after each
/// variable-length field that is not last.
pub open spec fn ds_serialize(es: Seq<ElemV>) -> Seq<char>
    decreases es.len(),
{
    if es.len() == 0 {
        Seq::empty()
    } else {
        let sep: Seq<char> = if elem_is_var(es[0]) && es.len() > 1 {
            seq!['^']
        } else {
            Seq::empty()
        };
        es[0].code + es[0].value + sep + ds_serialize(es.skip(1))
    }
}

/// What went wrong while parsing one representation.
#[derive(Clone, Copy, PartialEq, Eq, Structural, Debug)]
pub enum FailKind {
    /// No dictionary AI (and, where applicable, unknown AIs are not
    /// permitted) at this position.
    UnknownAi,
    /// Input ended before a fixed-length value was complete.
    TooShort,
    /// A value violates its AI's length bounds.
    BadLength,
    /// A value holds a character outside its AI's character set.
    BadCharset,
    /// A numeric key value ends in an incorrect check digit.
    BadCheckDigit,
    /// An unknown AI's value is empty or not printable.
    BadValue,
    /// A Digital Link URI is malformed: bad scheme, no path, or a path
    /// that does not decompose into a key and qualifier pairs.
    DlSyntax,
    /// A Digital Link path holds no primary-key AI.
    NoPrimaryKey,
}

/// A parse failure: the kind and the offending span of the input, for
/// diagnostic markup.
#[derive(Debug)]
pub struct ParseFail {
    pub kind: FailKind,
    /// Start of the offending span, in characters from the start of the
    /// whole input.
    pub pos: usize,
    /// End (exclusive) of the offending span.
    pub end: usize,
    /// The AI code the failure concerns, where one was recognized.
    pub ai: Option<String>,
}

/// The parse-failure kind of a failed format check.
pub open spec fn value_fail_kind(info: AiInfo, v: Seq<char>) -> FailKind {
    match crate::elements::value_verdict(info, v) {
        crate::elements::ValueVerdict::WrongChar => FailKind::BadCharset,
        crate::elements::ValueVerdict::WrongCheckDigit => FailKind::BadCheckDigit,
        _ => FailKind::BadLength,
    }
}

/// Classification of the failure of the first field of `s`: the kind,
/// the AI code it concerns (where one was recognized), and the
/// offending span relative to `s`.  Meaningful when
/// `ds_first(s, permit_unknown)` is `None` and `s` is nonempty.
pub open spec fn ds_first_fail(s: Seq<char>, permit_unknown: bool) -> (
    FailKind,
    Option<Seq<char>>,
    int,
    int,
) {
    match match_code(s) {
        Some(clen) => {
            let code = s.take(clen);
            let info = ai_info(code_key(code)).unwrap();
            if info.fixed {
                let vlen = info.max_len as int;
                if s.len() < clen + vlen {
                    (FailKind::TooShort, Some(code), 0, s.len() as int)
                } else {
                    (
                        value_fail_kind(info, s.subrange(clen, clen + vlen)),
                        Some(code),
                        clen,
                        clen + vlen,
                    )
                }
            } else {
                let vlen = sep_pos(s.skip(clen));
                (
                    value_fail_kind(info, s.subrange(clen, clen + vlen)),
                    Some(code),
                    clen,
                    clen + vlen,
                )
            }
        },
        None => {
            if !permit_unknown {
                (
                    FailKind::UnknownAi,
                    None,
                    0,
                    if s.len() >= 2 {
                        2int
                    } else {
                        s.len() as int
                    },
                )
            } else if s.len() < 2 {
                (FailKind::UnknownAi, None, 0, s.len() as int)
            } else if !is_digits(s.take(2)) {
                (FailKind::UnknownAi, None, 0, 2)
            } else {
                let vlen = sep_pos(s.skip(2));
                (FailKind::BadValue, Some(s.take(2)), 2, 2 + vlen)
            }
        },
    }
}

/// Classification of the first failure in a data-string body: the kind,
/// the AI code it concerns, and the offending span relative to `s`.
/// Meaningful when `ds_parse(s, permit_unknown)` is `None`.
pub open spec fn ds_fail(s: Seq<char>, permit_unknown: bool) -> (
    FailKind,
    Option<Seq<char>>,
    int,
    int,
)
    decreases s.len(),
{
    if s.len() == 0 {
        (FailKind::UnknownAi, None, 0, 0)
    } else {
        match ds_first(s, permit_unknown) {
            Some((e, consumed)) => {
                if 0 < consumed <= s.len() {
                    let d = ds_fail(s.skip(consumed), permit_unknown);
                    (d.0, d.1, d.2 + consumed, d.3 + consumed)
                } else {
                    (FailKind::UnknownAi, None, 0, 0)
                }
            },
            None => ds_first_fail(s, permit_unknown),
        }
    }
}

/// The error value matches the spec-level failure classification `d`,
/// with spans shifted by the input offset.
pub open spec fn fail_matches(
    f: ParseFail,
    d: (FailKind, Option<Seq<char>>, int, int),
    offset: int,
) -> bool {
    &&& f.kind == d.0
    &&& match (f.ai, d.1) {
        (Some(a), Some(b)) => a@ == b,
        (None, None) => true,
        _ => false,
    }
    &&& f.pos == offset + d.2
    &&& f.end == offset + d.3
}

/// Longest-match dictionary lookup at the head of `s`, executable form.
pub fn match_code_exec(s: &str) -> (r: Option<(usize, AiInfo)>)
    ensures
        match r {
            Some((clen, info)) => {
                &&& match_code(s@) == Some(clen as int)
                &&& 2 <= clen <= 4
                &&& ai_info(code_key(s@.take(clen as int))) == Some(info)
            },
            None => match_code(s@) is None,
        },
{
    let n = s.unicode_len();
    if n < 2 {
        return None;
    }
    let c0 = s.get_char(0);
    let c1 = s.get_char(1);
    if !char_is_digit(c0) || !char_is_digit(c1) {
        proof {
            assert(s@.take(2)[0] == s@[0] && s@.take(2)[1] == s@[1]);
            if s@.len() >= 3 {
                assert(s@.take(3)[0] == s@[0] && s@.take(3)[1] == s@[1]);
            }
            if s@.len() >= 4 {
                assert(s@.take(4)[0] == s@[0] && s@.take(4)[1] == s@[1]);
            }
        }
        return None;
    }
    let k2: u32 = 100 + 10 * (crate::chars::char_digit_val(c0) as u32) + (crate::chars::char_digit_val(
        c1,
    ) as u32);
    proof {
        assert(s@.take(0) =~= Seq::<char>::empty());
        lemma_code_key_push(s@, 0);
        lemma_code_key_push(s@, 1);
        assert(s@.take(1)[0] == s@[0]);
        assert(s@.take(2)[0] == s@[0] && s@.take(2)[1] == s@[1]);
        assert(k2 as int == code_key(s@.take(2)));
        assert(is_digits(s@.take(2)));
    }
    let mut k3: Option<u32> = None;
    let mut k4: Option<u32> = None;
    if n >= 3 {
        let c2 = s.get_char(2);
        if char_is_digit(c2) {
            let kk3 = 10 * k2 + (crate::chars::char_digit_val(c2) as u32);
            proof {
                lemma_code_key_push(s@, 2);
                assert(forall|j: int| 0 <= j < 3 ==> #[trigger] s@.take(3)[j] == s@[j]);
                assert(is_digits(s@.take(3)));
            }
            k3 = Some(kk3);
            if n >= 4 {
                let c3 = s.get_char(3);
                if char_is_digit(c3) {
                    proof {
                        lemma_code_key_push(s@, 3);
                        assert(forall|j: int| 0 <= j < 4 ==> #[trigger] s@.take(4)[j] == s@[j]);
                        assert(is_digits(s@.take(4)));
                    }
                    k4 = Some(10 * kk3 + (crate::chars::char_digit_val(c3) as u32));
                } else {
                    proof {
                        assert(!is_digits(s@.take(4)));
                    }
                }
            }
        } else {
            proof {
                assert(s@.take(3)[2] == s@[2]);
                if s@.len() >= 4 {
                    assert(s@.take(4)[2] == s@[2]);
                }
            }
        }
    }
    if let Some(k) = k4 {
        if let Some(info) = lookup_key(k) {
            return Some((4, info));
        }
    }
    if let Some(k) = k3 {
        if let Some(info) = lookup_key(k) {
            return Some((3, info));
        }
    }
    if let Some(info) = lookup_key(k2) {
        return Some((2, info));
    }
    None
}

/// Position of the first `'^'` at or after `from`, or `n` when none.
pub fn find_sep(s: &str, from: usize) -> (j: usize)
    requires
        from <= s@.len(),
    ensures
        from <= j <= s@.len(),
        j - from == sep_pos(s@.skip(from as int)),
{
    let n = s.unicode_len();
    let mut j = from;
    while j < n && s.get_char(j) != '^'
        invariant
            from <= j <= n,
            n == s@.len(),
            forall|i: int| from <= i < j ==> s@[i] != '^',
        decreases n - j,
    {
        j = j + 1;
    }
    proof {
        let t = s@.skip(from as int);
        assert(forall|i: int| 0 <= i < j - from ==> t[i] == s@[i + from]);
        assert(j < n ==> t[j - from] == s@[j as int]);
        lemma_sep_pos_at(t, j - from);
    }
    j
}

/// Parse the body of a data string (after the sentinel) into elements.
/// Error spans are reported relative to the whole input: this call
/// parses the characters `offset..offset + s@.len()` of it.
pub fn ds_parse_str(s: &str, permit_unknown: bool, offset: usize) -> (r: Result<
    Vec<Element>,
    ParseFail,
>)
    requires
        offset + s@.len() <= usize::MAX,
    ensures
        r is Ok <==> ds_parse(s@, permit_unknown) is Some,
        r matches Ok(v) ==> v@.map_values(|e: Element| e@) == ds_parse(s@, permit_unknown).unwrap(),
        r matches Err(f) ==> offset <= f.pos <= f.end <= offset + s@.len(),
        r matches Err(f) ==> fail_matches(f, ds_fail(s@, permit_unknown), offset as int),
    decreases s@.len(),
{
    let n = s.unicode_len();
    if n == 0 {
        let v: Vec<Element> = Vec::new();
        proof {
            assert(v@.map_values(|e: Element| e@) =~= Seq::<ElemV>::empty());
        }
        return Ok(v);
    }
    let first = match_code_exec(s);
    let (elem, consumed): (Element, usize) = match first {
        Some((clen, info)) => {
            proof {
                lemma_dict_info_wf(code_key(s@.take(clen as int)));
            }
            let code_s = s.substring_char(0, clen);
            proof {
                assert(code_s@ =~= s@.take(clen as int));
            }
            if info.fixed {
                let vlen = info.max_len;
                if n < clen + vlen {
                    return Err(
                        ParseFail {
                            kind: FailKind::TooShort,
                            pos: offset,
                            end: offset + n,
                            ai: Some(String::from_str(code_s)),
                        },
                    );
                }
                let val_s = s.substring_char(clen, clen + vlen);
                let verdict = crate::elements::check_value_kind(&info, val_s);
                if !matches!(verdict, crate::elements::ValueVerdict::Accept) {
                    let kind = match verdict {
                        crate::elements::ValueVerdict::WrongChar => FailKind::BadCharset,
                        crate::elements::ValueVerdict::WrongCheckDigit => FailKind::BadCheckDigit,
                        _ => FailKind::BadLength,
                    };
                    return Err(
                        ParseFail {
                            kind,
                            pos: offset + clen,
                            end: offset + clen + vlen,
                            ai: Some(String::from_str(code_s)),
                        },
                    );
                }
                (
                    Element { code: String::from_str(code_s), value: String::from_str(val_s) },
                    clen + vlen,
                )
            } else {
                let j = find_sep(s, clen);
                let val_s = s.substring_char(clen, j);
                proof {
                    assert(val_s@ =~= s@.subrange(
                        clen as int,
                        clen as int + sep_pos(s@.skip(clen as int)),
                    ));
                }
                let verdict = crate::elements::check_value_kind(&info, val_s);
                if !matches!(verdict, crate::elements::ValueVerdict::Accept) {
                    let kind = match verdict {
                        crate::elements::ValueVerdict::WrongChar => FailKind::BadCharset,
                        crate::elements::ValueVerdict::WrongCheckDigit => FailKind::BadCheckDigit,
                        _ => FailKind::BadLength,
                    };
                    return Err(
                        ParseFail {
                            kind,
                            pos: offset + clen,
                            end: offset + j,
                            ai: Some(String::from_str(code_s)),
                        },
                    );
                }
                let consumed = if j < n {
                    j + 1
                } else {
                    j
                };
                (
                    Element { code: String::from_str(code_s), value: String::from_str(val_s) },
                    consumed,
                )
            }
        },
        None => {
            if !permit_unknown {
                let e = if n >= 2 {
                    2
                } else {
                    n
                };
                return Err(
                    ParseFail { kind: FailKind::UnknownAi, pos: offset, end: offset + e, ai: None },
                );
            }
            if n < 2 {
                return Err(
                    ParseFail { kind: FailKind::UnknownAi, pos: offset, end: offset + n, ai: None },
                );
            }
            let c0 = s.get_char(0);
            let c1 = s.get_char(1);
            if !char_is_digit(c0) || !char_is_digit(c1) {
                proof {
                    assert(s@.take(2)[0] == s@[0] && s@.take(2)[1] == s@[1]);
                }
                return Err(
                    ParseFail { kind: FailKind::UnknownAi, pos: offset, end: offset + 2, ai: None },
                );
            }
            proof {
                assert(forall|j: int| 0 <= j < 2 ==> #[trigger] s@.take(2)[j] == s@[j]);
                assert(is_digits(s@.take(2)));
            }
            let code_s = s.substring_char(0, 2);
            proof {
                assert(code_s@ =~= s@.take(2));
            }
            let j = find_sep(s, 2);
            let val_s = s.substring_char(2, j);
            proof {
                assert(val_s@ =~= s@.subrange(2, 2 + sep_pos(s@.skip(2))));
            }
            if !check_passthrough_value(val_s) {
                return Err(
                    ParseFail {
                        kind: FailKind::BadValue,
                        pos: offset + 2,
                        end: offset + j,
                        ai: Some(String::from_str(code_s)),
                    },
                );
            }
            let consumed = if j < n {
                j + 1
            } else {
                j
            };
            (Element { code: String::from_str(code_s), value: String::from_str(val_s) }, consumed)
        },
    };
    proof {
        assert(ds_first(s@, permit_unknown) == Some((elem@, consumed as int)));
        assert(0 < consumed <= n);
    }
    let rest_s = s.substring_char(consumed, n);
    proof {
        assert(rest_s@ =~= s@.skip(consumed as int));
    }
    match ds_parse_str(rest_s, permit_unknown, offset + consumed) {
        Ok(mut rest_vec) => {
            let ghost old_map = rest_vec@.map_values(|e: Element| e@);
            rest_vec.insert(0, elem);
            proof {
                assert(rest_vec@.map_values(|e: Element| e@) =~= seq![elem@] + old_map);
            }
            Ok(rest_vec)
        },
        Err(f) => Err(f),
    }
}

/// Serialize elements to the body of a data string (after the
/// sentinel).
pub fn ds_serialize_str(es: &crate::elements::ElementSet) -> (r: String)
    ensures
        r@ == ds_serialize(es@),
{
    let mut out = String::new();
    let k = es.len();
    let mut i: usize = 0;
    proof {
        assert(Seq::<char>::empty() + ds_serialize(es@) =~= ds_serialize(es@));
        assert(es@.skip(0) =~= es@);
    }
    while i < k
        invariant
            i <= k,
            k == es@.len(),
            out@ + ds_serialize(es@.skip(i as int)) == ds_serialize(es@),
        decreases k - i,
    {
        let e = es.get(i);
        let ghost pre = out@;
        out.append(e.code.as_str());
        out.append(e.value.as_str());
        let is_var = code_is_var_exec(e.code.as_str());
        if is_var && i + 1 < k {
            out.append("^");
        }
        proof {
            reveal_strlit("^");
            assert("^"@ =~= seq!['^']);
            let suf = es@.skip(i as int);
            assert(suf[0] == es@[i as int]);
            assert(suf.skip(1) =~= es@.skip(i as int + 1));
            let sep: Seq<char> = if elem_is_var(suf[0]) && suf.len() > 1 {
                seq!['^']
            } else {
                Seq::<char>::empty()
            };
            assert(ds_serialize(suf) == suf[0].code + suf[0].value + sep + ds_serialize(
                suf.skip(1),
            ));
            assert(out@ =~= pre + suf[0].code + suf[0].value + sep);
            assert(out@ + ds_serialize(es@.skip(i as int + 1)) =~= pre + ds_serialize(suf));
        }
        i = i + 1;
    }
    proof {
        assert(es@.skip(k as int) =~= Seq::<ElemV>::empty());
        assert(out@ + ds_serialize(es@.skip(k as int)) =~= out@);
    }
    out
}

} // verus!
