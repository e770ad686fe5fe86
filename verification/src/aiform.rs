//! The bracketed AI-string form: `(AI)value` repeated, with no
//! separators, since the bracket delimiters disambiguate field
//! boundaries.

use vstd::prelude::*;
use crate::chars::{is_dec_digit, is_digits, char_is_digit};
use crate::dict::{ai_info, code_key, valid_code, lemma_dict_info_wf};
use crate::elements::{ElemV, Element, value_ok, elem_known};
use crate::dsform::{FailKind, ParseFail};

verus! {

/// Length of the run of decimal digits at the head of `s`.
pub open spec fn digit_run(s: Seq<char>) -> int
    decreases s.len(),
{
    if s.len() == 0 {
        0
    } else if !is_dec_digit(s[0]) {
        0
    } else {
        1 + digit_run(s.skip(1))
    }
}

pub proof fn lemma_digit_run_at(s: Seq<char>, p: int)
    requires
        0 <= p <= s.len(),
        forall|i: int| 0 <= i < p ==> is_dec_digit(#[trigger] s[i]),
        p < s.len() ==> !is_dec_digit(s[p]),
    ensures
        digit_run(s) == p,
    decreases s.len(),
{
    if s.len() > 0 && is_dec_digit(s[0]) {
        assert(p >= 1);
        assert(forall|i: int| 0 <= i < p - 1 ==> s.skip(1)[i] == s[i + 1]);
        lemma_digit_run_at(s.skip(1), p - 1);
    }
}

/// Index of the first `'('` in `s`, or `s.len()` when there is none.
pub open spec fn paren_pos(s: Seq<char>) -> int
    decreases s.len(),
{
    if s.len() == 0 {
        0
    } else if s[0] == '(' {
        0
    } else {
        1 + paren_pos(s.skip(1))
    }
}

pub proof fn lemma_paren_pos_at(s: Seq<char>, p: int)
    requires
        0 <= p <= s.len(),
        forall|i: int| 0 <= i < p ==> s[i] != '(',
        p < s.len() ==> s[p] == '(',
    ensures
        paren_pos(s) == p,
    decreases s.len(),
{
    if s.len() > 0 && s[0] != '(' {
        assert(p >= 1);
        assert(forall|i: int| 0 <= i < p - 1 ==> s.skip(1)[i] == s[i + 1]);
        lemma_paren_pos_at(s.skip(1), p - 1);
    }
}

pub proof fn lemma_paren_pos_props(s: Seq<char>)
    ensures
        0 <= paren_pos(s) <= s.len(),
        forall|i: int| 0 <= i < paren_pos(s) ==> s[i] != '(',
        paren_pos(s) < s.len() ==> s[paren_pos(s)] == '(',
    decreases s.len(),
{
    if s.len() > 0 && s[0] != '(' {
        lemma_paren_pos_props(s.skip(1));
        assert(forall|i: int| 0 <= i < paren_pos(s.skip(1)) ==> s.skip(1)[i] != '(');
        assert(forall|i: int| 1 <= i < paren_pos(s) ==> s[i] == s.skip(1)[i - 1]);
    }
}

pub proof fn lemma_digit_run_props(s: Seq<char>)
    ensures
        0 <= digit_run(s) <= s.len(),
        forall|i: int| 0 <= i < digit_run(s) ==> is_dec_digit(#[trigger] s[i]),
        digit_run(s) < s.len() ==> !is_dec_digit(s[digit_run(s)]),
    decreases s.len(),
{
    if s.len() > 0 && is_dec_digit(s[0]) {
        lemma_digit_run_props(s.skip(1));
        assert(forall|i: int| 0 <= i < digit_run(s.skip(1)) ==> is_dec_digit(#[trigger] s.skip(1)[i]));
        assert(forall|i: int| 1 <= i < digit_run(s) ==> s[i] == s.skip(1)[i - 1]);
    }
}

/// The first field of a bracketed AI string: the element and the number
/// of characters consumed.
pub open spec fn ai_first(s: Seq<char>, permit_unknown: bool) -> Option<(ElemV, int)> {
    if s.len() < 1 || s[0] != '(' {
        None
    } else {
        let dlen = digit_run(s.skip(1));
        if 2 <= dlen <= 4 && 1 + dlen < s.len() && s[1 + dlen] == ')' {
            let code = s.subrange(1, 1 + dlen);
            let vstart = 2 + dlen;
            let vlen = paren_pos(s.skip(vstart));
            let v = s.subrange(vstart, vstart + vlen);
            let e = ElemV { code: code, value: v };
            match ai_info(code_key(code)) {
                Some(info) => {
                    if value_ok(info, v) {
                        Some((e, vstart + vlen))
                    } else {
                        None
                    }
                },
                None => {
                    if permit_unknown && 1 <= vlen <= 90 && (forall|i: int|
                        0 <= i < v.len() ==> crate::chars::is_passthrough_char(#[trigger] v[i])) {
                        Some((e, vstart + vlen))
                    } else {
                        None
                    }
                },
            }
        } else {
            None
        }
    }
}

/// Parse a bracketed AI string into its sequence of elements; `None` on
/// any malformed field.
pub open spec fn ai_parse(s: Seq<char>, permit_unknown: bool) -> Option<Seq<ElemV>>
    decreases s.len(),
{
    if s.len() == 0 {
        Some(Seq::empty())
    } else {
        match ai_first(s, permit_unknown) {
            Some((e, consumed)) => {
                if 0 < consumed <= s.len() {
                    match ai_parse(s.skip(consumed), permit_unknown) {
                        Some(rest) => Some(seq![e] + rest),
                        None => None,
                    }
                } else {
                    None
                }
            },
            None => None,
        }
    }
}

/// Serialized bracketed AI string of a sequence of elements.
pub open spec fn ai_serialize(es: Seq<ElemV>) -> Seq<char>
    decreases es.len(),
{
    if es.len() == 0 {
        Seq::empty()
    } else {
        seq!['('] + es[0].code + seq![')'] + es[0].value + ai_serialize(es.skip(1))
    }
}

/// Law: a bracketed AI string that parses successfully is reproduced
/// exactly by re-serializing the parsed elements.
pub proof fn lemma_ai_string_round_trip(s: Seq<char>, permit: bool)
    requires
        ai_parse(s, permit) is Some,
    ensures
        ai_serialize(ai_parse(s, permit).unwrap()) == s,
    decreases s.len(),
{
    if s.len() == 0 {
        assert(ai_serialize(ai_parse(s, permit).unwrap()) =~= s);
    } else {
        let p = ai_first(s, permit).unwrap();
        let e = p.0;
        let consumed = p.1;
        let dlen = digit_run(s.skip(1));
        lemma_paren_pos_props(s.skip(2 + dlen));
        lemma_ai_string_round_trip(s.skip(consumed), permit);
        let rest = ai_parse(s.skip(consumed), permit).unwrap();
        let es = ai_parse(s, permit).unwrap();
        assert(es == seq![e] + rest);
        assert(es[0] == e);
        assert(es.skip(1) =~= rest);
        assert(ai_serialize(es) == seq!['('] + e.code + seq![')'] + e.value + ai_serialize(rest));
        assert(ai_serialize(rest) == s.skip(consumed));
        assert(seq!['('] + e.code + seq![')'] + e.value + s.skip(consumed) =~= s);
    }
}

/// Classification of the failure of the first field of a bracketed AI
/// string: the kind, the AI code it concerns (where one was read), and
/// the offending span relative to `s`.  Meaningful when
/// `ai_first(s, permit_unknown)` is `None` and `s` is nonempty.
pub open spec fn ai_first_fail(s: Seq<char>, permit_unknown: bool) -> (
    FailKind,
    Option<Seq<char>>,
    int,
    int,
) {
    if s.len() < 1 || s[0] != '(' {
        (
            FailKind::UnknownAi,
            None,
            0,
            if s.len() >= 1 {
                1int
            } else {
                0int
            },
        )
    } else {
        let dlen = digit_run(s.skip(1));
        if !(2 <= dlen <= 4 && 1 + dlen < s.len() && s[1 + dlen] == ')') {
            (
                FailKind::UnknownAi,
                None,
                0,
                if 1 + dlen < s.len() {
                    2 + dlen
                } else {
                    s.len() as int
                },
            )
        } else {
            let code = s.subrange(1, 1 + dlen);
            let vstart = 2 + dlen;
            let vlen = paren_pos(s.skip(vstart));
            let v = s.subrange(vstart, vstart + vlen);
            match ai_info(code_key(code)) {
                Some(info) => (
                    crate::dsform::value_fail_kind(info, v),
                    Some(code),
                    vstart,
                    vstart + vlen,
                ),
                None => {
                    if !permit_unknown {
                        (FailKind::UnknownAi, Some(code), 0, vstart)
                    } else {
                        (FailKind::BadValue, Some(code), vstart, vstart + vlen)
                    }
                },
            }
        }
    }
}

/// Classification of the first failure in a bracketed AI string.
/// Meaningful when `ai_parse(s, permit_unknown)` is `None`.
pub open spec fn ai_fail(s: Seq<char>, permit_unknown: bool) -> (
    FailKind,
    Option<Seq<char>>,
    int,
    int,
)
    decreases s.len(),
{
    if s.len() == 0 {
        (FailKind::UnknownAi, None, 0, 0)
    } else {
        match ai_first(s, permit_unknown) {
            Some((e, consumed)) => {
                if 0 < consumed <= s.len() {
                    let d = ai_fail(s.skip(consumed), permit_unknown);
                    (d.0, d.1, d.2 + consumed, d.3 + consumed)
                } else {
                    (FailKind::UnknownAi, None, 0, 0)
                }
            },
            None => ai_first_fail(s, permit_unknown),
        }
    }
}

/// Every element a successful bracketed parse yields is well-formed.
pub proof fn lemma_ai_parse_wf(s: Seq<char>, permit: bool)
    requires
        ai_parse(s, permit) is Some,
    ensures
        crate::elements::elems_wf(ai_parse(s, permit).unwrap()),
    decreases s.len(),
{
    if s.len() > 0 {
        let p = ai_first(s, permit).unwrap();
        let e = p.0;
        let dlen = digit_run(s.skip(1));
        lemma_digit_run_props(s.skip(1));
        let code = s.subrange(1, 1 + dlen);
        assert(forall|i: int| 0 <= i < dlen ==> code[i] == s.skip(1)[i]);
        assert(is_digits(code));
        assert(valid_code(code));
        lemma_paren_pos_props(s.skip(2 + dlen));
        assert(crate::elements::elem_wf(e)) by {
            match ai_info(code_key(code)) {
                Some(info) => {
                    assert(crate::elements::elem_known(e));
                },
                None => {
                    assert(!crate::elements::elem_known(e));
                    assert(crate::elements::unknown_elem_wf(e));
                },
            }
        }
        lemma_ai_parse_wf(s.skip(p.1), permit);
        let es = ai_parse(s, permit).unwrap();
        let rest = ai_parse(s.skip(p.1), permit).unwrap();
        assert(es == seq![e] + rest);
        assert(es[0] == e);
        assert(forall|i: int| 1 <= i < es.len() ==> #[trigger] es[i] == rest[i - 1]);
    }
}

/// Parse a bracketed AI string into elements; error spans are relative
/// to the whole input, of which `s` is the suffix starting at `offset`.
pub fn ai_parse_str(s: &str, permit_unknown: bool, offset: usize) -> (r: Result<
    Vec<Element>,
    ParseFail,
>)
    requires
        offset + s@.len() <= usize::MAX,
    ensures
        r is Ok <==> ai_parse(s@, permit_unknown) is Some,
        r matches Ok(v) ==> v@.map_values(|e: Element| e@) == ai_parse(s@, permit_unknown).unwrap(),
        r matches Err(f) ==> offset <= f.pos <= f.end <= offset + s@.len(),
        r matches Err(f) ==> crate::dsform::fail_matches(f, ai_fail(s@, permit_unknown), offset as int),
    decreases s@.len(),
{
    let n = s.unicode_len();
    if n == 0 {
        let v: Vec<Element> = Vec::new();
        proof {
            assert(v@.map_values(|e: Element| e@) =~= Seq::<ElemV>::empty());
        }
        return Ok(v);
    }
    if s.get_char(0) != '(' {
        return Err(
            ParseFail { kind: FailKind::UnknownAi, pos: offset, end: offset + 1, ai: None },
        );
    }
    // measure the digit run after the opening bracket
    let mut dlen: usize = 0;
    while 1 + dlen < n && char_is_digit(s.get_char(1 + dlen))
        invariant
            n == s@.len(),
            1 + dlen <= n,
            forall|i: int| 0 <= i < dlen ==> is_dec_digit(#[trigger] s@[1 + i]),
        decreases n - dlen,
    {
        dlen = dlen + 1;
    }
    proof {
        let t = s@.skip(1);
        assert(forall|i: int| 0 <= i < dlen ==> t[i] == s@[1 + i]);
        assert(1 + dlen < n ==> t[dlen as int] == s@[1 + dlen as int]);
        lemma_digit_run_at(t, dlen as int);
    }
    if dlen < 2 || dlen > 4 || 1 + dlen >= n || s.get_char(1 + dlen) != ')' {
        let e = if 1 + dlen < n {
            2 + dlen
        } else {
            n
        };
        return Err(ParseFail { kind: FailKind::UnknownAi, pos: offset, end: offset + e, ai: None });
    }
    let code_s = s.substring_char(1, 1 + dlen);
    proof {
        assert(code_s@ =~= s@.subrange(1, 1 + dlen as int));
        assert(forall|i: int| 0 <= i < dlen ==> code_s@[i] == s@[1 + i]);
        assert(is_digits(code_s@));
    }
    let vstart = 2 + dlen;
    // the value runs to the next opening bracket or to the end
    let mut j: usize = vstart;
    while j < n && s.get_char(j) != '('
        invariant
            vstart <= j <= n,
            n == s@.len(),
            forall|i: int| vstart <= i < j ==> s@[i] != '(',
        decreases n - j,
    {
        j = j + 1;
    }
    proof {
        let t = s@.skip(vstart as int);
        assert(forall|i: int| 0 <= i < j - vstart ==> t[i] == s@[i + vstart]);
        assert(j < n ==> t[j - vstart] == s@[j as int]);
        lemma_paren_pos_at(t, j - vstart);
    }
    let val_s = s.substring_char(vstart, j);
    proof {
        assert(val_s@ =~= s@.subrange(vstart as int, vstart as int + paren_pos(s@.skip(vstart as int))));
    }
    let key = match crate::dict::code_key_str(code_s) {
        Some(k) => k,
        None => {
            // unreachable: the code is 2 to 4 digits
            proof {
                assert(valid_code(code_s@));
                assert(false);
            }
            return Err(
                ParseFail { kind: FailKind::UnknownAi, pos: offset, end: offset + n, ai: None },
            );
        },
    };
    match crate::dict::lookup_key(key) {
        Some(info) => {
            proof {
                lemma_dict_info_wf(code_key(code_s@));
            }
            let verdict = crate::elements::check_value_kind(&info, val_s);
            if !matches!(verdict, crate::elements::ValueVerdict::Accept) {
                let kind = match verdict {
                    crate::elements::ValueVerdict::WrongChar => FailKind::BadCharset,
                    crate::elements::ValueVerdict::WrongCheckDigit => FailKind::BadCheckDigit,
                    _ => FailKind::BadLength,
                };
                return Err(
                    ParseFail {
                        kind,
                        pos: offset + vstart,
                        end: offset + j,
                        ai: Some(String::from_str(code_s)),
                    },
                );
            }
        },
        None => {
            if !permit_unknown {
                return Err(
                    ParseFail {
                        kind: FailKind::UnknownAi,
                        pos: offset,
                        end: offset + vstart,
                        ai: Some(String::from_str(code_s)),
                    },
                );
            }
            if !crate::elements::check_passthrough_value(val_s) {
                return Err(
                    ParseFail {
                        kind: FailKind::BadValue,
                        pos: offset + vstart,
                        end: offset + j,
                        ai: Some(String::from_str(code_s)),
                    },
                );
            }
        },
    }
    let elem = Element { code: String::from_str(code_s), value: String::from_str(val_s) };
    let consumed = j;
    proof {
        assert(ai_first(s@, permit_unknown) == Some((elem@, consumed as int)));
        assert(0 < consumed <= n);
    }
    let rest_s = s.substring_char(consumed, n);
    proof {
        assert(rest_s@ =~= s@.skip(consumed as int));
    }
    match ai_parse_str(rest_s, permit_unknown, offset + consumed) {
        Ok(mut rest_vec) => {
            let ghost old_map = rest_vec@.map_values(|e: Element| e@);
            rest_vec.insert(0, elem);
            proof {
                assert(rest_vec@.map_values(|e: Element| e@) =~= seq![elem@] + old_map);
            }
            Ok(rest_vec)
        },
        Err(f) => Err(f),
    }
}

/// Serialize elements to a bracketed AI string.
pub fn ai_serialize_str(es: &crate::elements::ElementSet) -> (r: String)
    ensures
        r@ == ai_serialize(es@),
{
    let mut out = String::new();
    let k = es.len();
    let mut i: usize = 0;
    proof {
        assert(Seq::<char>::empty() + ai_serialize(es@) =~= ai_serialize(es@));
        assert(es@.skip(0) =~= es@);
    }
    while i < k
        invariant
            i <= k,
            k == es@.len(),
            out@ + ai_serialize(es@.skip(i as int)) == ai_serialize(es@),
        decreases k - i,
    {
        let e = es.get(i);
        let ghost pre = out@;
        out.append("(");
        out.append(e.code.as_str());
        out.append(")");
        out.append(e.value.as_str());
        proof {
            reveal_strlit("(");
            reveal_strlit(")");
            assert("("@ =~= seq!['(']);
            assert(")"@ =~= seq![')']);
            let suf = es@.skip(i as int);
            assert(suf[0] == es@[i as int]);
            assert(suf.skip(1) =~= es@.skip(i as int + 1));
            assert(ai_serialize(suf) == seq!['('] + suf[0].code + seq![')'] + suf[0].value
                + ai_serialize(suf.skip(1)));
            assert(out@ =~= pre + seq!['('] + suf[0].code + seq![')'] + suf[0].value);
            assert(out@ + ai_serialize(es@.skip(i as int + 1)) =~= pre + ai_serialize(suf));
        }
        i = i + 1;
    }
    proof {
        assert(es@.skip(k as int) =~= Seq::<ElemV>::empty());
        assert(out@ + ai_serialize(es@.skip(k as int)) =~= out@);
    }
    out
}

} // verus!
