//! Round-trip laws of the data-string form: an element set obtained by
//! parsing a data string re-parses from its own serialization unchanged.

use vstd::prelude::*;
use crate::chars::{is_dec_digit, digit_val, is_digits};
use crate::dict::{ai_info, code_key, valid_code, lemma_code_key_push, lemma_dict_prefix_free,
    lemma_dict_info_wf};
use crate::elements::{ElemV, value_ok, elem_known, elem_wf};
use crate::dsform::{match_code, sep_pos, ds_first, ds_parse, elem_is_var, ds_serialize,
    lemma_sep_pos_at};

verus! {

/// No dictionary code extends an unknown element's code along the first
/// characters of its value, so longest-match lookup cannot steal value
/// digits when the serialized field is re-parsed.
pub open spec fn unknown_no_match(e: ElemV) -> bool {
    &&& (e.value.len() >= 1 && is_dec_digit(e.value[0]) ==> ai_info(
        10 * code_key(e.code) + digit_val(e.value[0]),
    ) is None)
    &&& (e.value.len() >= 2 && is_dec_digit(e.value[0]) && is_dec_digit(e.value[1]) ==> ai_info(
        100 * code_key(e.code) + 10 * digit_val(e.value[0]) + digit_val(e.value[1]),
    ) is None)
}

/// The well-formedness that data-string parsing guarantees of every
/// element it produces, and that re-parsing of serialized output
/// relies on.
pub open spec fn ds_elem_rt_wf(e: ElemV) -> bool {
    &&& elem_wf(e)
    &&& e.value.len() >= 1
    &&& (forall|i: int| 0 <= i < e.value.len() ==> #[trigger] e.value[i] != '^')
    &&& (!elem_known(e) ==> e.code.len() == 2 && unknown_no_match(e))
}

/// Every element a successful field parse yields is round-trip
/// well-formed, unknown only where permitted, and consumes progress.
pub proof fn lemma_ds_first_wf(s: Seq<char>, permit: bool)
    requires
        ds_first(s, permit) is Some,
    ensures
        ({
            let p = ds_first(s, permit).unwrap();
            &&& ds_elem_rt_wf(p.0)
            &&& (elem_known(p.0) || permit)
            &&& 0 < p.1 <= s.len()
        }),
{
    let p = ds_first(s, permit).unwrap();
    let e = p.0;
    match match_code(s) {
        Some(clen) => {
            let key = code_key(s.take(clen));
            let info = ai_info(key).unwrap();
            lemma_dict_info_wf(key);
            assert(valid_code(s.take(clen)));
            assert(elem_known(e));
            if info.fixed {
                let vlen = info.max_len as int;
                let v = s.subrange(clen, clen + vlen);
                assert(value_ok(info, v));
                assert(v.len() >= 1);
                match info.cset {
                    crate::dict::Cset::Numeric => {
                        assert(forall|i: int| 0 <= i < v.len() ==> #[trigger] v[i] != '^');
                    },
                    crate::dict::Cset::Alnum => {
                        assert(forall|i: int| 0 <= i < v.len() ==> #[trigger] v[i] != '^');
                    },
                }
            } else {
                crate::dsform::lemma_sep_pos_props(s.skip(clen));
                let vlen = sep_pos(s.skip(clen));
                let v = s.subrange(clen, clen + vlen);
                assert(value_ok(info, v));
                match info.cset {
                    crate::dict::Cset::Numeric => {
                        assert(forall|i: int| 0 <= i < v.len() ==> #[trigger] v[i] != '^');
                    },
                    crate::dict::Cset::Alnum => {
                        assert(forall|i: int| 0 <= i < v.len() ==> #[trigger] v[i] != '^');
                    },
                }
            }
        },
        None => {
            assert(permit && s.len() >= 2 && is_digits(s.take(2)));
            crate::dsform::lemma_sep_pos_props(s.skip(2));
            let vlen = sep_pos(s.skip(2));
            let v = s.subrange(2, 2 + vlen);
            assert(e.code == s.take(2) && e.value == v);
            assert(valid_code(e.code));
            // the two-digit candidate failed, so the code is unknown
            assert(ai_info(code_key(s.take(2))) is None);
            assert(!elem_known(e));
            assert(forall|i: int| 0 <= i < v.len() ==> #[trigger] v[i] != '^') by {
                assert(forall|i: int|
                    0 <= i < v.len() ==> crate::chars::is_passthrough_char(#[trigger] v[i]));
            }
            // no 3- or 4-digit dictionary code extends the unknown code
            if v.len() >= 1 && is_dec_digit(v[0]) {
                assert(v[0] == s[2]);
                assert(forall|j: int| 0 <= j < 3 ==> #[trigger] s.take(3)[j] == s[j]);
                assert(forall|j: int| 0 <= j < 2 ==> #[trigger] s.take(2)[j] == s[j]);
                assert(is_digits(s.take(3)));
                lemma_code_key_push(s, 2);
                assert(ai_info(code_key(s.take(3))) is None);
                if v.len() >= 2 && is_dec_digit(v[1]) {
                    assert(v[1] == s[3]);
                    assert(forall|j: int| 0 <= j < 4 ==> #[trigger] s.take(4)[j] == s[j]);
                    assert(is_digits(s.take(4)));
                    lemma_code_key_push(s, 3);
                    assert(ai_info(code_key(s.take(4))) is None);
                }
            }
        },
    }
}

/// Every element a successful data-string parse yields is round-trip
/// well-formed, and unknown only where unknown AIs were permitted.
pub proof fn lemma_ds_parse_wf(s: Seq<char>, permit: bool)
    requires
        ds_parse(s, permit) is Some,
    ensures
        ({
            let es = ds_parse(s, permit).unwrap();
            forall|i: int|
                0 <= i < es.len() ==> ds_elem_rt_wf(#[trigger] es[i]) && (elem_known(es[i])
                    || permit)
        }),
    decreases s.len(),
{
    if s.len() > 0 {
        lemma_ds_first_wf(s, permit);
        let p = ds_first(s, permit).unwrap();
        lemma_ds_parse_wf(s.skip(p.1), permit);
        let es = ds_parse(s, permit).unwrap();
        let rest = ds_parse(s.skip(p.1), permit).unwrap();
        assert(es == seq![p.0] + rest);
        assert(es[0] == p.0);
        assert(forall|i: int| 1 <= i < es.len() ==> #[trigger] es[i] == rest[i - 1]);
    }
}

/// Parsing the serialization of round-trip well-formed elements finds
/// exactly the first element again, and leaves exactly the
/// serialization of the rest.
proof fn lemma_ds_first_of_serialized(es: Seq<ElemV>, permit: bool)
    requires
        es.len() > 0,
        forall|i: int| 0 <= i < es.len() ==> ds_elem_rt_wf(#[trigger] es[i]),
        forall|i: int| 0 <= i < es.len() ==> elem_known(#[trigger] es[i]) || permit,
    ensures
        ({
            let s = ds_serialize(es);
            let e = es[0];
            let sep_len: int = if elem_is_var(e) && es.len() > 1 {
                1
            } else {
                0
            };
            let c = e.code.len() + e.value.len() + sep_len;
            &&& ds_first(s, permit) == Some((e, c as int))
            &&& 0 < c <= s.len()
            &&& s.skip(c as int) == ds_serialize(es.skip(1))
        }),
{
    let s = ds_serialize(es);
    let e = es[0];
    assert(ds_elem_rt_wf(e));
    let rest = ds_serialize(es.skip(1));
    let sep: Seq<char> = if elem_is_var(e) && es.len() > 1 {
        seq!['^']
    } else {
        Seq::empty()
    };
    assert(s == e.code + e.value + sep + rest);
    let clen = e.code.len() as int;
    let vlen = e.value.len() as int;
    // the serialization of a nonempty tail is nonempty
    if es.len() > 1 {
        let tail = es.skip(1);
        assert(tail[0] == es[1]);
        assert(ds_elem_rt_wf(es[1]));
        assert(rest == tail[0].code + tail[0].value + (if elem_is_var(tail[0]) && tail.len() > 1 {
            seq!['^']
        } else {
            Seq::<char>::empty()
        }) + ds_serialize(tail.skip(1)));
        assert(rest.len() >= 2);
    } else {
        assert(es.skip(1).len() == 0);
        assert(rest.len() == 0);
    }
    // layout of s
    assert(s.len() == clen + vlen + sep.len() + rest.len());
    assert(forall|i: int| 0 <= i < clen ==> #[trigger] s[i] == e.code[i]);
    assert(forall|i: int| 0 <= i < vlen ==> #[trigger] s[clen + i] == e.value[i]);
    assert(s.take(clen) =~= e.code);
    if elem_known(e) {
        let key = code_key(e.code);
        let info = ai_info(key).unwrap();
        lemma_dict_info_wf(key);
        assert(value_ok(info, e.value));
        // longest-match lookup finds exactly e's code
        if clen == 2 {
            if s.len() >= 3 && is_digits(s.take(3)) {
                assert(s.take(3).take(2) =~= s.take(2));
                lemma_code_key_push(s, 2);
                assert(s.take(3)[2] == s[2]);
                assert(s[2] == e.value[0]);
                lemma_dict_prefix_free(key, digit_val(s[2]));
                assert(ai_info(code_key(s.take(3))) is None);
            }
            if s.len() >= 4 && is_digits(s.take(4)) {
                lemma_code_key_push(s, 2);
                lemma_code_key_push(s, 3);
                assert(s.take(4)[2] == s[2] && s.take(4)[3] == s[3]);
                assert(is_dec_digit(s[2]) && is_dec_digit(s[3]));
                assert(code_key(s.take(4)) == 100 * key + 10 * digit_val(s[2]) + digit_val(s[3]));
                lemma_dict_prefix_free(key, 10 * digit_val(s[2]) + digit_val(s[3]));
                assert(ai_info(code_key(s.take(4))) is None);
            }
            assert(match_code(s) == Some(2int));
        } else if clen == 3 {
            if s.len() >= 4 && is_digits(s.take(4)) {
                assert(s.take(4).take(3) =~= s.take(3));
                lemma_code_key_push(s, 3);
                assert(s.take(4)[3] == s[3]);
                lemma_dict_prefix_free(key, digit_val(s[3]));
                assert(ai_info(code_key(s.take(4))) is None);
            }
            assert(s.take(3) == e.code);
            assert(is_digits(s.take(3)));
            assert(match_code(s) == Some(3int));
        } else {
            assert(clen == 4);
            assert(is_digits(s.take(4)));
            assert(match_code(s) == Some(4int));
        }
        assert(match_code(s) == Some(clen));
        assert(ai_info(code_key(s.take(clen))) == Some(info));
        if info.fixed {
            assert(!elem_is_var(e));
            assert(sep.len() == 0);
            assert(vlen == info.max_len);
            assert(s.len() >= clen + vlen);
            assert(s.subrange(clen, clen + vlen) =~= e.value);
            assert(ds_first(s, permit) == Some((ElemV { code: s.take(clen), value: s.subrange(clen, clen + vlen) }, clen + vlen)));
            assert(s.take(clen) == e.code && s.subrange(clen, clen + vlen) == e.value);
            assert(ElemV { code: s.take(clen), value: s.subrange(clen, clen + vlen) } == e);
            assert(s.skip(clen + vlen) =~= rest);
        } else {
            assert(elem_is_var(e));
            // the separator scan stops exactly at the end of the value
            let t = s.skip(clen);
            assert(forall|i: int| 0 <= i < vlen ==> #[trigger] t[i] == e.value[i]);
            if es.len() > 1 {
                assert(t[vlen] == '^');
                lemma_sep_pos_at(t, vlen);
            } else {
                assert(t.len() == vlen);
                lemma_sep_pos_at(t, vlen);
            }
            assert(sep_pos(t) == vlen);
            assert(s.subrange(clen, clen + vlen) =~= e.value);
            if es.len() > 1 {
                assert(clen + vlen < s.len());
                assert(s.skip(clen + vlen + 1) =~= rest);
                assert(ds_first(s, permit) == Some((e, clen + vlen + 1)));
            } else {
                assert(s.len() == clen + vlen);
                assert(s.skip(clen + vlen) =~= rest);
                assert(ds_first(s, permit) == Some((e, clen + vlen)));
            }
        }
    } else {
        // unknown element: 2-digit code, no dictionary match at all
        assert(permit);
        assert(clen == 2);
        let key = code_key(e.code);
        assert(ai_info(key) is None);
        assert(valid_code(e.code));
        assert(is_digits(s.take(2)));
        // the three- and four-character candidates fail
        if s.len() >= 3 && is_digits(s.take(3)) {
            assert(s.take(3).take(2) =~= s.take(2));
            lemma_code_key_push(s, 2);
            assert(s.take(3)[2] == s[2]);
            assert(s[2] == e.value[0]);
            assert(is_dec_digit(e.value[0]));
            assert(ai_info(code_key(s.take(3))) is None);
        }
        if s.len() >= 4 && is_digits(s.take(4)) {
            assert(s.take(4)[2] == s[2] && s.take(4)[3] == s[3]);
            if vlen >= 2 {
                assert(s[2] == e.value[0] && s[3] == e.value[1]);
                lemma_code_key_push(s, 2);
                lemma_code_key_push(s, 3);
                assert(s.take(4).take(3) =~= s.take(3));
                assert(s.take(3).take(2) =~= s.take(2));
                assert(code_key(s.take(4)) == 100 * key + 10 * digit_val(s[2]) + digit_val(s[3]));
                assert(ai_info(code_key(s.take(4))) is None);
            } else {
                // a one-character value is followed by the separator or
                // by nothing at all
                assert(vlen == 1);
                assert(elem_is_var(e));
                if es.len() > 1 {
                    assert(s[3] == '^');
                    assert(!is_dec_digit(s[3]));
                    assert(false);
                } else {
                    assert(s.len() == 3);
                    assert(false);
                }
            }
        }
        assert(match_code(s) is None);
        assert(elem_is_var(e));
        let t = s.skip(2);
        assert(forall|i: int| 0 <= i < vlen ==> #[trigger] t[i] == e.value[i]);
        if es.len() > 1 {
            assert(t[vlen] == '^');
            lemma_sep_pos_at(t, vlen);
        } else {
            assert(t.len() == vlen);
            lemma_sep_pos_at(t, vlen);
        }
        assert(sep_pos(t) == vlen);
        assert(s.subrange(2, 2 + vlen) =~= e.value);
        assert(1 <= vlen <= 90);
        if es.len() > 1 {
            assert(2 + vlen < s.len());
            assert(s.skip(2 + vlen + 1) =~= rest);
            assert(ds_first(s, permit) == Some((e, 2 + vlen + 1)));
        } else {
            assert(s.len() == 2 + vlen);
            assert(s.skip(2 + vlen) =~= rest);
            assert(ds_first(s, permit) == Some((e, 2 + vlen)));
        }
    }
}

/// Serializing round-trip well-formed elements and parsing the result
/// yields the elements again.
pub proof fn lemma_ds_serialize_then_parse(es: Seq<ElemV>, permit: bool)
    requires
        forall|i: int| 0 <= i < es.len() ==> ds_elem_rt_wf(#[trigger] es[i]),
        forall|i: int| 0 <= i < es.len() ==> elem_known(#[trigger] es[i]) || permit,
    ensures
        ds_parse(ds_serialize(es), permit) == Some(es),
    decreases es.len(),
{
    if es.len() == 0 {
        assert(ds_serialize(es).len() == 0);
        assert(es =~= Seq::<ElemV>::empty());
    } else {
        lemma_ds_first_of_serialized(es, permit);
        let s = ds_serialize(es);
        let p = ds_first(s, permit).unwrap();
        let tail = es.skip(1);
        assert(forall|i: int| 0 <= i < tail.len() ==> #[trigger] tail[i] == es[i + 1]);
        lemma_ds_serialize_then_parse(tail, permit);
        assert(s.len() > 0) by {
            assert(s.take(p.0.code.len() as int) == p.0.code);
        }
        assert(ds_parse(s.skip(p.1), permit) == Some(tail));
        assert(ds_parse(s, permit) == Some(seq![es[0]] + tail));
        assert(seq![es[0]] + tail =~= es);
    }
}

/// Law: an element set produced by successfully parsing a data string
/// re-parses from its own serialization to an equal element set.
pub proof fn lemma_ds_round_trip(s: Seq<char>, permit: bool)
    requires
        ds_parse(s, permit) is Some,
    ensures
        ds_parse(ds_serialize(ds_parse(s, permit).unwrap()), permit) == ds_parse(s, permit),
{
    lemma_ds_parse_wf(s, permit);
    lemma_ds_serialize_then_parse(ds_parse(s, permit).unwrap(), permit);
}

} // verus!
