//! Digital Link URI parsing: path segments are matched by position to a
//! primary key and its qualifiers; recognized query parameters become
//! elements; unrecognized ones are reported verbatim as ignored.

use vstd::prelude::*;
use crate::chars::{pos_of, find_char, lemma_pos_of_props, zeros};
use crate::dict::{AiInfo, DlRole, ai_info, code_key, valid_code, code_key_str, lookup_key,
    lemma_dict_info_wf};
use crate::elements::{ElemV, Element, value_ok, check_value};
use crate::dluri::{pct_decode, pct_decode_str};
use crate::dsform::{FailKind, ParseFail};

verus! {

/// Dictionary entry of a raw code string.
pub open spec fn seg_info(seg: Seq<char>) -> Option<AiInfo> {
    if valid_code(seg) {
        ai_info(code_key(seg))
    } else {
        None
    }
}

/// Executable dictionary lookup for a raw code string.
pub fn seg_info_exec(seg: &str) -> (r: Option<AiInfo>)
    ensures
        r == seg_info(seg@),
{
    match code_key_str(seg) {
        Some(k) => lookup_key(k),
        None => None,
    }
}

/// Split `s` at every occurrence of `c`; the concatenation of the parts
/// with `c` re-inserted is `s` again.
pub open spec fn split_char(s: Seq<char>, c: char) -> Seq<Seq<char>>
    decreases s.len(),
{
    let p = pos_of(s, c);
    if 0 <= p < s.len() {
        seq![s.take(p)] + split_char(s.skip(p + 1), c)
    } else {
        seq![s]
    }
}

/// Executable split.
pub fn split_str(s: &str, c: char) -> (r: Vec<String>)
    ensures
        r@.map_values(|t: String| t@) == split_char(s@, c),
        r@.len() >= 1,
    decreases s@.len(),
{
    let n = s.unicode_len();
    let p = find_char(s, c, 0);
    proof {
        assert(s@.skip(0) =~= s@);
        lemma_pos_of_props(s@, c);
    }
    if p == n {
        let mut v: Vec<String> = Vec::new();
        v.push(String::from_str(s));
        proof {
            assert(v@.map_values(|t: String| t@) =~= seq![s@]);
        }
        v
    } else {
        let head = String::from_str(s.substring_char(0, p));
        let rest = s.substring_char(p + 1, n);
        proof {
            assert(rest@ =~= s@.skip(p as int + 1));
            assert(head@ =~= s@.take(p as int));
        }
        let mut v = split_str(rest, c);
        let ghost old_map = v@.map_values(|t: String| t@);
        v.insert(0, head);
        proof {
            assert(v@.map_values(|t: String| t@) =~= seq![s@.take(p as int)] + old_map);
        }
        v
    }
}

/// The segment is the code of a primary-key AI.
pub open spec fn seg_is_key(seg: Seq<char>) -> bool {
    match seg_info(seg) {
        Some(info) => info.role == DlRole::Key,
        None => false,
    }
}

/// Index of the first primary-key code among the path segments, at or
/// after `i`.
pub open spec fn first_key_seg(segs: Seq<Seq<char>>, i: int) -> Option<int>
    decreases segs.len() - i,
{
    if i < 0 || i >= segs.len() {
        None
    } else if seg_is_key(segs[i]) {
        Some(i)
    } else {
        first_key_seg(segs, i + 1)
    }
}

/// Zero-suppression expansion of a GTIN path value: a value in one of
/// the shortened retail lengths is left-padded with zeros to the full
/// fourteen digits when the option permits it.
pub open spec fn zs_expand(v: Seq<char>, permit_zs: bool) -> Seq<char> {
    if permit_zs && (v.len() == 8 || v.len() == 12 || v.len() == 13) {
        zeros(14 - v.len()) + v
    } else {
        v
    }
}

/// The primary-key element of a Digital Link path, from its code and
/// value segments.
pub open spec fn dl_pk_elem(code: Seq<char>, val: Seq<char>, permit_zs: bool) -> Option<ElemV> {
    let info = seg_info(code).unwrap();
    match pct_decode(val) {
        Some(v0) => {
            let v = if code_key(code) == 101 {
                zs_expand(v0, permit_zs)
            } else {
                v0
            };
            if value_ok(info, v) {
                Some(ElemV { code: code, value: v })
            } else {
                None
            }
        },
        None => None,
    }
}

/// The qualifier elements from path segment `i` on: pairs of a
/// qualifier code (in strictly increasing path position) and a value.
pub open spec fn dl_quals(segs: Seq<Seq<char>>, i: int, last_seq: int) -> Option<Seq<ElemV>>
    decreases segs.len() - i,
{
    if i < 0 || i >= segs.len() {
        Some(Seq::empty())
    } else if i + 1 >= segs.len() {
        None
    } else {
        match seg_info(segs[i]) {
            Some(info) => {
                if info.role == DlRole::Qualifier && info.qual_seq > last_seq {
                    match pct_decode(segs[i + 1]) {
                        Some(v) => {
                            if value_ok(info, v) {
                                match dl_quals(segs, i + 2, info.qual_seq as int) {
                                    Some(r) => Some(
                                        seq![ElemV { code: segs[i], value: v }] + r,
                                    ),
                                    None => None,
                                }
                            } else {
                                None
                            }
                        },
                        None => None,
                    }
                } else {
                    None
                }
            },
            None => None,
        }
    }
}

/// The elements of a Digital Link path: the first primary-key segment
/// and its value, then qualifier pairs filling the rest of the path.
pub open spec fn dl_path_elems(segs: Seq<Seq<char>>, permit_zs: bool) -> Option<Seq<ElemV>> {
    match first_key_seg(segs, 0) {
        None => None,
        Some(ki) => {
            if ki + 1 >= segs.len() {
                None
            } else {
                match dl_pk_elem(segs[ki], segs[ki + 1], permit_zs) {
                    Some(pk) => match dl_quals(segs, ki + 2, 0) {
                        Some(qs) => Some(seq![pk] + qs),
                        None => None,
                    },
                    None => None,
                }
            }
        },
    }
}

/// The query parameter is recognized: `code=value` with a known AI code
/// whose Digital Link role is a data attribute.
pub open spec fn param_recognized(p: Seq<char>) -> bool {
    let eq = pos_of(p, '=');
    eq < p.len() && match seg_info(p.take(eq)) {
        Some(info) => info.role == DlRole::Attribute,
        None => false,
    }
}

/// Parse the query parameters from `i` on into elements and verbatim
/// ignored parameters.
pub open spec fn dl_query_parse(params: Seq<Seq<char>>, i: int) -> Option<
    (Seq<ElemV>, Seq<Seq<char>>),
>
    decreases params.len() - i,
{
    if i < 0 || i >= params.len() {
        Some((Seq::empty(), Seq::empty()))
    } else {
        let p = params[i];
        if p.len() == 0 {
            dl_query_parse(params, i + 1)
        } else if param_recognized(p) {
            let eq = pos_of(p, '=');
            let info = seg_info(p.take(eq)).unwrap();
            match pct_decode(p.skip(eq + 1)) {
                Some(v) => {
                    if value_ok(info, v) {
                        match dl_query_parse(params, i + 1) {
                            Some(r) => Some(
                                (seq![ElemV { code: p.take(eq), value: v }] + r.0, r.1),
                            ),
                            None => None,
                        }
                    } else {
                        None
                    }
                },
                None => None,
            }
        } else {
            match dl_query_parse(params, i + 1) {
                Some(r) => Some((r.0, seq![p] + r.1)),
                None => None,
            }
        }
    }
}

/// Length of the URI scheme prefix this engine accepts.
pub open spec fn scheme_len(s: Seq<char>) -> Option<int> {
    if s.len() >= 8 && s.take(8) == "https://"@ {
        Some(8int)
    } else if s.len() >= 7 && s.take(7) == "http://"@ {
        Some(7int)
    } else {
        None
    }
}

/// Parse a Digital Link URI into its elements (path first, then
/// recognized query parameters, in order) and the verbatim ignored
/// query parameters.
pub open spec fn dl_parse(s: Seq<char>, permit_zs: bool) -> Option<(Seq<ElemV>, Seq<Seq<char>>)> {
    match scheme_len(s) {
        None => None,
        Some(sl) => {
            let after = s.skip(sl);
            let slash = pos_of(after, '/');
            if slash >= after.len() {
                None
            } else {
                let pq = after.skip(slash + 1);
                let qpos = pos_of(pq, '?');
                let path = pq.take(qpos);
                let params: Seq<Seq<char>> = if qpos < pq.len() {
                    split_char(pq.skip(qpos + 1), '&')
                } else {
                    Seq::empty()
                };
                let segs = split_char(path, '/');
                match dl_path_elems(segs, permit_zs) {
                    None => None,
                    Some(pes) => match dl_query_parse(params, 0) {
                        None => None,
                        Some(r) => Some((pes + r.0, r.1)),
                    },
                }
            }
        },
    }
}

/// Law (first part): every unrecognized nonempty query parameter
/// appears verbatim in the ignored-parameters output.
pub proof fn lemma_unrecognized_params_kept(params: Seq<Seq<char>>, i: int)
    requires
        0 <= i,
        dl_query_parse(params, i) is Some,
    ensures
        forall|j: int|
            i <= j < params.len() && params[j].len() > 0 && !param_recognized(#[trigger] params[j])
                ==> dl_query_parse(params, i).unwrap().1.contains(params[j]),
    decreases params.len() - i,
{
    if i < params.len() {
        let r = dl_query_parse(params, i).unwrap();
        let p = params[i];
        lemma_unrecognized_params_kept(params, i + 1);
        let r2 = dl_query_parse(params, i + 1).unwrap();
        if p.len() > 0 && !param_recognized(p) {
            assert(r.1[0] == p);
            assert(forall|k: int| 1 <= k < r.1.len() ==> #[trigger] r.1[k] == r2.1[k - 1]);
            assert forall|j: int|
                i <= j < params.len() && params[j].len() > 0 && !param_recognized(
                    #[trigger] params[j],
                ) implies r.1.contains(params[j]) by {
                if j == i {
                    assert(r.1[0] == params[j]);
                } else {
                    assert(r2.1.contains(params[j]));
                    let k = choose|k: int| 0 <= k < r2.1.len() && r2.1[k] == params[j];
                    assert(r.1[k + 1] == params[j]);
                }
            }
        } else {
            assert(r.1 == r2.1);
            assert forall|j: int|
                i <= j < params.len() && params[j].len() > 0 && !param_recognized(
                    #[trigger] params[j],
                ) implies r.1.contains(params[j]) by {
                assert(j != i);
                assert(r2.1.contains(params[j]));
            }
        }
    }
}

/// Law (second part): the ignored-parameters output holds nothing but
/// unrecognized parameters of the query, each verbatim.
pub proof fn lemma_ignored_are_params(params: Seq<Seq<char>>, i: int)
    requires
        0 <= i,
        dl_query_parse(params, i) is Some,
    ensures
        forall|k: int|
            #![trigger dl_query_parse(params, i).unwrap().1[k]]
            0 <= k < dl_query_parse(params, i).unwrap().1.len() ==> exists|j: int|
                #![trigger params[j]]
                i <= j < params.len() && params[j] == dl_query_parse(params, i).unwrap().1[k]
                    && !param_recognized(params[j]),
    decreases params.len() - i,
{
    if i < params.len() {
        let r = dl_query_parse(params, i).unwrap();
        let p = params[i];
        lemma_ignored_are_params(params, i + 1);
        let r2 = dl_query_parse(params, i + 1).unwrap();
        if p.len() > 0 && !param_recognized(p) {
            assert forall|k: int| #![trigger r.1[k]] 0 <= k < r.1.len() implies exists|j: int|
                #![trigger params[j]]
                i <= j < params.len() && params[j] == r.1[k] && !param_recognized(params[j]) by {
                if k == 0 {
                    assert(params[i] == r.1[0] && !param_recognized(params[i]));
                } else {
                    assert(r.1[k] == r2.1[k - 1]);
                    let j = choose|j: int|
                        #![trigger params[j]]
                        i + 1 <= j < params.len() && params[j] == r2.1[k - 1]
                            && !param_recognized(params[j]);
                    assert(params[j] == r.1[k] && !param_recognized(params[j]));
                }
            }
        } else {
            assert(r.1 == r2.1);
            assert forall|k: int| #![trigger r.1[k]] 0 <= k < r.1.len() implies exists|j: int|
                #![trigger params[j]]
                i <= j < params.len() && params[j] == r.1[k] && !param_recognized(params[j]) by {
                assert(r2.1[k] == r.1[k]);
                let j = choose|j: int|
                    #![trigger params[j]]
                    i + 1 <= j < params.len() && params[j] == r2.1[k] && !param_recognized(
                        params[j],
                    );
                assert(params[j] == r.1[k] && !param_recognized(params[j]));
            }
        }
    }
}

/// The element `e` stems from a recognized `code=value` parameter at
/// or after `i`: its code is the parameter's key.
pub open spec fn param_contributed(params: Seq<Seq<char>>, i: int, e: ElemV) -> bool {
    exists|j: int|
        #![trigger params[j]]
        i <= j < params.len() && param_recognized(params[j]) && e.code == params[j].take(
            pos_of(params[j], '='),
        )
}

proof fn lemma_param_contributed_widen(params: Seq<Seq<char>>, i: int, e: ElemV)
    requires
        param_contributed(params, i + 1, e),
    ensures
        param_contributed(params, i, e),
{
    let j = choose|j: int|
        #![trigger params[j]]
        i + 1 <= j < params.len() && param_recognized(params[j]) && e.code == params[j].take(
            pos_of(params[j], '='),
        );
    assert(i <= j < params.len() && param_recognized(params[j]) && e.code == params[j].take(
        pos_of(params[j], '='),
    ));
}

/// Law (third part): every element the query contributes stems from a
/// recognized `code=value` parameter, so no ignored parameter ever
/// appears as an element of the resulting set.
pub proof fn lemma_query_elems_from_recognized(params: Seq<Seq<char>>, i: int)
    requires
        0 <= i,
        dl_query_parse(params, i) is Some,
    ensures
        forall|k: int|
            #![trigger dl_query_parse(params, i).unwrap().0[k]]
            0 <= k < dl_query_parse(params, i).unwrap().0.len() ==> param_contributed(
                params,
                i,
                dl_query_parse(params, i).unwrap().0[k],
            ),
    decreases params.len() - i,
{
    if i < params.len() {
        let r = dl_query_parse(params, i).unwrap();
        let p = params[i];
        lemma_query_elems_from_recognized(params, i + 1);
        let r2 = dl_query_parse(params, i + 1).unwrap();
        if p.len() > 0 && param_recognized(p) {
            assert forall|k: int|
                #![trigger dl_query_parse(params, i).unwrap().0[k]]
                0 <= k < dl_query_parse(params, i).unwrap().0.len() implies param_contributed(
                params,
                i,
                dl_query_parse(params, i).unwrap().0[k],
            ) by {
                if k == 0 {
                    assert(param_recognized(params[i]) && r.0[0].code == params[i].take(
                        pos_of(params[i], '='),
                    ));
                    assert(param_contributed(params, i, r.0[0]));
                } else {
                    assert(r.0[k] == r2.0[k - 1]);
                    assert(param_contributed(params, i + 1, r2.0[k - 1]));
                    lemma_param_contributed_widen(params, i, r2.0[k - 1]);
                }
            }
        } else {
            assert(r.0 == r2.0);
            assert forall|k: int|
                #![trigger dl_query_parse(params, i).unwrap().0[k]]
                0 <= k < dl_query_parse(params, i).unwrap().0.len() implies param_contributed(
                params,
                i,
                dl_query_parse(params, i).unwrap().0[k],
            ) by {
                assert(r.0[k] == r2.0[k]);
                assert(param_contributed(params, i + 1, r2.0[k]));
                lemma_param_contributed_widen(params, i, r2.0[k]);
            }
        }
    }
}

/// Every qualifier element a successful path parse yields is
/// well-formed.
proof fn lemma_dl_quals_wf(segs: Seq<Seq<char>>, i: int, last_seq: int)
    requires
        dl_quals(segs, i, last_seq) is Some,
    ensures
        crate::elements::elems_wf(dl_quals(segs, i, last_seq).unwrap()),
    decreases segs.len() - i,
{
    if 0 <= i && i + 1 < segs.len() {
        let es = dl_quals(segs, i, last_seq).unwrap();
        if es.len() > 0 {
            let info = seg_info(segs[i]).unwrap();
            lemma_dl_quals_wf(segs, i + 2, info.qual_seq as int);
            let rest = dl_quals(segs, i + 2, info.qual_seq as int).unwrap();
            assert(es[0].code == segs[i]);
            assert(crate::elements::elem_known(es[0]));
            assert(crate::elements::elem_wf(es[0]));
            assert(forall|k: int| 1 <= k < es.len() ==> #[trigger] es[k] == rest[k - 1]);
        }
    }
}

/// Every element a successful query parse yields is well-formed.
proof fn lemma_dl_query_wf(params: Seq<Seq<char>>, i: int)
    requires
        0 <= i,
        dl_query_parse(params, i) is Some,
    ensures
        crate::elements::elems_wf(dl_query_parse(params, i).unwrap().0),
    decreases params.len() - i,
{
    if i < params.len() {
        let r = dl_query_parse(params, i).unwrap();
        lemma_dl_query_wf(params, i + 1);
        let r2 = dl_query_parse(params, i + 1).unwrap();
        let p = params[i];
        if p.len() > 0 && param_recognized(p) {
            assert(crate::elements::elem_known(r.0[0]));
            assert(crate::elements::elem_wf(r.0[0]));
            assert(forall|k: int| 1 <= k < r.0.len() ==> #[trigger] r.0[k] == r2.0[k - 1]);
        } else {
            assert(r.0 == r2.0);
        }
    }
}

/// Every element a successful Digital Link URI parse yields is
/// well-formed.
pub proof fn lemma_dl_parse_wf(s: Seq<char>, permit_zs: bool)
    requires
        dl_parse(s, permit_zs) is Some,
    ensures
        crate::elements::elems_wf(dl_parse(s, permit_zs).unwrap().0),
{
    let sl = scheme_len(s).unwrap();
    let after = s.skip(sl);
    let slash = pos_of(after, '/');
    let pq = after.skip(slash + 1);
    let qpos = pos_of(pq, '?');
    let path = pq.take(qpos);
    let params: Seq<Seq<char>> = if qpos < pq.len() {
        split_char(pq.skip(qpos + 1), '&')
    } else {
        Seq::empty()
    };
    let segs = split_char(path, '/');
    let pes = dl_path_elems(segs, permit_zs).unwrap();
    let ki = first_key_seg(segs, 0).unwrap();
    lemma_first_key_seg_is_key(segs, 0);
    let pk = dl_pk_elem(segs[ki], segs[ki + 1], permit_zs).unwrap();
    assert(crate::elements::elem_known(pk));
    assert(crate::elements::elem_wf(pk));
    lemma_dl_quals_wf(segs, ki + 2, 0);
    let qs = dl_quals(segs, ki + 2, 0).unwrap();
    assert(pes == seq![pk] + qs);
    assert(pes[0] == pk);
    assert(forall|k: int| 1 <= k < pes.len() ==> #[trigger] pes[k] == qs[k - 1]);
    assert(crate::elements::elems_wf(pes));
    lemma_dl_query_wf(params, 0);
    let qes = dl_query_parse(params, 0).unwrap().0;
    let es = dl_parse(s, permit_zs).unwrap().0;
    assert(es == pes + qes);
    assert(forall|k: int| 0 <= k < pes.len() ==> #[trigger] es[k] == pes[k]);
    assert(forall|k: int|
        pes.len() <= k < es.len() ==> #[trigger] es[k] == qes[k - pes.len()]);
}

/// A found first-key index really is a primary-key segment.
proof fn lemma_first_key_seg_is_key(segs: Seq<Seq<char>>, i: int)
    requires
        first_key_seg(segs, i) is Some,
    ensures
        ({
            let k = first_key_seg(segs, i).unwrap();
            i <= k < segs.len() && seg_is_key(segs[k])
        }),
    decreases segs.len() - i,
{
    if 0 <= i < segs.len() && !seg_is_key(segs[i]) {
        lemma_first_key_seg_is_key(segs, i + 1);
    }
}

/// Whether `s` starts with the characters of `p`.
pub fn has_prefix(s: &str, p: &str) -> (r: bool)
    ensures
        r == (s@.len() >= p@.len() && s@.take(p@.len() as int) == p@),
{
    let pn = p.unicode_len();
    let n = s.unicode_len();
    if n < pn {
        return false;
    }
    let mut i: usize = 0;
    while i < pn
        invariant
            i <= pn,
            pn == p@.len(),
            n == s@.len(),
            pn <= n,
            forall|j: int| 0 <= j < i ==> s@[j] == p@[j],
        decreases pn - i,
    {
        if s.get_char(i) != p.get_char(i) {
            proof {
                assert(s@.take(pn as int)[i as int] != p@[i as int]);
            }
            return false;
        }
        i = i + 1;
    }
    proof {
        assert(s@.take(pn as int) =~= p@);
    }
    true
}

/// Zero-suppression expansion, executable form.
fn zs_expand_exec(v: &str, permit_zs: bool) -> (r: String)
    ensures
        r@ == zs_expand(v@, permit_zs),
{
    let l = v.unicode_len();
    if permit_zs && (l == 8 || l == 12 || l == 13) {
        let mut out = String::new();
        let pad = 14 - l;
        let mut k: usize = 0;
        proof {
            reveal_strlit("0");
            assert("0"@ =~= seq!['0']);
            assert(out@ =~= zeros(0));
        }
        while k < pad
            invariant
                k <= pad,
                out@ == zeros(k as int),
            decreases pad - k,
        {
            out.append("0");
            proof {
                reveal_strlit("0");
                assert("0"@ =~= seq!['0']);
                assert(out@ =~= zeros(k as int) + seq!['0']);
            }
            k = k + 1;
        }
        out.append(v);
        out
    } else {
        String::from_str(v)
    }
}

/// Find the first primary-key code among the path segments.
fn first_key_seg_exec(segs: &Vec<String>) -> (r: Option<usize>)
    ensures
        ({
            let segsv = segs@.map_values(|t: String| t@);
            match r {
                Some(i) => first_key_seg(segsv, 0) == Some(i as int) && i < segsv.len(),
                None => first_key_seg(segsv, 0) is None,
            }
        }),
{
    let ghost segsv = segs@.map_values(|t: String| t@);
    let n = segs.len();
    let mut i: usize = 0;
    while i < n
        invariant
            i <= n,
            n == segsv.len(),
            segsv == segs@.map_values(|t: String| t@),
            first_key_seg(segsv, 0) == first_key_seg(segsv, i as int),
        decreases n - i,
    {
        let isk = match seg_info_exec(segs[i].as_str()) {
            Some(info) => matches!(info.role, DlRole::Key),
            None => false,
        };
        proof {
            assert(segsv[i as int] == segs@[i as int]@);
        }
        if isk {
            return Some(i);
        }
        i = i + 1;
    }
    None
}

/// Parse the qualifier pairs of a Digital Link path, from segment
/// `start` on.
fn dl_quals_exec(segs: &Vec<String>, start: usize) -> (r: Result<Vec<Element>, ParseFail>)
    ensures
        r matches Err(f) ==> f.pos == 0 && f.end == 0,
        ({
            let segsv = segs@.map_values(|t: String| t@);
            &&& (r is Ok <==> dl_quals(segsv, start as int, 0) is Some)
            &&& (r matches Ok(v) ==> v@.map_values(|e: Element| e@) == dl_quals(
                segsv,
                start as int,
                0,
            ).unwrap())
        }),
{
    let ghost segsv = segs@.map_values(|t: String| t@);
    let n = segs.len();
    let mut out: Vec<Element> = Vec::new();
    let mut i: usize = start;
    let mut last: usize = 0;
    while i < n
        invariant
            start <= i,
            n == segsv.len(),
            segsv == segs@.map_values(|t: String| t@),
            match dl_quals(segsv, i as int, last as int) {
                Some(rest) => dl_quals(segsv, start as int, 0) == Some(
                    out@.map_values(|e: Element| e@) + rest,
                ),
                None => dl_quals(segsv, start as int, 0) is None,
            },
        decreases n - i,
    {
        proof {
            assert(segsv[i as int] == segs@[i as int]@);
        }
        if i + 1 >= n {
            return Err(
                ParseFail { kind: FailKind::DlSyntax, pos: 0, end: 0, ai: None },
            );
        }
        proof {
            assert(segsv[i as int + 1] == segs@[i as int + 1]@);
        }
        let info = match seg_info_exec(segs[i].as_str()) {
            Some(info) => info,
            None => {
                return Err(
                    ParseFail { kind: FailKind::UnknownAi, pos: 0, end: 0, ai: None },
                );
            },
        };
        if !matches!(info.role, DlRole::Qualifier) || info.qual_seq <= last {
            return Err(ParseFail { kind: FailKind::DlSyntax, pos: 0, end: 0, ai: None });
        }
        let v = match pct_decode_str(segs[i + 1].as_str()) {
            Some(v) => v,
            None => {
                return Err(
                    ParseFail { kind: FailKind::BadValue, pos: 0, end: 0, ai: None },
                );
            },
        };
        proof {
            lemma_dict_info_wf(code_key(segsv[i as int]));
        }
        if !check_value(&info, v.as_str()) {
            return Err(
                ParseFail {
                    kind: FailKind::BadValue,
                    pos: 0,
                    end: 0,
                    ai: Some(segs[i].clone()),
                },
            );
        }
        let ghost pre = out@.map_values(|e: Element| e@);
        let elem = Element { code: segs[i].clone(), value: v };
        out.push(elem);
        proof {
            let e = ElemV { code: segsv[i as int], value: pct_decode(segsv[i as int + 1]).unwrap() };
            assert(out@.map_values(|ee: Element| ee@) =~= pre + seq![e]);
            let rest2 = dl_quals(segsv, i as int + 2, info.qual_seq as int);
            assert(dl_quals(segsv, i as int, last as int) == match rest2 {
                Some(r2) => Some(seq![e] + r2),
                None => None::<Seq<ElemV>>,
            });
            if rest2 is Some {
                assert(pre + (seq![e] + rest2.unwrap()) =~= (pre + seq![e]) + rest2.unwrap());
            }
        }
        last = info.qual_seq;
        i = i + 2;
    }
    proof {
        assert(dl_quals(segsv, i as int, last as int) == Some(Seq::<ElemV>::empty()));
        assert(out@.map_values(|e: Element| e@) + Seq::<ElemV>::empty() =~= out@.map_values(
            |e: Element| e@,
        ));
    }
    Ok(out)
}

/// Parse the query parameters into elements and ignored parameters.
fn dl_query_exec(params: &Vec<String>) -> (r: Result<(Vec<Element>, Vec<String>), ParseFail>)
    ensures
        r matches Err(f) ==> f.pos == 0 && f.end == 0,
        ({
            let paramsv = params@.map_values(|t: String| t@);
            &&& (r is Ok <==> dl_query_parse(paramsv, 0) is Some)
            &&& (r matches Ok(p) ==> p.0@.map_values(|e: Element| e@) == dl_query_parse(
                paramsv,
                0,
            ).unwrap().0 && p.1@.map_values(|t: String| t@) == dl_query_parse(
                paramsv,
                0,
            ).unwrap().1)
        }),
{
    let ghost paramsv = params@.map_values(|t: String| t@);
    let n = params.len();
    let mut elems: Vec<Element> = Vec::new();
    let mut ign: Vec<String> = Vec::new();
    let mut i: usize = 0;
    while i < n
        invariant
            i <= n,
            n == paramsv.len(),
            paramsv == params@.map_values(|t: String| t@),
            match dl_query_parse(paramsv, i as int) {
                Some(r2) => dl_query_parse(paramsv, 0) == Some(
                    (
                        elems@.map_values(|e: Element| e@) + r2.0,
                        ign@.map_values(|t: String| t@) + r2.1,
                    ),
                ),
                None => dl_query_parse(paramsv, 0) is None,
            },
        decreases n - i,
    {
        proof {
            assert(paramsv[i as int] == params@[i as int]@);
        }
        let p = &params[i];
        let pn = p.as_str().unicode_len();
        if pn == 0 {
            i = i + 1;
            continue ;
        }
        let eq = crate::chars::find_char(p.as_str(), '=', 0);
        proof {
            assert(p@.skip(0) =~= p@);
        }
        let mut recognized = false;
        let mut info_opt: Option<AiInfo> = None;
        if eq < pn {
            let key_s = p.as_str().substring_char(0, eq);
            proof {
                assert(key_s@ =~= p@.take(pos_of(p@, '=')));
            }
            info_opt = seg_info_exec(key_s);
            if let Some(info) = info_opt {
                if matches!(info.role, DlRole::Attribute) {
                    recognized = true;
                }
            }
        }
        proof {
            assert(recognized == param_recognized(paramsv[i as int]));
        }
        let ghost pre_e = elems@.map_values(|e: Element| e@);
        let ghost pre_g = ign@.map_values(|t: String| t@);
        if recognized {
            let info = info_opt.unwrap();
            let key_s = p.as_str().substring_char(0, eq);
            let val_raw = p.as_str().substring_char(eq + 1, pn);
            proof {
                assert(key_s@ =~= p@.take(pos_of(p@, '=')));
                assert(val_raw@ =~= p@.skip(pos_of(p@, '=') + 1));
            }
            let v = match pct_decode_str(val_raw) {
                Some(v) => v,
                None => {
                    return Err(
                        ParseFail { kind: FailKind::BadValue, pos: 0, end: 0, ai: None },
                    );
                },
            };
            proof {
                lemma_dict_info_wf(code_key(key_s@));
            }
            if !check_value(&info, v.as_str()) {
                return Err(
                    ParseFail {
                        kind: FailKind::BadValue,
                        pos: 0,
                        end: 0,
                        ai: Some(String::from_str(key_s)),
                    },
                );
            }
            let elem = Element { code: String::from_str(key_s), value: v };
            elems.push(elem);
            proof {
                let pv = paramsv[i as int];
                let e = ElemV {
                    code: pv.take(pos_of(pv, '=')),
                    value: pct_decode(pv.skip(pos_of(pv, '=') + 1)).unwrap(),
                };
                assert(elems@.map_values(|ee: Element| ee@) =~= pre_e + seq![e]);
                let r2 = dl_query_parse(paramsv, i as int + 1);
                if r2 is Some {
                    assert(pre_e + (seq![e] + r2.unwrap().0) =~= (pre_e + seq![e])
                        + r2.unwrap().0);
                }
            }
        } else {
            ign.push(p.clone());
            proof {
                let pv = paramsv[i as int];
                assert(ign@.map_values(|t: String| t@) =~= pre_g + seq![pv]);
                let r2 = dl_query_parse(paramsv, i as int + 1);
                if r2 is Some {
                    assert(pre_g + (seq![pv] + r2.unwrap().1) =~= (pre_g + seq![pv])
                        + r2.unwrap().1);
                }
            }
        }
        i = i + 1;
    }
    proof {
        assert(dl_query_parse(paramsv, n as int) == Some(
            (Seq::<ElemV>::empty(), Seq::<Seq<char>>::empty()),
        ));
        assert(elems@.map_values(|e: Element| e@) + Seq::<ElemV>::empty() =~= elems@.map_values(
            |e: Element| e@,
        ));
        assert(ign@.map_values(|t: String| t@) + Seq::<Seq<char>>::empty() =~= ign@.map_values(
            |t: String| t@,
        ));
    }
    Ok((elems, ign))
}

/// Parse a Digital Link URI into its elements and the ignored query
/// parameters.
pub fn dl_parse_str(s: &str, permit_zs: bool) -> (r: Result<
    (Vec<Element>, Vec<String>),
    ParseFail,
>)
    ensures
        r is Ok <==> dl_parse(s@, permit_zs) is Some,
        r matches Ok(p) ==> p.0@.map_values(|e: Element| e@) == dl_parse(s@, permit_zs).unwrap().0
            && p.1@.map_values(|t: String| t@) == dl_parse(s@, permit_zs).unwrap().1,
        r matches Err(f) ==> f.pos <= f.end <= s@.len(),
{
    let n = s.unicode_len();
    let sl: usize;
    if has_prefix(s, "https://") {
        sl = 8;
        proof {
            reveal_strlit("https://");
            assert(scheme_len(s@) == Some(8int));
        }
    } else if has_prefix(s, "http://") {
        sl = 7;
        proof {
            reveal_strlit("https://");
            reveal_strlit("http://");
            assert(s@.len() >= 8 ==> s@.take(8) != "https://"@);
            assert(scheme_len(s@) == Some(7int));
        }
    } else {
        proof {
            reveal_strlit("https://");
            reveal_strlit("http://");
            assert(scheme_len(s@) is None);
        }
        return Err(ParseFail { kind: FailKind::DlSyntax, pos: 0, end: n, ai: None });
    }
    let slash = crate::chars::find_char(s, '/', sl);
    proof {
        assert(s@.skip(sl as int).len() == n - sl);
    }
    if slash == n {
        proof {
            assert(pos_of(s@.skip(sl as int), '/') == s@.skip(sl as int).len());
        }
        return Err(ParseFail { kind: FailKind::DlSyntax, pos: 0, end: n, ai: None });
    }
    let pq_s = s.substring_char(slash + 1, n);
    proof {
        assert(pq_s@ =~= s@.skip(sl as int).skip(pos_of(s@.skip(sl as int), '/') + 1)) by {
            assert(pq_s@ =~= s@.skip(slash as int + 1));
            assert(s@.skip(sl as int).skip(pos_of(s@.skip(sl as int), '/') + 1) =~= s@.skip(
                slash as int + 1,
            ));
        }
    }
    let pq_n = pq_s.unicode_len();
    let qk = crate::chars::find_char(pq_s, '?', 0);
    proof {
        assert(pq_s@.skip(0) =~= pq_s@);
    }
    let path_s = pq_s.substring_char(0, qk);
    proof {
        assert(path_s@ =~= pq_s@.take(pos_of(pq_s@, '?')));
    }
    let params: Vec<String> = if qk < pq_n {
        let query_s = pq_s.substring_char(qk + 1, pq_n);
        proof {
            assert(query_s@ =~= pq_s@.skip(pos_of(pq_s@, '?') + 1));
        }
        split_str(query_s, '&')
    } else {
        Vec::new()
    };
    proof {
        if qk < pq_n {
            assert(params@.map_values(|t: String| t@) == split_char(
                pq_s@.skip(pos_of(pq_s@, '?') + 1),
                '&',
            ));
        } else {
            assert(params@.map_values(|t: String| t@) =~= Seq::<Seq<char>>::empty());
        }
    }
    let segs = split_str(path_s, '/');
    let ghost segsv = segs@.map_values(|t: String| t@);
    let ki = match first_key_seg_exec(&segs) {
        Some(i) => i,
        None => {
            return Err(ParseFail { kind: FailKind::NoPrimaryKey, pos: 0, end: n, ai: None });
        },
    };
    proof {
        assert(segsv.len() == segs@.len());
        lemma_first_key_seg_is_key(segsv, 0);
        assert(segsv[ki as int] == segs@[ki as int]@);
    }
    if ki >= segs.len() - 1 {
        return Err(ParseFail { kind: FailKind::NoPrimaryKey, pos: 0, end: n, ai: None });
    }
    proof {
        assert(segsv[ki as int + 1] == segs@[ki as int + 1]@);
    }
    let pk_code = &segs[ki];
    let info = seg_info_exec(pk_code.as_str()).unwrap();
    let key = crate::dict::code_key_str(pk_code.as_str()).unwrap();
    let v0 = match pct_decode_str(segs[ki + 1].as_str()) {
        Some(v) => v,
        None => {
            return Err(ParseFail { kind: FailKind::BadValue, pos: 0, end: n, ai: None });
        },
    };
    let v = if key == 101 {
        zs_expand_exec(v0.as_str(), permit_zs)
    } else {
        v0
    };
    proof {
        lemma_dict_info_wf(code_key(segsv[ki as int]));
    }
    if !check_value(&info, v.as_str()) {
        return Err(
            ParseFail {
                kind: FailKind::BadValue,
                pos: 0,
                end: n,
                ai: Some(pk_code.clone()),
            },
        );
    }
    let pk_elem = Element { code: pk_code.clone(), value: v };
    proof {
        assert(dl_pk_elem(segsv[ki as int], segsv[ki as int + 1], permit_zs) == Some(pk_elem@));
    }
    let quals = match dl_quals_exec(&segs, ki + 2) {
        Ok(v) => v,
        Err(f) => {
            return Err(f);
        },
    };
    let qr = match dl_query_exec(&params) {
        Ok(p) => p,
        Err(f) => {
            return Err(f);
        },
    };
    let (qelems, ign) = qr;
    let mut out: Vec<Element> = Vec::new();
    let ghost pk_v = pk_elem@;
    out.push(pk_elem);
    let mut quals = quals;
    let ghost quals_v = quals@.map_values(|e: Element| e@);
    out.append(&mut quals);
    let mut qelems = qelems;
    let ghost qelems_v = qelems@.map_values(|e: Element| e@);
    out.append(&mut qelems);
    proof {
        assert(out@.map_values(|e: Element| e@) =~= seq![pk_v] + quals_v + qelems_v);
        assert(dl_path_elems(segsv, permit_zs) == Some(seq![pk_v] + quals_v));
        assert((seq![pk_v] + quals_v) + qelems_v =~= seq![pk_v] + quals_v + qelems_v);
        assert(dl_parse(s@, permit_zs).unwrap().0 =~= out@.map_values(|e: Element| e@));
    }
    Ok((out, ign))
}

} // verus!
