//! Parsed elements: (AI code, value) pairs, and the ordered element set
//! that is the canonical in-memory form of one encoded message.

use vstd::prelude::*;
use crate::chars::{is_digits, is_cset82, is_passthrough_char, char_is_digit, char_is_cset82,
    char_is_passthrough};
use crate::checkdigit::{check_digit_ok, verify_check_digit};
use crate::dict::{AiInfo, Cset, ai_info, code_key, valid_code};

verus! {

/// Mathematical model of one parsed element.
pub struct ElemV {
    pub code: Seq<char>,
    pub value: Seq<char>,
}

/// One parsed element: an AI code (2 to 4 digits) and its raw value.
#[derive(Debug)]
pub struct Element {
    pub code: String,
    pub value: String,
}

impl View for Element {
    type V = ElemV;

    open spec fn view(&self) -> ElemV {
        ElemV { code: self.code@, value: self.value@ }
    }
}

/// An ordered sequence of parsed elements; insertion order is preserved
/// and is meaningful for re-serialization.
#[derive(Debug)]
pub struct ElementSet {
    pub elems: Vec<Element>,
}

impl View for ElementSet {
    type V = Seq<ElemV>;

    open spec fn view(&self) -> Seq<ElemV> {
        self.elems@.map_values(|e: Element| e@)
    }
}

impl ElementSet {
    pub fn new() -> (r: ElementSet)
        ensures
            r@ =~= Seq::<ElemV>::empty(),
    {
        ElementSet { elems: Vec::new() }
    }

    pub fn len(&self) -> (n: usize)
        ensures
            n == self@.len(),
    {
        self.elems.len()
    }

    pub fn get(&self, i: usize) -> (e: &Element)
        requires
            i < self@.len(),
        ensures
            e@ == self@[i as int],
    {
        &self.elems[i]
    }
}

/// The value `v` satisfies the format of the AI definition `info`:
/// length bounds, character set, and the embedded check digit where the
/// definition carries one.
pub open spec fn value_ok(info: AiInfo, v: Seq<char>) -> bool {
    &&& info.min_len <= v.len() <= info.max_len
    &&& match info.cset {
        Cset::Numeric => is_digits(v),
        Cset::Alnum => forall|i: int| 0 <= i < v.len() ==> is_cset82(#[trigger] v[i]),
    }
    &&& (info.check_digit ==> check_digit_ok(v))
}

/// The element's code is in the dictionary.
pub open spec fn elem_known(e: ElemV) -> bool {
    valid_code(e.code) && ai_info(code_key(e.code)) is Some
}

/// A well-formed unknown (pass-through) element: a syntactically valid
/// code outside the dictionary, with a nonempty printable value free of
/// the separator character.
///
/// An unknown AI's value gets no dictionary format validation; the
/// lexical bounds here are only what unambiguous re-serialization and
/// re-parsing of the element require (the separator would cut the value
/// short, and a non-printable byte could collide with scan-data
/// framing).
pub open spec fn unknown_elem_wf(e: ElemV) -> bool {
    &&& valid_code(e.code)
    &&& ai_info(code_key(e.code)) is None
    &&& 1 <= e.value.len() <= 90
    &&& forall|i: int| 0 <= i < e.value.len() ==> is_passthrough_char(#[trigger] e.value[i])
}

/// A well-formed element: either defined by the dictionary and valid
/// per its definition, or a well-formed pass-through element.
pub open spec fn elem_wf(e: ElemV) -> bool {
    if elem_known(e) {
        value_ok(ai_info(code_key(e.code)).unwrap(), e.value)
    } else {
        unknown_elem_wf(e)
    }
}

/// Every element of the sequence is well-formed.
pub open spec fn elems_wf(es: Seq<ElemV>) -> bool {
    forall|i: int| 0 <= i < es.len() ==> elem_wf(#[trigger] es[i])
}

/// Executable check that `v` satisfies `value_ok(info, v@)`.
pub fn check_value(info: &AiInfo, v: &str) -> (r: bool)
    requires
        info.max_len <= 0xFFFF_FFFF,
        info.check_digit ==> info.cset == Cset::Numeric,
    ensures
        r == value_ok(*info, v@),
{
    let n = v.unicode_len();
    if n < info.min_len || n > info.max_len {
        return false;
    }
    let mut i: usize = 0;
    while i < n
        invariant
            n == v@.len(),
            i <= n,
            match info.cset {
                Cset::Numeric => forall|j: int| 0 <= j < i ==> crate::chars::is_dec_digit(
                    #[trigger] v@[j],
                ),
                Cset::Alnum => forall|j: int| 0 <= j < i ==> is_cset82(#[trigger] v@[j]),
            },
        decreases n - i,
    {
        let c = v.get_char(i);
        let ok = match info.cset {
            Cset::Numeric => char_is_digit(c),
            Cset::Alnum => char_is_cset82(c),
        };
        if !ok {
            return false;
        }
        i = i + 1;
    }
    if info.check_digit {
        if n < 1 {
            return false;
        }
        if !verify_check_digit(v) {
            return false;
        }
    }
    true
}

/// Law: for every AI flagged with a check digit, a value the engine
/// accepts for it ends in exactly the digit that `compute` yields on
/// the non-check-digit portion, which is what `verify` tests.
pub proof fn lemma_checked_ai_value_carries_computed_digit(key: int, v: Seq<char>)
    requires
        ai_info(key) is Some,
        ai_info(key).unwrap().check_digit,
        value_ok(ai_info(key).unwrap(), v),
    ensures
        v.len() >= 1,
        check_digit_ok(v),
        crate::chars::digit_val(v.last()) == crate::checkdigit::checksum_digit(v.drop_last()),
{
    crate::dict::lemma_dict_info_wf(key);
}

/// Which format check a value failed, for diagnostics.
#[derive(Clone, Copy, PartialEq, Eq, Structural, Debug)]
pub enum ValueVerdict {
    Accept,
    WrongLength,
    WrongChar,
    WrongCheckDigit,
}

/// The value's characters all belong to the definition's character set.
pub open spec fn charset_ok(info: AiInfo, v: Seq<char>) -> bool {
    match info.cset {
        Cset::Numeric => is_digits(v),
        Cset::Alnum => forall|i: int| 0 <= i < v.len() ==> is_cset82(#[trigger] v[i]),
    }
}

/// The verdict of the format check: the first failing check, in the
/// order length, character set, check digit.
pub open spec fn value_verdict(info: AiInfo, v: Seq<char>) -> ValueVerdict {
    if v.len() < info.min_len || v.len() > info.max_len {
        ValueVerdict::WrongLength
    } else if !charset_ok(info, v) {
        ValueVerdict::WrongChar
    } else if info.check_digit && v.len() < 1 {
        ValueVerdict::WrongLength
    } else if info.check_digit && !check_digit_ok(v) {
        ValueVerdict::WrongCheckDigit
    } else {
        ValueVerdict::Accept
    }
}

/// Executable format check that also reports which check failed first.
pub fn check_value_kind(info: &AiInfo, v: &str) -> (r: ValueVerdict)
    requires
        info.max_len <= 0xFFFF_FFFF,
        info.check_digit ==> info.cset == Cset::Numeric,
    ensures
        r == value_verdict(*info, v@),
        (r == ValueVerdict::Accept) == value_ok(*info, v@),
{
    let n = v.unicode_len();
    if n < info.min_len || n > info.max_len {
        return ValueVerdict::WrongLength;
    }
    let mut i: usize = 0;
    while i < n
        invariant
            n == v@.len(),
            i <= n,
            info.min_len <= n <= info.max_len,
            match info.cset {
                Cset::Numeric => forall|j: int| 0 <= j < i ==> crate::chars::is_dec_digit(
                    #[trigger] v@[j],
                ),
                Cset::Alnum => forall|j: int| 0 <= j < i ==> is_cset82(#[trigger] v@[j]),
            },
        decreases n - i,
    {
        let c = v.get_char(i);
        let ok = match info.cset {
            Cset::Numeric => char_is_digit(c),
            Cset::Alnum => char_is_cset82(c),
        };
        if !ok {
            proof {
                assert(v@[i as int] == c);
                match info.cset {
                    Cset::Numeric => {
                        assert(!crate::chars::is_dec_digit(v@[i as int]));
                        assert(!is_digits(v@));
                    },
                    Cset::Alnum => {
                        assert(!is_cset82(v@[i as int]));
                    },
                }
                assert(!charset_ok(*info, v@));
            }
            return ValueVerdict::WrongChar;
        }
        i = i + 1;
    }
    if info.check_digit {
        if n < 1 {
            return ValueVerdict::WrongLength;
        }
        if !verify_check_digit(v) {
            return ValueVerdict::WrongCheckDigit;
        }
    }
    ValueVerdict::Accept
}

/// Executable check that every character of `v` may pass through an
/// unknown AI's value.
pub fn check_passthrough_value(v: &str) -> (r: bool)
    ensures
        r == (1 <= v@.len() <= 90 && forall|i: int|
            0 <= i < v@.len() ==> is_passthrough_char(#[trigger] v@[i])),
{
    let n = v.unicode_len();
    if n < 1 || n > 90 {
        return false;
    }
    let mut i: usize = 0;
    while i < n
        invariant
            n == v@.len(),
            i <= n,
            forall|j: int| 0 <= j < i ==> is_passthrough_char(#[trigger] v@[j]),
        decreases n - i,
    {
        let c = v.get_char(i);
        if !char_is_passthrough(c) {
            return false;
        }
        i = i + 1;
    }
    true
}

} // verus!
