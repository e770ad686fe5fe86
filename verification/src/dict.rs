//! The AI dictionary: an immutable table of Application Identifier
//! definitions, keyed by the AI code.
//!
//! The table is a representative subset of the full GS1 AI table: it
//! holds the primary keys, qualifiers, dates, counts, internal-use and
//! signature AIs that the engine's rules and conversions exercise, one
//! entry per AI, in the full format the complete table uses.
//!
//! A code is a string of 2 to 4 decimal digits.  Internally a code is
//! identified by its *key*: for a code of `n` digits with numeric value
//! `v`, the key is `10^n + v`.  Keys keep leading zeros significant
//! ("01" has key 101, "1" would have key 11) and appending a digit `d`
//! to a code with key `k` yields the key `10*k + d`, which makes
//! longest-prefix-match reasoning direct.

use vstd::prelude::*;
use crate::chars::{digit_val, is_digits};

verus! {

/// Character class of an AI value.
#[derive(Clone, Copy, PartialEq, Eq, Structural, Debug)]
pub enum Cset {
    /// Decimal digits only.
    Numeric,
    /// GS1 character set 82.
    Alnum,
}

/// Role of an AI in a Digital Link URI.
#[derive(Clone, Copy, PartialEq, Eq, Structural, Debug)]
pub enum DlRole {
    /// Primary key: first path component pair.
    Key,
    /// Key qualifier: follows the key in the path, in `qual_seq` order.
    Qualifier,
    /// Data attribute: carried as a query parameter.
    Attribute,
    /// Not permitted in a Digital Link URI at all.
    NoDl,
}

/// One dictionary entry: the format and rule flags of an AI.
#[derive(Clone, Copy, PartialEq, Eq, Structural, Debug)]
pub struct AiInfo {
    pub cset: Cset,
    /// Minimum value length in characters.
    pub min_len: usize,
    /// Maximum value length in characters.
    pub max_len: usize,
    /// Predefined (fixed) length: parsed without a separator.
    pub fixed: bool,
    /// The value ends in a weighted modulo-10 check digit.
    pub check_digit: bool,
    pub role: DlRole,
    /// Position of a qualifier in the Digital Link path (key first).
    pub qual_seq: usize,
    /// Mutual-exclusion group; 0 means none.  Two elements whose AIs
    /// share a nonzero group may not co-occur.
    pub mutex_group: usize,
    /// Whether the AI may appear more than once in one element string.
    pub repeatable: bool,
}

/// Key of a digit-string code: `10^len + value`.
pub open spec fn code_key(s: Seq<char>) -> int
    decreases s.len(),
{
    if s.len() == 0 {
        1
    } else {
        10 * code_key(s.drop_last()) + digit_val(s.last())
    }
}

/// A well-formed AI code: 2 to 4 decimal digits.
pub open spec fn valid_code(s: Seq<char>) -> bool {
    is_digits(s) && 2 <= s.len() <= 4
}

pub open spec fn mk_key_num(len: usize, mutex: usize) -> AiInfo {
    AiInfo {
        cset: Cset::Numeric,
        min_len: len,
        max_len: len,
        fixed: true,
        check_digit: true,
        role: DlRole::Key,
        qual_seq: 0,
        mutex_group: mutex,
        repeatable: false,
    }
}

pub open spec fn mk_key_alnum(max: usize) -> AiInfo {
    AiInfo {
        cset: Cset::Alnum,
        min_len: 1,
        max_len: max,
        fixed: false,
        check_digit: false,
        role: DlRole::Key,
        qual_seq: 0,
        mutex_group: 0,
        repeatable: false,
    }
}

pub open spec fn mk_qual(seq_no: usize, max: usize) -> AiInfo {
    AiInfo {
        cset: Cset::Alnum,
        min_len: 1,
        max_len: max,
        fixed: false,
        check_digit: false,
        role: DlRole::Qualifier,
        qual_seq: seq_no,
        mutex_group: 0,
        repeatable: false,
    }
}

pub open spec fn mk_attr_num_fixed(len: usize) -> AiInfo {
    AiInfo {
        cset: Cset::Numeric,
        min_len: len,
        max_len: len,
        fixed: true,
        check_digit: false,
        role: DlRole::Attribute,
        qual_seq: 0,
        mutex_group: 0,
        repeatable: false,
    }
}

pub open spec fn mk_attr_num_var(max: usize) -> AiInfo {
    AiInfo {
        cset: Cset::Numeric,
        min_len: 1,
        max_len: max,
        fixed: false,
        check_digit: false,
        role: DlRole::Attribute,
        qual_seq: 0,
        mutex_group: 0,
        repeatable: false,
    }
}

pub open spec fn mk_attr_alnum(max: usize) -> AiInfo {
    AiInfo {
        cset: Cset::Alnum,
        min_len: 1,
        max_len: max,
        fixed: false,
        check_digit: false,
        role: DlRole::Attribute,
        qual_seq: 0,
        mutex_group: 0,
        repeatable: false,
    }
}

/// The dictionary itself: definition of the AI whose code has the
/// given key, or `None` for a code outside the dictionary.
pub open spec fn ai_info(key: int) -> Option<AiInfo> {
    if key == 100 {  // 00: SSCC
        Some(mk_key_num(18, 0))
    } else if key == 101 {  // 01: GTIN
        Some(mk_key_num(14, 1))
    } else if key == 102 {  // 02: CONTENT
        Some(
            AiInfo {
                cset: Cset::Numeric,
                min_len: 14,
                max_len: 14,
                fixed: true,
                check_digit: true,
                role: DlRole::NoDl,
                qual_seq: 0,
                mutex_group: 1,
                repeatable: false,
            },
        )
    } else if key == 110 {  // 10: BATCH/LOT
        Some(mk_qual(2, 20))
    } else if key == 111 || key == 113 || key == 115 || key == 117 {  // dates
        Some(mk_attr_num_fixed(6))
    } else if key == 120 {  // 20: VARIANT
        Some(mk_attr_num_fixed(2))
    } else if key == 121 {  // 21: SERIAL
        Some(mk_qual(3, 20))
    } else if key == 122 {  // 22: CPV
        Some(mk_qual(1, 20))
    } else if key == 130 {  // 30: VAR COUNT
        Some(mk_attr_num_var(8))
    } else if key == 137 {  // 37: COUNT
        Some(
            AiInfo {
                cset: Cset::Numeric,
                min_len: 1,
                max_len: 8,
                fixed: false,
                check_digit: false,
                role: DlRole::NoDl,
                qual_seq: 0,
                mutex_group: 0,
                repeatable: false,
            },
        )
    } else if 190 <= key <= 199 {  // 90-99: INTERNAL
        Some(mk_attr_alnum(90))
    } else if key == 1414 {  // 414: LOC No
        Some(mk_key_num(13, 0))
    } else if key == 13103 {  // 3103: NET WEIGHT (kg)
        Some(mk_attr_num_fixed(6))
    } else if key == 13922 {  // 3922: PRICE
        Some(mk_attr_num_var(15))
    } else if key == 17007 {  // 7007: HARVEST DATE
        Some(
            AiInfo {
                cset: Cset::Numeric,
                min_len: 6,
                max_len: 12,
                fixed: false,
                check_digit: false,
                role: DlRole::Attribute,
                qual_seq: 0,
                mutex_group: 0,
                repeatable: true,
            },
        )
    } else if key == 18004 {  // 8004: GIAI
        Some(mk_key_alnum(30))
    } else if key == 18017 {  // 8017: GSRN - PROVIDER
        Some(mk_key_num(18, 2))
    } else if key == 18018 {  // 8018: GSRN - RECIPIENT
        Some(mk_key_num(18, 2))
    } else if key == 18030 {  // 8030: DIGSIG
        Some(mk_attr_alnum(90))
    } else if key == 18200 {  // 8200: PRODUCT URL
        Some(mk_attr_alnum(70))
    } else {
        None
    }
}

/// Executable dictionary lookup by code key.
pub fn lookup_key(key: u32) -> (r: Option<AiInfo>)
    ensures
        r == ai_info(key as int),
{
    if key == 100 {
        Some(
            AiInfo {
                cset: Cset::Numeric,
                min_len: 18,
                max_len: 18,
                fixed: true,
                check_digit: true,
                role: DlRole::Key,
                qual_seq: 0,
                mutex_group: 0,
                repeatable: false,
            },
        )
    } else if key == 101 {
        Some(
            AiInfo {
                cset: Cset::Numeric,
                min_len: 14,
                max_len: 14,
                fixed: true,
                check_digit: true,
                role: DlRole::Key,
                qual_seq: 0,
                mutex_group: 1,
                repeatable: false,
            },
        )
    } else if key == 102 {
        Some(
            AiInfo {
                cset: Cset::Numeric,
                min_len: 14,
                max_len: 14,
                fixed: true,
                check_digit: true,
                role: DlRole::NoDl,
                qual_seq: 0,
                mutex_group: 1,
                repeatable: false,
            },
        )
    } else if key == 110 {
        Some(
            AiInfo {
                cset: Cset::Alnum,
                min_len: 1,
                max_len: 20,
                fixed: false,
                check_digit: false,
                role: DlRole::Qualifier,
                qual_seq: 2,
                mutex_group: 0,
                repeatable: false,
            },
        )
    } else if key == 111 || key == 113 || key == 115 || key == 117 {
        Some(
            AiInfo {
                cset: Cset::Numeric,
                min_len: 6,
                max_len: 6,
                fixed: true,
                check_digit: false,
                role: DlRole::Attribute,
                qual_seq: 0,
                mutex_group: 0,
                repeatable: false,
            },
        )
    } else if key == 120 {
        Some(
            AiInfo {
                cset: Cset::Numeric,
                min_len: 2,
                max_len: 2,
                fixed: true,
                check_digit: false,
                role: DlRole::Attribute,
                qual_seq: 0,
                mutex_group: 0,
                repeatable: false,
            },
        )
    } else if key == 121 {
        Some(
            AiInfo {
                cset: Cset::Alnum,
                min_len: 1,
                max_len: 20,
                fixed: false,
                check_digit: false,
                role: DlRole::Qualifier,
                qual_seq: 3,
                mutex_group: 0,
                repeatable: false,
            },
        )
    } else if key == 122 {
        Some(
            AiInfo {
                cset: Cset::Alnum,
                min_len: 1,
                max_len: 20,
                fixed: false,
                check_digit: false,
                role: DlRole::Qualifier,
                qual_seq: 1,
                mutex_group: 0,
                repeatable: false,
            },
        )
    } else if key == 130 {
        Some(
            AiInfo {
                cset: Cset::Numeric,
                min_len: 1,
                max_len: 8,
                fixed: false,
                check_digit: false,
                role: DlRole::Attribute,
                qual_seq: 0,
                mutex_group: 0,
                repeatable: false,
            },
        )
    } else if key == 137 {
        Some(
            AiInfo {
                cset: Cset::Numeric,
                min_len: 1,
                max_len: 8,
                fixed: false,
                check_digit: false,
                role: DlRole::NoDl,
                qual_seq: 0,
                mutex_group: 0,
                repeatable: false,
            },
        )
    } else if 190 <= key && key <= 199 {
        Some(
            AiInfo {
                cset: Cset::Alnum,
                min_len: 1,
                max_len: 90,
                fixed: false,
                check_digit: false,
                role: DlRole::Attribute,
                qual_seq: 0,
                mutex_group: 0,
                repeatable: false,
            },
        )
    } else if key == 1414 {
        Some(
            AiInfo {
                cset: Cset::Numeric,
                min_len: 13,
                max_len: 13,
                fixed: true,
                check_digit: true,
                role: DlRole::Key,
                qual_seq: 0,
                mutex_group: 0,
                repeatable: false,
            },
        )
    } else if key == 13103 {
        Some(
            AiInfo {
                cset: Cset::Numeric,
                min_len: 6,
                max_len: 6,
                fixed: true,
                check_digit: false,
                role: DlRole::Attribute,
                qual_seq: 0,
                mutex_group: 0,
                repeatable: false,
            },
        )
    } else if key == 13922 {
        Some(
            AiInfo {
                cset: Cset::Numeric,
                min_len: 1,
                max_len: 15,
                fixed: false,
                check_digit: false,
                role: DlRole::Attribute,
                qual_seq: 0,
                mutex_group: 0,
                repeatable: false,
            },
        )
    } else if key == 17007 {
        Some(
            AiInfo {
                cset: Cset::Numeric,
                min_len: 6,
                max_len: 12,
                fixed: false,
                check_digit: false,
                role: DlRole::Attribute,
                qual_seq: 0,
                mutex_group: 0,
                repeatable: true,
            },
        )
    } else if key == 18004 {
        Some(
            AiInfo {
                cset: Cset::Alnum,
                min_len: 1,
                max_len: 30,
                fixed: false,
                check_digit: false,
                role: DlRole::Key,
                qual_seq: 0,
                mutex_group: 0,
                repeatable: false,
            },
        )
    } else if key == 18017 {
        Some(
            AiInfo {
                cset: Cset::Numeric,
                min_len: 18,
                max_len: 18,
                fixed: true,
                check_digit: true,
                role: DlRole::Key,
                qual_seq: 0,
                mutex_group: 2,
                repeatable: false,
            },
        )
    } else if key == 18018 {
        Some(
            AiInfo {
                cset: Cset::Numeric,
                min_len: 18,
                max_len: 18,
                fixed: true,
                check_digit: true,
                role: DlRole::Key,
                qual_seq: 0,
                mutex_group: 2,
                repeatable: false,
            },
        )
    } else if key == 18030 {
        Some(
            AiInfo {
                cset: Cset::Alnum,
                min_len: 1,
                max_len: 90,
                fixed: false,
                check_digit: false,
                role: DlRole::Attribute,
                qual_seq: 0,
                mutex_group: 0,
                repeatable: false,
            },
        )
    } else if key == 18200 {
        Some(
            AiInfo {
                cset: Cset::Alnum,
                min_len: 1,
                max_len: 70,
                fixed: false,
                check_digit: false,
                role: DlRole::Attribute,
                qual_seq: 0,
                mutex_group: 0,
                repeatable: false,
            },
        )
    } else {
        None
    }
}

/// Display title of the AI with the given key; the empty string where
/// the dictionary assigns none.
pub open spec fn ai_title(key: int) -> Seq<char> {
    if key == 100 {
        "SSCC"@
    } else if key == 101 {
        "GTIN"@
    } else if key == 102 {
        "CONTENT"@
    } else if key == 110 {
        "BATCH/LOT"@
    } else if key == 111 {
        "PROD DATE"@
    } else if key == 113 {
        "PACK DATE"@
    } else if key == 115 {
        "BEST BEFORE or BEST BY"@
    } else if key == 117 {
        "USE BY OR EXPIRY"@
    } else if key == 120 {
        "VARIANT"@
    } else if key == 121 {
        "SERIAL"@
    } else if key == 122 {
        "CPV"@
    } else if key == 130 {
        "VAR. COUNT"@
    } else if key == 137 {
        "COUNT"@
    } else if 190 <= key <= 199 {
        "INTERNAL"@
    } else if key == 1414 {
        "LOC No."@
    } else if key == 13103 {
        "NET WEIGHT (kg)"@
    } else if key == 13922 {
        "PRICE"@
    } else if key == 17007 {
        "HARVEST DATE"@
    } else if key == 18004 {
        "GIAI"@
    } else if key == 18017 {
        "GSRN - PROVIDER"@
    } else if key == 18018 {
        "GSRN - RECIPIENT"@
    } else if key == 18030 {
        "DIGSIG"@
    } else if key == 18200 {
        "PRODUCT URL"@
    } else {
        ""@
    }
}

/// Executable title lookup.
pub fn lookup_title(key: u32) -> (r: &'static str)
    ensures
        r@ == ai_title(key as int),
{
    if key == 100 {
        "SSCC"
    } else if key == 101 {
        "GTIN"
    } else if key == 102 {
        "CONTENT"
    } else if key == 110 {
        "BATCH/LOT"
    } else if key == 111 {
        "PROD DATE"
    } else if key == 113 {
        "PACK DATE"
    } else if key == 115 {
        "BEST BEFORE or BEST BY"
    } else if key == 117 {
        "USE BY OR EXPIRY"
    } else if key == 120 {
        "VARIANT"
    } else if key == 121 {
        "SERIAL"
    } else if key == 122 {
        "CPV"
    } else if key == 130 {
        "VAR. COUNT"
    } else if key == 137 {
        "COUNT"
    } else if 190 <= key && key <= 199 {
        "INTERNAL"
    } else if key == 1414 {
        "LOC No."
    } else if key == 13103 {
        "NET WEIGHT (kg)"
    } else if key == 13922 {
        "PRICE"
    } else if key == 17007 {
        "HARVEST DATE"
    } else if key == 18004 {
        "GIAI"
    } else if key == 18017 {
        "GSRN - PROVIDER"
    } else if key == 18018 {
        "GSRN - RECIPIENT"
    } else if key == 18030 {
        "DIGSIG"
    } else if key == 18200 {
        "PRODUCT URL"
    } else {
        ""
    }
}

/// Requisite-companion sets of an AI: if the AI is present, each listed
/// set must contribute at least one companion AI to the element string.
pub open spec fn req_groups_spec(key: int) -> Seq<Seq<u32>> {
    if key == 102 {
        seq![seq![137u32]]
    } else if key == 110 {
        seq![seq![101u32, 102u32]]
    } else if key == 121 {
        seq![seq![101u32]]
    } else if key == 122 {
        seq![seq![101u32]]
    } else if key == 137 {
        seq![seq![102u32]]
    } else {
        Seq::empty()
    }
}

/// Number of requisite sets of an AI.
pub fn req_group_count(key: u32) -> (n: usize)
    ensures
        n == req_groups_spec(key as int).len(),
{
    if key == 102 || key == 110 || key == 121 || key == 122 || key == 137 {
        1
    } else {
        0
    }
}

/// The `g`-th requisite set of an AI, as the keys of the alternatives.
pub fn req_group(key: u32, g: usize) -> (v: Vec<u32>)
    requires
        g < req_groups_spec(key as int).len(),
    ensures
        v@ == req_groups_spec(key as int)[g as int],
{
    let mut v: Vec<u32> = Vec::new();
    if key == 102 {
        v.push(137);
        proof {
            assert(v@ =~= seq![137u32]);
        }
    } else if key == 110 {
        v.push(101);
        v.push(102);
        proof {
            assert(v@ =~= seq![101u32, 102u32]);
        }
    } else if key == 121 {
        v.push(101);
        proof {
            assert(v@ =~= seq![101u32]);
        }
    } else if key == 122 {
        v.push(101);
        proof {
            assert(v@ =~= seq![101u32]);
        }
    } else {
        v.push(102);
        proof {
            assert(v@ =~= seq![102u32]);
        }
    }
    v
}

/// Appending one digit to a code multiplies its key by ten and adds the
/// digit's value.
pub proof fn lemma_code_key_push(s: Seq<char>, i: int)
    requires
        0 <= i < s.len(),
    ensures
        code_key(s.take(i + 1)) == 10 * code_key(s.take(i)) + digit_val(s[i]),
{
    assert(s.take(i + 1).drop_last() =~= s.take(i));
    assert(s.take(i + 1).last() == s[i]);
}

/// Computes the key of an AI code string: `Some` exactly on well-formed
/// codes (2 to 4 decimal digits).
pub fn code_key_str(code: &str) -> (r: Option<u32>)
    ensures
        match r {
            Some(k) => valid_code(code@) && k as int == code_key(code@),
            None => !valid_code(code@),
        },
{
    let n = code.unicode_len();
    if n < 2 || n > 4 {
        return None;
    }
    let mut i: usize = 0;
    let mut key: u32 = 1;
    proof {
        assert(code@.take(0) =~= Seq::<char>::empty());
    }
    while i < n
        invariant
            2 <= n <= 4,
            n == code@.len(),
            i <= n,
            is_digits(code@.take(i as int)),
            key as int == code_key(code@.take(i as int)),
            i == 0 ==> key == 1,
            i == 1 ==> key <= 19,
            i == 2 ==> key <= 199,
            i == 3 ==> key <= 1999,
            i == 4 ==> key <= 19999,
        decreases n - i,
    {
        let c = code.get_char(i);
        if !crate::chars::char_is_digit(c) {
            proof {
                assert(!is_digits(code@));
            }
            return None;
        }
        let d = crate::chars::char_digit_val(c);
        proof {
            lemma_code_key_push(code@, i as int);
            assert(forall|j: int|
                0 <= j < i + 1 ==> #[trigger] code@.take(i as int + 1)[j] == code@[j]);
        }
        key = 10 * key + d as u32;
        i = i + 1;
    }
    proof {
        assert(code@.take(n as int) =~= code@);
    }
    Some(key)
}

/// Basic well-formedness of every dictionary entry: sane length bounds,
/// fixed-length entries are numeric with one exact length, and entries
/// with a check digit are numeric and long enough to hold one.
pub proof fn lemma_dict_info_wf(key: int)
    requires
        ai_info(key) is Some,
    ensures
        ({
            let info = ai_info(key).unwrap();
            &&& 1 <= info.min_len <= info.max_len <= 90
            &&& (info.fixed ==> info.min_len == info.max_len)
            &&& (info.fixed ==> info.cset == Cset::Numeric)
            &&& (info.check_digit ==> info.cset == Cset::Numeric && info.min_len >= 2)
        }),
{
}

/// The dictionary is prefix-free: no code that extends a dictionary
/// code by one or two digits is itself in the dictionary.  This is what
/// makes longest-match parsing of undelimited data unambiguous.
pub proof fn lemma_dict_prefix_free(key: int, d: int)
    requires
        ai_info(key) is Some,
    ensures
        0 <= d < 10 ==> ai_info(10 * key + d) is None,
        0 <= d < 100 ==> ai_info(100 * key + d) is None,
{
}

} // verus!
