//! Human-readable interpretation: one line per element, `"(AI) value"`,
//! with the AI's data title prefixed when titles are requested.

use vstd::prelude::*;
use crate::dict::{ai_info, ai_title, code_key, valid_code, code_key_str, lookup_key, lookup_title};
use crate::elements::{ElemV, ElementSet};

verus! {

/// The HRI line of one element.
pub open spec fn hri_line(e: ElemV, titles: bool) -> Seq<char> {
    let base = seq!['('] + e.code + seq![')'] + seq![' '] + e.value;
    if titles && valid_code(e.code) && ai_info(code_key(e.code)) is Some {
        ai_title(code_key(e.code)) + seq![' '] + base
    } else {
        base
    }
}

/// The HRI lines of an element set, in element order.
pub open spec fn hri_lines(es: Seq<ElemV>, titles: bool) -> Seq<Seq<char>> {
    es.map_values(|e: ElemV| hri_line(e, titles))
}

/// Render the HRI lines of an element set; an absent or empty set
/// yields an empty listing, not an error.
pub fn hri_lines_str(es: &ElementSet, titles: bool) -> (r: Vec<String>)
    ensures
        r@.len() == es@.len(),
        forall|i: int| 0 <= i < es@.len() ==> #[trigger] r@[i]@ == hri_line(es@[i], titles),
{
    let n = es.len();
    let mut out: Vec<String> = Vec::new();
    let mut i: usize = 0;
    while i < n
        invariant
            i <= n,
            n == es@.len(),
            out@.len() == i,
            forall|j: int| 0 <= j < i ==> #[trigger] out@[j]@ == hri_line(es@[j], titles),
        decreases n - i,
    {
        let e = es.get(i);
        let mut line = String::new();
        let ghost target = hri_line(e@, titles);
        if titles {
            match code_key_str(e.code.as_str()) {
                Some(k) => match lookup_key(k) {
                    Some(_info) => {
                        line.append(lookup_title(k));
                        line.append(" ");
                    },
                    None => {},
                },
                None => {},
            }
        }
        line.append("(");
        line.append(e.code.as_str());
        line.append(") ");
        line.append(e.value.as_str());
        proof {
            reveal_strlit(" ");
            reveal_strlit("(");
            reveal_strlit(") ");
            assert(" "@ =~= seq![' ']);
            assert("("@ =~= seq!['(']);
            assert(") "@ =~= seq![')', ' ']);
            assert(seq![')', ' '] =~= seq![')'] + seq![' ']);
            assert(line@ =~= target);
        }
        out.push(line);
        i = i + 1;
    }
    out
}

} // verus!
