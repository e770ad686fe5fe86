//! Cross-field validation of a parsed element set: mutual exclusion,
//! requisite companions, repetition, and digital-signature key rules.
//!
//! Each rule kind is switched by its own flag and checks its own
//! property alone; unknown (pass-through) AIs take part in no rule.
//! The fifth kind, confining unknown AIs out of Digital Link paths and
//! attributes, is enforced where Digital Link URIs are built.

use vstd::prelude::*;
use crate::dict::{AiInfo, ai_info, code_key, valid_code, code_key_str, lookup_key,
    req_groups_spec, req_group_count, req_group};
use crate::elements::{ElemV, Element, ElementSet};

verus! {

/// The five independently switchable validation kinds.
#[derive(Clone, Copy, PartialEq, Eq, Structural, Debug)]
pub enum Validation {
    MutexAis,
    RequisiteAis,
    RepeatedAis,
    DigSigSerialKey,
    UnknownAiNotDlAttr,
}

/// Per-kind enable flags; all kinds default to enabled.
#[derive(Clone, Copy, PartialEq, Eq, Structural, Debug)]
pub struct ValidationFlags {
    pub mutex_ais: bool,
    pub requisite_ais: bool,
    pub repeated_ais: bool,
    pub digsig_serial_key: bool,
    pub unknown_ai_not_dl_attr: bool,
}

impl ValidationFlags {
    pub fn all_enabled() -> (r: ValidationFlags)
        ensures
            r.mutex_ais && r.requisite_ais && r.repeated_ais && r.digsig_serial_key
                && r.unknown_ai_not_dl_attr,
    {
        ValidationFlags {
            mutex_ais: true,
            requisite_ais: true,
            repeated_ais: true,
            digsig_serial_key: true,
            unknown_ai_not_dl_attr: true,
        }
    }
}

/// Dictionary entry of an element, where its code is well-formed and in
/// the dictionary.
pub open spec fn known_info(e: ElemV) -> Option<AiInfo> {
    if valid_code(e.code) {
        ai_info(code_key(e.code))
    } else {
        None
    }
}

/// Executable dictionary lookup for one element.
pub fn elem_info(e: &Element) -> (r: Option<AiInfo>)
    ensures
        r == known_info(e@),
{
    match code_key_str(e.code.as_str()) {
        Some(k) => lookup_key(k),
        None => None,
    }
}

/// Two distinct AIs conflict when they share a nonzero
/// mutual-exclusion group.
pub open spec fn mutex_conflict(a: ElemV, b: ElemV) -> bool {
    match (known_info(a), known_info(b)) {
        (Some(x), Some(y)) => x.mutex_group != 0 && x.mutex_group == y.mutex_group && code_key(
            a.code,
        ) != code_key(b.code),
        _ => false,
    }
}

/// No two elements of the set conflict by mutual exclusion.
pub open spec fn mutex_ok(es: Seq<ElemV>) -> bool {
    forall|i: int, j: int| 0 <= i < j < es.len() ==> !mutex_conflict(es[i], es[j])
}

/// Some element of the set carries the AI with the given code key.
pub open spec fn has_key(es: Seq<ElemV>, k: int) -> bool {
    exists|j: int| 0 <= j < es.len() && valid_code(#[trigger] es[j].code) && code_key(es[j].code) == k
}

/// At least one AI of the requisite set `grp` is present.
pub open spec fn group_satisfied(es: Seq<ElemV>, grp: Seq<u32>) -> bool {
    exists|m: int| 0 <= m < grp.len() && has_key(es, #[trigger] grp[m] as int)
}

/// Every requisite-companion set of every known AI present contributes
/// at least one companion AI.
pub open spec fn requisites_ok(es: Seq<ElemV>) -> bool {
    forall|i: int, g: int|
        0 <= i < es.len() && known_info(#[trigger] es[i]) is Some && 0 <= g < req_groups_spec(
            code_key(es[i].code),
        ).len() ==> group_satisfied(es, #[trigger] req_groups_spec(code_key(es[i].code))[g])
}

/// Two elements repeat an AI that its definition does not allow to
/// repeat.
pub open spec fn repeat_conflict(a: ElemV, b: ElemV) -> bool {
    &&& valid_code(a.code) && valid_code(b.code)
    &&& code_key(a.code) == code_key(b.code)
    &&& match known_info(a) {
        Some(info) => !info.repeatable,
        None => false,
    }
}

/// No AI flagged non-repeatable appears more than once.
pub open spec fn repeats_ok(es: Seq<ElemV>) -> bool {
    forall|i: int, j: int| 0 <= i < j < es.len() ==> !repeat_conflict(es[i], es[j])
}

/// The set carries a serialised primary key: one that identifies a
/// single instance rather than a class.
pub open spec fn serialised_key_present(es: Seq<ElemV>) -> bool {
    ||| has_key(es, 100)
    ||| (has_key(es, 101) && has_key(es, 121))
    ||| has_key(es, 18004)
    ||| has_key(es, 18017)
    ||| has_key(es, 18018)
}

/// A digital signature may only accompany a serialised primary key:
/// the signature covers a single instance, so the set must identify
/// one.  This is the checkable reading of the serial-key consistency
/// rule: the serial component inside a signature value is opaque to the
/// engine, so the rule demands the presence of the serialised key the
/// signature is defined over rather than comparing serial components
/// character by character.
pub open spec fn digsig_ok(es: Seq<ElemV>) -> bool {
    has_key(es, 18030) ==> serialised_key_present(es)
}

/// The whole validation outcome: each enabled kind's check passes; a
/// disabled kind's check is simply not consulted.
pub open spec fn validate_ok(es: Seq<ElemV>, flags: ValidationFlags) -> bool {
    &&& (flags.mutex_ais ==> mutex_ok(es))
    &&& (flags.requisite_ais ==> requisites_ok(es))
    &&& (flags.repeated_ais ==> repeats_ok(es))
    &&& (flags.digsig_serial_key ==> digsig_ok(es))
}

/// The given kind is enabled and its own check fails on the set.
pub open spec fn validation_failed(es: Seq<ElemV>, flags: ValidationFlags, kind: Validation) -> bool {
    match kind {
        Validation::MutexAis => flags.mutex_ais && !mutex_ok(es),
        Validation::RequisiteAis => flags.requisite_ais && !requisites_ok(es),
        Validation::RepeatedAis => flags.repeated_ais && !repeats_ok(es),
        Validation::DigSigSerialKey => flags.digsig_serial_key && !digsig_ok(es),
        Validation::UnknownAiNotDlAttr => false,
    }
}

/// The flag set with the given kind's flag replaced and every other
/// kind untouched.
pub open spec fn flags_with(f: ValidationFlags, kind: Validation, enabled: bool) -> ValidationFlags {
    match kind {
        Validation::MutexAis => ValidationFlags { mutex_ais: enabled, ..f },
        Validation::RequisiteAis => ValidationFlags { requisite_ais: enabled, ..f },
        Validation::RepeatedAis => ValidationFlags { repeated_ais: enabled, ..f },
        Validation::DigSigSerialKey => ValidationFlags { digsig_serial_key: enabled, ..f },
        Validation::UnknownAiNotDlAttr => ValidationFlags { unknown_ai_not_dl_attr: enabled, ..f },
    }
}

/// A validation failure: the kind that fired and the AI it concerns.
#[derive(Debug)]
pub struct ValFail {
    pub kind: Validation,
    pub code: String,
}

/// Executable test for `has_key`.
pub fn has_key_exec(es: &ElementSet, k: u32) -> (r: bool)
    ensures
        r == has_key(es@, k as int),
{
    let n = es.len();
    let mut i: usize = 0;
    while i < n
        invariant
            i <= n,
            n == es@.len(),
            forall|j: int|
                0 <= j < i ==> !(valid_code(#[trigger] es@[j].code) && code_key(es@[j].code)
                    == k as int),
        decreases n - i,
    {
        let e = es.get(i);
        match code_key_str(e.code.as_str()) {
            Some(k2) => {
                if k2 == k {
                    proof {
                        assert(valid_code(es@[i as int].code) && code_key(es@[i as int].code)
                            == k as int);
                    }
                    return true;
                }
            },
            None => {},
        }
        i = i + 1;
    }
    false
}

fn check_mutex(es: &ElementSet) -> (r: Option<String>)
    ensures
        r is None <==> mutex_ok(es@),
{
    let n = es.len();
    let mut i: usize = 0;
    while i < n
        invariant
            i <= n,
            n == es@.len(),
            forall|a: int, b: int| 0 <= a < b < n && a < i ==> !mutex_conflict(es@[a], es@[b]),
        decreases n - i,
    {
        let ei = es.get(i);
        let info_i = elem_info(ei);
        if let Some(x) = info_i {
            if x.mutex_group != 0 {
                let ki = code_key_str(ei.code.as_str()).unwrap();
                let mut j = i + 1;
                while j < n
                    invariant
                        i < j <= n,
                        n == es@.len(),
                        known_info(es@[i as int]) == Some(x),
                        ki as int == code_key(es@[i as int].code),
                        x.mutex_group != 0,
                        forall|b: int| i < b < j ==> !mutex_conflict(es@[i as int], es@[b]),
                    decreases n - j,
                {
                    let ej = es.get(j);
                    let info_j = elem_info(ej);
                    if let Some(y) = info_j {
                        if y.mutex_group == x.mutex_group {
                            // both codes are valid here, so the keys decide
                            let kj = code_key_str(ej.code.as_str()).unwrap();
                            if ki != kj {
                                proof {
                                    assert(mutex_conflict(es@[i as int], es@[j as int]));
                                }
                                return Some(ej.code.clone());
                            }
                        }
                    }
                    j = j + 1;
                }
            }
        }
        i = i + 1;
    }
    None
}

fn check_requisites(es: &ElementSet) -> (r: Option<String>)
    ensures
        r is None <==> requisites_ok(es@),
{
    let n = es.len();
    let mut i: usize = 0;
    while i < n
        invariant
            i <= n,
            n == es@.len(),
            forall|a: int, g: int|
                0 <= a < i && known_info(#[trigger] es@[a]) is Some && 0 <= g < req_groups_spec(
                    code_key(es@[a].code),
                ).len() ==> group_satisfied(es@, #[trigger] req_groups_spec(code_key(es@[a].code))[g]),
        decreases n - i,
    {
        let ei = es.get(i);
        if let Some(_x) = elem_info(ei) {
            let key = code_key_str(ei.code.as_str()).unwrap();
            let gc = req_group_count(key);
            let mut g: usize = 0;
            while g < gc
                invariant
                    g <= gc,
                    n == es@.len(),
                    i < n,
                    known_info(es@[i as int]) is Some,
                    valid_code(es@[i as int].code),
                    key as int == code_key(es@[i as int].code),
                    gc == req_groups_spec(key as int).len(),
                    forall|g2: int|
                        0 <= g2 < g ==> group_satisfied(
                            es@,
                            #[trigger] req_groups_spec(key as int)[g2],
                        ),
                decreases gc - g,
            {
                let grp = req_group(key, g);
                let mut m: usize = 0;
                let mut found = false;
                while m < grp.len() && !found
                    invariant
                        m <= grp@.len(),
                        grp@ == req_groups_spec(key as int)[g as int],
                        found ==> group_satisfied(es@, grp@),
                        !found ==> forall|m2: int|
                            0 <= m2 < m ==> !has_key(es@, #[trigger] grp@[m2] as int),
                    decreases grp@.len() - m + (if found {
                        0int
                    } else {
                        1int
                    }),
                {
                    if has_key_exec(es, grp[m]) {
                        found = true;
                    } else {
                        m = m + 1;
                    }
                }
                if !found {
                    return Some(ei.code.clone());
                }
                g = g + 1;
            }
        }
        i = i + 1;
    }
    None
}

fn check_repeats(es: &ElementSet) -> (r: Option<String>)
    ensures
        r is None <==> repeats_ok(es@),
{
    let n = es.len();
    let mut i: usize = 0;
    while i < n
        invariant
            i <= n,
            n == es@.len(),
            forall|a: int, b: int| 0 <= a < b < n && a < i ==> !repeat_conflict(es@[a], es@[b]),
        decreases n - i,
    {
        let ei = es.get(i);
        if let Some(x) = elem_info(ei) {
            if !x.repeatable {
                let ki = code_key_str(ei.code.as_str()).unwrap();
                let mut j = i + 1;
                while j < n
                    invariant
                        i < j <= n,
                        n == es@.len(),
                        valid_code(es@[i as int].code),
                        ki as int == code_key(es@[i as int].code),
                        known_info(es@[i as int]) == Some(x),
                        !x.repeatable,
                        forall|b: int| i < b < j ==> !repeat_conflict(es@[i as int], es@[b]),
                    decreases n - j,
                {
                    let ej = es.get(j);
                    if let Some(kj) = code_key_str(ej.code.as_str()) {
                        if ki == kj {
                            proof {
                                assert(repeat_conflict(es@[i as int], es@[j as int]));
                            }
                            return Some(ej.code.clone());
                        }
                    }
                    j = j + 1;
                }
            }
        }
        i = i + 1;
    }
    None
}

fn check_digsig(es: &ElementSet) -> (r: Option<String>)
    ensures
        r is None <==> digsig_ok(es@),
{
    if !has_key_exec(es, 18030) {
        return None;
    }
    if has_key_exec(es, 100) {
        return None;
    }
    if has_key_exec(es, 101) && has_key_exec(es, 121) {
        return None;
    }
    if has_key_exec(es, 18004) {
        return None;
    }
    if has_key_exec(es, 18017) {
        return None;
    }
    if has_key_exec(es, 18018) {
        return None;
    }
    Some(String::from_str("8030"))
}

/// Validate an element set against the enabled rule kinds, reporting
/// the first violation found.  Succeeds exactly when every enabled
/// kind's check holds; disabling a kind removes only that check.
pub fn validate_set(es: &ElementSet, flags: &ValidationFlags) -> (r: Result<(), ValFail>)
    ensures
        r is Ok <==> validate_ok(es@, *flags),
        r matches Err(f) ==> validation_failed(es@, *flags, f.kind),
{
    if flags.mutex_ais {
        if let Some(code) = check_mutex(es) {
            return Err(ValFail { kind: Validation::MutexAis, code });
        }
    }
    if flags.requisite_ais {
        if let Some(code) = check_requisites(es) {
            return Err(ValFail { kind: Validation::RequisiteAis, code });
        }
    }
    if flags.repeated_ais {
        if let Some(code) = check_repeats(es) {
            return Err(ValFail { kind: Validation::RepeatedAis, code });
        }
    }
    if flags.digsig_serial_key {
        if let Some(code) = check_digsig(es) {
            return Err(ValFail { kind: Validation::DigSigSerialKey, code });
        }
    }
    Ok(())
}

/// Law: the validation outcome decomposes kind by kind — each kind is
/// consulted exactly when its own flag is set, so toggling one kind
/// never enables or disables another kind's check.
pub proof fn lemma_validation_kinds_independent(es: Seq<ElemV>, flags: ValidationFlags)
    ensures
        validate_ok(es, flags) <==> ((flags.mutex_ais ==> mutex_ok(es)) && (flags.requisite_ais
            ==> requisites_ok(es)) && (flags.repeated_ais ==> repeats_ok(es)) && (
        flags.digsig_serial_key ==> digsig_ok(es))),
{
}

/// Law: toggling one validation kind touches that kind's flag alone,
/// so no toggle enables or disables another kind's check.
pub proof fn lemma_toggle_touches_one_kind(f: ValidationFlags, kind: Validation, enabled: bool)
    ensures
        ({
            let f2 = flags_with(f, kind, enabled);
            &&& (kind == Validation::MutexAis || f2.mutex_ais == f.mutex_ais)
            &&& (kind == Validation::RequisiteAis || f2.requisite_ais == f.requisite_ais)
            &&& (kind == Validation::RepeatedAis || f2.repeated_ais == f.repeated_ais)
            &&& (kind == Validation::DigSigSerialKey || f2.digsig_serial_key
                == f.digsig_serial_key)
            &&& (kind == Validation::UnknownAiNotDlAttr || f2.unknown_ai_not_dl_attr
                == f.unknown_ai_not_dl_attr)
        }),
{
}

/// Law: disabling the requisite-AIs rule permits exactly the element
/// sets that fail only that rule: a set that every other enabled kind
/// accepts is rejected with the rule on and accepted with the rule off,
/// and the other kinds' checks are unchanged by the toggle.
pub proof fn lemma_requisite_toggle(es: Seq<ElemV>, f_on: ValidationFlags, f_off: ValidationFlags)
    requires
        f_on.mutex_ais == f_off.mutex_ais,
        f_on.repeated_ais == f_off.repeated_ais,
        f_on.digsig_serial_key == f_off.digsig_serial_key,
        f_on.requisite_ais,
        !f_off.requisite_ais,
    ensures
        !requisites_ok(es) ==> !validate_ok(es, f_on),
        validate_ok(es, f_off) <==> ((f_on.mutex_ais ==> mutex_ok(es)) && (f_on.repeated_ais
            ==> repeats_ok(es)) && (f_on.digsig_serial_key ==> digsig_ok(es))),
        validate_ok(es, f_on) ==> validate_ok(es, f_off),
{
}

} // verus!
