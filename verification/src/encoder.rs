//! The engine context: configuration, the current parsed data, and the
//! conversions between the five representations.
//!
//! Every mutating operation fully replaces the prior parsed state on
//! success and leaves it untouched on failure; the diagnostic fields
//! describe the last failing operation.

use vstd::prelude::*;
use crate::chars::is_digits;
use crate::checkdigit::checksum_digit;
use crate::dluri::{DlBuildErr, build_dl_uri, dl_buildable, dl_uri_spec, trim_slashes};
use crate::dlparse::{dl_parse, dl_parse_str, scheme_len};
use crate::dsform::{FailKind, ParseFail, ds_parse, ds_parse_str, ds_serialize, ds_serialize_str};
use crate::aiform::{ai_parse, ai_parse_str, ai_serialize, ai_serialize_str};
use crate::elements::{ElemV, ElementSet, elems_wf};
use crate::hri::{hri_line, hri_lines_str};
use crate::scandata::{Symbology, ScanKind, ai_prefix, dl_prefix, plain_prefix, ai_prefix_str,
    dl_prefix_str, plain_prefix_str, gs_char, match_scan_prefix, seps_to_gs, gs_to_seps};
use crate::validate::{Validation, ValidationFlags, ValFail, validate_set, validate_ok};

verus! {

/// The error surface of the engine: a kind and a human-readable
/// message.
#[derive(Debug)]
pub enum GS1EncoderError {
    /// The engine could not be constructed.
    GS1GeneralError(String),
    /// Malformed input, failed cross-field validation, or a bad
    /// configuration value.
    GS1ParameterError(String),
    /// Scan data with an unknown framing prefix or a bad payload.
    GS1ScanDataError(String),
    /// A Digital Link URI could not be built or understood.
    GS1DigitalLinkError(String),
}

/// The message text an error carries.
pub open spec fn error_text(e: &GS1EncoderError) -> Seq<char> {
    match e {
        GS1EncoderError::GS1GeneralError(m) => m@,
        GS1EncoderError::GS1ParameterError(m) => m@,
        GS1EncoderError::GS1ScanDataError(m) => m@,
        GS1EncoderError::GS1DigitalLinkError(m) => m@,
    }
}

impl GS1EncoderError {
    /// The human-readable message of this error.
    pub fn message(&self) -> (r: String)
        ensures
            r@ == error_text(self),
    {
        match self {
            GS1EncoderError::GS1GeneralError(m) => m.clone(),
            GS1EncoderError::GS1ParameterError(m) => m.clone(),
            GS1EncoderError::GS1ScanDataError(m) => m.clone(),
            GS1EncoderError::GS1DigitalLinkError(m) => m.clone(),
        }
    }
}

/// Mathematical model of the engine's data state.
pub enum DataV {
    Empty,
    NonAi(Seq<char>),
    AiData(Seq<ElemV>),
    DlData { uri: Seq<char>, elements: Seq<ElemV>, ignored: Seq<Seq<char>> },
}

/// Mathematical model of the whole engine context.
pub struct EncoderV {
    pub sym: Symbology,
    pub add_check_digit: bool,
    pub permit_unknown_ais: bool,
    pub permit_zero_suppressed: bool,
    pub include_data_titles: bool,
    pub flags: ValidationFlags,
    pub data: DataV,
    pub err_msg: Seq<char>,
    pub err_markup: Seq<char>,
}

/// The element set held by a data state, when it holds one.
pub open spec fn data_elements(d: DataV) -> Option<Seq<ElemV>> {
    match d {
        DataV::AiData(es) => Some(es),
        DataV::DlData { elements, .. } => Some(elements),
        _ => None,
    }
}

/// Any held element set is well-formed.
pub open spec fn data_wf(d: DataV) -> bool {
    match data_elements(d) {
        Some(es) => elems_wf(es),
        None => true,
    }
}

/// The data-string representation of a data state.
pub open spec fn data_str_spec(d: DataV) -> Seq<char> {
    match d {
        DataV::Empty => Seq::empty(),
        DataV::NonAi(s) => s,
        DataV::AiData(es) => seq!['^'] + ds_serialize(es),
        DataV::DlData { uri, .. } => uri,
    }
}

/// The state of a freshly constructed engine: no symbology, no data,
/// every option off, every validation kind enabled.
pub open spec fn default_encoder() -> EncoderV {
    EncoderV {
        sym: Symbology::NoSymbology,
        add_check_digit: false,
        permit_unknown_ais: false,
        permit_zero_suppressed: false,
        include_data_titles: false,
        flags: ValidationFlags {
            mutex_ais: true,
            requisite_ais: true,
            repeated_ais: true,
            digsig_serial_key: true,
            unknown_ai_not_dl_attr: true,
        },
        data: DataV::Empty,
        err_msg: Seq::empty(),
        err_markup: Seq::empty(),
    }
}

/// `v` with the data replaced and the diagnostics cleared.
pub open spec fn with_data(v: EncoderV, d: DataV) -> EncoderV {
    EncoderV {
        sym: v.sym,
        add_check_digit: v.add_check_digit,
        permit_unknown_ais: v.permit_unknown_ais,
        permit_zero_suppressed: v.permit_zero_suppressed,
        include_data_titles: v.include_data_titles,
        flags: v.flags,
        data: d,
        err_msg: Seq::empty(),
        err_markup: Seq::empty(),
    }
}

/// `v` with the data and symbology replaced and the diagnostics
/// cleared.
pub open spec fn with_sym_data(v: EncoderV, sym: Symbology, d: DataV) -> EncoderV {
    EncoderV { sym: sym, ..with_data(v, d) }
}

/// `b` is `a` after a failed operation: everything but the diagnostics
/// is unchanged, and a message is present.
pub open spec fn failed_from(a: EncoderV, b: EncoderV) -> bool {
    &&& b.sym == a.sym
    &&& b.add_check_digit == a.add_check_digit
    &&& b.permit_unknown_ais == a.permit_unknown_ais
    &&& b.permit_zero_suppressed == a.permit_zero_suppressed
    &&& b.include_data_titles == a.include_data_titles
    &&& b.flags == a.flags
    &&& b.data == a.data
    &&& b.err_msg.len() > 0
}

/// The data state that `set_data_str` commits for the given input, or
/// `None` when the input is rejected.  A string beginning with the
/// `'^'` sentinel is a data string; one with a URI scheme is a Digital
/// Link URI; anything else is plain non-AI data.
pub open spec fn set_data_outcome(v: EncoderV, s: Seq<char>) -> Option<DataV> {
    if s.len() > 0 && s[0] == '^' {
        match ds_parse(s.skip(1), v.permit_unknown_ais) {
            Some(es) => if es.len() > 0 && validate_ok(es, v.flags) {
                Some(DataV::AiData(es))
            } else {
                None
            },
            None => None,
        }
    } else if scheme_len(s) is Some {
        match dl_parse(s, v.permit_zero_suppressed) {
            Some(r) => if r.0.len() > 0 && validate_ok(r.0, v.flags) {
                Some(DataV::DlData { uri: s, elements: r.0, ignored: r.1 })
            } else {
                None
            },
            None => None,
        }
    } else if s.len() == 0 {
        Some(DataV::Empty)
    } else {
        Some(DataV::NonAi(s))
    }
}

/// The element set that `set_ai_data_str` commits for the given input,
/// or `None` when the input is rejected.
pub open spec fn set_ai_outcome(v: EncoderV, s: Seq<char>) -> Option<Seq<ElemV>> {
    match ai_parse(s, v.permit_unknown_ais) {
        Some(es) => if es.len() > 0 && validate_ok(es, v.flags) {
            Some(es)
        } else {
            None
        },
        None => None,
    }
}

/// The diagnostics a rejected `set_data_str` stores: the message text
/// and the markup, determined by which stage refused the input.
pub open spec fn set_data_diag(v: EncoderV, s: Seq<char>, msg: Seq<char>, markup: Seq<char>) -> bool {
    if s.len() > 0 && s[0] == '^' {
        if ds_parse(s.skip(1), v.permit_unknown_ais) is None {
            let d = crate::dsform::ds_fail(s.skip(1), v.permit_unknown_ais);
            &&& msg == parse_fail_text(d.0, d.1)
            &&& markup == markup_text(s, 1 + d.2, 1 + d.3)
        } else {
            let es = ds_parse(s.skip(1), v.permit_unknown_ais).unwrap();
            &&& markup == Seq::<char>::empty()
            &&& (es.len() == 0 ==> msg == "the data string holds no AI element"@)
            &&& (es.len() > 0 ==> exists|k: Validation, c: Seq<char>|
                #![trigger val_fail_text(k, c)]
                crate::validate::validation_failed(es, v.flags, k) && msg == val_fail_text(k, c))
        }
    } else if scheme_len(s) is Some {
        if dl_parse(s, v.permit_zero_suppressed) is None {
            exists|p: int, q: int|
                #![trigger markup_text(s, p, q)]
                0 <= p <= q <= s.len() && markup == markup_text(s, p, q)
        } else {
            let es = dl_parse(s, v.permit_zero_suppressed).unwrap().0;
            &&& markup == Seq::<char>::empty()
            &&& (es.len() == 0 ==> msg == "the Digital Link URI holds no AI element"@)
            &&& (es.len() > 0 ==> exists|k: Validation, c: Seq<char>|
                #![trigger val_fail_text(k, c)]
                crate::validate::validation_failed(es, v.flags, k) && msg == val_fail_text(k, c))
        }
    } else {
        true
    }
}

/// The diagnostics a rejected `set_ai_data_str` stores.
pub open spec fn set_ai_diag(v: EncoderV, s: Seq<char>, msg: Seq<char>, markup: Seq<char>) -> bool {
    if ai_parse(s, v.permit_unknown_ais) is None {
        let d = crate::aiform::ai_fail(s, v.permit_unknown_ais);
        &&& msg == parse_fail_text(d.0, d.1)
        &&& markup == markup_text(s, d.2, d.3)
    } else {
        let es = ai_parse(s, v.permit_unknown_ais).unwrap();
        &&& markup == Seq::<char>::empty()
        &&& (es.len() == 0 ==> msg == "the AI string holds no AI element"@)
        &&& (es.len() > 0 ==> exists|k: Validation, c: Seq<char>|
            #![trigger val_fail_text(k, c)]
            crate::validate::validation_failed(es, v.flags, k) && msg == val_fail_text(k, c))
    }
}

/// The symbology and data state that `set_scan_data` commits for the
/// given input, or `None` when the input is rejected.
pub open spec fn set_scan_outcome(v: EncoderV, s: Seq<char>) -> Option<(Symbology, DataV)> {
    match crate::scandata::scan_prefix_spec(s) {
        None => None,
        Some((sym, kind)) => {
            let payload = s.skip(3);
            match kind {
                ScanKind::AiData => {
                    let body = payload.map_values(
                        |c: char|
                            if c == gs_char() {
                                '^'
                            } else {
                                c
                            },
                    );
                    match ds_parse(body, v.permit_unknown_ais) {
                        Some(es) => if es.len() > 0 && validate_ok(es, v.flags) {
                            Some((sym, DataV::AiData(es)))
                        } else {
                            None
                        },
                        None => None,
                    }
                },
                ScanKind::DlData => {
                    match dl_parse(payload, v.permit_zero_suppressed) {
                        Some(r) => if r.0.len() > 0 && validate_ok(r.0, v.flags) {
                            Some(
                                (
                                    sym,
                                    DataV::DlData {
                                        uri: payload,
                                        elements: r.0,
                                        ignored: r.1,
                                    },
                                ),
                            )
                        } else {
                            None
                        },
                        None => None,
                    }
                },
                ScanKind::PlainData => {
                    if payload.len() == 0 {
                        Some((sym, DataV::Empty))
                    } else {
                        Some((sym, DataV::NonAi(payload)))
                    }
                },
            }
        },
    }
}

/// The scan data the engine reports for its state, if any: a framing
/// prefix for the selected symbology and the matching payload.
pub open spec fn scan_data_spec(v: EncoderV) -> Option<Seq<char>> {
    if v.sym == Symbology::NoSymbology {
        None
    } else {
        match v.data {
            DataV::Empty => None,
            DataV::AiData(es) => if ai_prefix(v.sym).len() > 0 {
                Some(ai_prefix(v.sym) + ds_serialize(es).map_values(
                    |c: char|
                        if c == '^' {
                            gs_char()
                        } else {
                            c
                        },
                ))
            } else {
                None
            },
            DataV::DlData { uri, elements, .. } => if dl_prefix(v.sym).len() > 0 {
                Some(dl_prefix(v.sym) + uri)
            } else if ai_prefix(v.sym).len() > 0 {
                Some(ai_prefix(v.sym) + ds_serialize(elements).map_values(
                    |c: char|
                        if c == '^' {
                            gs_char()
                        } else {
                            c
                        },
                ))
            } else {
                None
            },
            DataV::NonAi(s) => if plain_prefix(v.sym).len() > 0 {
                if v.add_check_digit && 1 <= s.len() <= 0xFFFF_FFFF && is_digits(s) {
                    Some(plain_prefix(v.sym) + s + seq![
                        crate::chars::hex_digit_char(checksum_digit(s)),
                    ])
                } else {
                    Some(plain_prefix(v.sym) + s)
                }
            } else {
                None
            },
        }
    }
}

/// Law: an element set committed by `set_data_str` from a data string
/// re-parses from its own data-string rendering (what `get_data_str`
/// returns) to the same element set under the same configuration.
pub proof fn lemma_committed_data_string_round_trips(v: EncoderV, s: Seq<char>, es: Seq<ElemV>)
    requires
        s.len() > 0,
        s[0] == '^',
        set_data_outcome(v, s) == Some(DataV::AiData(es)),
    ensures
        set_data_outcome(v, data_str_spec(DataV::AiData(es))) == Some(DataV::AiData(es)),
{
    crate::dslaws::lemma_ds_round_trip(s.skip(1), v.permit_unknown_ais);
    let t = seq!['^'] + ds_serialize(es);
    assert(t[0] == '^');
    assert(t.skip(1) =~= ds_serialize(es));
}

/// Law: a bracketed AI string committed by `set_ai_data_str` is
/// reproduced exactly by `get_ai_data_str`.
pub proof fn lemma_committed_ai_string_reproduced(v: EncoderV, s: Seq<char>, es: Seq<ElemV>)
    requires
        set_ai_outcome(v, s) == Some(es),
    ensures
        ai_serialize(es) == s,
{
    crate::aiform::lemma_ai_string_round_trip(s, v.permit_unknown_ais);
}

/// The message reported when a Digital Link URI is requested without a
/// primary-key AI.
pub open spec fn dl_no_key_text() -> Seq<char> {
    "cannot create a Digital Link URI without a primary key AI"@
}

/// The message reported when an element's AI may not enter a Digital
/// Link URI at all.
pub open spec fn dl_not_permitted_text(c: Seq<char>) -> Seq<char> {
    "AI ("@ + c + ") is not permitted in a Digital Link URI"@
}

/// The message reported when an unknown AI would have to become a
/// Digital Link attribute.
pub open spec fn dl_unknown_attr_text(c: Seq<char>) -> Seq<char> {
    "AI ("@ + c + ") is unknown and may not be a Digital Link attribute"@
}

/// The engine context.  It owns its element set and diagnostic state
/// exclusively; every mutating operation fully replaces prior parsed
/// state.
#[derive(Debug)]
pub struct GS1Encoder {
    sym: Symbology,
    add_check_digit: bool,
    permit_unknown_ais: bool,
    permit_zero_suppressed: bool,
    include_data_titles: bool,
    flags: ValidationFlags,
    data: DataState,
    err_msg: String,
    err_markup: String,
}

/// The engine's current data, in its committed form.
#[derive(Debug)]
enum DataState {
    Empty,
    NonAi(String),
    AiData(ElementSet),
    DlData { uri: String, elements: ElementSet, ignored: Vec<String> },
}

impl View for GS1Encoder {
    type V = EncoderV;

    closed spec fn view(&self) -> EncoderV {
        EncoderV {
            sym: self.sym,
            add_check_digit: self.add_check_digit,
            permit_unknown_ais: self.permit_unknown_ais,
            permit_zero_suppressed: self.permit_zero_suppressed,
            include_data_titles: self.include_data_titles,
            flags: self.flags,
            data: match self.data {
                DataState::Empty => DataV::Empty,
                DataState::NonAi(s) => DataV::NonAi(s@),
                DataState::AiData(es) => DataV::AiData(es@),
                DataState::DlData { uri, elements, ignored } => DataV::DlData {
                    uri: uri@,
                    elements: elements@,
                    ignored: ignored@.map_values(|t: String| t@),
                },
            },
            err_msg: self.err_msg@,
            err_markup: self.err_markup@,
        }
    }
}

/// The text of the diagnostic markup: the input with the offending
/// span wrapped in `'|'` markers.
pub open spec fn markup_text(input: Seq<char>, pos: int, end: int) -> Seq<char> {
    input.take(pos) + seq!['|'] + input.subrange(pos, end) + seq!['|'] + input.skip(end)
}

/// Diagnostic markup, executable form.
fn markup_of(input: &str, pos: usize, end: usize) -> (r: String)
    requires
        pos <= end <= input@.len(),
    ensures
        r@ == markup_text(input@, pos as int, end as int),
{
    let n = input.unicode_len();
    let mut out = String::from_str(input.substring_char(0, pos));
    out.append("|");
    out.append(input.substring_char(pos, end));
    out.append("|");
    out.append(input.substring_char(end, n));
    proof {
        reveal_strlit("|");
        assert("|"@ =~= seq!['|']);
        assert(out@ =~= markup_text(input@, pos as int, end as int));
    }
    out
}

/// The message fragment for one parse-failure kind.
pub open spec fn fail_kind_text(kind: FailKind) -> Seq<char> {
    match kind {
        FailKind::UnknownAi => "unrecognised AI"@,
        FailKind::TooShort => "data is too short for the fixed-length value"@,
        FailKind::BadLength => "value has an invalid length"@,
        FailKind::BadCharset => "value contains a character outside the permitted set"@,
        FailKind::BadCheckDigit => "value has an incorrect check digit"@,
        FailKind::BadValue => "pass-through value is not acceptable"@,
        FailKind::DlSyntax => "input is not a valid Digital Link URI"@,
        FailKind::NoPrimaryKey => "Digital Link URI path carries no primary key AI"@,
    }
}

/// The whole parse-failure message: the AI concerned, where one was
/// recognized, then the kind's text.
pub open spec fn parse_fail_text(kind: FailKind, ai: Option<Seq<char>>) -> Seq<char> {
    match ai {
        Some(c) => "AI ("@ + c + ") "@ + fail_kind_text(kind),
        None => fail_kind_text(kind),
    }
}

proof fn lemma_fail_kind_text_nonempty(kind: FailKind)
    ensures
        fail_kind_text(kind).len() > 0,
{
    reveal_strlit("unrecognised AI");
    reveal_strlit("data is too short for the fixed-length value");
    reveal_strlit("value has an invalid length");
    reveal_strlit("value contains a character outside the permitted set");
    reveal_strlit("value has an incorrect check digit");
    reveal_strlit("pass-through value is not acceptable");
    reveal_strlit("input is not a valid Digital Link URI");
    reveal_strlit("Digital Link URI path carries no primary key AI");
}

fn fail_kind_str(kind: FailKind) -> (r: &'static str)
    ensures
        r@ == fail_kind_text(kind),
{
    match kind {
        FailKind::UnknownAi => "unrecognised AI",
        FailKind::TooShort => "data is too short for the fixed-length value",
        FailKind::BadLength => "value has an invalid length",
        FailKind::BadCharset => "value contains a character outside the permitted set",
        FailKind::BadCheckDigit => "value has an incorrect check digit",
        FailKind::BadValue => "pass-through value is not acceptable",
        FailKind::DlSyntax => "input is not a valid Digital Link URI",
        FailKind::NoPrimaryKey => "Digital Link URI path carries no primary key AI",
    }
}

/// The message for a parse failure.
fn parse_fail_message(f: &ParseFail) -> (r: String)
    ensures
        r@ == parse_fail_text(
            f.kind,
            match f.ai {
                Some(c) => Some(c@),
                None => None::<Seq<char>>,
            },
        ),
        r@.len() > 0,
{
    proof {
        lemma_fail_kind_text_nonempty(f.kind);
    }
    match &f.ai {
        Some(code) => {
            let mut out = String::from_str("AI (");
            out.append(code.as_str());
            out.append(") ");
            out.append(fail_kind_str(f.kind));
            proof {
                reveal_strlit("AI (");
                reveal_strlit(") ");
                assert(out@ =~= "AI ("@ + code@ + ") "@ + fail_kind_text(f.kind));
            }
            out
        },
        None => String::from_str(fail_kind_str(f.kind)),
    }
}

/// The whole validation-failure message for the kind that fired and the
/// AI it concerns.
pub open spec fn val_fail_text(kind: Validation, code: Seq<char>) -> Seq<char> {
    match kind {
        Validation::MutexAis => "AI ("@ + code + ") is excluded by another AI in the element string"@,
        Validation::RequisiteAis => "required AIs for AI ("@ + code + ") are not satisfied"@,
        Validation::RepeatedAis => "AI ("@ + code + ") may not be repeated"@,
        Validation::DigSigSerialKey => "a digital signature requires a serialised primary key"@,
        Validation::UnknownAiNotDlAttr => "AI ("@ + code
            + ") is unknown and may not be a Digital Link attribute"@,
    }
}

/// The message for a cross-field validation failure.
fn val_fail_message(f: &ValFail) -> (r: String)
    ensures
        r@ == val_fail_text(f.kind, f.code@),
        r@.len() > 0,
{
    match f.kind {
        Validation::MutexAis => {
            let mut out = String::from_str("AI (");
            out.append(f.code.as_str());
            out.append(") is excluded by another AI in the element string");
            proof {
                reveal_strlit("AI (");
                reveal_strlit(") is excluded by another AI in the element string");
                assert(out@ =~= val_fail_text(f.kind, f.code@));
            }
            out
        },
        Validation::RequisiteAis => {
            let mut out = String::from_str("required AIs for AI (");
            out.append(f.code.as_str());
            out.append(") are not satisfied");
            proof {
                reveal_strlit("required AIs for AI (");
                reveal_strlit(") are not satisfied");
                assert(out@ =~= val_fail_text(f.kind, f.code@));
            }
            out
        },
        Validation::RepeatedAis => {
            let mut out = String::from_str("AI (");
            out.append(f.code.as_str());
            out.append(") may not be repeated");
            proof {
                reveal_strlit("AI (");
                reveal_strlit(") may not be repeated");
                assert(out@ =~= val_fail_text(f.kind, f.code@));
            }
            out
        },
        Validation::DigSigSerialKey => {
            let out = String::from_str("a digital signature requires a serialised primary key");
            proof {
                reveal_strlit("a digital signature requires a serialised primary key");
            }
            out
        },
        Validation::UnknownAiNotDlAttr => {
            let mut out = String::from_str("AI (");
            out.append(f.code.as_str());
            out.append(") is unknown and may not be a Digital Link attribute");
            proof {
                reveal_strlit("AI (");
                reveal_strlit(") is unknown and may not be a Digital Link attribute");
                assert(out@ =~= val_fail_text(f.kind, f.code@));
            }
            out
        },
    }
}

impl GS1Encoder {
    /// Any element set this engine holds is well-formed: every value
    /// satisfies its AI's format, every unknown AI is a well-formed
    /// pass-through.
    pub open spec fn wf(&self) -> bool {
        data_wf(self@.data)
    }

    /// Create an engine in its default state.  Native construction has
    /// no failure mode, so the result is always the default engine.
    pub fn new() -> (r: Result<GS1Encoder, GS1EncoderError>)
        ensures
            r is Ok,
            r matches Ok(g) ==> g@ == default_encoder() && g.wf(),
    {
        Ok(
            GS1Encoder {
                sym: Symbology::NoSymbology,
                add_check_digit: false,
                permit_unknown_ais: false,
                permit_zero_suppressed: false,
                include_data_titles: false,
                flags: ValidationFlags::all_enabled(),
                data: DataState::Empty,
                err_msg: String::new(),
                err_markup: String::new(),
            },
        )
    }

    /// Release the engine's state, returning it to the default.  The
    /// native engine owns no foreign resources, so this only resets.
    pub fn free(&mut self)
        ensures
            final(self)@ == default_encoder(),
            final(self).wf(),
    {
        self.sym = Symbology::NoSymbology;
        self.add_check_digit = false;
        self.permit_unknown_ais = false;
        self.permit_zero_suppressed = false;
        self.include_data_titles = false;
        self.flags = ValidationFlags::all_enabled();
        self.data = DataState::Empty;
        self.err_msg = String::new();
        self.err_markup = String::new();
    }

    /// The engine's version string; never empty.
    pub fn get_version(&self) -> (r: String)
        ensures
            r@ == "1.0.0"@,
            r@.len() > 0,
    {
        proof {
            reveal_strlit("1.0.0");
        }
        String::from_str("1.0.0")
    }

    /// The diagnostic message of the last failing operation.
    pub fn get_err_msg(&self) -> (r: String)
        ensures
            r@ == self@.err_msg,
    {
        self.err_msg.clone()
    }

    /// The diagnostic markup of the last failing operation: the input
    /// with the offending span between `'|'` markers.
    pub fn get_err_markup(&self) -> (r: String)
        ensures
            r@ == self@.err_markup,
    {
        self.err_markup.clone()
    }

    pub fn get_sym(&self) -> (r: Symbology)
        ensures
            r == self@.sym,
    {
        self.sym
    }

    /// Select the barcode symbology used for scan data.
    pub fn set_sym(&mut self, sym: Symbology) -> (r: Result<(), GS1EncoderError>)
        requires
            old(self).wf(),
        ensures
            r is Ok,
            final(self)@ == (EncoderV {
                sym: sym,
                err_msg: Seq::empty(),
                err_markup: Seq::empty(),
                ..old(self)@
            }),
            final(self).wf(),
    {
        self.sym = sym;
        self.err_msg = String::new();
        self.err_markup = String::new();
        Ok(())
    }

    pub fn get_add_check_digit(&self) -> (r: bool)
        ensures
            r == self@.add_check_digit,
    {
        self.add_check_digit
    }

    /// Whether scan data for plain retail data appends a computed check
    /// digit.
    pub fn set_add_check_digit(&mut self, value: bool) -> (r: Result<(), GS1EncoderError>)
        requires
            old(self).wf(),
        ensures
            r is Ok,
            final(self)@ == (EncoderV {
                add_check_digit: value,
                err_msg: Seq::empty(),
                err_markup: Seq::empty(),
                ..old(self)@
            }),
            final(self).wf(),
    {
        self.add_check_digit = value;
        self.err_msg = String::new();
        self.err_markup = String::new();
        Ok(())
    }

    pub fn get_permit_unknown_ais(&self) -> (r: bool)
        ensures
            r == self@.permit_unknown_ais,
    {
        self.permit_unknown_ais
    }

    /// Whether AIs outside the dictionary are retained as opaque
    /// pass-through elements instead of being rejected.
    pub fn set_permit_unknown_ais(&mut self, value: bool) -> (r: Result<(), GS1EncoderError>)
        requires
            old(self).wf(),
        ensures
            r is Ok,
            final(self)@ == (EncoderV {
                permit_unknown_ais: value,
                err_msg: Seq::empty(),
                err_markup: Seq::empty(),
                ..old(self)@
            }),
            final(self).wf(),
    {
        self.permit_unknown_ais = value;
        self.err_msg = String::new();
        self.err_markup = String::new();
        Ok(())
    }

    pub fn get_permit_zero_suppressed_gtin_in_dl_uris(&self) -> (r: bool)
        ensures
            r == self@.permit_zero_suppressed,
    {
        self.permit_zero_suppressed
    }

    /// Whether a zero-suppressed GTIN in a Digital Link URI path is
    /// expanded and accepted.
    pub fn set_permit_zero_suppressed_gtin_in_dl_uris(&mut self, value: bool) -> (r: Result<
        (),
        GS1EncoderError,
    >)
        requires
            old(self).wf(),
        ensures
            r is Ok,
            final(self)@ == (EncoderV {
                permit_zero_suppressed: value,
                err_msg: Seq::empty(),
                err_markup: Seq::empty(),
                ..old(self)@
            }),
            final(self).wf(),
    {
        self.permit_zero_suppressed = value;
        self.err_msg = String::new();
        self.err_markup = String::new();
        Ok(())
    }

    pub fn get_include_data_titles_in_hri(&self) -> (r: bool)
        ensures
            r == self@.include_data_titles,
    {
        self.include_data_titles
    }

    /// Whether HRI lines carry the AI's data title.
    pub fn set_include_data_titles_in_hri(&mut self, value: bool) -> (r: Result<
        (),
        GS1EncoderError,
    >)
        requires
            old(self).wf(),
        ensures
            r is Ok,
            final(self)@ == (EncoderV {
                include_data_titles: value,
                err_msg: Seq::empty(),
                err_markup: Seq::empty(),
                ..old(self)@
            }),
            final(self).wf(),
    {
        self.include_data_titles = value;
        self.err_msg = String::new();
        self.err_markup = String::new();
        Ok(())
    }

    /// Whether the given validation kind is applied.
    pub fn get_validation_enabled(&self, validation: Validation) -> (r: bool)
        ensures
            r == match validation {
                Validation::MutexAis => self@.flags.mutex_ais,
                Validation::RequisiteAis => self@.flags.requisite_ais,
                Validation::RepeatedAis => self@.flags.repeated_ais,
                Validation::DigSigSerialKey => self@.flags.digsig_serial_key,
                Validation::UnknownAiNotDlAttr => self@.flags.unknown_ai_not_dl_attr,
            },
    {
        match validation {
            Validation::MutexAis => self.flags.mutex_ais,
            Validation::RequisiteAis => self.flags.requisite_ais,
            Validation::RepeatedAis => self.flags.repeated_ais,
            Validation::DigSigSerialKey => self.flags.digsig_serial_key,
            Validation::UnknownAiNotDlAttr => self.flags.unknown_ai_not_dl_attr,
        }
    }

    /// Enable or disable one validation kind.  Every kind can be
    /// toggled independently; changing one kind never touches another.
    pub fn set_validation_enabled(&mut self, validation: Validation, enabled: bool) -> (r: Result<
        (),
        GS1EncoderError,
    >)
        requires
            old(self).wf(),
        ensures
            r is Ok,
            final(self)@ == (EncoderV {
                flags: crate::validate::flags_with(old(self)@.flags, validation, enabled),
                err_msg: Seq::empty(),
                err_markup: Seq::empty(),
                ..old(self)@
            }),
            final(self).wf(),
    {
        match validation {
            Validation::MutexAis => {
                self.flags.mutex_ais = enabled;
            },
            Validation::RequisiteAis => {
                self.flags.requisite_ais = enabled;
            },
            Validation::RepeatedAis => {
                self.flags.repeated_ais = enabled;
            },
            Validation::DigSigSerialKey => {
                self.flags.digsig_serial_key = enabled;
            },
            Validation::UnknownAiNotDlAttr => {
                self.flags.unknown_ai_not_dl_attr = enabled;
            },
        }
        self.err_msg = String::new();
        self.err_markup = String::new();
        Ok(())
    }

    /// Whether requisite-AI validation is applied.
    pub fn get_validate_ai_associations(&self) -> (r: bool)
        ensures
            r == self@.flags.requisite_ais,
    {
        self.get_validation_enabled(Validation::RequisiteAis)
    }

    /// Enable or disable requisite-AI validation.
    pub fn set_validate_ai_associations(&mut self, value: bool) -> (r: Result<
        (),
        GS1EncoderError,
    >)
        requires
            old(self).wf(),
        ensures
            r is Ok,
            final(self)@ == (EncoderV {
                flags: ValidationFlags { requisite_ais: value, ..old(self)@.flags },
                err_msg: Seq::empty(),
                err_markup: Seq::empty(),
                ..old(self)@
            }),
            final(self).wf(),
    {
        self.set_validation_enabled(Validation::RequisiteAis, value)
    }

    /// The engine's data in its data-string form: the raw string for
    /// non-AI data, the sentinel-led serialization for AI data, the
    /// original URI for Digital Link data, empty when nothing is set.
    pub fn get_data_str(&self) -> (r: String)
        ensures
            r@ == data_str_spec(self@.data),
    {
        match &self.data {
            DataState::Empty => String::new(),
            DataState::NonAi(s) => s.clone(),
            DataState::AiData(es) => {
                let mut out = String::from_str("^");
                let body = ds_serialize_str(es);
                out.append(body.as_str());
                proof {
                    reveal_strlit("^");
                    assert("^"@ =~= seq!['^']);
                    assert(out@ =~= seq!['^'] + ds_serialize(es@));
                }
                out
            },
            DataState::DlData { uri, .. } => uri.clone(),
        }
    }

    /// Set the engine's data from a data string, a Digital Link URI, or
    /// plain non-AI data; parse and validate, and commit only on
    /// success.
    #[verifier::rlimit(100)]
    pub fn set_data_str(&mut self, value: &str) -> (r: Result<(), GS1EncoderError>)
        requires
            old(self).wf(),
        ensures
            r is Ok <==> set_data_outcome(old(self)@, value@) is Some,
            r is Ok ==> final(self)@ == with_data(
                old(self)@,
                set_data_outcome(old(self)@, value@).unwrap(),
            ),
            r is Err ==> failed_from(old(self)@, final(self)@),
            r matches Err(e) ==> e is GS1ParameterError,
            r matches Err(e) ==> final(self)@.err_msg == error_text(&e) && set_data_diag(
                old(self)@,
                value@,
                error_text(&e),
                final(self)@.err_markup,
            ),
            final(self).wf(),
    {
        let n = value.unicode_len();
        if n > 0 && value.get_char(0) == '^' {
            let body = value.substring_char(1, n);
            proof {
                assert(body@ =~= value@.skip(1));
            }
            match ds_parse_str(body, self.permit_unknown_ais, 1) {
                Ok(elems) => {
                    let es = ElementSet { elems };
                    proof {
                        crate::dslaws::lemma_ds_parse_wf(value@.skip(1), self.permit_unknown_ais);
                        assert(es@ == ds_parse(value@.skip(1), self@.permit_unknown_ais).unwrap());
                        assert(elems_wf(es@));
                    }
                    if es.len() == 0 {
                        let msg = String::from_str("the data string holds no AI element");
                        proof {
                            reveal_strlit("the data string holds no AI element");
                        }
                        self.err_msg = msg.clone();
                        self.err_markup = String::new();
                        return Err(GS1EncoderError::GS1ParameterError(msg));
                    }
                    match validate_set(&es, &self.flags) {
                        Ok(()) => {
                            self.data = DataState::AiData(es);
                            self.err_msg = String::new();
                            self.err_markup = String::new();
                            Ok(())
                        },
                        Err(f) => {
                            let msg = val_fail_message(&f);
                            self.err_msg = msg.clone();
                            self.err_markup = String::new();
                            Err(GS1EncoderError::GS1ParameterError(msg))
                        },
                    }
                },
                Err(f) => {
                    let msg = parse_fail_message(&f);
                    self.err_msg = msg.clone();
                    self.err_markup = markup_of(value, f.pos, f.end);
                    Err(GS1EncoderError::GS1ParameterError(msg))
                },
            }
        } else if crate::dlparse::has_prefix(value, "https://") || crate::dlparse::has_prefix(
            value,
            "http://",
        ) {
            proof {
                reveal_strlit("https://");
                reveal_strlit("http://");
                assert(scheme_len(value@) is Some);
            }
            match dl_parse_str(value, self.permit_zero_suppressed) {
                Ok((elems, ignored)) => {
                    let es = ElementSet { elems };
                    proof {
                        crate::dlparse::lemma_dl_parse_wf(value@, self@.permit_zero_suppressed);
                        assert(es@ == dl_parse(value@, self@.permit_zero_suppressed).unwrap().0);
                        assert(elems_wf(es@));
                    }
                    if es.len() == 0 {
                        let msg = String::from_str("the Digital Link URI holds no AI element");
                        proof {
                            reveal_strlit("the Digital Link URI holds no AI element");
                        }
                        self.err_msg = msg.clone();
                        self.err_markup = String::new();
                        return Err(GS1EncoderError::GS1ParameterError(msg));
                    }
                    match validate_set(&es, &self.flags) {
                        Ok(()) => {
                            self.data = DataState::DlData {
                                uri: String::from_str(value),
                                elements: es,
                                ignored,
                            };
                            self.err_msg = String::new();
                            self.err_markup = String::new();
                            Ok(())
                        },
                        Err(f) => {
                            let msg = val_fail_message(&f);
                            self.err_msg = msg.clone();
                            self.err_markup = String::new();
                            Err(GS1EncoderError::GS1ParameterError(msg))
                        },
                    }
                },
                Err(f) => {
                    let msg = parse_fail_message(&f);
                    self.err_msg = msg.clone();
                    self.err_markup = markup_of(value, f.pos, f.end);
                    Err(GS1EncoderError::GS1ParameterError(msg))
                },
            }
        } else {
            proof {
                reveal_strlit("https://");
                reveal_strlit("http://");
                assert(scheme_len(value@) is None);
            }
            if n == 0 {
                self.data = DataState::Empty;
            } else {
                self.data = DataState::NonAi(String::from_str(value));
            }
            self.err_msg = String::new();
            self.err_markup = String::new();
            Ok(())
        }
    }

    /// The engine's data as a bracketed AI string, or `None` when the
    /// data is not AI-structured.
    pub fn get_ai_data_str(&self) -> (r: Option<String>)
        ensures
            r is Some <==> data_elements(self@.data) is Some,
            r matches Some(s) ==> s@ == ai_serialize(data_elements(self@.data).unwrap()),
    {
        match &self.data {
            DataState::AiData(es) => Some(ai_serialize_str(es)),
            DataState::DlData { elements, .. } => Some(ai_serialize_str(elements)),
            _ => None,
        }
    }

    /// Set the engine's data from a bracketed AI string; parse and
    /// validate, and commit only on success.
    #[verifier::rlimit(100)]
    pub fn set_ai_data_str(&mut self, value: &str) -> (r: Result<(), GS1EncoderError>)
        requires
            old(self).wf(),
        ensures
            r is Ok <==> set_ai_outcome(old(self)@, value@) is Some,
            r is Ok ==> final(self)@ == with_data(
                old(self)@,
                DataV::AiData(set_ai_outcome(old(self)@, value@).unwrap()),
            ),
            r is Err ==> failed_from(old(self)@, final(self)@),
            r matches Err(e) ==> e is GS1ParameterError,
            r matches Err(e) ==> final(self)@.err_msg == error_text(&e) && set_ai_diag(
                old(self)@,
                value@,
                error_text(&e),
                final(self)@.err_markup,
            ),
            final(self).wf(),
    {
        let input_len = value.unicode_len();
        proof {
            assert(input_len == value@.len());
        }
        match ai_parse_str(value, self.permit_unknown_ais, 0) {
            Ok(elems) => {
                let es = ElementSet { elems };
                proof {
                    crate::aiform::lemma_ai_parse_wf(value@, self@.permit_unknown_ais);
                    assert(es@ == ai_parse(value@, self@.permit_unknown_ais).unwrap());
                    assert(elems_wf(es@));
                }
                if es.len() == 0 {
                    let msg = String::from_str("the AI string holds no AI element");
                    proof {
                        reveal_strlit("the AI string holds no AI element");
                    }
                    self.err_msg = msg.clone();
                    self.err_markup = String::new();
                    return Err(GS1EncoderError::GS1ParameterError(msg));
                }
                match validate_set(&es, &self.flags) {
                    Ok(()) => {
                        self.data = DataState::AiData(es);
                        self.err_msg = String::new();
                        self.err_markup = String::new();
                        Ok(())
                    },
                    Err(f) => {
                        let msg = val_fail_message(&f);
                        self.err_msg = msg.clone();
                        self.err_markup = String::new();
                        Err(GS1EncoderError::GS1ParameterError(msg))
                    },
                }
            },
            Err(f) => {
                let msg = parse_fail_message(&f);
                self.err_msg = msg.clone();
                self.err_markup = markup_of(value, f.pos, f.end);
                Err(GS1EncoderError::GS1ParameterError(msg))
            },
        }
    }

    /// The scan data for the selected symbology and current data, or
    /// `None` when no symbology is selected or the symbology cannot
    /// carry the data.
    pub fn get_scan_data(&self) -> (r: Option<String>)
        requires
            self.wf(),
        ensures
            r is Some <==> scan_data_spec(self@) is Some,
            r matches Some(s) ==> s@ == scan_data_spec(self@).unwrap(),
    {
        if matches!(self.sym, Symbology::NoSymbology) {
            return None;
        }
        match &self.data {
            DataState::Empty => None,
            DataState::AiData(es) => {
                let prefix = ai_prefix_str(self.sym);
                if prefix.unicode_len() == 0 {
                    return None;
                }
                let body = ds_serialize_str(es);
                let payload = seps_to_gs(body.as_str());
                let mut out = String::from_str(prefix);
                out.append(payload.as_str());
                proof {
                    assert(out@ =~= ai_prefix(self@.sym) + ds_serialize(es@).map_values(
                        |c: char|
                            if c == '^' {
                                gs_char()
                            } else {
                                c
                            },
                    ));
                }
                Some(out)
            },
            DataState::DlData { uri, elements, .. } => {
                let dprefix = dl_prefix_str(self.sym);
                if dprefix.unicode_len() > 0 {
                    let mut out = String::from_str(dprefix);
                    out.append(uri.as_str());
                    return Some(out);
                }
                let prefix = ai_prefix_str(self.sym);
                if prefix.unicode_len() == 0 {
                    return None;
                }
                let body = ds_serialize_str(elements);
                let payload = seps_to_gs(body.as_str());
                let mut out = String::from_str(prefix);
                out.append(payload.as_str());
                proof {
                    assert(out@ =~= ai_prefix(self@.sym) + ds_serialize(elements@).map_values(
                        |c: char|
                            if c == '^' {
                                gs_char()
                            } else {
                                c
                            },
                    ));
                }
                Some(out)
            },
            DataState::NonAi(s) => {
                let prefix = plain_prefix_str(self.sym);
                if prefix.unicode_len() == 0 {
                    return None;
                }
                let mut out = String::from_str(prefix);
                out.append(s.as_str());
                let l = s.as_str().unicode_len();
                let mut digits = l >= 1;
                if self.add_check_digit && digits {
                    let mut i: usize = 0;
                    while i < l
                        invariant
                            i <= l,
                            l == s@.len(),
                            digits == (forall|j: int|
                                0 <= j < i ==> crate::chars::is_dec_digit(#[trigger] s@[j])),
                        decreases l - i,
                    {
                        if !crate::chars::char_is_digit(s.as_str().get_char(i)) {
                            digits = false;
                        }
                        proof {
                            if !digits {
                                assert(!(forall|j: int|
                                    0 <= j < i + 1 ==> crate::chars::is_dec_digit(
                                        #[trigger] s@[j],
                                    )));
                            }
                        }
                        i = i + 1;
                    }
                }
                if self.add_check_digit && digits && l >= 1 && (l as u64) <= 0xFFFF_FFFFu64 {
                    let d = crate::checkdigit::compute_check_digit(s.as_str());
                    out.append(crate::chars::hex_digit_str(d));
                    proof {
                        assert(out@ =~= plain_prefix(self@.sym) + s@ + seq![
                            crate::chars::hex_digit_char(checksum_digit(s@)),
                        ]);
                    }
                    Some(out)
                } else {
                    proof {
                        if self@.add_check_digit && 1 <= s@.len() <= 0xFFFF_FFFF && is_digits(
                            s@,
                        ) {
                            assert(digits);
                            assert(false);
                        }
                    }
                    Some(out)
                }
            },
        }
    }

    /// Set the engine's data and symbology from barcode scan data:
    /// identify the symbology from the framing prefix and parse the
    /// payload; commit only on success.
    #[verifier::rlimit(100)]
    pub fn set_scan_data(&mut self, value: &str) -> (r: Result<(), GS1EncoderError>)
        requires
            old(self).wf(),
        ensures
            r is Ok <==> set_scan_outcome(old(self)@, value@) is Some,
            r is Ok ==> final(self)@ == with_sym_data(
                old(self)@,
                set_scan_outcome(old(self)@, value@).unwrap().0,
                set_scan_outcome(old(self)@, value@).unwrap().1,
            ),
            r is Err ==> failed_from(old(self)@, final(self)@),
            r matches Err(e) ==> e is GS1ScanDataError,
            r matches Err(e) ==> final(self)@.err_msg == error_text(&e)
                && final(self)@.err_markup == Seq::<char>::empty(),
            final(self).wf(),
    {
        let pm = match_scan_prefix(value);
        let (sym, kind) = match pm {
            Some(p) => p,
            None => {
                let msg = String::from_str("scan data does not begin with a known framing prefix");
                proof {
                    reveal_strlit("scan data does not begin with a known framing prefix");
                }
                self.err_msg = msg.clone();
                self.err_markup = String::new();
                return Err(GS1EncoderError::GS1ScanDataError(msg));
            },
        };
        let n = value.unicode_len();
        let payload = value.substring_char(3, n);
        proof {
            assert(payload@ =~= value@.skip(3));
        }
        match kind {
            ScanKind::AiData => {
                let body = gs_to_seps(payload);
                proof {
                    assert(body@.len() == value@.len() - 3);
                }
                match ds_parse_str(body.as_str(), self.permit_unknown_ais, 0) {
                    Ok(elems) => {
                        let es = ElementSet { elems };
                        proof {
                            crate::dslaws::lemma_ds_parse_wf(body@, self@.permit_unknown_ais);
                            assert(elems_wf(es@));
                        }
                        if es.len() == 0 {
                            let msg = String::from_str("the scan data holds no AI element");
                            proof {
                                reveal_strlit("the scan data holds no AI element");
                            }
                            self.err_msg = msg.clone();
                            self.err_markup = String::new();
                            return Err(GS1EncoderError::GS1ScanDataError(msg));
                        }
                        match validate_set(&es, &self.flags) {
                            Ok(()) => {
                                self.sym = sym;
                                self.data = DataState::AiData(es);
                                self.err_msg = String::new();
                                self.err_markup = String::new();
                                Ok(())
                            },
                            Err(f) => {
                                let msg = val_fail_message(&f);
                                self.err_msg = msg.clone();
                                self.err_markup = String::new();
                                Err(GS1EncoderError::GS1ScanDataError(msg))
                            },
                        }
                    },
                    Err(f) => {
                        let msg = parse_fail_message(&f);
                        self.err_msg = msg.clone();
                        self.err_markup = String::new();
                        Err(GS1EncoderError::GS1ScanDataError(msg))
                    },
                }
            },
            ScanKind::DlData => {
                match dl_parse_str(payload, self.permit_zero_suppressed) {
                    Ok((elems, ignored)) => {
                        let es = ElementSet { elems };
                        proof {
                            crate::dlparse::lemma_dl_parse_wf(
                                payload@,
                                self@.permit_zero_suppressed,
                            );
                            assert(elems_wf(es@));
                        }
                        if es.len() == 0 {
                            let msg = String::from_str("the scan data holds no AI element");
                            proof {
                                reveal_strlit("the scan data holds no AI element");
                            }
                            self.err_msg = msg.clone();
                            self.err_markup = String::new();
                            return Err(GS1EncoderError::GS1ScanDataError(msg));
                        }
                        match validate_set(&es, &self.flags) {
                            Ok(()) => {
                                self.sym = sym;
                                self.data = DataState::DlData {
                                    uri: String::from_str(payload),
                                    elements: es,
                                    ignored,
                                };
                                self.err_msg = String::new();
                                self.err_markup = String::new();
                                Ok(())
                            },
                            Err(f) => {
                                let msg = val_fail_message(&f);
                                self.err_msg = msg.clone();
                                self.err_markup = String::new();
                                Err(GS1EncoderError::GS1ScanDataError(msg))
                            },
                        }
                    },
                    Err(f) => {
                        let msg = parse_fail_message(&f);
                        self.err_msg = msg.clone();
                        self.err_markup = String::new();
                        Err(GS1EncoderError::GS1ScanDataError(msg))
                    },
                }
            },
            ScanKind::PlainData => {
                let pn = payload.unicode_len();
                if pn == 0 {
                    self.data = DataState::Empty;
                } else {
                    self.data = DataState::NonAi(String::from_str(payload));
                }
                self.sym = sym;
                self.err_msg = String::new();
                self.err_markup = String::new();
                Ok(())
            },
        }
    }

    /// Build the Digital Link URI of the current element set, under the
    /// given stem or the default resolver domain.  Fails with a
    /// digital-link error when the set has no primary-key AI or an
    /// element cannot be carried.
    pub fn get_dl_uri(&self, stem: Option<&str>) -> (r: Result<String, GS1EncoderError>)
        requires
            self.wf(),
        ensures
            r is Ok <==> (data_elements(self@.data) matches Some(es) && dl_buildable(
                es,
                self@.flags.unknown_ai_not_dl_attr,
            )),
            r matches Ok(u) ==> u@ == dl_uri_spec(
                data_elements(self@.data).unwrap(),
                trim_slashes(
                    match stem {
                        Some(t) => t@,
                        None => "https://id.gs1.org"@,
                    },
                ),
            ),
            r matches Err(e) ==> e is GS1DigitalLinkError,
            r matches Err(e) ==> (match data_elements(self@.data) {
                None => error_text(&e) == dl_no_key_text(),
                Some(es) => {
                    if crate::dluri::find_key(es, 0) is None {
                        error_text(&e) == dl_no_key_text()
                    } else {
                        ||| (exists|c: Seq<char>|
                            #![trigger crate::dluri::nodl_blocker(es, c)]
                            crate::dluri::nodl_blocker(es, c) && error_text(&e)
                                == dl_not_permitted_text(c))
                        ||| (self@.flags.unknown_ai_not_dl_attr && (exists|c: Seq<char>|
                            #![trigger crate::dluri::unknown_blocker(es, c)]
                            crate::dluri::unknown_blocker(es, c) && error_text(&e)
                                == dl_unknown_attr_text(c)))
                    }
                },
            }),
    {
        let es: &ElementSet = match &self.data {
            DataState::AiData(es) => es,
            DataState::DlData { elements, .. } => elements,
            _ => {
                let msg = String::from_str(
                    "cannot create a Digital Link URI without a primary key AI",
                );
                proof {
                    reveal_strlit("cannot create a Digital Link URI without a primary key AI");
                }
                return Err(GS1EncoderError::GS1DigitalLinkError(msg));
            },
        };
        let stem_str: &str = match stem {
            Some(t) => t,
            None => "https://id.gs1.org",
        };
        match build_dl_uri(es, stem_str, self.flags.unknown_ai_not_dl_attr) {
            Ok(u) => Ok(u),
            Err(DlBuildErr::NoPrimaryKey) => {
                let msg = String::from_str(
                    "cannot create a Digital Link URI without a primary key AI",
                );
                proof {
                    reveal_strlit("cannot create a Digital Link URI without a primary key AI");
                }
                Err(GS1EncoderError::GS1DigitalLinkError(msg))
            },
            Err(DlBuildErr::NotPermitted(code)) => {
                let mut msg = String::from_str("AI (");
                msg.append(code.as_str());
                msg.append(") is not permitted in a Digital Link URI");
                proof {
                    reveal_strlit("AI (");
                    reveal_strlit(") is not permitted in a Digital Link URI");
                    assert(msg@ =~= dl_not_permitted_text(code@));
                }
                Err(GS1EncoderError::GS1DigitalLinkError(msg))
            },
            Err(DlBuildErr::UnknownAi(code)) => {
                let mut msg = String::from_str("AI (");
                msg.append(code.as_str());
                msg.append(") is unknown and may not be a Digital Link attribute");
                proof {
                    reveal_strlit("AI (");
                    reveal_strlit(") is unknown and may not be a Digital Link attribute");
                    assert(msg@ =~= dl_unknown_attr_text(code@));
                }
                Err(GS1EncoderError::GS1DigitalLinkError(msg))
            },
        }
    }

    /// The query parameters of the last parsed Digital Link URI that
    /// were not recognized as AIs, verbatim and in order; empty when
    /// the data did not come from a URI.
    pub fn get_dl_ignored_query_params(&self) -> (r: Vec<String>)
        ensures
            ({
                let ign = match self@.data {
                    DataV::DlData { ignored, .. } => ignored,
                    _ => Seq::<Seq<char>>::empty(),
                };
                r@.len() == ign.len() && (forall|i: int|
                    0 <= i < ign.len() ==> #[trigger] r@[i]@ == ign[i])
            }),
    {
        match &self.data {
            DataState::DlData { ignored, .. } => {
                let mut out: Vec<String> = Vec::new();
                let n = ignored.len();
                let mut i: usize = 0;
                while i < n
                    invariant
                        i <= n,
                        n == ignored@.len(),
                        out@.len() == i,
                        forall|j: int| 0 <= j < i ==> #[trigger] out@[j]@ == ignored@[j]@,
                    decreases n - i,
                {
                    out.push(ignored[i].clone());
                    i = i + 1;
                }
                out
            },
            _ => Vec::new(),
        }
    }

    /// The HRI lines of the current element set, one per element, in
    /// order; an absent element set yields an empty listing.
    pub fn get_hri(&self) -> (r: Vec<String>)
        ensures
            ({
                let es = match data_elements(self@.data) {
                    Some(es) => es,
                    None => Seq::<ElemV>::empty(),
                };
                r@.len() == es.len() && (forall|i: int|
                    0 <= i < es.len() ==> #[trigger] r@[i]@ == hri_line(
                        es[i],
                        self@.include_data_titles,
                    ))
            }),
    {
        match &self.data {
            DataState::AiData(es) => hri_lines_str(es, self.include_data_titles),
            DataState::DlData { elements, .. } => hri_lines_str(
                elements,
                self.include_data_titles,
            ),
            _ => Vec::new(),
        }
    }
}

} // verus!

