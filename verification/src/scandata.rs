//! The symbology registry: a closed set of barcode symbologies, each
//! with the framing prefixes used in scan data, and the translation
//! between the data string's separator and the scan-data field
//! separator byte.

use vstd::prelude::*;

verus! {

/// The barcode symbologies the engine knows.  `NoSymbology` means none
/// has been selected, and scan-data operations are unavailable.
#[derive(Clone, Copy, PartialEq, Eq, Structural, Debug)]
pub enum Symbology {
    NoSymbology,
    DataBarOmni,
    DataBarTruncated,
    DataBarStacked,
    DataBarStackedOmni,
    DataBarLimited,
    DataBarExpanded,
    UpcA,
    UpcE,
    Ean13,
    Ean8,
    Gs1128Cca,
    Gs1128Ccc,
    Qr,
    Dm,
    DotCode,
}

/// What a scan-data payload carries.
#[derive(Clone, Copy, PartialEq, Eq, Structural, Debug)]
pub enum ScanKind {
    /// AI element data with the non-printable field separator.
    AiData,
    /// A Digital Link URI carried verbatim.
    DlData,
    /// Plain (non-AI) primary data.
    PlainData,
}

/// Framing prefix for AI element data; empty when the symbology cannot
/// carry AI element data.
pub open spec fn ai_prefix(sym: Symbology) -> Seq<char> {
    match sym {
        Symbology::DataBarOmni => "]e0"@,
        Symbology::DataBarTruncated => "]e0"@,
        Symbology::DataBarStacked => "]e0"@,
        Symbology::DataBarStackedOmni => "]e0"@,
        Symbology::DataBarLimited => "]e0"@,
        Symbology::DataBarExpanded => "]e0"@,
        Symbology::Gs1128Cca => "]C1"@,
        Symbology::Gs1128Ccc => "]C1"@,
        Symbology::Qr => "]Q3"@,
        Symbology::Dm => "]d2"@,
        Symbology::DotCode => "]J1"@,
        _ => ""@,
    }
}

/// Framing prefix for a Digital Link URI payload; empty when the
/// symbology cannot carry one.
pub open spec fn dl_prefix(sym: Symbology) -> Seq<char> {
    match sym {
        Symbology::Qr => "]Q1"@,
        Symbology::Dm => "]d1"@,
        Symbology::DotCode => "]J0"@,
        _ => ""@,
    }
}

/// Framing prefix for plain primary data; empty when the symbology
/// cannot carry it.
pub open spec fn plain_prefix(sym: Symbology) -> Seq<char> {
    match sym {
        Symbology::UpcA => "]E0"@,
        Symbology::UpcE => "]E0"@,
        Symbology::Ean13 => "]E0"@,
        Symbology::Ean8 => "]E4"@,
        _ => ""@,
    }
}

pub fn ai_prefix_str(sym: Symbology) -> (r: &'static str)
    ensures
        r@ == ai_prefix(sym),
{
    match sym {
        Symbology::DataBarOmni => "]e0",
        Symbology::DataBarTruncated => "]e0",
        Symbology::DataBarStacked => "]e0",
        Symbology::DataBarStackedOmni => "]e0",
        Symbology::DataBarLimited => "]e0",
        Symbology::DataBarExpanded => "]e0",
        Symbology::Gs1128Cca => "]C1",
        Symbology::Gs1128Ccc => "]C1",
        Symbology::Qr => "]Q3",
        Symbology::Dm => "]d2",
        Symbology::DotCode => "]J1",
        _ => "",
    }
}

pub fn dl_prefix_str(sym: Symbology) -> (r: &'static str)
    ensures
        r@ == dl_prefix(sym),
{
    match sym {
        Symbology::Qr => "]Q1",
        Symbology::Dm => "]d1",
        Symbology::DotCode => "]J0",
        _ => "",
    }
}

pub fn plain_prefix_str(sym: Symbology) -> (r: &'static str)
    ensures
        r@ == plain_prefix(sym),
{
    match sym {
        Symbology::UpcA => "]E0",
        Symbology::UpcE => "]E0",
        Symbology::Ean13 => "]E0",
        Symbology::Ean8 => "]E4",
        _ => "",
    }
}

/// The symbology and payload kind that a scan-data framing prefix
/// denotes.  Prefixes shared by a symbology family map to one
/// representative member.
pub open spec fn scan_prefix_spec(s: Seq<char>) -> Option<(Symbology, ScanKind)> {
    if s.len() < 3 {
        None
    } else {
        let p = s.take(3);
        if p == "]e0"@ {
            Some((Symbology::DataBarExpanded, ScanKind::AiData))
        } else if p == "]C1"@ {
            Some((Symbology::Gs1128Cca, ScanKind::AiData))
        } else if p == "]Q3"@ {
            Some((Symbology::Qr, ScanKind::AiData))
        } else if p == "]d2"@ {
            Some((Symbology::Dm, ScanKind::AiData))
        } else if p == "]J1"@ {
            Some((Symbology::DotCode, ScanKind::AiData))
        } else if p == "]Q1"@ {
            Some((Symbology::Qr, ScanKind::DlData))
        } else if p == "]d1"@ {
            Some((Symbology::Dm, ScanKind::DlData))
        } else if p == "]J0"@ {
            Some((Symbology::DotCode, ScanKind::DlData))
        } else if p == "]E0"@ {
            Some((Symbology::Ean13, ScanKind::PlainData))
        } else if p == "]E4"@ {
            Some((Symbology::Ean8, ScanKind::PlainData))
        } else {
            None
        }
    }
}

/// Identify the symbology from a scan-data framing prefix.
pub fn match_scan_prefix(s: &str) -> (r: Option<(Symbology, ScanKind)>)
    ensures
        r == scan_prefix_spec(s@),
{
    proof {
        lemma_scan_prefixes();
    }
    let n = s.unicode_len();
    if n < 3 {
        return None;
    }
    if crate::dlparse::has_prefix(s, "]e0") {
        Some((Symbology::DataBarExpanded, ScanKind::AiData))
    } else if crate::dlparse::has_prefix(s, "]C1") {
        Some((Symbology::Gs1128Cca, ScanKind::AiData))
    } else if crate::dlparse::has_prefix(s, "]Q3") {
        Some((Symbology::Qr, ScanKind::AiData))
    } else if crate::dlparse::has_prefix(s, "]d2") {
        Some((Symbology::Dm, ScanKind::AiData))
    } else if crate::dlparse::has_prefix(s, "]J1") {
        Some((Symbology::DotCode, ScanKind::AiData))
    } else if crate::dlparse::has_prefix(s, "]Q1") {
        Some((Symbology::Qr, ScanKind::DlData))
    } else if crate::dlparse::has_prefix(s, "]d1") {
        Some((Symbology::Dm, ScanKind::DlData))
    } else if crate::dlparse::has_prefix(s, "]J0") {
        Some((Symbology::DotCode, ScanKind::DlData))
    } else if crate::dlparse::has_prefix(s, "]E0") {
        Some((Symbology::Ean13, ScanKind::PlainData))
    } else if crate::dlparse::has_prefix(s, "]E4") {
        Some((Symbology::Ean8, ScanKind::PlainData))
    } else {
        None
    }
}

/// Each prefix literal has exactly three characters, so a prefix test
/// over `take(3)` and a whole-literal prefix test agree.
proof fn lemma_scan_prefixes()
    ensures
        "]e0"@.len() == 3,
        "]C1"@.len() == 3,
        "]Q3"@.len() == 3,
        "]d2"@.len() == 3,
        "]J1"@.len() == 3,
        "]Q1"@.len() == 3,
        "]d1"@.len() == 3,
        "]J0"@.len() == 3,
        "]E0"@.len() == 3,
        "]E4"@.len() == 3,
{
    reveal_strlit("]e0");
    reveal_strlit("]C1");
    reveal_strlit("]Q3");
    reveal_strlit("]d2");
    reveal_strlit("]J1");
    reveal_strlit("]Q1");
    reveal_strlit("]d1");
    reveal_strlit("]J0");
    reveal_strlit("]E0");
    reveal_strlit("]E4");
}

/// The scan-data field separator, as used in place of the data string's
/// `'^'` separator.
pub open spec fn gs_char() -> char {
    '\u{1d}'
}

/// Translate a data-string body to a scan-data payload: the separator
/// becomes the non-printable field separator byte.
pub fn seps_to_gs(s: &str) -> (r: String)
    ensures
        r@ == s@.map_values(|c: char| if c == '^' {
            gs_char()
        } else {
            c
        }),
{
    proof {
        reveal_strlit("\u{1d}");
        assert("\u{1d}"@ =~= seq![gs_char()]);
    }
    crate::chars::replace_char(s, '^', '\u{1d}', "\u{1d}")
}

/// Translate a scan-data payload to a data-string body: the field
/// separator byte becomes the `'^'` separator.
pub fn gs_to_seps(s: &str) -> (r: String)
    ensures
        r@ == s@.map_values(|c: char| if c == gs_char() {
            '^'
        } else {
            c
        }),
{
    proof {
        reveal_strlit("^");
        assert("^"@ =~= seq!['^']);
    }
    crate::chars::replace_char(s, '\u{1d}', '^', "^")
}

} // verus!
