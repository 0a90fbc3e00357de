//! What a golden case states, as data.

use vstd::prelude::*;

verus! {

/// How the writer encodes every string it emits, and what the file declares
/// in `$DWGCODEPAGE`. An R2000 DXF stores text as 8-bit bytes in the
/// drawing's codepage, not as UTF-8, so a case with non-ASCII text has to
/// say which codepage that is.
#[derive(Debug, Clone, Copy, PartialEq, Eq, Structural)]
pub enum Codepage {
    /// No `$DWGCODEPAGE` is written and every string must be 7-bit ASCII;
    /// a string that is not cannot be written, so a case cannot silently
    /// depend on a reader's default codepage.
    Ascii,
    /// `$DWGCODEPAGE = ANSI_949`: Korean (Unified Hangul Code, the CP949
    /// superset of EUC-KR). Strings are encoded as CP949 bytes.
    Ansi949,
}

impl Default for Codepage {
    /// A case is ASCII unless it says otherwise.
    fn default() -> (c: Self)
        ensures
            c == Codepage::Ascii,
    {
        Codepage::Ascii
    }
}

impl Codepage {
    /// The `$DWGCODEPAGE` value, or `None` when the header variable is not
    /// written.
    pub fn dxf_name(self) -> (name: Option<&'static str>)
        ensures
            self == Codepage::Ascii ==> name is None,
            self == Codepage::Ansi949 ==> (name matches Some(n) && n@ == "ANSI_949"@),
    {
        match self {
            Codepage::Ascii => None,
            Codepage::Ansi949 => Some("ANSI_949"),
        }
    }
}

/// A layer a golden case declares, besides `0`, which always exists.
#[derive(Debug, Clone, PartialEq)]
pub struct LayerSpec {
    pub name: String,
    /// AutoCAD Color Index, 1..=255. A layer that is off is written with
    /// this negated -- how a DXF says "off".
    pub color_index: i16,
    /// Everything else the file says about the layer.
    pub state: LayerState,
}

/// A layer's state beyond its name and colour. The default is the state
/// the writer has always written: on, thawed, unlocked, and neither a plot
/// flag (DXF 290) nor a lineweight (370) stated.
#[derive(Debug, Clone, Copy, PartialEq, Eq, Structural)]
pub struct LayerState {
    /// Written as a negative colour (DXF 62).
    pub off: bool,
    /// DXF 70, bit 1.
    pub frozen: bool,
    /// DXF 70, bit 4.
    pub locked: bool,
    /// DXF 290 when set.
    pub plot: Option<bool>,
    /// DXF 370 when set: hundredths of a millimetre, or -3 for the default.
    pub lineweight: Option<i16>,
}

impl Default for LayerState {
    /// On, thawed, unlocked, and nothing more stated.
    fn default() -> (s: Self)
        ensures
            !s.off && !s.frozen && !s.locked && s.plot is None && s.lineweight is None,
    {
        LayerState { off: false, frozen: false, locked: false, plot: None, lineweight: None }
    }
}

} // verus!
