//! The drawing unit a `$INSUNITS` code names.
//!
//! The DXF reference defines the codes and what each one measures; a
//! drawing's header states the code. The table lives here once so that every
//! consumer giving a drawing's numbers a unit reads the same one.

use vstd::prelude::*;

verus! {

/// The short name of the unit a `$INSUNITS` code names, from the DXF
/// reference's table (codes 1 to 24), and `"du"` ("drawing units") for code
/// 0 (unitless) and for a code the reference does not define.
pub open spec fn unit_name_of(code: u16) -> Seq<char> {
    if code == 0 {
        "du"@
    } else if code == 1 {
        "in"@
    } else if code == 2 {
        "ft"@
    } else if code == 3 {
        "mi"@
    } else if code == 4 {
        "mm"@
    } else if code == 5 {
        "cm"@
    } else if code == 6 {
        "m"@
    } else if code == 7 {
        "km"@
    } else if code == 8 {
        "uin"@
    } else if code == 9 {
        "mil"@
    } else if code == 10 {
        "yd"@
    } else if code == 11 {
        "angstrom"@
    } else if code == 12 {
        "nm"@
    } else if code == 13 {
        "um"@
    } else if code == 14 {
        "dm"@
    } else if code == 15 {
        "dam"@
    } else if code == 16 {
        "hm"@
    } else if code == 17 {
        "Gm"@
    } else if code == 18 {
        "au"@
    } else if code == 19 {
        "ly"@
    } else if code == 20 {
        "pc"@
    } else if code == 21 {
        "us-ft"@
    } else if code == 22 {
        "us-in"@
    } else if code == 23 {
        "us-yd"@
    } else if code == 24 {
        "us-mi"@
    } else {
        "du"@
    }
}

/// The short name of the unit a `$INSUNITS` code names: `"mm"`, `"in"`,
/// `"ft"`, `"m"`, ... -- or `"du"` ("drawing units") for code 0 (unitless)
/// and for a code the DXF reference does not define.
pub fn unit_name(code: u16) -> (name: &'static str)
    ensures
        name@ == unit_name_of(code),
{
    match code {
        1 => "in",
        2 => "ft",
        3 => "mi",
        4 => "mm",
        5 => "cm",
        6 => "m",
        7 => "km",
        8 => "uin",
        9 => "mil",
        10 => "yd",
        11 => "angstrom",
        12 => "nm",
        13 => "um",
        14 => "dm",
        15 => "dam",
        16 => "hm",
        17 => "Gm",
        18 => "au",
        19 => "ly",
        20 => "pc",
        21 => "us-ft",
        22 => "us-in",
        23 => "us-yd",
        24 => "us-mi",
        _ => "du",
    }
}

/// The name of a unit, told apart from every other by its length, its
/// first character and its last.
spec fn name_fingerprint(s: Seq<char>) -> (int, char, char) {
    (s.len() as int, s[0], s[s.len() - 1])
}

/// Each `$INSUNITS` code the DXF reference defines names its unit as the
/// reference does -- 1 inches, 2 feet, 3 miles, 4 millimetres, 5
/// centimetres, 6 metres, 7 kilometres, 8 microinches, 9 mils, 10 yards, 11
/// angstroms, 12 nanometres, 13 microns, 14 decimetres, 15 decametres, 16
/// hectometres, 17 gigametres, 18 astronomical units, 19 light years, 20
/// parsecs, and 21 to 24 the US survey foot, inch, yard and mile -- and
/// every other code, 0 (unitless) included, is drawing units.
pub proof fn insunits_codes_name_the_references_units(code: u16)
    ensures
        code == 1 ==> unit_name_of(code) == seq!['i', 'n'],
        code == 2 ==> unit_name_of(code) == seq!['f', 't'],
        code == 3 ==> unit_name_of(code) == seq!['m', 'i'],
        code == 4 ==> unit_name_of(code) == seq!['m', 'm'],
        code == 5 ==> unit_name_of(code) == seq!['c', 'm'],
        code == 6 ==> unit_name_of(code) == seq!['m'],
        code == 7 ==> unit_name_of(code) == seq!['k', 'm'],
        code == 8 ==> unit_name_of(code) == seq!['u', 'i', 'n'],
        code == 9 ==> unit_name_of(code) == seq!['m', 'i', 'l'],
        code == 10 ==> unit_name_of(code) == seq!['y', 'd'],
        code == 11 ==> unit_name_of(code) == seq!['a', 'n', 'g', 's', 't', 'r', 'o', 'm'],
        code == 12 ==> unit_name_of(code) == seq!['n', 'm'],
        code == 13 ==> unit_name_of(code) == seq!['u', 'm'],
        code == 14 ==> unit_name_of(code) == seq!['d', 'm'],
        code == 15 ==> unit_name_of(code) == seq!['d', 'a', 'm'],
        code == 16 ==> unit_name_of(code) == seq!['h', 'm'],
        code == 17 ==> unit_name_of(code) == seq!['G', 'm'],
        code == 18 ==> unit_name_of(code) == seq!['a', 'u'],
        code == 19 ==> unit_name_of(code) == seq!['l', 'y'],
        code == 20 ==> unit_name_of(code) == seq!['p', 'c'],
        code == 21 ==> unit_name_of(code) == seq!['u', 's', '-', 'f', 't'],
        code == 22 ==> unit_name_of(code) == seq!['u', 's', '-', 'i', 'n'],
        code == 23 ==> unit_name_of(code) == seq!['u', 's', '-', 'y', 'd'],
        code == 24 ==> unit_name_of(code) == seq!['u', 's', '-', 'm', 'i'],
        (code == 0 || code > 24) ==> unit_name_of(code) == seq!['d', 'u'],
{
    reveal_strlit("in");
    reveal_strlit("ft");
    reveal_strlit("mi");
    reveal_strlit("mm");
    reveal_strlit("cm");
    reveal_strlit("m");
    reveal_strlit("km");
    reveal_strlit("uin");
    reveal_strlit("mil");
    reveal_strlit("yd");
    reveal_strlit("angstrom");
    reveal_strlit("nm");
    reveal_strlit("um");
    reveal_strlit("dm");
    reveal_strlit("dam");
    reveal_strlit("hm");
    reveal_strlit("Gm");
    reveal_strlit("au");
    reveal_strlit("ly");
    reveal_strlit("pc");
    reveal_strlit("us-ft");
    reveal_strlit("us-in");
    reveal_strlit("us-yd");
    reveal_strlit("us-mi");
    reveal_strlit("du");
}

/// No two codes the reference defines share a name, and none of them is
/// drawing units: a unit's name tells which code it came from.
pub proof fn defined_codes_have_distinct_names(a: u16, b: u16)
    requires
        1 <= a <= 24,
        1 <= b <= 24,
        a != b,
    ensures
        unit_name_of(a) != unit_name_of(b),
        unit_name_of(a) != seq!['d', 'u'],
{
    insunits_codes_name_the_references_units(a);
    insunits_codes_name_the_references_units(b);
    insunits_codes_name_the_references_units(0);
    assert(name_fingerprint(unit_name_of(a)) != name_fingerprint(unit_name_of(b)));
    assert(name_fingerprint(unit_name_of(a)) != name_fingerprint(seq!['d', 'u']));
}

} // verus!
