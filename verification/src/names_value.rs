//! What the names of bands, band modes and tolerance rules are read as.

use vstd::prelude::*;

use crate::flux;
use crate::flux::EclipseAcc;
use crate::lightcurve;
use crate::lsst_tables;
use crate::passband;
use crate::passband::{BandMode, Passband};

verus! {

/// Each passband is called by its own names and by no other.
pub proof fn every_passband_has_its_own_names(name: Seq<char>)
    ensures
        Passband::named(name) == Some(Passband::Bolometric) <==> {
            ||| name == "bolometric"@
            ||| name == "bol"@
        },
        Passband::named(name) == Some(Passband::ZtfG) <==> {
            ||| name == "ztf_g"@
            ||| name == "ztf-g"@
            ||| name == "g"@
        },
        Passband::named(name) == Some(Passband::ZtfR) <==> {
            ||| name == "ztf_r"@
            ||| name == "ztf-r"@
            ||| name == "r"@
        },
        Passband::named(name) == Some(Passband::JohnsonV) <==> {
            ||| name == "johnson_v"@
            ||| name == "johnson-v"@
        },
        Passband::named(name) == Some(Passband::LsstU) <==> {
            ||| name == "lsst_u"@
            ||| name == "lsst-u"@
            ||| name == "u"@
        },
        Passband::named(name) == Some(Passband::LsstG) <==> {
            ||| name == "lsst_g"@
            ||| name == "lsst-g"@
        },
        Passband::named(name) == Some(Passband::LsstR) <==> {
            ||| name == "lsst_r"@
            ||| name == "lsst-r"@
        },
        Passband::named(name) == Some(Passband::LsstI) <==> {
            ||| name == "lsst_i"@
            ||| name == "lsst-i"@
            ||| name == "i"@
        },
        Passband::named(name) == Some(Passband::LsstZ) <==> {
            ||| name == "lsst_z"@
            ||| name == "lsst-z"@
            ||| name == "z"@
        },
        Passband::named(name) == Some(Passband::LsstY) <==> {
            ||| name == "lsst_y"@
            ||| name == "lsst-y"@
            ||| name == "y"@
        },
{
    reveal_strlit("bolometric");
    reveal_strlit("bol");
    reveal_strlit("ztf_g");
    reveal_strlit("ztf-g");
    reveal_strlit("g");
    reveal_strlit("ztf_r");
    reveal_strlit("ztf-r");
    reveal_strlit("r");
    reveal_strlit("johnson_v");
    reveal_strlit("johnson-v");
    reveal_strlit("lsst_u");
    reveal_strlit("lsst-u");
    reveal_strlit("u");
    reveal_strlit("lsst_g");
    reveal_strlit("lsst-g");
    reveal_strlit("lsst_r");
    reveal_strlit("lsst-r");
    reveal_strlit("lsst_i");
    reveal_strlit("lsst-i");
    reveal_strlit("i");
    reveal_strlit("lsst_z");
    reveal_strlit("lsst-z");
    reveal_strlit("z");
    reveal_strlit("lsst_y");
    reveal_strlit("lsst-y");
    reveal_strlit("y");
    assert("bolometric"@.len() == 10 && "bolometric"@[0] == 'b' && "bolometric"@[9] == 'c');
    assert("bol"@.len() == 3 && "bol"@[0] == 'b' && "bol"@[2] == 'l');
    assert("ztf_g"@.len() == 5 && "ztf_g"@[0] == 'z' && "ztf_g"@[4] == 'g');
    assert("ztf-g"@.len() == 5 && "ztf-g"@[0] == 'z' && "ztf-g"@[4] == 'g');
    assert("g"@.len() == 1 && "g"@[0] == 'g' && "g"@[0] == 'g');
    assert("ztf_r"@.len() == 5 && "ztf_r"@[0] == 'z' && "ztf_r"@[4] == 'r');
    assert("ztf-r"@.len() == 5 && "ztf-r"@[0] == 'z' && "ztf-r"@[4] == 'r');
    assert("r"@.len() == 1 && "r"@[0] == 'r' && "r"@[0] == 'r');
    assert("johnson_v"@.len() == 9 && "johnson_v"@[0] == 'j' && "johnson_v"@[8] == 'v');
    assert("johnson-v"@.len() == 9 && "johnson-v"@[0] == 'j' && "johnson-v"@[8] == 'v');
    assert("lsst_u"@.len() == 6 && "lsst_u"@[0] == 'l' && "lsst_u"@[5] == 'u');
    assert("lsst-u"@.len() == 6 && "lsst-u"@[0] == 'l' && "lsst-u"@[5] == 'u');
    assert("u"@.len() == 1 && "u"@[0] == 'u' && "u"@[0] == 'u');
    assert("lsst_g"@.len() == 6 && "lsst_g"@[0] == 'l' && "lsst_g"@[5] == 'g');
    assert("lsst-g"@.len() == 6 && "lsst-g"@[0] == 'l' && "lsst-g"@[5] == 'g');
    assert("lsst_r"@.len() == 6 && "lsst_r"@[0] == 'l' && "lsst_r"@[5] == 'r');
    assert("lsst-r"@.len() == 6 && "lsst-r"@[0] == 'l' && "lsst-r"@[5] == 'r');
    assert("lsst_i"@.len() == 6 && "lsst_i"@[0] == 'l' && "lsst_i"@[5] == 'i');
    assert("lsst-i"@.len() == 6 && "lsst-i"@[0] == 'l' && "lsst-i"@[5] == 'i');
    assert("i"@.len() == 1 && "i"@[0] == 'i' && "i"@[0] == 'i');
    assert("lsst_z"@.len() == 6 && "lsst_z"@[0] == 'l' && "lsst_z"@[5] == 'z');
    assert("lsst-z"@.len() == 6 && "lsst-z"@[0] == 'l' && "lsst-z"@[5] == 'z');
    assert("z"@.len() == 1 && "z"@[0] == 'z' && "z"@[0] == 'z');
    assert("lsst_y"@.len() == 6 && "lsst_y"@[0] == 'l' && "lsst_y"@[5] == 'y');
    assert("lsst-y"@.len() == 6 && "lsst-y"@[0] == 'l' && "lsst-y"@[5] == 'y');
    assert("y"@.len() == 1 && "y"@[0] == 'y' && "y"@[0] == 'y');
}

/// Each band mode is called by its own names and by no other, and the effective
/// mode is taken where there is no setting or one that names none.
pub proof fn every_band_mode_has_its_own_names(name: Seq<char>)
    ensures
        BandMode::named(name) == Some(BandMode::Integrated) <==> {
            ||| name == "integrated"@
            ||| name == "integrate"@
            ||| name == "full"@
            ||| name == "table"@
        },
        BandMode::named(name) == Some(BandMode::Effective) <==> {
            ||| name == "effective"@
            ||| name == "eff"@
            ||| name == "pivot"@
            ||| name == "mono"@
        },
        lightcurve::mode_for(None) == BandMode::Effective,
        lightcurve::mode_for(Some(name)) == BandMode::Integrated <==> BandMode::named(name) == Some(
            BandMode::Integrated,
        ),
{
    reveal_strlit("integrated");
    reveal_strlit("integrate");
    reveal_strlit("full");
    reveal_strlit("table");
    reveal_strlit("effective");
    reveal_strlit("eff");
    reveal_strlit("pivot");
    reveal_strlit("mono");
    assert("integrated"@.len() == 10 && "integrated"@[0] == 'i' && "integrated"@[9] == 'd');
    assert("integrate"@.len() == 9 && "integrate"@[0] == 'i' && "integrate"@[8] == 'e');
    assert("full"@.len() == 4 && "full"@[0] == 'f' && "full"@[3] == 'l');
    assert("table"@.len() == 5 && "table"@[0] == 't' && "table"@[4] == 'e');
    assert("effective"@.len() == 9 && "effective"@[0] == 'e' && "effective"@[8] == 'e');
    assert("eff"@.len() == 3 && "eff"@[0] == 'e' && "eff"@[2] == 'f');
    assert("pivot"@.len() == 5 && "pivot"@[0] == 'p' && "pivot"@[4] == 't');
    assert("mono"@.len() == 4 && "mono"@[0] == 'm' && "mono"@[3] == 'o');
}

/// Each tolerance rule is called by its own names and by no other, and the fixed
/// tolerance is taken where there is no setting or one that names none. A rule
/// that is settled stays.
pub proof fn every_tolerance_rule_has_its_own_names(
    name: Seq<char>,
    held: Option<EclipseAcc>,
    lowered: Option<Seq<char>>,
)
    ensures
        EclipseAcc::named(name) == Some(EclipseAcc::Fixed) <==> {
            ||| name == "fixed"@
            ||| name == "legacy"@
            ||| name == "0.05"@
        },
        EclipseAcc::named(name) == Some(EclipseAcc::Scaled) <==> {
            ||| name == "scaled"@
            ||| name == "adaptive"@
            ||| name == "radius"@
        },
        flux::acc_for(None) == EclipseAcc::Fixed,
        flux::acc_for(Some(name)) == EclipseAcc::Scaled <==> EclipseAcc::named(name) == Some(
            EclipseAcc::Scaled,
        ),
        held matches Some(acc) ==> flux::settled(held, lowered) == acc,
        held is None ==> flux::settled(held, lowered) == flux::acc_for(lowered),
{
    reveal_strlit("fixed");
    reveal_strlit("legacy");
    reveal_strlit("0.05");
    reveal_strlit("scaled");
    reveal_strlit("adaptive");
    reveal_strlit("radius");
    assert("fixed"@.len() == 5 && "fixed"@[0] == 'f' && "fixed"@[4] == 'd');
    assert("legacy"@.len() == 6 && "legacy"@[0] == 'l' && "legacy"@[5] == 'y');
    assert("0.05"@.len() == 4 && "0.05"@[0] == '0' && "0.05"@[3] == '5');
    assert("scaled"@.len() == 6 && "scaled"@[0] == 's' && "scaled"@[5] == 'd');
    assert("adaptive"@.len() == 8 && "adaptive"@[0] == 'a' && "adaptive"@[7] == 'e');
    assert("radius"@.len() == 6 && "radius"@[0] == 'r' && "radius"@[5] == 's');
}

/// The LSST bands are called by the letters u, g, r, i, z and y, blue to red: the
/// letter of a table is what the name of its band ends in.
pub proof fn tables_are_called_after_their_bands(i: int)
    requires
        0 <= i < 6,
    ensures
        Passband::named("lsst_"@ + lsst_tables::name_of(i)) == Some(passband::ugrizy_bands()[i]),
        lsst_tables::name_of(i).len() == 1,
{
    every_passband_has_its_own_names("lsst_"@ + lsst_tables::name_of(i));
    reveal_strlit("lsst_");
    reveal_strlit("u");
    reveal_strlit("lsst_u");
    assert("lsst_"@ + "u"@ =~= "lsst_u"@);
    reveal_strlit("g");
    reveal_strlit("lsst_g");
    assert("lsst_"@ + "g"@ =~= "lsst_g"@);
    reveal_strlit("r");
    reveal_strlit("lsst_r");
    assert("lsst_"@ + "r"@ =~= "lsst_r"@);
    reveal_strlit("i");
    reveal_strlit("lsst_i");
    assert("lsst_"@ + "i"@ =~= "lsst_i"@);
    reveal_strlit("z");
    reveal_strlit("lsst_z");
    assert("lsst_"@ + "z"@ =~= "lsst_z"@);
    reveal_strlit("y");
    reveal_strlit("lsst_y");
    assert("lsst_"@ + "y"@ =~= "lsst_y"@);
}

} // verus!
