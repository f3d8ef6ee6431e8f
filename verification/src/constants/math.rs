//! Names of the built-in mathematical constants and the integer-valued ones.
//!
//! The real-valued constants themselves are binary64 values; only their
//! names live here.

use vstd::prelude::*;
use crate::text::str_eq;

verus! {

/// Whether a name denotes one of the real-valued built-in constants.
pub open spec fn is_real_constant_name(s: Seq<char>) -> bool {
    s == "ПИ"@
    || s == "пи"@
    || s == "pi"@
    || s == "PI"@
    || s == "π"@
    || s == "ТАУ"@
    || s == "тау"@
    || s == "tau"@
    || s == "TAU"@
    || s == "τ"@
    || s == "Е"@
    || s == "е"@
    || s == "e"@
    || s == "E"@
    || s == "ЭЙЛЕР"@
    || s == "ФИ"@
    || s == "фи"@
    || s == "phi"@
    || s == "PHI"@
    || s == "φ"@
    || s == "ЗОЛОТОЕ"@
    || s == "золотое_сечение"@
    || s == "КОРЕНЬ2"@
    || s == "корень2"@
    || s == "sqrt2"@
    || s == "SQRT2"@
    || s == "√2"@
    || s == "КОРЕНЬ3"@
    || s == "корень3"@
    || s == "sqrt3"@
    || s == "SQRT3"@
    || s == "√3"@
    || s == "КОРЕНЬ5"@
    || s == "корень5"@
    || s == "sqrt5"@
    || s == "SQRT5"@
    || s == "√5"@
    || s == "LN2"@
    || s == "ln2"@
    || s == "ЛН2"@
    || s == "LN10"@
    || s == "ln10"@
    || s == "ЛН10"@
    || s == "ПИ_2"@
    || s == "пи_2"@
    || s == "PI_2"@
    || s == "ПОЛПИ"@
    || s == "ПИ_4"@
    || s == "пи_4"@
    || s == "PI_4"@
    || s == "ГРАД_РАД"@
    || s == "град_рад"@
    || s == "DEG_RAD"@
    || s == "РАД_ГРАД"@
    || s == "рад_град"@
    || s == "RAD_DEG"@
    || s == "ГАММА"@
    || s == "гамма"@
    || s == "gamma"@
    || s == "ЭЙЛЕР_МАСКЕРОНИ"@
    || s == "γ"@
    || s == "АПЕРИ"@
    || s == "апери"@
    || s == "apery"@
    || s == "ДЗЕТА3"@
    || s == "ζ3"@
    || s == "КАТАЛАН"@
    || s == "каталан"@
    || s == "catalan"@
    || s == "ОМЕГА"@
    || s == "омега"@
    || s == "omega"@
    || s == "Ω"@
    || s == "ФЕЙГЕНБАУМ"@
    || s == "фейгенбаум"@
    || s == "feigenbaum"@
    || s == "БЕСК"@
    || s == "беск"@
    || s == "inf"@
    || s == "INF"@
    || s == "БЕСКОНЕЧНОСТЬ"@
    || s == "∞"@
    || s == "ЭПСИЛОН"@
    || s == "эпсилон"@
    || s == "epsilon"@
    || s == "EPSILON"@
    || s == "ε"@
    || s == "ЕПС"@
    || s == "НЕЧ"@
    || s == "неч"@
    || s == "nan"@
    || s == "NAN"@
    || s == "НЕ_ЧИСЛО"@
}

/// The value of an integer-valued built-in constant, by name.
pub open spec fn int_constant_of(s: Seq<char>) -> Option<i64> {
    if s == "МАКС_ЦЕЛ"@ {
        Some(i64::MAX)
    } else if s == "макс_цел"@ {
        Some(i64::MAX)
    } else if s == "MAX_INT"@ {
        Some(i64::MAX)
    } else if s == "INT_MAX"@ {
        Some(i64::MAX)
    } else if s == "МИН_ЦЕЛ"@ {
        Some(i64::MIN)
    } else if s == "мин_цел"@ {
        Some(i64::MIN)
    } else if s == "MIN_INT"@ {
        Some(i64::MIN)
    } else if s == "INT_MIN"@ {
        Some(i64::MIN)
    } else {
        None
    }
}

/// Whether a name denotes one of the real-valued built-in constants.
pub fn is_real_constant(s: &str) -> (r: bool)
    ensures
        r == is_real_constant_name(s@),
{
    if str_eq(s, "ПИ") {
        return true;
    }
    if str_eq(s, "пи") {
        return true;
    }
    if str_eq(s, "pi") {
        return true;
    }
    if str_eq(s, "PI") {
        return true;
    }
    if str_eq(s, "π") {
        return true;
    }
    if str_eq(s, "ТАУ") {
        return true;
    }
    if str_eq(s, "тау") {
        return true;
    }
    if str_eq(s, "tau") {
        return true;
    }
    if str_eq(s, "TAU") {
        return true;
    }
    if str_eq(s, "τ") {
        return true;
    }
    if str_eq(s, "Е") {
        return true;
    }
    if str_eq(s, "е") {
        return true;
    }
    if str_eq(s, "e") {
        return true;
    }
    if str_eq(s, "E") {
        return true;
    }
    if str_eq(s, "ЭЙЛЕР") {
        return true;
    }
    if str_eq(s, "ФИ") {
        return true;
    }
    if str_eq(s, "фи") {
        return true;
    }
    if str_eq(s, "phi") {
        return true;
    }
    if str_eq(s, "PHI") {
        return true;
    }
    if str_eq(s, "φ") {
        return true;
    }
    if str_eq(s, "ЗОЛОТОЕ") {
        return true;
    }
    if str_eq(s, "золотое_сечение") {
        return true;
    }
    if str_eq(s, "КОРЕНЬ2") {
        return true;
    }
    if str_eq(s, "корень2") {
        return true;
    }
    if str_eq(s, "sqrt2") {
        return true;
    }
    if str_eq(s, "SQRT2") {
        return true;
    }
    if str_eq(s, "√2") {
        return true;
    }
    if str_eq(s, "КОРЕНЬ3") {
        return true;
    }
    if str_eq(s, "корень3") {
        return true;
    }
    if str_eq(s, "sqrt3") {
        return true;
    }
    if str_eq(s, "SQRT3") {
        return true;
    }
    if str_eq(s, "√3") {
        return true;
    }
    if str_eq(s, "КОРЕНЬ5") {
        return true;
    }
    if str_eq(s, "корень5") {
        return true;
    }
    if str_eq(s, "sqrt5") {
        return true;
    }
    if str_eq(s, "SQRT5") {
        return true;
    }
    if str_eq(s, "√5") {
        return true;
    }
    if str_eq(s, "LN2") {
        return true;
    }
    if str_eq(s, "ln2") {
        return true;
    }
    if str_eq(s, "ЛН2") {
        return true;
    }
    if str_eq(s, "LN10") {
        return true;
    }
    if str_eq(s, "ln10") {
        return true;
    }
    if str_eq(s, "ЛН10") {
        return true;
    }
    if str_eq(s, "ПИ_2") {
        return true;
    }
    if str_eq(s, "пи_2") {
        return true;
    }
    if str_eq(s, "PI_2") {
        return true;
    }
    if str_eq(s, "ПОЛПИ") {
        return true;
    }
    if str_eq(s, "ПИ_4") {
        return true;
    }
    if str_eq(s, "пи_4") {
        return true;
    }
    if str_eq(s, "PI_4") {
        return true;
    }
    if str_eq(s, "ГРАД_РАД") {
        return true;
    }
    if str_eq(s, "град_рад") {
        return true;
    }
    if str_eq(s, "DEG_RAD") {
        return true;
    }
    if str_eq(s, "РАД_ГРАД") {
        return true;
    }
    if str_eq(s, "рад_град") {
        return true;
    }
    if str_eq(s, "RAD_DEG") {
        return true;
    }
    if str_eq(s, "ГАММА") {
        return true;
    }
    if str_eq(s, "гамма") {
        return true;
    }
    if str_eq(s, "gamma") {
        return true;
    }
    if str_eq(s, "ЭЙЛЕР_МАСКЕРОНИ") {
        return true;
    }
    if str_eq(s, "γ") {
        return true;
    }
    if str_eq(s, "АПЕРИ") {
        return true;
    }
    if str_eq(s, "апери") {
        return true;
    }
    if str_eq(s, "apery") {
        return true;
    }
    if str_eq(s, "ДЗЕТА3") {
        return true;
    }
    if str_eq(s, "ζ3") {
        return true;
    }
    if str_eq(s, "КАТАЛАН") {
        return true;
    }
    if str_eq(s, "каталан") {
        return true;
    }
    if str_eq(s, "catalan") {
        return true;
    }
    if str_eq(s, "ОМЕГА") {
        return true;
    }
    if str_eq(s, "омега") {
        return true;
    }
    if str_eq(s, "omega") {
        return true;
    }
    if str_eq(s, "Ω") {
        return true;
    }
    if str_eq(s, "ФЕЙГЕНБАУМ") {
        return true;
    }
    if str_eq(s, "фейгенбаум") {
        return true;
    }
    if str_eq(s, "feigenbaum") {
        return true;
    }
    if str_eq(s, "БЕСК") {
        return true;
    }
    if str_eq(s, "беск") {
        return true;
    }
    if str_eq(s, "inf") {
        return true;
    }
    if str_eq(s, "INF") {
        return true;
    }
    if str_eq(s, "БЕСКОНЕЧНОСТЬ") {
        return true;
    }
    if str_eq(s, "∞") {
        return true;
    }
    if str_eq(s, "ЭПСИЛОН") {
        return true;
    }
    if str_eq(s, "эпсилон") {
        return true;
    }
    if str_eq(s, "epsilon") {
        return true;
    }
    if str_eq(s, "EPSILON") {
        return true;
    }
    if str_eq(s, "ε") {
        return true;
    }
    if str_eq(s, "ЕПС") {
        return true;
    }
    if str_eq(s, "НЕЧ") {
        return true;
    }
    if str_eq(s, "неч") {
        return true;
    }
    if str_eq(s, "nan") {
        return true;
    }
    if str_eq(s, "NAN") {
        return true;
    }
    if str_eq(s, "НЕ_ЧИСЛО") {
        return true;
    }
    false
}

/// Returns the value of a built-in integer constant.
pub fn get_builtin_int_constant(s: &str) -> (r: Option<i64>)
    ensures
        r == int_constant_of(s@),
{
    if str_eq(s, "МАКС_ЦЕЛ") {
        return Some(i64::MAX);
    }
    if str_eq(s, "макс_цел") {
        return Some(i64::MAX);
    }
    if str_eq(s, "MAX_INT") {
        return Some(i64::MAX);
    }
    if str_eq(s, "INT_MAX") {
        return Some(i64::MAX);
    }
    if str_eq(s, "МИН_ЦЕЛ") {
        return Some(i64::MIN);
    }
    if str_eq(s, "мин_цел") {
        return Some(i64::MIN);
    }
    if str_eq(s, "MIN_INT") {
        return Some(i64::MIN);
    }
    if str_eq(s, "INT_MIN") {
        return Some(i64::MIN);
    }
    None
}

/// Checks if a string is a built-in constant name (real or integer valued).
pub fn is_builtin_constant(s: &str) -> (r: bool)
    ensures
        r == (is_real_constant_name(s@) || int_constant_of(s@) is Some),
{
    is_real_constant(s) || get_builtin_int_constant(s).is_some()
}

} // verus!
