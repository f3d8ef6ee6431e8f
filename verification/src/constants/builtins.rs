//! Built-in function names of Kumir with their categories.

use vstd::prelude::*;
use crate::text::str_eq;

verus! {

/// Category of a built-in function. Math, String and Io count as
/// built-in functions proper.
#[derive(Debug, Clone, Copy, PartialEq, Eq, Structural)]
pub enum BuiltinCategory {
    Math,
    String,
    Io,
    /// Conversions, collections, and other utilities: in the name list but
    /// not a built-in function proper.
    Other,
}

/// The category of a built-in name, if it is one.
pub open spec fn builtin_of(s: Seq<char>) -> Option<BuiltinCategory> {
    if s == "sin"@ {
        Some(BuiltinCategory::Math)
    } else if s == "cos"@ {
        Some(BuiltinCategory::Math)
    } else if s == "tg"@ {
        Some(BuiltinCategory::Math)
    } else if s == "ctg"@ {
        Some(BuiltinCategory::Math)
    } else if s == "arcsin"@ {
        Some(BuiltinCategory::Math)
    } else if s == "arccos"@ {
        Some(BuiltinCategory::Math)
    } else if s == "arctg"@ {
        Some(BuiltinCategory::Math)
    } else if s == "ln"@ {
        Some(BuiltinCategory::Math)
    } else if s == "lg"@ {
        Some(BuiltinCategory::Math)
    } else if s == "exp"@ {
        Some(BuiltinCategory::Math)
    } else if s == "sqrt"@ {
        Some(BuiltinCategory::Math)
    } else if s == "корень"@ {
        Some(BuiltinCategory::Math)
    } else if s == "abs"@ {
        Some(BuiltinCategory::Math)
    } else if s == "iabs"@ {
        Some(BuiltinCategory::Math)
    } else if s == "sign"@ {
        Some(BuiltinCategory::Math)
    } else if s == "int"@ {
        Some(BuiltinCategory::Math)
    } else if s == "rnd"@ {
        Some(BuiltinCategory::Math)
    } else if s == "min"@ {
        Some(BuiltinCategory::Math)
    } else if s == "max"@ {
        Some(BuiltinCategory::Math)
    } else if s == "imin"@ {
        Some(BuiltinCategory::Math)
    } else if s == "imax"@ {
        Some(BuiltinCategory::Math)
    } else if s == "mod"@ {
        Some(BuiltinCategory::Math)
    } else if s == "div"@ {
        Some(BuiltinCategory::Math)
    } else if s == "длин"@ {
        Some(BuiltinCategory::String)
    } else if s == "юникод"@ {
        Some(BuiltinCategory::String)
    } else if s == "символ"@ {
        Some(BuiltinCategory::String)
    } else if s == "юнисимвол"@ {
        Some(BuiltinCategory::String)
    } else if s == "позиция"@ {
        Some(BuiltinCategory::String)
    } else if s == "поз"@ {
        Some(BuiltinCategory::String)
    } else if s == "вставить"@ {
        Some(BuiltinCategory::String)
    } else if s == "удалить"@ {
        Some(BuiltinCategory::String)
    } else if s == "заменить"@ {
        Some(BuiltinCategory::String)
    } else if s == "верхний_регистр"@ {
        Some(BuiltinCategory::String)
    } else if s == "нижний_регистр"@ {
        Some(BuiltinCategory::String)
    } else if s == "нс"@ {
        Some(BuiltinCategory::Io)
    } else if s == "открыть_на_чтение"@ {
        Some(BuiltinCategory::Io)
    } else if s == "открыть_на_запись"@ {
        Some(BuiltinCategory::Io)
    } else if s == "закрыть"@ {
        Some(BuiltinCategory::Io)
    } else if s == "конец_файла"@ {
        Some(BuiltinCategory::Io)
    } else if s == "цел_в_лит"@ {
        Some(BuiltinCategory::Other)
    } else if s == "вещ_в_лит"@ {
        Some(BuiltinCategory::Other)
    } else if s == "лит_в_цел"@ {
        Some(BuiltinCategory::Other)
    } else if s == "лит_в_вещ"@ {
        Some(BuiltinCategory::Other)
    } else if s == "цел_в_вещ"@ {
        Some(BuiltinCategory::Other)
    } else if s == "размер"@ {
        Some(BuiltinCategory::Other)
    } else if s == "добавить"@ {
        Some(BuiltinCategory::Other)
    } else {
        None
    }
}

/// The category of a built-in name, if known.
pub fn builtin_category(s: &str) -> (r: Option<BuiltinCategory>)
    ensures
        r == builtin_of(s@),
{
    if str_eq(s, "sin") {
        return Some(BuiltinCategory::Math);
    }
    if str_eq(s, "cos") {
        return Some(BuiltinCategory::Math);
    }
    if str_eq(s, "tg") {
        return Some(BuiltinCategory::Math);
    }
    if str_eq(s, "ctg") {
        return Some(BuiltinCategory::Math);
    }
    if str_eq(s, "arcsin") {
        return Some(BuiltinCategory::Math);
    }
    if str_eq(s, "arccos") {
        return Some(BuiltinCategory::Math);
    }
    if str_eq(s, "arctg") {
        return Some(BuiltinCategory::Math);
    }
    if str_eq(s, "ln") {
        return Some(BuiltinCategory::Math);
    }
    if str_eq(s, "lg") {
        return Some(BuiltinCategory::Math);
    }
    if str_eq(s, "exp") {
        return Some(BuiltinCategory::Math);
    }
    if str_eq(s, "sqrt") {
        return Some(BuiltinCategory::Math);
    }
    if str_eq(s, "корень") {
        return Some(BuiltinCategory::Math);
    }
    if str_eq(s, "abs") {
        return Some(BuiltinCategory::Math);
    }
    if str_eq(s, "iabs") {
        return Some(BuiltinCategory::Math);
    }
    if str_eq(s, "sign") {
        return Some(BuiltinCategory::Math);
    }
    if str_eq(s, "int") {
        return Some(BuiltinCategory::Math);
    }
    if str_eq(s, "rnd") {
        return Some(BuiltinCategory::Math);
    }
    if str_eq(s, "min") {
        return Some(BuiltinCategory::Math);
    }
    if str_eq(s, "max") {
        return Some(BuiltinCategory::Math);
    }
    if str_eq(s, "imin") {
        return Some(BuiltinCategory::Math);
    }
    if str_eq(s, "imax") {
        return Some(BuiltinCategory::Math);
    }
    if str_eq(s, "mod") {
        return Some(BuiltinCategory::Math);
    }
    if str_eq(s, "div") {
        return Some(BuiltinCategory::Math);
    }
    if str_eq(s, "длин") {
        return Some(BuiltinCategory::String);
    }
    if str_eq(s, "юникод") {
        return Some(BuiltinCategory::String);
    }
    if str_eq(s, "символ") {
        return Some(BuiltinCategory::String);
    }
    if str_eq(s, "юнисимвол") {
        return Some(BuiltinCategory::String);
    }
    if str_eq(s, "позиция") {
        return Some(BuiltinCategory::String);
    }
    if str_eq(s, "поз") {
        return Some(BuiltinCategory::String);
    }
    if str_eq(s, "вставить") {
        return Some(BuiltinCategory::String);
    }
    if str_eq(s, "удалить") {
        return Some(BuiltinCategory::String);
    }
    if str_eq(s, "заменить") {
        return Some(BuiltinCategory::String);
    }
    if str_eq(s, "верхний_регистр") {
        return Some(BuiltinCategory::String);
    }
    if str_eq(s, "нижний_регистр") {
        return Some(BuiltinCategory::String);
    }
    if str_eq(s, "нс") {
        return Some(BuiltinCategory::Io);
    }
    if str_eq(s, "открыть_на_чтение") {
        return Some(BuiltinCategory::Io);
    }
    if str_eq(s, "открыть_на_запись") {
        return Some(BuiltinCategory::Io);
    }
    if str_eq(s, "закрыть") {
        return Some(BuiltinCategory::Io);
    }
    if str_eq(s, "конец_файла") {
        return Some(BuiltinCategory::Io);
    }
    if str_eq(s, "цел_в_лит") {
        return Some(BuiltinCategory::Other);
    }
    if str_eq(s, "вещ_в_лит") {
        return Some(BuiltinCategory::Other);
    }
    if str_eq(s, "лит_в_цел") {
        return Some(BuiltinCategory::Other);
    }
    if str_eq(s, "лит_в_вещ") {
        return Some(BuiltinCategory::Other);
    }
    if str_eq(s, "цел_в_вещ") {
        return Some(BuiltinCategory::Other);
    }
    if str_eq(s, "размер") {
        return Some(BuiltinCategory::Other);
    }
    if str_eq(s, "добавить") {
        return Some(BuiltinCategory::Other);
    }
    None
}

/// Checks if a string is a built-in function (Math, String, or Io category).
pub fn is_builtin_function(s: &str) -> (r: bool)
    ensures
        r == (builtin_of(s@) matches Some(c) && c != BuiltinCategory::Other),
{
    match builtin_category(s) {
        Some(BuiltinCategory::Math) | Some(BuiltinCategory::String) | Some(BuiltinCategory::Io) => true,
        _ => false,
    }
}

/// All built-in names across all categories, in table order.
pub open spec fn spec_all_builtin_names() -> Seq<Seq<char>> {
    seq!["sin"@, "cos"@, "tg"@, "ctg"@, "arcsin"@, "arccos"@, "arctg"@, "ln"@, "lg"@, "exp"@, "sqrt"@, "корень"@, "abs"@, "iabs"@, "sign"@, "int"@, "rnd"@, "min"@, "max"@, "imin"@, "imax"@, "mod"@, "div"@, "длин"@, "юникод"@, "символ"@, "юнисимвол"@, "позиция"@, "поз"@, "вставить"@, "удалить"@, "заменить"@, "верхний_регистр"@, "нижний_регистр"@, "нс"@, "открыть_на_чтение"@, "открыть_на_запись"@, "закрыть"@, "конец_файла"@, "цел_в_лит"@, "вещ_в_лит"@, "лит_в_цел"@, "лит_в_вещ"@, "цел_в_вещ"@, "размер"@, "добавить"@]
}

/// All built-in function names, across all categories.
pub fn get_all_builtin_names() -> (r: Vec<&'static str>)
    ensures
        r@.len() == spec_all_builtin_names().len(),
        forall|i: int| 0 <= i < r@.len() ==> #[trigger] r@[i]@ == spec_all_builtin_names()[i],
{
    let v: Vec<&'static str> = vec!["sin", "cos", "tg", "ctg", "arcsin", "arccos", "arctg", "ln", "lg", "exp", "sqrt", "корень", "abs", "iabs", "sign", "int", "rnd", "min", "max", "imin", "imax", "mod", "div", "длин", "юникод", "символ", "юнисимвол", "позиция", "поз", "вставить", "удалить", "заменить", "верхний_регистр", "нижний_регистр", "нс", "открыть_на_чтение", "открыть_на_запись", "закрыть", "конец_файла", "цел_в_лит", "вещ_в_лит", "лит_в_цел", "лит_в_вещ", "цел_в_вещ", "размер", "добавить"];
    v
}

/// The name list holds exactly the built-in names: a text is in
/// [`spec_all_builtin_names`] when, and only when, it has a category.
pub proof fn lemma_builtin_list_exact(s: Seq<char>)
    ensures
        spec_all_builtin_names().contains(s) <==> builtin_of(s) is Some,
{
    let l = spec_all_builtin_names();
    assert(l[0] == "sin"@);
    assert(l[1] == "cos"@);
    assert(l[2] == "tg"@);
    assert(l[3] == "ctg"@);
    assert(l[4] == "arcsin"@);
    assert(l[5] == "arccos"@);
    assert(l[6] == "arctg"@);
    assert(l[7] == "ln"@);
    assert(l[8] == "lg"@);
    assert(l[9] == "exp"@);
    assert(l[10] == "sqrt"@);
    assert(l[11] == "корень"@);
    assert(l[12] == "abs"@);
    assert(l[13] == "iabs"@);
    assert(l[14] == "sign"@);
    assert(l[15] == "int"@);
    assert(l[16] == "rnd"@);
    assert(l[17] == "min"@);
    assert(l[18] == "max"@);
    assert(l[19] == "imin"@);
    assert(l[20] == "imax"@);
    assert(l[21] == "mod"@);
    assert(l[22] == "div"@);
    assert(l[23] == "длин"@);
    assert(l[24] == "юникод"@);
    assert(l[25] == "символ"@);
    assert(l[26] == "юнисимвол"@);
    assert(l[27] == "позиция"@);
    assert(l[28] == "поз"@);
    assert(l[29] == "вставить"@);
    assert(l[30] == "удалить"@);
    assert(l[31] == "заменить"@);
    assert(l[32] == "верхний_регистр"@);
    assert(l[33] == "нижний_регистр"@);
    assert(l[34] == "нс"@);
    assert(l[35] == "открыть_на_чтение"@);
    assert(l[36] == "открыть_на_запись"@);
    assert(l[37] == "закрыть"@);
    assert(l[38] == "конец_файла"@);
    assert(l[39] == "цел_в_лит"@);
    assert(l[40] == "вещ_в_лит"@);
    assert(l[41] == "лит_в_цел"@);
    assert(l[42] == "лит_в_вещ"@);
    assert(l[43] == "цел_в_вещ"@);
    assert(l[44] == "размер"@);
    assert(l[45] == "добавить"@);
    if l.contains(s) {
        let i = choose|i: int| 0 <= i < l.len() && l[i] == s;
        assert(builtin_of(l[i]) is Some) by {
            if i == 0 {
                assert(builtin_of("sin"@) is Some);
            } else if i == 1 {
                assert(builtin_of("cos"@) is Some);
            } else if i == 2 {
                assert(builtin_of("tg"@) is Some);
            } else if i == 3 {
                assert(builtin_of("ctg"@) is Some);
            } else if i == 4 {
                assert(builtin_of("arcsin"@) is Some);
            } else if i == 5 {
                assert(builtin_of("arccos"@) is Some);
            } else if i == 6 {
                assert(builtin_of("arctg"@) is Some);
            } else if i == 7 {
                assert(builtin_of("ln"@) is Some);
            } else if i == 8 {
                assert(builtin_of("lg"@) is Some);
            } else if i == 9 {
                assert(builtin_of("exp"@) is Some);
            } else if i == 10 {
                assert(builtin_of("sqrt"@) is Some);
            } else if i == 11 {
                assert(builtin_of("корень"@) is Some);
            } else if i == 12 {
                assert(builtin_of("abs"@) is Some);
            } else if i == 13 {
                assert(builtin_of("iabs"@) is Some);
            } else if i == 14 {
                assert(builtin_of("sign"@) is Some);
            } else if i == 15 {
                assert(builtin_of("int"@) is Some);
            } else if i == 16 {
                assert(builtin_of("rnd"@) is Some);
            } else if i == 17 {
                assert(builtin_of("min"@) is Some);
            } else if i == 18 {
                assert(builtin_of("max"@) is Some);
            } else if i == 19 {
                assert(builtin_of("imin"@) is Some);
            } else if i == 20 {
                assert(builtin_of("imax"@) is Some);
            } else if i == 21 {
                assert(builtin_of("mod"@) is Some);
            } else if i == 22 {
                assert(builtin_of("div"@) is Some);
            } else if i == 23 {
                assert(builtin_of("длин"@) is Some);
            } else if i == 24 {
                assert(builtin_of("юникод"@) is Some);
            } else if i == 25 {
                assert(builtin_of("символ"@) is Some);
            } else if i == 26 {
                assert(builtin_of("юнисимвол"@) is Some);
            } else if i == 27 {
                assert(builtin_of("позиция"@) is Some);
            } else if i == 28 {
                assert(builtin_of("поз"@) is Some);
            } else if i == 29 {
                assert(builtin_of("вставить"@) is Some);
            } else if i == 30 {
                assert(builtin_of("удалить"@) is Some);
            } else if i == 31 {
                assert(builtin_of("заменить"@) is Some);
            } else if i == 32 {
                assert(builtin_of("верхний_регистр"@) is Some);
            } else if i == 33 {
                assert(builtin_of("нижний_регистр"@) is Some);
            } else if i == 34 {
                assert(builtin_of("нс"@) is Some);
            } else if i == 35 {
                assert(builtin_of("открыть_на_чтение"@) is Some);
            } else if i == 36 {
                assert(builtin_of("открыть_на_запись"@) is Some);
            } else if i == 37 {
                assert(builtin_of("закрыть"@) is Some);
            } else if i == 38 {
                assert(builtin_of("конец_файла"@) is Some);
            } else if i == 39 {
                assert(builtin_of("цел_в_лит"@) is Some);
            } else if i == 40 {
                assert(builtin_of("вещ_в_лит"@) is Some);
            } else if i == 41 {
                assert(builtin_of("лит_в_цел"@) is Some);
            } else if i == 42 {
                assert(builtin_of("лит_в_вещ"@) is Some);
            } else if i == 43 {
                assert(builtin_of("цел_в_вещ"@) is Some);
            } else if i == 44 {
                assert(builtin_of("размер"@) is Some);
            } else if i == 45 {
                assert(builtin_of("добавить"@) is Some);
            }
        }
    }
}

} // verus!
