//! Keywords of the Kumir language (Russian spellings with English aliases).

use vstd::prelude::*;
use crate::text::str_eq;
use crate::types::Token;

verus! {

/// The token that a keyword spelling stands for, if the text is a keyword.
pub open spec fn keyword_of(s: Seq<char>) -> Option<Token> {
    if s == "алг"@ {
        Some(Token::Alg)
    } else if s == "alg"@ {
        Some(Token::Alg)
    } else if s == "нач"@ {
        Some(Token::Begin)
    } else if s == "begin"@ {
        Some(Token::Begin)
    } else if s == "кон"@ {
        Some(Token::End)
    } else if s == "end"@ {
        Some(Token::End)
    } else if s == "если"@ {
        Some(Token::If)
    } else if s == "if"@ {
        Some(Token::If)
    } else if s == "то"@ {
        Some(Token::Then)
    } else if s == "then"@ {
        Some(Token::Then)
    } else if s == "иначе"@ {
        Some(Token::Else)
    } else if s == "else"@ {
        Some(Token::Else)
    } else if s == "все"@ {
        Some(Token::Fi)
    } else if s == "fi"@ {
        Some(Token::Fi)
    } else if s == "выбор"@ {
        Some(Token::Switch)
    } else if s == "switch"@ {
        Some(Token::Switch)
    } else if s == "при"@ {
        Some(Token::Case)
    } else if s == "case"@ {
        Some(Token::Case)
    } else if s == "нц"@ {
        Some(Token::LoopStart)
    } else if s == "loop"@ {
        Some(Token::LoopStart)
    } else if s == "кц"@ {
        Some(Token::LoopEnd)
    } else if s == "endloop"@ {
        Some(Token::LoopEnd)
    } else if s == "пока"@ {
        Some(Token::While)
    } else if s == "while"@ {
        Some(Token::While)
    } else if s == "для"@ {
        Some(Token::For)
    } else if s == "for"@ {
        Some(Token::For)
    } else if s == "от"@ {
        Some(Token::From)
    } else if s == "from"@ {
        Some(Token::From)
    } else if s == "до"@ {
        Some(Token::To)
    } else if s == "to"@ {
        Some(Token::To)
    } else if s == "шаг"@ {
        Some(Token::Step)
    } else if s == "step"@ {
        Some(Token::Step)
    } else if s == "раз"@ {
        Some(Token::Times)
    } else if s == "times"@ {
        Some(Token::Times)
    } else if s == "выход"@ {
        Some(Token::Exit)
    } else if s == "exit"@ {
        Some(Token::Exit)
    } else if s == "ввод"@ {
        Some(Token::Input)
    } else if s == "input"@ {
        Some(Token::Input)
    } else if s == "вывод"@ {
        Some(Token::Output)
    } else if s == "output"@ {
        Some(Token::Output)
    } else if s == "арг"@ {
        Some(Token::Arg)
    } else if s == "рез"@ {
        Some(Token::Res)
    } else if s == "аргрез"@ {
        Some(Token::ArgRes)
    } else if s == "знач"@ {
        Some(Token::Value)
    } else if s == "дано"@ {
        Some(Token::Given)
    } else if s == "надо"@ {
        Some(Token::Need)
    } else if s == "утв"@ {
        Some(Token::Assert)
    } else if s == "assert"@ {
        Some(Token::Assert)
    } else if s == "подключить"@ {
        Some(Token::Import)
    } else if s == "import"@ {
        Some(Token::Import)
    } else if s == "использовать"@ {
        Some(Token::Use)
    } else if s == "use"@ {
        Some(Token::Use)
    } else if s == "цел"@ {
        Some(Token::IntType)
    } else if s == "вещ"@ {
        Some(Token::RealType)
    } else if s == "лог"@ {
        Some(Token::BoolType)
    } else if s == "сим"@ {
        Some(Token::CharType)
    } else if s == "лит"@ {
        Some(Token::StringType)
    } else if s == "таб"@ {
        Some(Token::TableSuffix)
    } else if s == "да"@ {
        Some(Token::True)
    } else if s == "true"@ {
        Some(Token::True)
    } else if s == "нет"@ {
        Some(Token::False)
    } else if s == "false"@ {
        Some(Token::False)
    } else if s == "и"@ {
        Some(Token::And)
    } else if s == "and"@ {
        Some(Token::And)
    } else if s == "или"@ {
        Some(Token::Or)
    } else if s == "or"@ {
        Some(Token::Or)
    } else if s == "не"@ {
        Some(Token::Not)
    } else if s == "not"@ {
        Some(Token::Not)
    } else {
        None
    }
}

/// Returns the token for a keyword string, if it is one.
pub fn get_keyword_token(s: &str) -> (r: Option<Token>)
    ensures
        r == keyword_of(s@),
{
    if str_eq(s, "алг") {
        return Some(Token::Alg);
    }
    if str_eq(s, "alg") {
        return Some(Token::Alg);
    }
    if str_eq(s, "нач") {
        return Some(Token::Begin);
    }
    if str_eq(s, "begin") {
        return Some(Token::Begin);
    }
    if str_eq(s, "кон") {
        return Some(Token::End);
    }
    if str_eq(s, "end") {
        return Some(Token::End);
    }
    if str_eq(s, "если") {
        return Some(Token::If);
    }
    if str_eq(s, "if") {
        return Some(Token::If);
    }
    if str_eq(s, "то") {
        return Some(Token::Then);
    }
    if str_eq(s, "then") {
        return Some(Token::Then);
    }
    if str_eq(s, "иначе") {
        return Some(Token::Else);
    }
    if str_eq(s, "else") {
        return Some(Token::Else);
    }
    if str_eq(s, "все") {
        return Some(Token::Fi);
    }
    if str_eq(s, "fi") {
        return Some(Token::Fi);
    }
    if str_eq(s, "выбор") {
        return Some(Token::Switch);
    }
    if str_eq(s, "switch") {
        return Some(Token::Switch);
    }
    if str_eq(s, "при") {
        return Some(Token::Case);
    }
    if str_eq(s, "case") {
        return Some(Token::Case);
    }
    if str_eq(s, "нц") {
        return Some(Token::LoopStart);
    }
    if str_eq(s, "loop") {
        return Some(Token::LoopStart);
    }
    if str_eq(s, "кц") {
        return Some(Token::LoopEnd);
    }
    if str_eq(s, "endloop") {
        return Some(Token::LoopEnd);
    }
    if str_eq(s, "пока") {
        return Some(Token::While);
    }
    if str_eq(s, "while") {
        return Some(Token::While);
    }
    if str_eq(s, "для") {
        return Some(Token::For);
    }
    if str_eq(s, "for") {
        return Some(Token::For);
    }
    if str_eq(s, "от") {
        return Some(Token::From);
    }
    if str_eq(s, "from") {
        return Some(Token::From);
    }
    if str_eq(s, "до") {
        return Some(Token::To);
    }
    if str_eq(s, "to") {
        return Some(Token::To);
    }
    if str_eq(s, "шаг") {
        return Some(Token::Step);
    }
    if str_eq(s, "step") {
        return Some(Token::Step);
    }
    if str_eq(s, "раз") {
        return Some(Token::Times);
    }
    if str_eq(s, "times") {
        return Some(Token::Times);
    }
    if str_eq(s, "выход") {
        return Some(Token::Exit);
    }
    if str_eq(s, "exit") {
        return Some(Token::Exit);
    }
    if str_eq(s, "ввод") {
        return Some(Token::Input);
    }
    if str_eq(s, "input") {
        return Some(Token::Input);
    }
    if str_eq(s, "вывод") {
        return Some(Token::Output);
    }
    if str_eq(s, "output") {
        return Some(Token::Output);
    }
    if str_eq(s, "арг") {
        return Some(Token::Arg);
    }
    if str_eq(s, "рез") {
        return Some(Token::Res);
    }
    if str_eq(s, "аргрез") {
        return Some(Token::ArgRes);
    }
    if str_eq(s, "знач") {
        return Some(Token::Value);
    }
    if str_eq(s, "дано") {
        return Some(Token::Given);
    }
    if str_eq(s, "надо") {
        return Some(Token::Need);
    }
    if str_eq(s, "утв") {
        return Some(Token::Assert);
    }
    if str_eq(s, "assert") {
        return Some(Token::Assert);
    }
    if str_eq(s, "подключить") {
        return Some(Token::Import);
    }
    if str_eq(s, "import") {
        return Some(Token::Import);
    }
    if str_eq(s, "использовать") {
        return Some(Token::Use);
    }
    if str_eq(s, "use") {
        return Some(Token::Use);
    }
    if str_eq(s, "цел") {
        return Some(Token::IntType);
    }
    if str_eq(s, "вещ") {
        return Some(Token::RealType);
    }
    if str_eq(s, "лог") {
        return Some(Token::BoolType);
    }
    if str_eq(s, "сим") {
        return Some(Token::CharType);
    }
    if str_eq(s, "лит") {
        return Some(Token::StringType);
    }
    if str_eq(s, "таб") {
        return Some(Token::TableSuffix);
    }
    if str_eq(s, "да") {
        return Some(Token::True);
    }
    if str_eq(s, "true") {
        return Some(Token::True);
    }
    if str_eq(s, "нет") {
        return Some(Token::False);
    }
    if str_eq(s, "false") {
        return Some(Token::False);
    }
    if str_eq(s, "и") {
        return Some(Token::And);
    }
    if str_eq(s, "and") {
        return Some(Token::And);
    }
    if str_eq(s, "или") {
        return Some(Token::Or);
    }
    if str_eq(s, "or") {
        return Some(Token::Or);
    }
    if str_eq(s, "не") {
        return Some(Token::Not);
    }
    if str_eq(s, "not") {
        return Some(Token::Not);
    }
    None
}

/// Checks if a string is a keyword.
pub fn is_keyword(s: &str) -> (r: bool)
    ensures
        r == (keyword_of(s@) is Some),
{
    get_keyword_token(s).is_some()
}

/// The canonical (first-listed) spelling of a keyword token.
pub open spec fn spec_keyword_for(t: Token) -> Option<Seq<char>> {
    match t {
        Token::Alg => Some("алг"@),
        Token::Begin => Some("нач"@),
        Token::End => Some("кон"@),
        Token::If => Some("если"@),
        Token::Then => Some("то"@),
        Token::Else => Some("иначе"@),
        Token::Fi => Some("все"@),
        Token::Switch => Some("выбор"@),
        Token::Case => Some("при"@),
        Token::LoopStart => Some("нц"@),
        Token::LoopEnd => Some("кц"@),
        Token::While => Some("пока"@),
        Token::For => Some("для"@),
        Token::From => Some("от"@),
        Token::To => Some("до"@),
        Token::Step => Some("шаг"@),
        Token::Times => Some("раз"@),
        Token::Exit => Some("выход"@),
        Token::Input => Some("ввод"@),
        Token::Output => Some("вывод"@),
        Token::Arg => Some("арг"@),
        Token::Res => Some("рез"@),
        Token::ArgRes => Some("аргрез"@),
        Token::Value => Some("знач"@),
        Token::Given => Some("дано"@),
        Token::Need => Some("надо"@),
        Token::Assert => Some("утв"@),
        Token::Import => Some("подключить"@),
        Token::Use => Some("использовать"@),
        Token::IntType => Some("цел"@),
        Token::RealType => Some("вещ"@),
        Token::BoolType => Some("лог"@),
        Token::CharType => Some("сим"@),
        Token::StringType => Some("лит"@),
        Token::TableSuffix => Some("таб"@),
        Token::True => Some("да"@),
        Token::False => Some("нет"@),
        Token::And => Some("и"@),
        Token::Or => Some("или"@),
        Token::Not => Some("не"@),
        _ => None,
    }
}

/// Reverse lookup: the canonical spelling of a keyword token.
pub fn keyword_for(token: &Token) -> (r: Option<&'static str>)
    ensures
        r is Some <==> spec_keyword_for(*token) is Some,
        r matches Some(s) ==> spec_keyword_for(*token) == Some(s@),
{
    match token {
        Token::Alg => Some("алг"),
        Token::Begin => Some("нач"),
        Token::End => Some("кон"),
        Token::If => Some("если"),
        Token::Then => Some("то"),
        Token::Else => Some("иначе"),
        Token::Fi => Some("все"),
        Token::Switch => Some("выбор"),
        Token::Case => Some("при"),
        Token::LoopStart => Some("нц"),
        Token::LoopEnd => Some("кц"),
        Token::While => Some("пока"),
        Token::For => Some("для"),
        Token::From => Some("от"),
        Token::To => Some("до"),
        Token::Step => Some("шаг"),
        Token::Times => Some("раз"),
        Token::Exit => Some("выход"),
        Token::Input => Some("ввод"),
        Token::Output => Some("вывод"),
        Token::Arg => Some("арг"),
        Token::Res => Some("рез"),
        Token::ArgRes => Some("аргрез"),
        Token::Value => Some("знач"),
        Token::Given => Some("дано"),
        Token::Need => Some("надо"),
        Token::Assert => Some("утв"),
        Token::Import => Some("подключить"),
        Token::Use => Some("использовать"),
        Token::IntType => Some("цел"),
        Token::RealType => Some("вещ"),
        Token::BoolType => Some("лог"),
        Token::CharType => Some("сим"),
        Token::StringType => Some("лит"),
        Token::TableSuffix => Some("таб"),
        Token::True => Some("да"),
        Token::False => Some("нет"),
        Token::And => Some("и"),
        Token::Or => Some("или"),
        Token::Not => Some("не"),
        _ => None,
    }
}

/// All keyword spellings (canonical and aliases), in table order.
pub open spec fn spec_all_keywords() -> Seq<Seq<char>> {
    seq!["алг"@, "alg"@, "нач"@, "begin"@, "кон"@, "end"@, "если"@, "if"@, "то"@, "then"@, "иначе"@, "else"@, "все"@, "fi"@, "выбор"@, "switch"@, "при"@, "case"@, "нц"@, "loop"@, "кц"@, "endloop"@, "пока"@, "while"@, "для"@, "for"@, "от"@, "from"@, "до"@, "to"@, "шаг"@, "step"@, "раз"@, "times"@, "выход"@, "exit"@, "ввод"@, "input"@, "вывод"@, "output"@, "арг"@, "рез"@, "аргрез"@, "знач"@, "дано"@, "надо"@, "утв"@, "assert"@, "подключить"@, "import"@, "использовать"@, "use"@, "цел"@, "вещ"@, "лог"@, "сим"@, "лит"@, "таб"@, "да"@, "true"@, "нет"@, "false"@, "и"@, "and"@, "или"@, "or"@, "не"@, "not"@]
}

/// All keyword spellings (canonical and aliases), for documentation and tools.
pub fn all_keywords() -> (r: Vec<&'static str>)
    ensures
        r@.len() == spec_all_keywords().len(),
        forall|i: int| 0 <= i < r@.len() ==> #[trigger] r@[i]@ == spec_all_keywords()[i],
{
    let v: Vec<&'static str> = vec!["алг", "alg", "нач", "begin", "кон", "end", "если", "if", "то", "then", "иначе", "else", "все", "fi", "выбор", "switch", "при", "case", "нц", "loop", "кц", "endloop", "пока", "while", "для", "for", "от", "from", "до", "to", "шаг", "step", "раз", "times", "выход", "exit", "ввод", "input", "вывод", "output", "арг", "рез", "аргрез", "знач", "дано", "надо", "утв", "assert", "подключить", "import", "использовать", "use", "цел", "вещ", "лог", "сим", "лит", "таб", "да", "true", "нет", "false", "и", "and", "или", "or", "не", "not"];
    v
}

/// Looking up the canonical spelling of a keyword token gives the token back.
pub proof fn lemma_keyword_for_roundtrip(t: Token)
    requires
        spec_keyword_for(t) is Some,
    ensures
        keyword_of(spec_keyword_for(t)->0) == Some(t),
{
    match t {
        Token::Alg => {
            reveal_strlit("алг");
            assert(keyword_of("алг"@) == Some(Token::Alg));
        },
        Token::Begin => {
            reveal_strlit("алг");
            reveal_strlit("alg");
            reveal_strlit("нач");
            assert("алг"@[0] != "нач"@[0]);
            assert("алг"@ != "нач"@);
            assert("alg"@[0] != "нач"@[0]);
            assert("alg"@ != "нач"@);
            assert(keyword_of("нач"@) == Some(Token::Begin));
        },
        Token::End => {
            reveal_strlit("алг");
            reveal_strlit("alg");
            reveal_strlit("нач");
            reveal_strlit("begin");
            reveal_strlit("кон");
            assert("алг"@[0] != "кон"@[0]);
            assert("алг"@ != "кон"@);
            assert("alg"@[0] != "кон"@[0]);
            assert("alg"@ != "кон"@);
            assert("нач"@[0] != "кон"@[0]);
            assert("нач"@ != "кон"@);
            assert("begin"@.len() != "кон"@.len());
            assert("begin"@ != "кон"@);
            assert(keyword_of("кон"@) == Some(Token::End));
        },
        Token::If => {
            reveal_strlit("алг");
            reveal_strlit("alg");
            reveal_strlit("нач");
            reveal_strlit("begin");
            reveal_strlit("кон");
            reveal_strlit("end");
            reveal_strlit("если");
            assert("алг"@.len() != "если"@.len());
            assert("алг"@ != "если"@);
            assert("alg"@.len() != "если"@.len());
            assert("alg"@ != "если"@);
            assert("нач"@.len() != "если"@.len());
            assert("нач"@ != "если"@);
            assert("begin"@.len() != "если"@.len());
            assert("begin"@ != "если"@);
            assert("кон"@.len() != "если"@.len());
            assert("кон"@ != "если"@);
            assert("end"@.len() != "если"@.len());
            assert("end"@ != "если"@);
            assert(keyword_of("если"@) == Some(Token::If));
        },
        Token::Then => {
            reveal_strlit("алг");
            reveal_strlit("alg");
            reveal_strlit("нач");
            reveal_strlit("begin");
            reveal_strlit("кон");
            reveal_strlit("end");
            reveal_strlit("если");
            reveal_strlit("if");
            reveal_strlit("то");
            assert("алг"@.len() != "то"@.len());
            assert("алг"@ != "то"@);
            assert("alg"@.len() != "то"@.len());
            assert("alg"@ != "то"@);
            assert("нач"@.len() != "то"@.len());
            assert("нач"@ != "то"@);
            assert("begin"@.len() != "то"@.len());
            assert("begin"@ != "то"@);
            assert("кон"@.len() != "то"@.len());
            assert("кон"@ != "то"@);
            assert("end"@.len() != "то"@.len());
            assert("end"@ != "то"@);
            assert("если"@.len() != "то"@.len());
            assert("если"@ != "то"@);
            assert("if"@[0] != "то"@[0]);
            assert("if"@ != "то"@);
            assert(keyword_of("то"@) == Some(Token::Then));
        },
        Token::Else => {
            reveal_strlit("алг");
            reveal_strlit("alg");
            reveal_strlit("нач");
            reveal_strlit("begin");
            reveal_strlit("кон");
            reveal_strlit("end");
            reveal_strlit("если");
            reveal_strlit("if");
            reveal_strlit("то");
            reveal_strlit("then");
            reveal_strlit("иначе");
            assert("алг"@.len() != "иначе"@.len());
            assert("алг"@ != "иначе"@);
            assert("alg"@.len() != "иначе"@.len());
            assert("alg"@ != "иначе"@);
            assert("нач"@.len() != "иначе"@.len());
            assert("нач"@ != "иначе"@);
            assert("begin"@[0] != "иначе"@[0]);
            assert("begin"@ != "иначе"@);
            assert("кон"@.len() != "иначе"@.len());
            assert("кон"@ != "иначе"@);
            assert("end"@.len() != "иначе"@.len());
            assert("end"@ != "иначе"@);
            assert("если"@.len() != "иначе"@.len());
            assert("если"@ != "иначе"@);
            assert("if"@.len() != "иначе"@.len());
            assert("if"@ != "иначе"@);
            assert("то"@.len() != "иначе"@.len());
            assert("то"@ != "иначе"@);
            assert("then"@.len() != "иначе"@.len());
            assert("then"@ != "иначе"@);
            assert(keyword_of("иначе"@) == Some(Token::Else));
        },
        Token::Fi => {
            reveal_strlit("алг");
            reveal_strlit("alg");
            reveal_strlit("нач");
            reveal_strlit("begin");
            reveal_strlit("кон");
            reveal_strlit("end");
            reveal_strlit("если");
            reveal_strlit("if");
            reveal_strlit("то");
            reveal_strlit("then");
            reveal_strlit("иначе");
            reveal_strlit("else");
            reveal_strlit("все");
            assert("алг"@[0] != "все"@[0]);
            assert("алг"@ != "все"@);
            assert("alg"@[0] != "все"@[0]);
            assert("alg"@ != "все"@);
            assert("нач"@[0] != "все"@[0]);
            assert("нач"@ != "все"@);
            assert("begin"@.len() != "все"@.len());
            assert("begin"@ != "все"@);
            assert("кон"@[0] != "все"@[0]);
            assert("кон"@ != "все"@);
            assert("end"@[0] != "все"@[0]);
            assert("end"@ != "все"@);
            assert("если"@.len() != "все"@.len());
            assert("если"@ != "все"@);
            assert("if"@.len() != "все"@.len());
            assert("if"@ != "все"@);
            assert("то"@.len() != "все"@.len());
            assert("то"@ != "все"@);
            assert("then"@.len() != "все"@.len());
            assert("then"@ != "все"@);
            assert("иначе"@.len() != "все"@.len());
            assert("иначе"@ != "все"@);
            assert("else"@.len() != "все"@.len());
            assert("else"@ != "все"@);
            assert(keyword_of("все"@) == Some(Token::Fi));
        },
        Token::Switch => {
            reveal_strlit("алг");
            reveal_strlit("alg");
            reveal_strlit("нач");
            reveal_strlit("begin");
            reveal_strlit("кон");
            reveal_strlit("end");
            reveal_strlit("если");
            reveal_strlit("if");
            reveal_strlit("то");
            reveal_strlit("then");
            reveal_strlit("иначе");
            reveal_strlit("else");
            reveal_strlit("все");
            reveal_strlit("fi");
            reveal_strlit("выбор");
            assert("алг"@.len() != "выбор"@.len());
            assert("алг"@ != "выбор"@);
            assert("alg"@.len() != "выбор"@.len());
            assert("alg"@ != "выбор"@);
            assert("нач"@.len() != "выбор"@.len());
            assert("нач"@ != "выбор"@);
            assert("begin"@[0] != "выбор"@[0]);
            assert("begin"@ != "выбор"@);
            assert("кон"@.len() != "выбор"@.len());
            assert("кон"@ != "выбор"@);
            assert("end"@.len() != "выбор"@.len());
            assert("end"@ != "выбор"@);
            assert("если"@.len() != "выбор"@.len());
            assert("если"@ != "выбор"@);
            assert("if"@.len() != "выбор"@.len());
            assert("if"@ != "выбор"@);
            assert("то"@.len() != "выбор"@.len());
            assert("то"@ != "выбор"@);
            assert("then"@.len() != "выбор"@.len());
            assert("then"@ != "выбор"@);
            assert("иначе"@[0] != "выбор"@[0]);
            assert("иначе"@ != "выбор"@);
            assert("else"@.len() != "выбор"@.len());
            assert("else"@ != "выбор"@);
            assert("все"@.len() != "выбор"@.len());
            assert("все"@ != "выбор"@);
            assert("fi"@.len() != "выбор"@.len());
            assert("fi"@ != "выбор"@);
            assert(keyword_of("выбор"@) == Some(Token::Switch));
        },
        Token::Case => {
            reveal_strlit("алг");
            reveal_strlit("alg");
            reveal_strlit("нач");
            reveal_strlit("begin");
            reveal_strlit("кон");
            reveal_strlit("end");
            reveal_strlit("если");
            reveal_strlit("if");
            reveal_strlit("то");
            reveal_strlit("then");
            reveal_strlit("иначе");
            reveal_strlit("else");
            reveal_strlit("все");
            reveal_strlit("fi");
            reveal_strlit("выбор");
            reveal_strlit("switch");
            reveal_strlit("при");
            assert("алг"@[0] != "при"@[0]);
            assert("алг"@ != "при"@);
            assert("alg"@[0] != "при"@[0]);
            assert("alg"@ != "при"@);
            assert("нач"@[0] != "при"@[0]);
            assert("нач"@ != "при"@);
            assert("begin"@.len() != "при"@.len());
            assert("begin"@ != "при"@);
            assert("кон"@[0] != "при"@[0]);
            assert("кон"@ != "при"@);
            assert("end"@[0] != "при"@[0]);
            assert("end"@ != "при"@);
            assert("если"@.len() != "при"@.len());
            assert("если"@ != "при"@);
            assert("if"@.len() != "при"@.len());
            assert("if"@ != "при"@);
            assert("то"@.len() != "при"@.len());
            assert("то"@ != "при"@);
            assert("then"@.len() != "при"@.len());
            assert("then"@ != "при"@);
            assert("иначе"@.len() != "при"@.len());
            assert("иначе"@ != "при"@);
            assert("else"@.len() != "при"@.len());
            assert("else"@ != "при"@);
            assert("все"@[0] != "при"@[0]);
            assert("все"@ != "при"@);
            assert("fi"@.len() != "при"@.len());
            assert("fi"@ != "при"@);
            assert("выбор"@.len() != "при"@.len());
            assert("выбор"@ != "при"@);
            assert("switch"@.len() != "при"@.len());
            assert("switch"@ != "при"@);
            assert(keyword_of("при"@) == Some(Token::Case));
        },
        Token::LoopStart => {
            reveal_strlit("алг");
            reveal_strlit("alg");
            reveal_strlit("нач");
            reveal_strlit("begin");
            reveal_strlit("кон");
            reveal_strlit("end");
            reveal_strlit("если");
            reveal_strlit("if");
            reveal_strlit("то");
            reveal_strlit("then");
            reveal_strlit("иначе");
            reveal_strlit("else");
            reveal_strlit("все");
            reveal_strlit("fi");
            reveal_strlit("выбор");
            reveal_strlit("switch");
            reveal_strlit("при");
            reveal_strlit("case");
            reveal_strlit("нц");
            assert("алг"@.len() != "нц"@.len());
            assert("алг"@ != "нц"@);
            assert("alg"@.len() != "нц"@.len());
            assert("alg"@ != "нц"@);
            assert("нач"@.len() != "нц"@.len());
            assert("нач"@ != "нц"@);
            assert("begin"@.len() != "нц"@.len());
            assert("begin"@ != "нц"@);
            assert("кон"@.len() != "нц"@.len());
            assert("кон"@ != "нц"@);
            assert("end"@.len() != "нц"@.len());
            assert("end"@ != "нц"@);
            assert("если"@.len() != "нц"@.len());
            assert("если"@ != "нц"@);
            assert("if"@[0] != "нц"@[0]);
            assert("if"@ != "нц"@);
            assert("то"@[0] != "нц"@[0]);
            assert("то"@ != "нц"@);
            assert("then"@.len() != "нц"@.len());
            assert("then"@ != "нц"@);
            assert("иначе"@.len() != "нц"@.len());
            assert("иначе"@ != "нц"@);
            assert("else"@.len() != "нц"@.len());
            assert("else"@ != "нц"@);
            assert("все"@.len() != "нц"@.len());
            assert("все"@ != "нц"@);
            assert("fi"@[0] != "нц"@[0]);
            assert("fi"@ != "нц"@);
            assert("выбор"@.len() != "нц"@.len());
            assert("выбор"@ != "нц"@);
            assert("switch"@.len() != "нц"@.len());
            assert("switch"@ != "нц"@);
            assert("при"@.len() != "нц"@.len());
            assert("при"@ != "нц"@);
            assert("case"@.len() != "нц"@.len());
            assert("case"@ != "нц"@);
            assert(keyword_of("нц"@) == Some(Token::LoopStart));
        },
        Token::LoopEnd => {
            reveal_strlit("алг");
            reveal_strlit("alg");
            reveal_strlit("нач");
            reveal_strlit("begin");
            reveal_strlit("кон");
            reveal_strlit("end");
            reveal_strlit("если");
            reveal_strlit("if");
            reveal_strlit("то");
            reveal_strlit("then");
            reveal_strlit("иначе");
            reveal_strlit("else");
            reveal_strlit("все");
            reveal_strlit("fi");
            reveal_strlit("выбор");
            reveal_strlit("switch");
            reveal_strlit("при");
            reveal_strlit("case");
            reveal_strlit("нц");
            reveal_strlit("loop");
            reveal_strlit("кц");
            assert("алг"@.len() != "кц"@.len());
            assert("алг"@ != "кц"@);
            assert("alg"@.len() != "кц"@.len());
            assert("alg"@ != "кц"@);
            assert("нач"@.len() != "кц"@.len());
            assert("нач"@ != "кц"@);
            assert("begin"@.len() != "кц"@.len());
            assert("begin"@ != "кц"@);
            assert("кон"@.len() != "кц"@.len());
            assert("кон"@ != "кц"@);
            assert("end"@.len() != "кц"@.len());
            assert("end"@ != "кц"@);
            assert("если"@.len() != "кц"@.len());
            assert("если"@ != "кц"@);
            assert("if"@[0] != "кц"@[0]);
            assert("if"@ != "кц"@);
            assert("то"@[0] != "кц"@[0]);
            assert("то"@ != "кц"@);
            assert("then"@.len() != "кц"@.len());
            assert("then"@ != "кц"@);
            assert("иначе"@.len() != "кц"@.len());
            assert("иначе"@ != "кц"@);
            assert("else"@.len() != "кц"@.len());
            assert("else"@ != "кц"@);
            assert("все"@.len() != "кц"@.len());
            assert("все"@ != "кц"@);
            assert("fi"@[0] != "кц"@[0]);
            assert("fi"@ != "кц"@);
            assert("выбор"@.len() != "кц"@.len());
            assert("выбор"@ != "кц"@);
            assert("switch"@.len() != "кц"@.len());
            assert("switch"@ != "кц"@);
            assert("при"@.len() != "кц"@.len());
            assert("при"@ != "кц"@);
            assert("case"@.len() != "кц"@.len());
            assert("case"@ != "кц"@);
            assert("нц"@[0] != "кц"@[0]);
            assert("нц"@ != "кц"@);
            assert("loop"@.len() != "кц"@.len());
            assert("loop"@ != "кц"@);
            assert(keyword_of("кц"@) == Some(Token::LoopEnd));
        },
        Token::While => {
            reveal_strlit("алг");
            reveal_strlit("alg");
            reveal_strlit("нач");
            reveal_strlit("begin");
            reveal_strlit("кон");
            reveal_strlit("end");
            reveal_strlit("если");
            reveal_strlit("if");
            reveal_strlit("то");
            reveal_strlit("then");
            reveal_strlit("иначе");
            reveal_strlit("else");
            reveal_strlit("все");
            reveal_strlit("fi");
            reveal_strlit("выбор");
            reveal_strlit("switch");
            reveal_strlit("при");
            reveal_strlit("case");
            reveal_strlit("нц");
            reveal_strlit("loop");
            reveal_strlit("кц");
            reveal_strlit("endloop");
            reveal_strlit("пока");
            assert("алг"@.len() != "пока"@.len());
            assert("алг"@ != "пока"@);
            assert("alg"@.len() != "пока"@.len());
            assert("alg"@ != "пока"@);
            assert("нач"@.len() != "пока"@.len());
            assert("нач"@ != "пока"@);
            assert("begin"@.len() != "пока"@.len());
            assert("begin"@ != "пока"@);
            assert("кон"@.len() != "пока"@.len());
            assert("кон"@ != "пока"@);
            assert("end"@.len() != "пока"@.len());
            assert("end"@ != "пока"@);
            assert("если"@[0] != "пока"@[0]);
            assert("если"@ != "пока"@);
            assert("if"@.len() != "пока"@.len());
            assert("if"@ != "пока"@);
            assert("то"@.len() != "пока"@.len());
            assert("то"@ != "пока"@);
            assert("then"@[0] != "пока"@[0]);
            assert("then"@ != "пока"@);
            assert("иначе"@.len() != "пока"@.len());
            assert("иначе"@ != "пока"@);
            assert("else"@[0] != "пока"@[0]);
            assert("else"@ != "пока"@);
            assert("все"@.len() != "пока"@.len());
            assert("все"@ != "пока"@);
            assert("fi"@.len() != "пока"@.len());
            assert("fi"@ != "пока"@);
            assert("выбор"@.len() != "пока"@.len());
            assert("выбор"@ != "пока"@);
            assert("switch"@.len() != "пока"@.len());
            assert("switch"@ != "пока"@);
            assert("при"@.len() != "пока"@.len());
            assert("при"@ != "пока"@);
            assert("case"@[0] != "пока"@[0]);
            assert("case"@ != "пока"@);
            assert("нц"@.len() != "пока"@.len());
            assert("нц"@ != "пока"@);
            assert("loop"@[0] != "пока"@[0]);
            assert("loop"@ != "пока"@);
            assert("кц"@.len() != "пока"@.len());
            assert("кц"@ != "пока"@);
            assert("endloop"@.len() != "пока"@.len());
            assert("endloop"@ != "пока"@);
            assert(keyword_of("пока"@) == Some(Token::While));
        },
        Token::For => {
            reveal_strlit("алг");
            reveal_strlit("alg");
            reveal_strlit("нач");
            reveal_strlit("begin");
            reveal_strlit("кон");
            reveal_strlit("end");
            reveal_strlit("если");
            reveal_strlit("if");
            reveal_strlit("то");
            reveal_strlit("then");
            reveal_strlit("иначе");
            reveal_strlit("else");
            reveal_strlit("все");
            reveal_strlit("fi");
            reveal_strlit("выбор");
            reveal_strlit("switch");
            reveal_strlit("при");
            reveal_strlit("case");
            reveal_strlit("нц");
            reveal_strlit("loop");
            reveal_strlit("кц");
            reveal_strlit("endloop");
            reveal_strlit("пока");
            reveal_strlit("while");
            reveal_strlit("для");
            assert("алг"@[0] != "для"@[0]);
            assert("алг"@ != "для"@);
            assert("alg"@[0] != "для"@[0]);
            assert("alg"@ != "для"@);
            assert("нач"@[0] != "для"@[0]);
            assert("нач"@ != "для"@);
            assert("begin"@.len() != "для"@.len());
            assert("begin"@ != "для"@);
            assert("кон"@[0] != "для"@[0]);
            assert("кон"@ != "для"@);
            assert("end"@[0] != "для"@[0]);
            assert("end"@ != "для"@);
            assert("если"@.len() != "для"@.len());
            assert("если"@ != "для"@);
            assert("if"@.len() != "для"@.len());
            assert("if"@ != "для"@);
            assert("то"@.len() != "для"@.len());
            assert("то"@ != "для"@);
            assert("then"@.len() != "для"@.len());
            assert("then"@ != "для"@);
            assert("иначе"@.len() != "для"@.len());
            assert("иначе"@ != "для"@);
            assert("else"@.len() != "для"@.len());
            assert("else"@ != "для"@);
            assert("все"@[0] != "для"@[0]);
            assert("все"@ != "для"@);
            assert("fi"@.len() != "для"@.len());
            assert("fi"@ != "для"@);
            assert("выбор"@.len() != "для"@.len());
            assert("выбор"@ != "для"@);
            assert("switch"@.len() != "для"@.len());
            assert("switch"@ != "для"@);
            assert("при"@[0] != "для"@[0]);
            assert("при"@ != "для"@);
            assert("case"@.len() != "для"@.len());
            assert("case"@ != "для"@);
            assert("нц"@.len() != "для"@.len());
            assert("нц"@ != "для"@);
            assert("loop"@.len() != "для"@.len());
            assert("loop"@ != "для"@);
            assert("кц"@.len() != "для"@.len());
            assert("кц"@ != "для"@);
            assert("endloop"@.len() != "для"@.len());
            assert("endloop"@ != "для"@);
            assert("пока"@.len() != "для"@.len());
            assert("пока"@ != "для"@);
            assert("while"@.len() != "для"@.len());
            assert("while"@ != "для"@);
            assert(keyword_of("для"@) == Some(Token::For));
        },
        Token::From => {
            reveal_strlit("алг");
            reveal_strlit("alg");
            reveal_strlit("нач");
            reveal_strlit("begin");
            reveal_strlit("кон");
            reveal_strlit("end");
            reveal_strlit("если");
            reveal_strlit("if");
            reveal_strlit("то");
            reveal_strlit("then");
            reveal_strlit("иначе");
            reveal_strlit("else");
            reveal_strlit("все");
            reveal_strlit("fi");
            reveal_strlit("выбор");
            reveal_strlit("switch");
            reveal_strlit("при");
            reveal_strlit("case");
            reveal_strlit("нц");
            reveal_strlit("loop");
            reveal_strlit("кц");
            reveal_strlit("endloop");
            reveal_strlit("пока");
            reveal_strlit("while");
            reveal_strlit("для");
            reveal_strlit("for");
            reveal_strlit("от");
            assert("алг"@.len() != "от"@.len());
            assert("алг"@ != "от"@);
            assert("alg"@.len() != "от"@.len());
            assert("alg"@ != "от"@);
            assert("нач"@.len() != "от"@.len());
            assert("нач"@ != "от"@);
            assert("begin"@.len() != "от"@.len());
            assert("begin"@ != "от"@);
            assert("кон"@.len() != "от"@.len());
            assert("кон"@ != "от"@);
            assert("end"@.len() != "от"@.len());
            assert("end"@ != "от"@);
            assert("если"@.len() != "от"@.len());
            assert("если"@ != "от"@);
            assert("if"@[0] != "от"@[0]);
            assert("if"@ != "от"@);
            assert("то"@[0] != "от"@[0]);
            assert("то"@ != "от"@);
            assert("then"@.len() != "от"@.len());
            assert("then"@ != "от"@);
            assert("иначе"@.len() != "от"@.len());
            assert("иначе"@ != "от"@);
            assert("else"@.len() != "от"@.len());
            assert("else"@ != "от"@);
            assert("все"@.len() != "от"@.len());
            assert("все"@ != "от"@);
            assert("fi"@[0] != "от"@[0]);
            assert("fi"@ != "от"@);
            assert("выбор"@.len() != "от"@.len());
            assert("выбор"@ != "от"@);
            assert("switch"@.len() != "от"@.len());
            assert("switch"@ != "от"@);
            assert("при"@.len() != "от"@.len());
            assert("при"@ != "от"@);
            assert("case"@.len() != "от"@.len());
            assert("case"@ != "от"@);
            assert("нц"@[0] != "от"@[0]);
            assert("нц"@ != "от"@);
            assert("loop"@.len() != "от"@.len());
            assert("loop"@ != "от"@);
            assert("кц"@[0] != "от"@[0]);
            assert("кц"@ != "от"@);
            assert("endloop"@.len() != "от"@.len());
            assert("endloop"@ != "от"@);
            assert("пока"@.len() != "от"@.len());
            assert("пока"@ != "от"@);
            assert("while"@.len() != "от"@.len());
            assert("while"@ != "от"@);
            assert("для"@.len() != "от"@.len());
            assert("для"@ != "от"@);
            assert("for"@.len() != "от"@.len());
            assert("for"@ != "от"@);
            assert(keyword_of("от"@) == Some(Token::From));
        },
        Token::To => {
            reveal_strlit("алг");
            reveal_strlit("alg");
            reveal_strlit("нач");
            reveal_strlit("begin");
            reveal_strlit("кон");
            reveal_strlit("end");
            reveal_strlit("если");
            reveal_strlit("if");
            reveal_strlit("то");
            reveal_strlit("then");
            reveal_strlit("иначе");
            reveal_strlit("else");
            reveal_strlit("все");
            reveal_strlit("fi");
            reveal_strlit("выбор");
            reveal_strlit("switch");
            reveal_strlit("при");
            reveal_strlit("case");
            reveal_strlit("нц");
            reveal_strlit("loop");
            reveal_strlit("кц");
            reveal_strlit("endloop");
            reveal_strlit("пока");
            reveal_strlit("while");
            reveal_strlit("для");
            reveal_strlit("for");
            reveal_strlit("от");
            reveal_strlit("from");
            reveal_strlit("до");
            assert("алг"@.len() != "до"@.len());
            assert("алг"@ != "до"@);
            assert("alg"@.len() != "до"@.len());
            assert("alg"@ != "до"@);
            assert("нач"@.len() != "до"@.len());
            assert("нач"@ != "до"@);
            assert("begin"@.len() != "до"@.len());
            assert("begin"@ != "до"@);
            assert("кон"@.len() != "до"@.len());
            assert("кон"@ != "до"@);
            assert("end"@.len() != "до"@.len());
            assert("end"@ != "до"@);
            assert("если"@.len() != "до"@.len());
            assert("если"@ != "до"@);
            assert("if"@[0] != "до"@[0]);
            assert("if"@ != "до"@);
            assert("то"@[0] != "до"@[0]);
            assert("то"@ != "до"@);
            assert("then"@.len() != "до"@.len());
            assert("then"@ != "до"@);
            assert("иначе"@.len() != "до"@.len());
            assert("иначе"@ != "до"@);
            assert("else"@.len() != "до"@.len());
            assert("else"@ != "до"@);
            assert("все"@.len() != "до"@.len());
            assert("все"@ != "до"@);
            assert("fi"@[0] != "до"@[0]);
            assert("fi"@ != "до"@);
            assert("выбор"@.len() != "до"@.len());
            assert("выбор"@ != "до"@);
            assert("switch"@.len() != "до"@.len());
            assert("switch"@ != "до"@);
            assert("при"@.len() != "до"@.len());
            assert("при"@ != "до"@);
            assert("case"@.len() != "до"@.len());
            assert("case"@ != "до"@);
            assert("нц"@[0] != "до"@[0]);
            assert("нц"@ != "до"@);
            assert("loop"@.len() != "до"@.len());
            assert("loop"@ != "до"@);
            assert("кц"@[0] != "до"@[0]);
            assert("кц"@ != "до"@);
            assert("endloop"@.len() != "до"@.len());
            assert("endloop"@ != "до"@);
            assert("пока"@.len() != "до"@.len());
            assert("пока"@ != "до"@);
            assert("while"@.len() != "до"@.len());
            assert("while"@ != "до"@);
            assert("для"@.len() != "до"@.len());
            assert("для"@ != "до"@);
            assert("for"@.len() != "до"@.len());
            assert("for"@ != "до"@);
            assert("от"@[0] != "до"@[0]);
            assert("от"@ != "до"@);
            assert("from"@.len() != "до"@.len());
            assert("from"@ != "до"@);
            assert(keyword_of("до"@) == Some(Token::To));
        },
        Token::Step => {
            reveal_strlit("алг");
            reveal_strlit("alg");
            reveal_strlit("нач");
            reveal_strlit("begin");
            reveal_strlit("кон");
            reveal_strlit("end");
            reveal_strlit("если");
            reveal_strlit("if");
            reveal_strlit("то");
            reveal_strlit("then");
            reveal_strlit("иначе");
            reveal_strlit("else");
            reveal_strlit("все");
            reveal_strlit("fi");
            reveal_strlit("выбор");
            reveal_strlit("switch");
            reveal_strlit("при");
            reveal_strlit("case");
            reveal_strlit("нц");
            reveal_strlit("loop");
            reveal_strlit("кц");
            reveal_strlit("endloop");
            reveal_strlit("пока");
            reveal_strlit("while");
            reveal_strlit("для");
            reveal_strlit("for");
            reveal_strlit("от");
            reveal_strlit("from");
            reveal_strlit("до");
            reveal_strlit("to");
            reveal_strlit("шаг");
            assert("алг"@[0] != "шаг"@[0]);
            assert("алг"@ != "шаг"@);
            assert("alg"@[0] != "шаг"@[0]);
            assert("alg"@ != "шаг"@);
            assert("нач"@[0] != "шаг"@[0]);
            assert("нач"@ != "шаг"@);
            assert("begin"@.len() != "шаг"@.len());
            assert("begin"@ != "шаг"@);
            assert("кон"@[0] != "шаг"@[0]);
            assert("кон"@ != "шаг"@);
            assert("end"@[0] != "шаг"@[0]);
            assert("end"@ != "шаг"@);
            assert("если"@.len() != "шаг"@.len());
            assert("если"@ != "шаг"@);
            assert("if"@.len() != "шаг"@.len());
            assert("if"@ != "шаг"@);
            assert("то"@.len() != "шаг"@.len());
            assert("то"@ != "шаг"@);
            assert("then"@.len() != "шаг"@.len());
            assert("then"@ != "шаг"@);
            assert("иначе"@.len() != "шаг"@.len());
            assert("иначе"@ != "шаг"@);
            assert("else"@.len() != "шаг"@.len());
            assert("else"@ != "шаг"@);
            assert("все"@[0] != "шаг"@[0]);
            assert("все"@ != "шаг"@);
            assert("fi"@.len() != "шаг"@.len());
            assert("fi"@ != "шаг"@);
            assert("выбор"@.len() != "шаг"@.len());
            assert("выбор"@ != "шаг"@);
            assert("switch"@.len() != "шаг"@.len());
            assert("switch"@ != "шаг"@);
            assert("при"@[0] != "шаг"@[0]);
            assert("при"@ != "шаг"@);
            assert("case"@.len() != "шаг"@.len());
            assert("case"@ != "шаг"@);
            assert("нц"@.len() != "шаг"@.len());
            assert("нц"@ != "шаг"@);
            assert("loop"@.len() != "шаг"@.len());
            assert("loop"@ != "шаг"@);
            assert("кц"@.len() != "шаг"@.len());
            assert("кц"@ != "шаг"@);
            assert("endloop"@.len() != "шаг"@.len());
            assert("endloop"@ != "шаг"@);
            assert("пока"@.len() != "шаг"@.len());
            assert("пока"@ != "шаг"@);
            assert("while"@.len() != "шаг"@.len());
            assert("while"@ != "шаг"@);
            assert("для"@[0] != "шаг"@[0]);
            assert("для"@ != "шаг"@);
            assert("for"@[0] != "шаг"@[0]);
            assert("for"@ != "шаг"@);
            assert("от"@.len() != "шаг"@.len());
            assert("от"@ != "шаг"@);
            assert("from"@.len() != "шаг"@.len());
            assert("from"@ != "шаг"@);
            assert("до"@.len() != "шаг"@.len());
            assert("до"@ != "шаг"@);
            assert("to"@.len() != "шаг"@.len());
            assert("to"@ != "шаг"@);
            assert(keyword_of("шаг"@) == Some(Token::Step));
        },
        Token::Times => {
            reveal_strlit("алг");
            reveal_strlit("alg");
            reveal_strlit("нач");
            reveal_strlit("begin");
            reveal_strlit("кон");
            reveal_strlit("end");
            reveal_strlit("если");
            reveal_strlit("if");
            reveal_strlit("то");
            reveal_strlit("then");
            reveal_strlit("иначе");
            reveal_strlit("else");
            reveal_strlit("все");
            reveal_strlit("fi");
            reveal_strlit("выбор");
            reveal_strlit("switch");
            reveal_strlit("при");
            reveal_strlit("case");
            reveal_strlit("нц");
            reveal_strlit("loop");
            reveal_strlit("кц");
            reveal_strlit("endloop");
            reveal_strlit("пока");
            reveal_strlit("while");
            reveal_strlit("для");
            reveal_strlit("for");
            reveal_strlit("от");
            reveal_strlit("from");
            reveal_strlit("до");
            reveal_strlit("to");
            reveal_strlit("шаг");
            reveal_strlit("step");
            reveal_strlit("раз");
            assert("алг"@[0] != "раз"@[0]);
            assert("алг"@ != "раз"@);
            assert("alg"@[0] != "раз"@[0]);
            assert("alg"@ != "раз"@);
            assert("нач"@[0] != "раз"@[0]);
            assert("нач"@ != "раз"@);
            assert("begin"@.len() != "раз"@.len());
            assert("begin"@ != "раз"@);
            assert("кон"@[0] != "раз"@[0]);
            assert("кон"@ != "раз"@);
            assert("end"@[0] != "раз"@[0]);
            assert("end"@ != "раз"@);
            assert("если"@.len() != "раз"@.len());
            assert("если"@ != "раз"@);
            assert("if"@.len() != "раз"@.len());
            assert("if"@ != "раз"@);
            assert("то"@.len() != "раз"@.len());
            assert("то"@ != "раз"@);
            assert("then"@.len() != "раз"@.len());
            assert("then"@ != "раз"@);
            assert("иначе"@.len() != "раз"@.len());
            assert("иначе"@ != "раз"@);
            assert("else"@.len() != "раз"@.len());
            assert("else"@ != "раз"@);
            assert("все"@[0] != "раз"@[0]);
            assert("все"@ != "раз"@);
            assert("fi"@.len() != "раз"@.len());
            assert("fi"@ != "раз"@);
            assert("выбор"@.len() != "раз"@.len());
            assert("выбор"@ != "раз"@);
            assert("switch"@.len() != "раз"@.len());
            assert("switch"@ != "раз"@);
            assert("при"@[0] != "раз"@[0]);
            assert("при"@ != "раз"@);
            assert("case"@.len() != "раз"@.len());
            assert("case"@ != "раз"@);
            assert("нц"@.len() != "раз"@.len());
            assert("нц"@ != "раз"@);
            assert("loop"@.len() != "раз"@.len());
            assert("loop"@ != "раз"@);
            assert("кц"@.len() != "раз"@.len());
            assert("кц"@ != "раз"@);
            assert("endloop"@.len() != "раз"@.len());
            assert("endloop"@ != "раз"@);
            assert("пока"@.len() != "раз"@.len());
            assert("пока"@ != "раз"@);
            assert("while"@.len() != "раз"@.len());
            assert("while"@ != "раз"@);
            assert("для"@[0] != "раз"@[0]);
            assert("для"@ != "раз"@);
            assert("for"@[0] != "раз"@[0]);
            assert("for"@ != "раз"@);
            assert("от"@.len() != "раз"@.len());
            assert("от"@ != "раз"@);
            assert("from"@.len() != "раз"@.len());
            assert("from"@ != "раз"@);
            assert("до"@.len() != "раз"@.len());
            assert("до"@ != "раз"@);
            assert("to"@.len() != "раз"@.len());
            assert("to"@ != "раз"@);
            assert("шаг"@[0] != "раз"@[0]);
            assert("шаг"@ != "раз"@);
            assert("step"@.len() != "раз"@.len());
            assert("step"@ != "раз"@);
            assert(keyword_of("раз"@) == Some(Token::Times));
        },
        Token::Exit => {
            reveal_strlit("алг");
            reveal_strlit("alg");
            reveal_strlit("нач");
            reveal_strlit("begin");
            reveal_strlit("кон");
            reveal_strlit("end");
            reveal_strlit("если");
            reveal_strlit("if");
            reveal_strlit("то");
            reveal_strlit("then");
            reveal_strlit("иначе");
            reveal_strlit("else");
            reveal_strlit("все");
            reveal_strlit("fi");
            reveal_strlit("выбор");
            reveal_strlit("switch");
            reveal_strlit("при");
            reveal_strlit("case");
            reveal_strlit("нц");
            reveal_strlit("loop");
            reveal_strlit("кц");
            reveal_strlit("endloop");
            reveal_strlit("пока");
            reveal_strlit("while");
            reveal_strlit("для");
            reveal_strlit("for");
            reveal_strlit("от");
            reveal_strlit("from");
            reveal_strlit("до");
            reveal_strlit("to");
            reveal_strlit("шаг");
            reveal_strlit("step");
            reveal_strlit("раз");
            reveal_strlit("times");
            reveal_strlit("выход");
            assert("алг"@.len() != "выход"@.len());
            assert("алг"@ != "выход"@);
            assert("alg"@.len() != "выход"@.len());
            assert("alg"@ != "выход"@);
            assert("нач"@.len() != "выход"@.len());
            assert("нач"@ != "выход"@);
            assert("begin"@[0] != "выход"@[0]);
            assert("begin"@ != "выход"@);
            assert("кон"@.len() != "выход"@.len());
            assert("кон"@ != "выход"@);
            assert("end"@.len() != "выход"@.len());
            assert("end"@ != "выход"@);
            assert("если"@.len() != "выход"@.len());
            assert("если"@ != "выход"@);
            assert("if"@.len() != "выход"@.len());
            assert("if"@ != "выход"@);
            assert("то"@.len() != "выход"@.len());
            assert("то"@ != "выход"@);
            assert("then"@.len() != "выход"@.len());
            assert("then"@ != "выход"@);
            assert("иначе"@[0] != "выход"@[0]);
            assert("иначе"@ != "выход"@);
            assert("else"@.len() != "выход"@.len());
            assert("else"@ != "выход"@);
            assert("все"@.len() != "выход"@.len());
            assert("все"@ != "выход"@);
            assert("fi"@.len() != "выход"@.len());
            assert("fi"@ != "выход"@);
            assert("выбор"@[2] != "выход"@[2]);
            assert("выбор"@ != "выход"@);
            assert("switch"@.len() != "выход"@.len());
            assert("switch"@ != "выход"@);
            assert("при"@.len() != "выход"@.len());
            assert("при"@ != "выход"@);
            assert("case"@.len() != "выход"@.len());
            assert("case"@ != "выход"@);
            assert("нц"@.len() != "выход"@.len());
            assert("нц"@ != "выход"@);
            assert("loop"@.len() != "выход"@.len());
            assert("loop"@ != "выход"@);
            assert("кц"@.len() != "выход"@.len());
            assert("кц"@ != "выход"@);
            assert("endloop"@.len() != "выход"@.len());
            assert("endloop"@ != "выход"@);
            assert("пока"@.len() != "выход"@.len());
            assert("пока"@ != "выход"@);
            assert("while"@[0] != "выход"@[0]);
            assert("while"@ != "выход"@);
            assert("для"@.len() != "выход"@.len());
            assert("для"@ != "выход"@);
            assert("for"@.len() != "выход"@.len());
            assert("for"@ != "выход"@);
            assert("от"@.len() != "выход"@.len());
            assert("от"@ != "выход"@);
            assert("from"@.len() != "выход"@.len());
            assert("from"@ != "выход"@);
            assert("до"@.len() != "выход"@.len());
            assert("до"@ != "выход"@);
            assert("to"@.len() != "выход"@.len());
            assert("to"@ != "выход"@);
            assert("шаг"@.len() != "выход"@.len());
            assert("шаг"@ != "выход"@);
            assert("step"@.len() != "выход"@.len());
            assert("step"@ != "выход"@);
            assert("раз"@.len() != "выход"@.len());
            assert("раз"@ != "выход"@);
            assert("times"@[0] != "выход"@[0]);
            assert("times"@ != "выход"@);
            assert(keyword_of("выход"@) == Some(Token::Exit));
        },
        Token::Input => {
            reveal_strlit("алг");
            reveal_strlit("alg");
            reveal_strlit("нач");
            reveal_strlit("begin");
            reveal_strlit("кон");
            reveal_strlit("end");
            reveal_strlit("если");
            reveal_strlit("if");
            reveal_strlit("то");
            reveal_strlit("then");
            reveal_strlit("иначе");
            reveal_strlit("else");
            reveal_strlit("все");
            reveal_strlit("fi");
            reveal_strlit("выбор");
            reveal_strlit("switch");
            reveal_strlit("при");
            reveal_strlit("case");
            reveal_strlit("нц");
            reveal_strlit("loop");
            reveal_strlit("кц");
            reveal_strlit("endloop");
            reveal_strlit("пока");
            reveal_strlit("while");
            reveal_strlit("для");
            reveal_strlit("for");
            reveal_strlit("от");
            reveal_strlit("from");
            reveal_strlit("до");
            reveal_strlit("to");
            reveal_strlit("шаг");
            reveal_strlit("step");
            reveal_strlit("раз");
            reveal_strlit("times");
            reveal_strlit("выход");
            reveal_strlit("exit");
            reveal_strlit("ввод");
            assert("алг"@.len() != "ввод"@.len());
            assert("алг"@ != "ввод"@);
            assert("alg"@.len() != "ввод"@.len());
            assert("alg"@ != "ввод"@);
            assert("нач"@.len() != "ввод"@.len());
            assert("нач"@ != "ввод"@);
            assert("begin"@.len() != "ввод"@.len());
            assert("begin"@ != "ввод"@);
            assert("кон"@.len() != "ввод"@.len());
            assert("кон"@ != "ввод"@);
            assert("end"@.len() != "ввод"@.len());
            assert("end"@ != "ввод"@);
            assert("если"@[0] != "ввод"@[0]);
            assert("если"@ != "ввод"@);
            assert("if"@.len() != "ввод"@.len());
            assert("if"@ != "ввод"@);
            assert("то"@.len() != "ввод"@.len());
            assert("то"@ != "ввод"@);
            assert("then"@[0] != "ввод"@[0]);
            assert("then"@ != "ввод"@);
            assert("иначе"@.len() != "ввод"@.len());
            assert("иначе"@ != "ввод"@);
            assert("else"@[0] != "ввод"@[0]);
            assert("else"@ != "ввод"@);
            assert("все"@.len() != "ввод"@.len());
            assert("все"@ != "ввод"@);
            assert("fi"@.len() != "ввод"@.len());
            assert("fi"@ != "ввод"@);
            assert("выбор"@.len() != "ввод"@.len());
            assert("выбор"@ != "ввод"@);
            assert("switch"@.len() != "ввод"@.len());
            assert("switch"@ != "ввод"@);
            assert("при"@.len() != "ввод"@.len());
            assert("при"@ != "ввод"@);
            assert("case"@[0] != "ввод"@[0]);
            assert("case"@ != "ввод"@);
            assert("нц"@.len() != "ввод"@.len());
            assert("нц"@ != "ввод"@);
            assert("loop"@[0] != "ввод"@[0]);
            assert("loop"@ != "ввод"@);
            assert("кц"@.len() != "ввод"@.len());
            assert("кц"@ != "ввод"@);
            assert("endloop"@.len() != "ввод"@.len());
            assert("endloop"@ != "ввод"@);
            assert("пока"@[0] != "ввод"@[0]);
            assert("пока"@ != "ввод"@);
            assert("while"@.len() != "ввод"@.len());
            assert("while"@ != "ввод"@);
            assert("для"@.len() != "ввод"@.len());
            assert("для"@ != "ввод"@);
            assert("for"@.len() != "ввод"@.len());
            assert("for"@ != "ввод"@);
            assert("от"@.len() != "ввод"@.len());
            assert("от"@ != "ввод"@);
            assert("from"@[0] != "ввод"@[0]);
            assert("from"@ != "ввод"@);
            assert("до"@.len() != "ввод"@.len());
            assert("до"@ != "ввод"@);
            assert("to"@.len() != "ввод"@.len());
            assert("to"@ != "ввод"@);
            assert("шаг"@.len() != "ввод"@.len());
            assert("шаг"@ != "ввод"@);
            assert("step"@[0] != "ввод"@[0]);
            assert("step"@ != "ввод"@);
            assert("раз"@.len() != "ввод"@.len());
            assert("раз"@ != "ввод"@);
            assert("times"@.len() != "ввод"@.len());
            assert("times"@ != "ввод"@);
            assert("выход"@.len() != "ввод"@.len());
            assert("выход"@ != "ввод"@);
            assert("exit"@[0] != "ввод"@[0]);
            assert("exit"@ != "ввод"@);
            assert(keyword_of("ввод"@) == Some(Token::Input));
        },
        Token::Output => {
            reveal_strlit("алг");
            reveal_strlit("alg");
            reveal_strlit("нач");
            reveal_strlit("begin");
            reveal_strlit("кон");
            reveal_strlit("end");
            reveal_strlit("если");
            reveal_strlit("if");
            reveal_strlit("то");
            reveal_strlit("then");
            reveal_strlit("иначе");
            reveal_strlit("else");
            reveal_strlit("все");
            reveal_strlit("fi");
            reveal_strlit("выбор");
            reveal_strlit("switch");
            reveal_strlit("при");
            reveal_strlit("case");
            reveal_strlit("нц");
            reveal_strlit("loop");
            reveal_strlit("кц");
            reveal_strlit("endloop");
            reveal_strlit("пока");
            reveal_strlit("while");
            reveal_strlit("для");
            reveal_strlit("for");
            reveal_strlit("от");
            reveal_strlit("from");
            reveal_strlit("до");
            reveal_strlit("to");
            reveal_strlit("шаг");
            reveal_strlit("step");
            reveal_strlit("раз");
            reveal_strlit("times");
            reveal_strlit("выход");
            reveal_strlit("exit");
            reveal_strlit("ввод");
            reveal_strlit("input");
            reveal_strlit("вывод");
            assert("алг"@.len() != "вывод"@.len());
            assert("алг"@ != "вывод"@);
            assert("alg"@.len() != "вывод"@.len());
            assert("alg"@ != "вывод"@);
            assert("нач"@.len() != "вывод"@.len());
            assert("нач"@ != "вывод"@);
            assert("begin"@[0] != "вывод"@[0]);
            assert("begin"@ != "вывод"@);
            assert("кон"@.len() != "вывод"@.len());
            assert("кон"@ != "вывод"@);
            assert("end"@.len() != "вывод"@.len());
            assert("end"@ != "вывод"@);
            assert("если"@.len() != "вывод"@.len());
            assert("если"@ != "вывод"@);
            assert("if"@.len() != "вывод"@.len());
            assert("if"@ != "вывод"@);
            assert("то"@.len() != "вывод"@.len());
            assert("то"@ != "вывод"@);
            assert("then"@.len() != "вывод"@.len());
            assert("then"@ != "вывод"@);
            assert("иначе"@[0] != "вывод"@[0]);
            assert("иначе"@ != "вывод"@);
            assert("else"@.len() != "вывод"@.len());
            assert("else"@ != "вывод"@);
            assert("все"@.len() != "вывод"@.len());
            assert("все"@ != "вывод"@);
            assert("fi"@.len() != "вывод"@.len());
            assert("fi"@ != "вывод"@);
            assert("выбор"@[2] != "вывод"@[2]);
            assert("выбор"@ != "вывод"@);
            assert("switch"@.len() != "вывод"@.len());
            assert("switch"@ != "вывод"@);
            assert("при"@.len() != "вывод"@.len());
            assert("при"@ != "вывод"@);
            assert("case"@.len() != "вывод"@.len());
            assert("case"@ != "вывод"@);
            assert("нц"@.len() != "вывод"@.len());
            assert("нц"@ != "вывод"@);
            assert("loop"@.len() != "вывод"@.len());
            assert("loop"@ != "вывод"@);
            assert("кц"@.len() != "вывод"@.len());
            assert("кц"@ != "вывод"@);
            assert("endloop"@.len() != "вывод"@.len());
            assert("endloop"@ != "вывод"@);
            assert("пока"@.len() != "вывод"@.len());
            assert("пока"@ != "вывод"@);
            assert("while"@[0] != "вывод"@[0]);
            assert("while"@ != "вывод"@);
            assert("для"@.len() != "вывод"@.len());
            assert("для"@ != "вывод"@);
            assert("for"@.len() != "вывод"@.len());
            assert("for"@ != "вывод"@);
            assert("от"@.len() != "вывод"@.len());
            assert("от"@ != "вывод"@);
            assert("from"@.len() != "вывод"@.len());
            assert("from"@ != "вывод"@);
            assert("до"@.len() != "вывод"@.len());
            assert("до"@ != "вывод"@);
            assert("to"@.len() != "вывод"@.len());
            assert("to"@ != "вывод"@);
            assert("шаг"@.len() != "вывод"@.len());
            assert("шаг"@ != "вывод"@);
            assert("step"@.len() != "вывод"@.len());
            assert("step"@ != "вывод"@);
            assert("раз"@.len() != "вывод"@.len());
            assert("раз"@ != "вывод"@);
            assert("times"@[0] != "вывод"@[0]);
            assert("times"@ != "вывод"@);
            assert("выход"@[2] != "вывод"@[2]);
            assert("выход"@ != "вывод"@);
            assert("exit"@.len() != "вывод"@.len());
            assert("exit"@ != "вывод"@);
            assert("ввод"@.len() != "вывод"@.len());
            assert("ввод"@ != "вывод"@);
            assert("input"@[0] != "вывод"@[0]);
            assert("input"@ != "вывод"@);
            assert(keyword_of("вывод"@) == Some(Token::Output));
        },
        Token::Arg => {
            reveal_strlit("алг");
            reveal_strlit("alg");
            reveal_strlit("нач");
            reveal_strlit("begin");
            reveal_strlit("кон");
            reveal_strlit("end");
            reveal_strlit("если");
            reveal_strlit("if");
            reveal_strlit("то");
            reveal_strlit("then");
            reveal_strlit("иначе");
            reveal_strlit("else");
            reveal_strlit("все");
            reveal_strlit("fi");
            reveal_strlit("выбор");
            reveal_strlit("switch");
            reveal_strlit("при");
            reveal_strlit("case");
            reveal_strlit("нц");
            reveal_strlit("loop");
            reveal_strlit("кц");
            reveal_strlit("endloop");
            reveal_strlit("пока");
            reveal_strlit("while");
            reveal_strlit("для");
            reveal_strlit("for");
            reveal_strlit("от");
            reveal_strlit("from");
            reveal_strlit("до");
            reveal_strlit("to");
            reveal_strlit("шаг");
            reveal_strlit("step");
            reveal_strlit("раз");
            reveal_strlit("times");
            reveal_strlit("выход");
            reveal_strlit("exit");
            reveal_strlit("ввод");
            reveal_strlit("input");
            reveal_strlit("вывод");
            reveal_strlit("output");
            reveal_strlit("арг");
            assert("алг"@[1] != "арг"@[1]);
            assert("алг"@ != "арг"@);
            assert("alg"@[0] != "арг"@[0]);
            assert("alg"@ != "арг"@);
            assert("нач"@[0] != "арг"@[0]);
            assert("нач"@ != "арг"@);
            assert("begin"@.len() != "арг"@.len());
            assert("begin"@ != "арг"@);
            assert("кон"@[0] != "арг"@[0]);
            assert("кон"@ != "арг"@);
            assert("end"@[0] != "арг"@[0]);
            assert("end"@ != "арг"@);
            assert("если"@.len() != "арг"@.len());
            assert("если"@ != "арг"@);
            assert("if"@.len() != "арг"@.len());
            assert("if"@ != "арг"@);
            assert("то"@.len() != "арг"@.len());
            assert("то"@ != "арг"@);
            assert("then"@.len() != "арг"@.len());
            assert("then"@ != "арг"@);
            assert("иначе"@.len() != "арг"@.len());
            assert("иначе"@ != "арг"@);
            assert("else"@.len() != "арг"@.len());
            assert("else"@ != "арг"@);
            assert("все"@[0] != "арг"@[0]);
            assert("все"@ != "арг"@);
            assert("fi"@.len() != "арг"@.len());
            assert("fi"@ != "арг"@);
            assert("выбор"@.len() != "арг"@.len());
            assert("выбор"@ != "арг"@);
            assert("switch"@.len() != "арг"@.len());
            assert("switch"@ != "арг"@);
            assert("при"@[0] != "арг"@[0]);
            assert("при"@ != "арг"@);
            assert("case"@.len() != "арг"@.len());
            assert("case"@ != "арг"@);
            assert("нц"@.len() != "арг"@.len());
            assert("нц"@ != "арг"@);
            assert("loop"@.len() != "арг"@.len());
            assert("loop"@ != "арг"@);
            assert("кц"@.len() != "арг"@.len());
            assert("кц"@ != "арг"@);
            assert("endloop"@.len() != "арг"@.len());
            assert("endloop"@ != "арг"@);
            assert("пока"@.len() != "арг"@.len());
            assert("пока"@ != "арг"@);
            assert("while"@.len() != "арг"@.len());
            assert("while"@ != "арг"@);
            assert("для"@[0] != "арг"@[0]);
            assert("для"@ != "арг"@);
            assert("for"@[0] != "арг"@[0]);
            assert("for"@ != "арг"@);
            assert("от"@.len() != "арг"@.len());
            assert("от"@ != "арг"@);
            assert("from"@.len() != "арг"@.len());
            assert("from"@ != "арг"@);
            assert("до"@.len() != "арг"@.len());
            assert("до"@ != "арг"@);
            assert("to"@.len() != "арг"@.len());
            assert("to"@ != "арг"@);
            assert("шаг"@[0] != "арг"@[0]);
            assert("шаг"@ != "арг"@);
            assert("step"@.len() != "арг"@.len());
            assert("step"@ != "арг"@);
            assert("раз"@[0] != "арг"@[0]);
            assert("раз"@ != "арг"@);
            assert("times"@.len() != "арг"@.len());
            assert("times"@ != "арг"@);
            assert("выход"@.len() != "арг"@.len());
            assert("выход"@ != "арг"@);
            assert("exit"@.len() != "арг"@.len());
            assert("exit"@ != "арг"@);
            assert("ввод"@.len() != "арг"@.len());
            assert("ввод"@ != "арг"@);
            assert("input"@.len() != "арг"@.len());
            assert("input"@ != "арг"@);
            assert("вывод"@.len() != "арг"@.len());
            assert("вывод"@ != "арг"@);
            assert("output"@.len() != "арг"@.len());
            assert("output"@ != "арг"@);
            assert(keyword_of("арг"@) == Some(Token::Arg));
        },
        Token::Res => {
            reveal_strlit("алг");
            reveal_strlit("alg");
            reveal_strlit("нач");
            reveal_strlit("begin");
            reveal_strlit("кон");
            reveal_strlit("end");
            reveal_strlit("если");
            reveal_strlit("if");
            reveal_strlit("то");
            reveal_strlit("then");
            reveal_strlit("иначе");
            reveal_strlit("else");
            reveal_strlit("все");
            reveal_strlit("fi");
            reveal_strlit("выбор");
            reveal_strlit("switch");
            reveal_strlit("при");
            reveal_strlit("case");
            reveal_strlit("нц");
            reveal_strlit("loop");
            reveal_strlit("кц");
            reveal_strlit("endloop");
            reveal_strlit("пока");
            reveal_strlit("while");
            reveal_strlit("для");
            reveal_strlit("for");
            reveal_strlit("от");
            reveal_strlit("from");
            reveal_strlit("до");
            reveal_strlit("to");
            reveal_strlit("шаг");
            reveal_strlit("step");
            reveal_strlit("раз");
            reveal_strlit("times");
            reveal_strlit("выход");
            reveal_strlit("exit");
            reveal_strlit("ввод");
            reveal_strlit("input");
            reveal_strlit("вывод");
            reveal_strlit("output");
            reveal_strlit("арг");
            reveal_strlit("рез");
            assert("алг"@[0] != "рез"@[0]);
            assert("алг"@ != "рез"@);
            assert("alg"@[0] != "рез"@[0]);
            assert("alg"@ != "рез"@);
            assert("нач"@[0] != "рез"@[0]);
            assert("нач"@ != "рез"@);
            assert("begin"@.len() != "рез"@.len());
            assert("begin"@ != "рез"@);
            assert("кон"@[0] != "рез"@[0]);
            assert("кон"@ != "рез"@);
            assert("end"@[0] != "рез"@[0]);
            assert("end"@ != "рез"@);
            assert("если"@.len() != "рез"@.len());
            assert("если"@ != "рез"@);
            assert("if"@.len() != "рез"@.len());
            assert("if"@ != "рез"@);
            assert("то"@.len() != "рез"@.len());
            assert("то"@ != "рез"@);
            assert("then"@.len() != "рез"@.len());
            assert("then"@ != "рез"@);
            assert("иначе"@.len() != "рез"@.len());
            assert("иначе"@ != "рез"@);
            assert("else"@.len() != "рез"@.len());
            assert("else"@ != "рез"@);
            assert("все"@[0] != "рез"@[0]);
            assert("все"@ != "рез"@);
            assert("fi"@.len() != "рез"@.len());
            assert("fi"@ != "рез"@);
            assert("выбор"@.len() != "рез"@.len());
            assert("выбор"@ != "рез"@);
            assert("switch"@.len() != "рез"@.len());
            assert("switch"@ != "рез"@);
            assert("при"@[0] != "рез"@[0]);
            assert("при"@ != "рез"@);
            assert("case"@.len() != "рез"@.len());
            assert("case"@ != "рез"@);
            assert("нц"@.len() != "рез"@.len());
            assert("нц"@ != "рез"@);
            assert("loop"@.len() != "рез"@.len());
            assert("loop"@ != "рез"@);
            assert("кц"@.len() != "рез"@.len());
            assert("кц"@ != "рез"@);
            assert("endloop"@.len() != "рез"@.len());
            assert("endloop"@ != "рез"@);
            assert("пока"@.len() != "рез"@.len());
            assert("пока"@ != "рез"@);
            assert("while"@.len() != "рез"@.len());
            assert("while"@ != "рез"@);
            assert("для"@[0] != "рез"@[0]);
            assert("для"@ != "рез"@);
            assert("for"@[0] != "рез"@[0]);
            assert("for"@ != "рез"@);
            assert("от"@.len() != "рез"@.len());
            assert("от"@ != "рез"@);
            assert("from"@.len() != "рез"@.len());
            assert("from"@ != "рез"@);
            assert("до"@.len() != "рез"@.len());
            assert("до"@ != "рез"@);
            assert("to"@.len() != "рез"@.len());
            assert("to"@ != "рез"@);
            assert("шаг"@[0] != "рез"@[0]);
            assert("шаг"@ != "рез"@);
            assert("step"@.len() != "рез"@.len());
            assert("step"@ != "рез"@);
            assert("раз"@[1] != "рез"@[1]);
            assert("раз"@ != "рез"@);
            assert("times"@.len() != "рез"@.len());
            assert("times"@ != "рез"@);
            assert("выход"@.len() != "рез"@.len());
            assert("выход"@ != "рез"@);
            assert("exit"@.len() != "рез"@.len());
            assert("exit"@ != "рез"@);
            assert("ввод"@.len() != "рез"@.len());
            assert("ввод"@ != "рез"@);
            assert("input"@.len() != "рез"@.len());
            assert("input"@ != "рез"@);
            assert("вывод"@.len() != "рез"@.len());
            assert("вывод"@ != "рез"@);
            assert("output"@.len() != "рез"@.len());
            assert("output"@ != "рез"@);
            assert("арг"@[0] != "рез"@[0]);
            assert("арг"@ != "рез"@);
            assert(keyword_of("рез"@) == Some(Token::Res));
        },
        Token::ArgRes => {
            reveal_strlit("алг");
            reveal_strlit("alg");
            reveal_strlit("нач");
            reveal_strlit("begin");
            reveal_strlit("кон");
            reveal_strlit("end");
            reveal_strlit("если");
            reveal_strlit("if");
            reveal_strlit("то");
            reveal_strlit("then");
            reveal_strlit("иначе");
            reveal_strlit("else");
            reveal_strlit("все");
            reveal_strlit("fi");
            reveal_strlit("выбор");
            reveal_strlit("switch");
            reveal_strlit("при");
            reveal_strlit("case");
            reveal_strlit("нц");
            reveal_strlit("loop");
            reveal_strlit("кц");
            reveal_strlit("endloop");
            reveal_strlit("пока");
            reveal_strlit("while");
            reveal_strlit("для");
            reveal_strlit("for");
            reveal_strlit("от");
            reveal_strlit("from");
            reveal_strlit("до");
            reveal_strlit("to");
            reveal_strlit("шаг");
            reveal_strlit("step");
            reveal_strlit("раз");
            reveal_strlit("times");
            reveal_strlit("выход");
            reveal_strlit("exit");
            reveal_strlit("ввод");
            reveal_strlit("input");
            reveal_strlit("вывод");
            reveal_strlit("output");
            reveal_strlit("арг");
            reveal_strlit("рез");
            reveal_strlit("аргрез");
            assert("алг"@.len() != "аргрез"@.len());
            assert("алг"@ != "аргрез"@);
            assert("alg"@.len() != "аргрез"@.len());
            assert("alg"@ != "аргрез"@);
            assert("нач"@.len() != "аргрез"@.len());
            assert("нач"@ != "аргрез"@);
            assert("begin"@.len() != "аргрез"@.len());
            assert("begin"@ != "аргрез"@);
            assert("кон"@.len() != "аргрез"@.len());
            assert("кон"@ != "аргрез"@);
            assert("end"@.len() != "аргрез"@.len());
            assert("end"@ != "аргрез"@);
            assert("если"@.len() != "аргрез"@.len());
            assert("если"@ != "аргрез"@);
            assert("if"@.len() != "аргрез"@.len());
            assert("if"@ != "аргрез"@);
            assert("то"@.len() != "аргрез"@.len());
            assert("то"@ != "аргрез"@);
            assert("then"@.len() != "аргрез"@.len());
            assert("then"@ != "аргрез"@);
            assert("иначе"@.len() != "аргрез"@.len());
            assert("иначе"@ != "аргрез"@);
            assert("else"@.len() != "аргрез"@.len());
            assert("else"@ != "аргрез"@);
            assert("все"@.len() != "аргрез"@.len());
            assert("все"@ != "аргрез"@);
            assert("fi"@.len() != "аргрез"@.len());
            assert("fi"@ != "аргрез"@);
            assert("выбор"@.len() != "аргрез"@.len());
            assert("выбор"@ != "аргрез"@);
            assert("switch"@[0] != "аргрез"@[0]);
            assert("switch"@ != "аргрез"@);
            assert("при"@.len() != "аргрез"@.len());
            assert("при"@ != "аргрез"@);
            assert("case"@.len() != "аргрез"@.len());
            assert("case"@ != "аргрез"@);
            assert("нц"@.len() != "аргрез"@.len());
            assert("нц"@ != "аргрез"@);
            assert("loop"@.len() != "аргрез"@.len());
            assert("loop"@ != "аргрез"@);
            assert("кц"@.len() != "аргрез"@.len());
            assert("кц"@ != "аргрез"@);
            assert("endloop"@.len() != "аргрез"@.len());
            assert("endloop"@ != "аргрез"@);
            assert("пока"@.len() != "аргрез"@.len());
            assert("пока"@ != "аргрез"@);
            assert("while"@.len() != "аргрез"@.len());
            assert("while"@ != "аргрез"@);
            assert("для"@.len() != "аргрез"@.len());
            assert("для"@ != "аргрез"@);
            assert("for"@.len() != "аргрез"@.len());
            assert("for"@ != "аргрез"@);
            assert("от"@.len() != "аргрез"@.len());
            assert("от"@ != "аргрез"@);
            assert("from"@.len() != "аргрез"@.len());
            assert("from"@ != "аргрез"@);
            assert("до"@.len() != "аргрез"@.len());
            assert("до"@ != "аргрез"@);
            assert("to"@.len() != "аргрез"@.len());
            assert("to"@ != "аргрез"@);
            assert("шаг"@.len() != "аргрез"@.len());
            assert("шаг"@ != "аргрез"@);
            assert("step"@.len() != "аргрез"@.len());
            assert("step"@ != "аргрез"@);
            assert("раз"@.len() != "аргрез"@.len());
            assert("раз"@ != "аргрез"@);
            assert("times"@.len() != "аргрез"@.len());
            assert("times"@ != "аргрез"@);
            assert("выход"@.len() != "аргрез"@.len());
            assert("выход"@ != "аргрез"@);
            assert("exit"@.len() != "аргрез"@.len());
            assert("exit"@ != "аргрез"@);
            assert("ввод"@.len() != "аргрез"@.len());
            assert("ввод"@ != "аргрез"@);
            assert("input"@.len() != "аргрез"@.len());
            assert("input"@ != "аргрез"@);
            assert("вывод"@.len() != "аргрез"@.len());
            assert("вывод"@ != "аргрез"@);
            assert("output"@[0] != "аргрез"@[0]);
            assert("output"@ != "аргрез"@);
            assert("арг"@.len() != "аргрез"@.len());
            assert("арг"@ != "аргрез"@);
            assert("рез"@.len() != "аргрез"@.len());
            assert("рез"@ != "аргрез"@);
            assert(keyword_of("аргрез"@) == Some(Token::ArgRes));
        },
        Token::Value => {
            reveal_strlit("алг");
            reveal_strlit("alg");
            reveal_strlit("нач");
            reveal_strlit("begin");
            reveal_strlit("кон");
            reveal_strlit("end");
            reveal_strlit("если");
            reveal_strlit("if");
            reveal_strlit("то");
            reveal_strlit("then");
            reveal_strlit("иначе");
            reveal_strlit("else");
            reveal_strlit("все");
            reveal_strlit("fi");
            reveal_strlit("выбор");
            reveal_strlit("switch");
            reveal_strlit("при");
            reveal_strlit("case");
            reveal_strlit("нц");
            reveal_strlit("loop");
            reveal_strlit("кц");
            reveal_strlit("endloop");
            reveal_strlit("пока");
            reveal_strlit("while");
            reveal_strlit("для");
            reveal_strlit("for");
            reveal_strlit("от");
            reveal_strlit("from");
            reveal_strlit("до");
            reveal_strlit("to");
            reveal_strlit("шаг");
            reveal_strlit("step");
            reveal_strlit("раз");
            reveal_strlit("times");
            reveal_strlit("выход");
            reveal_strlit("exit");
            reveal_strlit("ввод");
            reveal_strlit("input");
            reveal_strlit("вывод");
            reveal_strlit("output");
            reveal_strlit("арг");
            reveal_strlit("рез");
            reveal_strlit("аргрез");
            reveal_strlit("знач");
            assert("алг"@.len() != "знач"@.len());
            assert("алг"@ != "знач"@);
            assert("alg"@.len() != "знач"@.len());
            assert("alg"@ != "знач"@);
            assert("нач"@.len() != "знач"@.len());
            assert("нач"@ != "знач"@);
            assert("begin"@.len() != "знач"@.len());
            assert("begin"@ != "знач"@);
            assert("кон"@.len() != "знач"@.len());
            assert("кон"@ != "знач"@);
            assert("end"@.len() != "знач"@.len());
            assert("end"@ != "знач"@);
            assert("если"@[0] != "знач"@[0]);
            assert("если"@ != "знач"@);
            assert("if"@.len() != "знач"@.len());
            assert("if"@ != "знач"@);
            assert("то"@.len() != "знач"@.len());
            assert("то"@ != "знач"@);
            assert("then"@[0] != "знач"@[0]);
            assert("then"@ != "знач"@);
            assert("иначе"@.len() != "знач"@.len());
            assert("иначе"@ != "знач"@);
            assert("else"@[0] != "знач"@[0]);
            assert("else"@ != "знач"@);
            assert("все"@.len() != "знач"@.len());
            assert("все"@ != "знач"@);
            assert("fi"@.len() != "знач"@.len());
            assert("fi"@ != "знач"@);
            assert("выбор"@.len() != "знач"@.len());
            assert("выбор"@ != "знач"@);
            assert("switch"@.len() != "знач"@.len());
            assert("switch"@ != "знач"@);
            assert("при"@.len() != "знач"@.len());
            assert("при"@ != "знач"@);
            assert("case"@[0] != "знач"@[0]);
            assert("case"@ != "знач"@);
            assert("нц"@.len() != "знач"@.len());
            assert("нц"@ != "знач"@);
            assert("loop"@[0] != "знач"@[0]);
            assert("loop"@ != "знач"@);
            assert("кц"@.len() != "знач"@.len());
            assert("кц"@ != "знач"@);
            assert("endloop"@.len() != "знач"@.len());
            assert("endloop"@ != "знач"@);
            assert("пока"@[0] != "знач"@[0]);
            assert("пока"@ != "знач"@);
            assert("while"@.len() != "знач"@.len());
            assert("while"@ != "знач"@);
            assert("для"@.len() != "знач"@.len());
            assert("для"@ != "знач"@);
            assert("for"@.len() != "знач"@.len());
            assert("for"@ != "знач"@);
            assert("от"@.len() != "знач"@.len());
            assert("от"@ != "знач"@);
            assert("from"@[0] != "знач"@[0]);
            assert("from"@ != "знач"@);
            assert("до"@.len() != "знач"@.len());
            assert("до"@ != "знач"@);
            assert("to"@.len() != "знач"@.len());
            assert("to"@ != "знач"@);
            assert("шаг"@.len() != "знач"@.len());
            assert("шаг"@ != "знач"@);
            assert("step"@[0] != "знач"@[0]);
            assert("step"@ != "знач"@);
            assert("раз"@.len() != "знач"@.len());
            assert("раз"@ != "знач"@);
            assert("times"@.len() != "знач"@.len());
            assert("times"@ != "знач"@);
            assert("выход"@.len() != "знач"@.len());
            assert("выход"@ != "знач"@);
            assert("exit"@[0] != "знач"@[0]);
            assert("exit"@ != "знач"@);
            assert("ввод"@[0] != "знач"@[0]);
            assert("ввод"@ != "знач"@);
            assert("input"@.len() != "знач"@.len());
            assert("input"@ != "знач"@);
            assert("вывод"@.len() != "знач"@.len());
            assert("вывод"@ != "знач"@);
            assert("output"@.len() != "знач"@.len());
            assert("output"@ != "знач"@);
            assert("арг"@.len() != "знач"@.len());
            assert("арг"@ != "знач"@);
            assert("рез"@.len() != "знач"@.len());
            assert("рез"@ != "знач"@);
            assert("аргрез"@.len() != "знач"@.len());
            assert("аргрез"@ != "знач"@);
            assert(keyword_of("знач"@) == Some(Token::Value));
        },
        Token::Given => {
            reveal_strlit("алг");
            reveal_strlit("alg");
            reveal_strlit("нач");
            reveal_strlit("begin");
            reveal_strlit("кон");
            reveal_strlit("end");
            reveal_strlit("если");
            reveal_strlit("if");
            reveal_strlit("то");
            reveal_strlit("then");
            reveal_strlit("иначе");
            reveal_strlit("else");
            reveal_strlit("все");
            reveal_strlit("fi");
            reveal_strlit("выбор");
            reveal_strlit("switch");
            reveal_strlit("при");
            reveal_strlit("case");
            reveal_strlit("нц");
            reveal_strlit("loop");
            reveal_strlit("кц");
            reveal_strlit("endloop");
            reveal_strlit("пока");
            reveal_strlit("while");
            reveal_strlit("для");
            reveal_strlit("for");
            reveal_strlit("от");
            reveal_strlit("from");
            reveal_strlit("до");
            reveal_strlit("to");
            reveal_strlit("шаг");
            reveal_strlit("step");
            reveal_strlit("раз");
            reveal_strlit("times");
            reveal_strlit("выход");
            reveal_strlit("exit");
            reveal_strlit("ввод");
            reveal_strlit("input");
            reveal_strlit("вывод");
            reveal_strlit("output");
            reveal_strlit("арг");
            reveal_strlit("рез");
            reveal_strlit("аргрез");
            reveal_strlit("знач");
            reveal_strlit("дано");
            assert("алг"@.len() != "дано"@.len());
            assert("алг"@ != "дано"@);
            assert("alg"@.len() != "дано"@.len());
            assert("alg"@ != "дано"@);
            assert("нач"@.len() != "дано"@.len());
            assert("нач"@ != "дано"@);
            assert("begin"@.len() != "дано"@.len());
            assert("begin"@ != "дано"@);
            assert("кон"@.len() != "дано"@.len());
            assert("кон"@ != "дано"@);
            assert("end"@.len() != "дано"@.len());
            assert("end"@ != "дано"@);
            assert("если"@[0] != "дано"@[0]);
            assert("если"@ != "дано"@);
            assert("if"@.len() != "дано"@.len());
            assert("if"@ != "дано"@);
            assert("то"@.len() != "дано"@.len());
            assert("то"@ != "дано"@);
            assert("then"@[0] != "дано"@[0]);
            assert("then"@ != "дано"@);
            assert("иначе"@.len() != "дано"@.len());
            assert("иначе"@ != "дано"@);
            assert("else"@[0] != "дано"@[0]);
            assert("else"@ != "дано"@);
            assert("все"@.len() != "дано"@.len());
            assert("все"@ != "дано"@);
            assert("fi"@.len() != "дано"@.len());
            assert("fi"@ != "дано"@);
            assert("выбор"@.len() != "дано"@.len());
            assert("выбор"@ != "дано"@);
            assert("switch"@.len() != "дано"@.len());
            assert("switch"@ != "дано"@);
            assert("при"@.len() != "дано"@.len());
            assert("при"@ != "дано"@);
            assert("case"@[0] != "дано"@[0]);
            assert("case"@ != "дано"@);
            assert("нц"@.len() != "дано"@.len());
            assert("нц"@ != "дано"@);
            assert("loop"@[0] != "дано"@[0]);
            assert("loop"@ != "дано"@);
            assert("кц"@.len() != "дано"@.len());
            assert("кц"@ != "дано"@);
            assert("endloop"@.len() != "дано"@.len());
            assert("endloop"@ != "дано"@);
            assert("пока"@[0] != "дано"@[0]);
            assert("пока"@ != "дано"@);
            assert("while"@.len() != "дано"@.len());
            assert("while"@ != "дано"@);
            assert("для"@.len() != "дано"@.len());
            assert("для"@ != "дано"@);
            assert("for"@.len() != "дано"@.len());
            assert("for"@ != "дано"@);
            assert("от"@.len() != "дано"@.len());
            assert("от"@ != "дано"@);
            assert("from"@[0] != "дано"@[0]);
            assert("from"@ != "дано"@);
            assert("до"@.len() != "дано"@.len());
            assert("до"@ != "дано"@);
            assert("to"@.len() != "дано"@.len());
            assert("to"@ != "дано"@);
            assert("шаг"@.len() != "дано"@.len());
            assert("шаг"@ != "дано"@);
            assert("step"@[0] != "дано"@[0]);
            assert("step"@ != "дано"@);
            assert("раз"@.len() != "дано"@.len());
            assert("раз"@ != "дано"@);
            assert("times"@.len() != "дано"@.len());
            assert("times"@ != "дано"@);
            assert("выход"@.len() != "дано"@.len());
            assert("выход"@ != "дано"@);
            assert("exit"@[0] != "дано"@[0]);
            assert("exit"@ != "дано"@);
            assert("ввод"@[0] != "дано"@[0]);
            assert("ввод"@ != "дано"@);
            assert("input"@.len() != "дано"@.len());
            assert("input"@ != "дано"@);
            assert("вывод"@.len() != "дано"@.len());
            assert("вывод"@ != "дано"@);
            assert("output"@.len() != "дано"@.len());
            assert("output"@ != "дано"@);
            assert("арг"@.len() != "дано"@.len());
            assert("арг"@ != "дано"@);
            assert("рез"@.len() != "дано"@.len());
            assert("рез"@ != "дано"@);
            assert("аргрез"@.len() != "дано"@.len());
            assert("аргрез"@ != "дано"@);
            assert("знач"@[0] != "дано"@[0]);
            assert("знач"@ != "дано"@);
            assert(keyword_of("дано"@) == Some(Token::Given));
        },
        Token::Need => {
            reveal_strlit("алг");
            reveal_strlit("alg");
            reveal_strlit("нач");
            reveal_strlit("begin");
            reveal_strlit("кон");
            reveal_strlit("end");
            reveal_strlit("если");
            reveal_strlit("if");
            reveal_strlit("то");
            reveal_strlit("then");
            reveal_strlit("иначе");
            reveal_strlit("else");
            reveal_strlit("все");
            reveal_strlit("fi");
            reveal_strlit("выбор");
            reveal_strlit("switch");
            reveal_strlit("при");
            reveal_strlit("case");
            reveal_strlit("нц");
            reveal_strlit("loop");
            reveal_strlit("кц");
            reveal_strlit("endloop");
            reveal_strlit("пока");
            reveal_strlit("while");
            reveal_strlit("для");
            reveal_strlit("for");
            reveal_strlit("от");
            reveal_strlit("from");
            reveal_strlit("до");
            reveal_strlit("to");
            reveal_strlit("шаг");
            reveal_strlit("step");
            reveal_strlit("раз");
            reveal_strlit("times");
            reveal_strlit("выход");
            reveal_strlit("exit");
            reveal_strlit("ввод");
            reveal_strlit("input");
            reveal_strlit("вывод");
            reveal_strlit("output");
            reveal_strlit("арг");
            reveal_strlit("рез");
            reveal_strlit("аргрез");
            reveal_strlit("знач");
            reveal_strlit("дано");
            reveal_strlit("надо");
            assert("алг"@.len() != "надо"@.len());
            assert("алг"@ != "надо"@);
            assert("alg"@.len() != "надо"@.len());
            assert("alg"@ != "надо"@);
            assert("нач"@.len() != "надо"@.len());
            assert("нач"@ != "надо"@);
            assert("begin"@.len() != "надо"@.len());
            assert("begin"@ != "надо"@);
            assert("кон"@.len() != "надо"@.len());
            assert("кон"@ != "надо"@);
            assert("end"@.len() != "надо"@.len());
            assert("end"@ != "надо"@);
            assert("если"@[0] != "надо"@[0]);
            assert("если"@ != "надо"@);
            assert("if"@.len() != "надо"@.len());
            assert("if"@ != "надо"@);
            assert("то"@.len() != "надо"@.len());
            assert("то"@ != "надо"@);
            assert("then"@[0] != "надо"@[0]);
            assert("then"@ != "надо"@);
            assert("иначе"@.len() != "надо"@.len());
            assert("иначе"@ != "надо"@);
            assert("else"@[0] != "надо"@[0]);
            assert("else"@ != "надо"@);
            assert("все"@.len() != "надо"@.len());
            assert("все"@ != "надо"@);
            assert("fi"@.len() != "надо"@.len());
            assert("fi"@ != "надо"@);
            assert("выбор"@.len() != "надо"@.len());
            assert("выбор"@ != "надо"@);
            assert("switch"@.len() != "надо"@.len());
            assert("switch"@ != "надо"@);
            assert("при"@.len() != "надо"@.len());
            assert("при"@ != "надо"@);
            assert("case"@[0] != "надо"@[0]);
            assert("case"@ != "надо"@);
            assert("нц"@.len() != "надо"@.len());
            assert("нц"@ != "надо"@);
            assert("loop"@[0] != "надо"@[0]);
            assert("loop"@ != "надо"@);
            assert("кц"@.len() != "надо"@.len());
            assert("кц"@ != "надо"@);
            assert("endloop"@.len() != "надо"@.len());
            assert("endloop"@ != "надо"@);
            assert("пока"@[0] != "надо"@[0]);
            assert("пока"@ != "надо"@);
            assert("while"@.len() != "надо"@.len());
            assert("while"@ != "надо"@);
            assert("для"@.len() != "надо"@.len());
            assert("для"@ != "надо"@);
            assert("for"@.len() != "надо"@.len());
            assert("for"@ != "надо"@);
            assert("от"@.len() != "надо"@.len());
            assert("от"@ != "надо"@);
            assert("from"@[0] != "надо"@[0]);
            assert("from"@ != "надо"@);
            assert("до"@.len() != "надо"@.len());
            assert("до"@ != "надо"@);
            assert("to"@.len() != "надо"@.len());
            assert("to"@ != "надо"@);
            assert("шаг"@.len() != "надо"@.len());
            assert("шаг"@ != "надо"@);
            assert("step"@[0] != "надо"@[0]);
            assert("step"@ != "надо"@);
            assert("раз"@.len() != "надо"@.len());
            assert("раз"@ != "надо"@);
            assert("times"@.len() != "надо"@.len());
            assert("times"@ != "надо"@);
            assert("выход"@.len() != "надо"@.len());
            assert("выход"@ != "надо"@);
            assert("exit"@[0] != "надо"@[0]);
            assert("exit"@ != "надо"@);
            assert("ввод"@[0] != "надо"@[0]);
            assert("ввод"@ != "надо"@);
            assert("input"@.len() != "надо"@.len());
            assert("input"@ != "надо"@);
            assert("вывод"@.len() != "надо"@.len());
            assert("вывод"@ != "надо"@);
            assert("output"@.len() != "надо"@.len());
            assert("output"@ != "надо"@);
            assert("арг"@.len() != "надо"@.len());
            assert("арг"@ != "надо"@);
            assert("рез"@.len() != "надо"@.len());
            assert("рез"@ != "надо"@);
            assert("аргрез"@.len() != "надо"@.len());
            assert("аргрез"@ != "надо"@);
            assert("знач"@[0] != "надо"@[0]);
            assert("знач"@ != "надо"@);
            assert("дано"@[0] != "надо"@[0]);
            assert("дано"@ != "надо"@);
            assert(keyword_of("надо"@) == Some(Token::Need));
        },
        Token::Assert => {
            reveal_strlit("алг");
            reveal_strlit("alg");
            reveal_strlit("нач");
            reveal_strlit("begin");
            reveal_strlit("кон");
            reveal_strlit("end");
            reveal_strlit("если");
            reveal_strlit("if");
            reveal_strlit("то");
            reveal_strlit("then");
            reveal_strlit("иначе");
            reveal_strlit("else");
            reveal_strlit("все");
            reveal_strlit("fi");
            reveal_strlit("выбор");
            reveal_strlit("switch");
            reveal_strlit("при");
            reveal_strlit("case");
            reveal_strlit("нц");
            reveal_strlit("loop");
            reveal_strlit("кц");
            reveal_strlit("endloop");
            reveal_strlit("пока");
            reveal_strlit("while");
            reveal_strlit("для");
            reveal_strlit("for");
            reveal_strlit("от");
            reveal_strlit("from");
            reveal_strlit("до");
            reveal_strlit("to");
            reveal_strlit("шаг");
            reveal_strlit("step");
            reveal_strlit("раз");
            reveal_strlit("times");
            reveal_strlit("выход");
            reveal_strlit("exit");
            reveal_strlit("ввод");
            reveal_strlit("input");
            reveal_strlit("вывод");
            reveal_strlit("output");
            reveal_strlit("арг");
            reveal_strlit("рез");
            reveal_strlit("аргрез");
            reveal_strlit("знач");
            reveal_strlit("дано");
            reveal_strlit("надо");
            reveal_strlit("утв");
            assert("алг"@[0] != "утв"@[0]);
            assert("алг"@ != "утв"@);
            assert("alg"@[0] != "утв"@[0]);
            assert("alg"@ != "утв"@);
            assert("нач"@[0] != "утв"@[0]);
            assert("нач"@ != "утв"@);
            assert("begin"@.len() != "утв"@.len());
            assert("begin"@ != "утв"@);
            assert("кон"@[0] != "утв"@[0]);
            assert("кон"@ != "утв"@);
            assert("end"@[0] != "утв"@[0]);
            assert("end"@ != "утв"@);
            assert("если"@.len() != "утв"@.len());
            assert("если"@ != "утв"@);
            assert("if"@.len() != "утв"@.len());
            assert("if"@ != "утв"@);
            assert("то"@.len() != "утв"@.len());
            assert("то"@ != "утв"@);
            assert("then"@.len() != "утв"@.len());
            assert("then"@ != "утв"@);
            assert("иначе"@.len() != "утв"@.len());
            assert("иначе"@ != "утв"@);
            assert("else"@.len() != "утв"@.len());
            assert("else"@ != "утв"@);
            assert("все"@[0] != "утв"@[0]);
            assert("все"@ != "утв"@);
            assert("fi"@.len() != "утв"@.len());
            assert("fi"@ != "утв"@);
            assert("выбор"@.len() != "утв"@.len());
            assert("выбор"@ != "утв"@);
            assert("switch"@.len() != "утв"@.len());
            assert("switch"@ != "утв"@);
            assert("при"@[0] != "утв"@[0]);
            assert("при"@ != "утв"@);
            assert("case"@.len() != "утв"@.len());
            assert("case"@ != "утв"@);
            assert("нц"@.len() != "утв"@.len());
            assert("нц"@ != "утв"@);
            assert("loop"@.len() != "утв"@.len());
            assert("loop"@ != "утв"@);
            assert("кц"@.len() != "утв"@.len());
            assert("кц"@ != "утв"@);
            assert("endloop"@.len() != "утв"@.len());
            assert("endloop"@ != "утв"@);
            assert("пока"@.len() != "утв"@.len());
            assert("пока"@ != "утв"@);
            assert("while"@.len() != "утв"@.len());
            assert("while"@ != "утв"@);
            assert("для"@[0] != "утв"@[0]);
            assert("для"@ != "утв"@);
            assert("for"@[0] != "утв"@[0]);
            assert("for"@ != "утв"@);
            assert("от"@.len() != "утв"@.len());
            assert("от"@ != "утв"@);
            assert("from"@.len() != "утв"@.len());
            assert("from"@ != "утв"@);
            assert("до"@.len() != "утв"@.len());
            assert("до"@ != "утв"@);
            assert("to"@.len() != "утв"@.len());
            assert("to"@ != "утв"@);
            assert("шаг"@[0] != "утв"@[0]);
            assert("шаг"@ != "утв"@);
            assert("step"@.len() != "утв"@.len());
            assert("step"@ != "утв"@);
            assert("раз"@[0] != "утв"@[0]);
            assert("раз"@ != "утв"@);
            assert("times"@.len() != "утв"@.len());
            assert("times"@ != "утв"@);
            assert("выход"@.len() != "утв"@.len());
            assert("выход"@ != "утв"@);
            assert("exit"@.len() != "утв"@.len());
            assert("exit"@ != "утв"@);
            assert("ввод"@.len() != "утв"@.len());
            assert("ввод"@ != "утв"@);
            assert("input"@.len() != "утв"@.len());
            assert("input"@ != "утв"@);
            assert("вывод"@.len() != "утв"@.len());
            assert("вывод"@ != "утв"@);
            assert("output"@.len() != "утв"@.len());
            assert("output"@ != "утв"@);
            assert("арг"@[0] != "утв"@[0]);
            assert("арг"@ != "утв"@);
            assert("рез"@[0] != "утв"@[0]);
            assert("рез"@ != "утв"@);
            assert("аргрез"@.len() != "утв"@.len());
            assert("аргрез"@ != "утв"@);
            assert("знач"@.len() != "утв"@.len());
            assert("знач"@ != "утв"@);
            assert("дано"@.len() != "утв"@.len());
            assert("дано"@ != "утв"@);
            assert("надо"@.len() != "утв"@.len());
            assert("надо"@ != "утв"@);
            assert(keyword_of("утв"@) == Some(Token::Assert));
        },
        Token::Import => {
            reveal_strlit("алг");
            reveal_strlit("alg");
            reveal_strlit("нач");
            reveal_strlit("begin");
            reveal_strlit("кон");
            reveal_strlit("end");
            reveal_strlit("если");
            reveal_strlit("if");
            reveal_strlit("то");
            reveal_strlit("then");
            reveal_strlit("иначе");
            reveal_strlit("else");
            reveal_strlit("все");
            reveal_strlit("fi");
            reveal_strlit("выбор");
            reveal_strlit("switch");
            reveal_strlit("при");
            reveal_strlit("case");
            reveal_strlit("нц");
            reveal_strlit("loop");
            reveal_strlit("кц");
            reveal_strlit("endloop");
            reveal_strlit("пока");
            reveal_strlit("while");
            reveal_strlit("для");
            reveal_strlit("for");
            reveal_strlit("от");
            reveal_strlit("from");
            reveal_strlit("до");
            reveal_strlit("to");
            reveal_strlit("шаг");
            reveal_strlit("step");
            reveal_strlit("раз");
            reveal_strlit("times");
            reveal_strlit("выход");
            reveal_strlit("exit");
            reveal_strlit("ввод");
            reveal_strlit("input");
            reveal_strlit("вывод");
            reveal_strlit("output");
            reveal_strlit("арг");
            reveal_strlit("рез");
            reveal_strlit("аргрез");
            reveal_strlit("знач");
            reveal_strlit("дано");
            reveal_strlit("надо");
            reveal_strlit("утв");
            reveal_strlit("assert");
            reveal_strlit("подключить");
            assert("алг"@.len() != "подключить"@.len());
            assert("алг"@ != "подключить"@);
            assert("alg"@.len() != "подключить"@.len());
            assert("alg"@ != "подключить"@);
            assert("нач"@.len() != "подключить"@.len());
            assert("нач"@ != "подключить"@);
            assert("begin"@.len() != "подключить"@.len());
            assert("begin"@ != "подключить"@);
            assert("кон"@.len() != "подключить"@.len());
            assert("кон"@ != "подключить"@);
            assert("end"@.len() != "подключить"@.len());
            assert("end"@ != "подключить"@);
            assert("если"@.len() != "подключить"@.len());
            assert("если"@ != "подключить"@);
            assert("if"@.len() != "подключить"@.len());
            assert("if"@ != "подключить"@);
            assert("то"@.len() != "подключить"@.len());
            assert("то"@ != "подключить"@);
            assert("then"@.len() != "подключить"@.len());
            assert("then"@ != "подключить"@);
            assert("иначе"@.len() != "подключить"@.len());
            assert("иначе"@ != "подключить"@);
            assert("else"@.len() != "подключить"@.len());
            assert("else"@ != "подключить"@);
            assert("все"@.len() != "подключить"@.len());
            assert("все"@ != "подключить"@);
            assert("fi"@.len() != "подключить"@.len());
            assert("fi"@ != "подключить"@);
            assert("выбор"@.len() != "подключить"@.len());
            assert("выбор"@ != "подключить"@);
            assert("switch"@.len() != "подключить"@.len());
            assert("switch"@ != "подключить"@);
            assert("при"@.len() != "подключить"@.len());
            assert("при"@ != "подключить"@);
            assert("case"@.len() != "подключить"@.len());
            assert("case"@ != "подключить"@);
            assert("нц"@.len() != "подключить"@.len());
            assert("нц"@ != "подключить"@);
            assert("loop"@.len() != "подключить"@.len());
            assert("loop"@ != "подключить"@);
            assert("кц"@.len() != "подключить"@.len());
            assert("кц"@ != "подключить"@);
            assert("endloop"@.len() != "подключить"@.len());
            assert("endloop"@ != "подключить"@);
            assert("пока"@.len() != "подключить"@.len());
            assert("пока"@ != "подключить"@);
            assert("while"@.len() != "подключить"@.len());
            assert("while"@ != "подключить"@);
            assert("для"@.len() != "подключить"@.len());
            assert("для"@ != "подключить"@);
            assert("for"@.len() != "подключить"@.len());
            assert("for"@ != "подключить"@);
            assert("от"@.len() != "подключить"@.len());
            assert("от"@ != "подключить"@);
            assert("from"@.len() != "подключить"@.len());
            assert("from"@ != "подключить"@);
            assert("до"@.len() != "подключить"@.len());
            assert("до"@ != "подключить"@);
            assert("to"@.len() != "подключить"@.len());
            assert("to"@ != "подключить"@);
            assert("шаг"@.len() != "подключить"@.len());
            assert("шаг"@ != "подключить"@);
            assert("step"@.len() != "подключить"@.len());
            assert("step"@ != "подключить"@);
            assert("раз"@.len() != "подключить"@.len());
            assert("раз"@ != "подключить"@);
            assert("times"@.len() != "подключить"@.len());
            assert("times"@ != "подключить"@);
            assert("выход"@.len() != "подключить"@.len());
            assert("выход"@ != "подключить"@);
            assert("exit"@.len() != "подключить"@.len());
            assert("exit"@ != "подключить"@);
            assert("ввод"@.len() != "подключить"@.len());
            assert("ввод"@ != "подключить"@);
            assert("input"@.len() != "подключить"@.len());
            assert("input"@ != "подключить"@);
            assert("вывод"@.len() != "подключить"@.len());
            assert("вывод"@ != "подключить"@);
            assert("output"@.len() != "подключить"@.len());
            assert("output"@ != "подключить"@);
            assert("арг"@.len() != "подключить"@.len());
            assert("арг"@ != "подключить"@);
            assert("рез"@.len() != "подключить"@.len());
            assert("рез"@ != "подключить"@);
            assert("аргрез"@.len() != "подключить"@.len());
            assert("аргрез"@ != "подключить"@);
            assert("знач"@.len() != "подключить"@.len());
            assert("знач"@ != "подключить"@);
            assert("дано"@.len() != "подключить"@.len());
            assert("дано"@ != "подключить"@);
            assert("надо"@.len() != "подключить"@.len());
            assert("надо"@ != "подключить"@);
            assert("утв"@.len() != "подключить"@.len());
            assert("утв"@ != "подключить"@);
            assert("assert"@.len() != "подключить"@.len());
            assert("assert"@ != "подключить"@);
            assert(keyword_of("подключить"@) == Some(Token::Import));
        },
        Token::Use => {
            reveal_strlit("алг");
            reveal_strlit("alg");
            reveal_strlit("нач");
            reveal_strlit("begin");
            reveal_strlit("кон");
            reveal_strlit("end");
            reveal_strlit("если");
            reveal_strlit("if");
            reveal_strlit("то");
            reveal_strlit("then");
            reveal_strlit("иначе");
            reveal_strlit("else");
            reveal_strlit("все");
            reveal_strlit("fi");
            reveal_strlit("выбор");
            reveal_strlit("switch");
            reveal_strlit("при");
            reveal_strlit("case");
            reveal_strlit("нц");
            reveal_strlit("loop");
            reveal_strlit("кц");
            reveal_strlit("endloop");
            reveal_strlit("пока");
            reveal_strlit("while");
            reveal_strlit("для");
            reveal_strlit("for");
            reveal_strlit("от");
            reveal_strlit("from");
            reveal_strlit("до");
            reveal_strlit("to");
            reveal_strlit("шаг");
            reveal_strlit("step");
            reveal_strlit("раз");
            reveal_strlit("times");
            reveal_strlit("выход");
            reveal_strlit("exit");
            reveal_strlit("ввод");
            reveal_strlit("input");
            reveal_strlit("вывод");
            reveal_strlit("output");
            reveal_strlit("арг");
            reveal_strlit("рез");
            reveal_strlit("аргрез");
            reveal_strlit("знач");
            reveal_strlit("дано");
            reveal_strlit("надо");
            reveal_strlit("утв");
            reveal_strlit("assert");
            reveal_strlit("подключить");
            reveal_strlit("import");
            reveal_strlit("использовать");
            assert("алг"@.len() != "использовать"@.len());
            assert("алг"@ != "использовать"@);
            assert("alg"@.len() != "использовать"@.len());
            assert("alg"@ != "использовать"@);
            assert("нач"@.len() != "использовать"@.len());
            assert("нач"@ != "использовать"@);
            assert("begin"@.len() != "использовать"@.len());
            assert("begin"@ != "использовать"@);
            assert("кон"@.len() != "использовать"@.len());
            assert("кон"@ != "использовать"@);
            assert("end"@.len() != "использовать"@.len());
            assert("end"@ != "использовать"@);
            assert("если"@.len() != "использовать"@.len());
            assert("если"@ != "использовать"@);
            assert("if"@.len() != "использовать"@.len());
            assert("if"@ != "использовать"@);
            assert("то"@.len() != "использовать"@.len());
            assert("то"@ != "использовать"@);
            assert("then"@.len() != "использовать"@.len());
            assert("then"@ != "использовать"@);
            assert("иначе"@.len() != "использовать"@.len());
            assert("иначе"@ != "использовать"@);
            assert("else"@.len() != "использовать"@.len());
            assert("else"@ != "использовать"@);
            assert("все"@.len() != "использовать"@.len());
            assert("все"@ != "использовать"@);
            assert("fi"@.len() != "использовать"@.len());
            assert("fi"@ != "использовать"@);
            assert("выбор"@.len() != "использовать"@.len());
            assert("выбор"@ != "использовать"@);
            assert("switch"@.len() != "использовать"@.len());
            assert("switch"@ != "использовать"@);
            assert("при"@.len() != "использовать"@.len());
            assert("при"@ != "использовать"@);
            assert("case"@.len() != "использовать"@.len());
            assert("case"@ != "использовать"@);
            assert("нц"@.len() != "использовать"@.len());
            assert("нц"@ != "использовать"@);
            assert("loop"@.len() != "использовать"@.len());
            assert("loop"@ != "использовать"@);
            assert("кц"@.len() != "использовать"@.len());
            assert("кц"@ != "использовать"@);
            assert("endloop"@.len() != "использовать"@.len());
            assert("endloop"@ != "использовать"@);
            assert("пока"@.len() != "использовать"@.len());
            assert("пока"@ != "использовать"@);
            assert("while"@.len() != "использовать"@.len());
            assert("while"@ != "использовать"@);
            assert("для"@.len() != "использовать"@.len());
            assert("для"@ != "использовать"@);
            assert("for"@.len() != "использовать"@.len());
            assert("for"@ != "использовать"@);
            assert("от"@.len() != "использовать"@.len());
            assert("от"@ != "использовать"@);
            assert("from"@.len() != "использовать"@.len());
            assert("from"@ != "использовать"@);
            assert("до"@.len() != "использовать"@.len());
            assert("до"@ != "использовать"@);
            assert("to"@.len() != "использовать"@.len());
            assert("to"@ != "использовать"@);
            assert("шаг"@.len() != "использовать"@.len());
            assert("шаг"@ != "использовать"@);
            assert("step"@.len() != "использовать"@.len());
            assert("step"@ != "использовать"@);
            assert("раз"@.len() != "использовать"@.len());
            assert("раз"@ != "использовать"@);
            assert("times"@.len() != "использовать"@.len());
            assert("times"@ != "использовать"@);
            assert("выход"@.len() != "использовать"@.len());
            assert("выход"@ != "использовать"@);
            assert("exit"@.len() != "использовать"@.len());
            assert("exit"@ != "использовать"@);
            assert("ввод"@.len() != "использовать"@.len());
            assert("ввод"@ != "использовать"@);
            assert("input"@.len() != "использовать"@.len());
            assert("input"@ != "использовать"@);
            assert("вывод"@.len() != "использовать"@.len());
            assert("вывод"@ != "использовать"@);
            assert("output"@.len() != "использовать"@.len());
            assert("output"@ != "использовать"@);
            assert("арг"@.len() != "использовать"@.len());
            assert("арг"@ != "использовать"@);
            assert("рез"@.len() != "использовать"@.len());
            assert("рез"@ != "использовать"@);
            assert("аргрез"@.len() != "использовать"@.len());
            assert("аргрез"@ != "использовать"@);
            assert("знач"@.len() != "использовать"@.len());
            assert("знач"@ != "использовать"@);
            assert("дано"@.len() != "использовать"@.len());
            assert("дано"@ != "использовать"@);
            assert("надо"@.len() != "использовать"@.len());
            assert("надо"@ != "использовать"@);
            assert("утв"@.len() != "использовать"@.len());
            assert("утв"@ != "использовать"@);
            assert("assert"@.len() != "использовать"@.len());
            assert("assert"@ != "использовать"@);
            assert("подключить"@.len() != "использовать"@.len());
            assert("подключить"@ != "использовать"@);
            assert("import"@.len() != "использовать"@.len());
            assert("import"@ != "использовать"@);
            assert(keyword_of("использовать"@) == Some(Token::Use));
        },
        Token::IntType => {
            reveal_strlit("алг");
            reveal_strlit("alg");
            reveal_strlit("нач");
            reveal_strlit("begin");
            reveal_strlit("кон");
            reveal_strlit("end");
            reveal_strlit("если");
            reveal_strlit("if");
            reveal_strlit("то");
            reveal_strlit("then");
            reveal_strlit("иначе");
            reveal_strlit("else");
            reveal_strlit("все");
            reveal_strlit("fi");
            reveal_strlit("выбор");
            reveal_strlit("switch");
            reveal_strlit("при");
            reveal_strlit("case");
            reveal_strlit("нц");
            reveal_strlit("loop");
            reveal_strlit("кц");
            reveal_strlit("endloop");
            reveal_strlit("пока");
            reveal_strlit("while");
            reveal_strlit("для");
            reveal_strlit("for");
            reveal_strlit("от");
            reveal_strlit("from");
            reveal_strlit("до");
            reveal_strlit("to");
            reveal_strlit("шаг");
            reveal_strlit("step");
            reveal_strlit("раз");
            reveal_strlit("times");
            reveal_strlit("выход");
            reveal_strlit("exit");
            reveal_strlit("ввод");
            reveal_strlit("input");
            reveal_strlit("вывод");
            reveal_strlit("output");
            reveal_strlit("арг");
            reveal_strlit("рез");
            reveal_strlit("аргрез");
            reveal_strlit("знач");
            reveal_strlit("дано");
            reveal_strlit("надо");
            reveal_strlit("утв");
            reveal_strlit("assert");
            reveal_strlit("подключить");
            reveal_strlit("import");
            reveal_strlit("использовать");
            reveal_strlit("use");
            reveal_strlit("цел");
            assert("алг"@[0] != "цел"@[0]);
            assert("алг"@ != "цел"@);
            assert("alg"@[0] != "цел"@[0]);
            assert("alg"@ != "цел"@);
            assert("нач"@[0] != "цел"@[0]);
            assert("нач"@ != "цел"@);
            assert("begin"@.len() != "цел"@.len());
            assert("begin"@ != "цел"@);
            assert("кон"@[0] != "цел"@[0]);
            assert("кон"@ != "цел"@);
            assert("end"@[0] != "цел"@[0]);
            assert("end"@ != "цел"@);
            assert("если"@.len() != "цел"@.len());
            assert("если"@ != "цел"@);
            assert("if"@.len() != "цел"@.len());
            assert("if"@ != "цел"@);
            assert("то"@.len() != "цел"@.len());
            assert("то"@ != "цел"@);
            assert("then"@.len() != "цел"@.len());
            assert("then"@ != "цел"@);
            assert("иначе"@.len() != "цел"@.len());
            assert("иначе"@ != "цел"@);
            assert("else"@.len() != "цел"@.len());
            assert("else"@ != "цел"@);
            assert("все"@[0] != "цел"@[0]);
            assert("все"@ != "цел"@);
            assert("fi"@.len() != "цел"@.len());
            assert("fi"@ != "цел"@);
            assert("выбор"@.len() != "цел"@.len());
            assert("выбор"@ != "цел"@);
            assert("switch"@.len() != "цел"@.len());
            assert("switch"@ != "цел"@);
            assert("при"@[0] != "цел"@[0]);
            assert("при"@ != "цел"@);
            assert("case"@.len() != "цел"@.len());
            assert("case"@ != "цел"@);
            assert("нц"@.len() != "цел"@.len());
            assert("нц"@ != "цел"@);
            assert("loop"@.len() != "цел"@.len());
            assert("loop"@ != "цел"@);
            assert("кц"@.len() != "цел"@.len());
            assert("кц"@ != "цел"@);
            assert("endloop"@.len() != "цел"@.len());
            assert("endloop"@ != "цел"@);
            assert("пока"@.len() != "цел"@.len());
            assert("пока"@ != "цел"@);
            assert("while"@.len() != "цел"@.len());
            assert("while"@ != "цел"@);
            assert("для"@[0] != "цел"@[0]);
            assert("для"@ != "цел"@);
            assert("for"@[0] != "цел"@[0]);
            assert("for"@ != "цел"@);
            assert("от"@.len() != "цел"@.len());
            assert("от"@ != "цел"@);
            assert("from"@.len() != "цел"@.len());
            assert("from"@ != "цел"@);
            assert("до"@.len() != "цел"@.len());
            assert("до"@ != "цел"@);
            assert("to"@.len() != "цел"@.len());
            assert("to"@ != "цел"@);
            assert("шаг"@[0] != "цел"@[0]);
            assert("шаг"@ != "цел"@);
            assert("step"@.len() != "цел"@.len());
            assert("step"@ != "цел"@);
            assert("раз"@[0] != "цел"@[0]);
            assert("раз"@ != "цел"@);
            assert("times"@.len() != "цел"@.len());
            assert("times"@ != "цел"@);
            assert("выход"@.len() != "цел"@.len());
            assert("выход"@ != "цел"@);
            assert("exit"@.len() != "цел"@.len());
            assert("exit"@ != "цел"@);
            assert("ввод"@.len() != "цел"@.len());
            assert("ввод"@ != "цел"@);
            assert("input"@.len() != "цел"@.len());
            assert("input"@ != "цел"@);
            assert("вывод"@.len() != "цел"@.len());
            assert("вывод"@ != "цел"@);
            assert("output"@.len() != "цел"@.len());
            assert("output"@ != "цел"@);
            assert("арг"@[0] != "цел"@[0]);
            assert("арг"@ != "цел"@);
            assert("рез"@[0] != "цел"@[0]);
            assert("рез"@ != "цел"@);
            assert("аргрез"@.len() != "цел"@.len());
            assert("аргрез"@ != "цел"@);
            assert("знач"@.len() != "цел"@.len());
            assert("знач"@ != "цел"@);
            assert("дано"@.len() != "цел"@.len());
            assert("дано"@ != "цел"@);
            assert("надо"@.len() != "цел"@.len());
            assert("надо"@ != "цел"@);
            assert("утв"@[0] != "цел"@[0]);
            assert("утв"@ != "цел"@);
            assert("assert"@.len() != "цел"@.len());
            assert("assert"@ != "цел"@);
            assert("подключить"@.len() != "цел"@.len());
            assert("подключить"@ != "цел"@);
            assert("import"@.len() != "цел"@.len());
            assert("import"@ != "цел"@);
            assert("использовать"@.len() != "цел"@.len());
            assert("использовать"@ != "цел"@);
            assert("use"@[0] != "цел"@[0]);
            assert("use"@ != "цел"@);
            assert(keyword_of("цел"@) == Some(Token::IntType));
        },
        Token::RealType => {
            reveal_strlit("алг");
            reveal_strlit("alg");
            reveal_strlit("нач");
            reveal_strlit("begin");
            reveal_strlit("кон");
            reveal_strlit("end");
            reveal_strlit("если");
            reveal_strlit("if");
            reveal_strlit("то");
            reveal_strlit("then");
            reveal_strlit("иначе");
            reveal_strlit("else");
            reveal_strlit("все");
            reveal_strlit("fi");
            reveal_strlit("выбор");
            reveal_strlit("switch");
            reveal_strlit("при");
            reveal_strlit("case");
            reveal_strlit("нц");
            reveal_strlit("loop");
            reveal_strlit("кц");
            reveal_strlit("endloop");
            reveal_strlit("пока");
            reveal_strlit("while");
            reveal_strlit("для");
            reveal_strlit("for");
            reveal_strlit("от");
            reveal_strlit("from");
            reveal_strlit("до");
            reveal_strlit("to");
            reveal_strlit("шаг");
            reveal_strlit("step");
            reveal_strlit("раз");
            reveal_strlit("times");
            reveal_strlit("выход");
            reveal_strlit("exit");
            reveal_strlit("ввод");
            reveal_strlit("input");
            reveal_strlit("вывод");
            reveal_strlit("output");
            reveal_strlit("арг");
            reveal_strlit("рез");
            reveal_strlit("аргрез");
            reveal_strlit("знач");
            reveal_strlit("дано");
            reveal_strlit("надо");
            reveal_strlit("утв");
            reveal_strlit("assert");
            reveal_strlit("подключить");
            reveal_strlit("import");
            reveal_strlit("использовать");
            reveal_strlit("use");
            reveal_strlit("цел");
            reveal_strlit("вещ");
            assert("алг"@[0] != "вещ"@[0]);
            assert("алг"@ != "вещ"@);
            assert("alg"@[0] != "вещ"@[0]);
            assert("alg"@ != "вещ"@);
            assert("нач"@[0] != "вещ"@[0]);
            assert("нач"@ != "вещ"@);
            assert("begin"@.len() != "вещ"@.len());
            assert("begin"@ != "вещ"@);
            assert("кон"@[0] != "вещ"@[0]);
            assert("кон"@ != "вещ"@);
            assert("end"@[0] != "вещ"@[0]);
            assert("end"@ != "вещ"@);
            assert("если"@.len() != "вещ"@.len());
            assert("если"@ != "вещ"@);
            assert("if"@.len() != "вещ"@.len());
            assert("if"@ != "вещ"@);
            assert("то"@.len() != "вещ"@.len());
            assert("то"@ != "вещ"@);
            assert("then"@.len() != "вещ"@.len());
            assert("then"@ != "вещ"@);
            assert("иначе"@.len() != "вещ"@.len());
            assert("иначе"@ != "вещ"@);
            assert("else"@.len() != "вещ"@.len());
            assert("else"@ != "вещ"@);
            assert("все"@[1] != "вещ"@[1]);
            assert("все"@ != "вещ"@);
            assert("fi"@.len() != "вещ"@.len());
            assert("fi"@ != "вещ"@);
            assert("выбор"@.len() != "вещ"@.len());
            assert("выбор"@ != "вещ"@);
            assert("switch"@.len() != "вещ"@.len());
            assert("switch"@ != "вещ"@);
            assert("при"@[0] != "вещ"@[0]);
            assert("при"@ != "вещ"@);
            assert("case"@.len() != "вещ"@.len());
            assert("case"@ != "вещ"@);
            assert("нц"@.len() != "вещ"@.len());
            assert("нц"@ != "вещ"@);
            assert("loop"@.len() != "вещ"@.len());
            assert("loop"@ != "вещ"@);
            assert("кц"@.len() != "вещ"@.len());
            assert("кц"@ != "вещ"@);
            assert("endloop"@.len() != "вещ"@.len());
            assert("endloop"@ != "вещ"@);
            assert("пока"@.len() != "вещ"@.len());
            assert("пока"@ != "вещ"@);
            assert("while"@.len() != "вещ"@.len());
            assert("while"@ != "вещ"@);
            assert("для"@[0] != "вещ"@[0]);
            assert("для"@ != "вещ"@);
            assert("for"@[0] != "вещ"@[0]);
            assert("for"@ != "вещ"@);
            assert("от"@.len() != "вещ"@.len());
            assert("от"@ != "вещ"@);
            assert("from"@.len() != "вещ"@.len());
            assert("from"@ != "вещ"@);
            assert("до"@.len() != "вещ"@.len());
            assert("до"@ != "вещ"@);
            assert("to"@.len() != "вещ"@.len());
            assert("to"@ != "вещ"@);
            assert("шаг"@[0] != "вещ"@[0]);
            assert("шаг"@ != "вещ"@);
            assert("step"@.len() != "вещ"@.len());
            assert("step"@ != "вещ"@);
            assert("раз"@[0] != "вещ"@[0]);
            assert("раз"@ != "вещ"@);
            assert("times"@.len() != "вещ"@.len());
            assert("times"@ != "вещ"@);
            assert("выход"@.len() != "вещ"@.len());
            assert("выход"@ != "вещ"@);
            assert("exit"@.len() != "вещ"@.len());
            assert("exit"@ != "вещ"@);
            assert("ввод"@.len() != "вещ"@.len());
            assert("ввод"@ != "вещ"@);
            assert("input"@.len() != "вещ"@.len());
            assert("input"@ != "вещ"@);
            assert("вывод"@.len() != "вещ"@.len());
            assert("вывод"@ != "вещ"@);
            assert("output"@.len() != "вещ"@.len());
            assert("output"@ != "вещ"@);
            assert("арг"@[0] != "вещ"@[0]);
            assert("арг"@ != "вещ"@);
            assert("рез"@[0] != "вещ"@[0]);
            assert("рез"@ != "вещ"@);
            assert("аргрез"@.len() != "вещ"@.len());
            assert("аргрез"@ != "вещ"@);
            assert("знач"@.len() != "вещ"@.len());
            assert("знач"@ != "вещ"@);
            assert("дано"@.len() != "вещ"@.len());
            assert("дано"@ != "вещ"@);
            assert("надо"@.len() != "вещ"@.len());
            assert("надо"@ != "вещ"@);
            assert("утв"@[0] != "вещ"@[0]);
            assert("утв"@ != "вещ"@);
            assert("assert"@.len() != "вещ"@.len());
            assert("assert"@ != "вещ"@);
            assert("подключить"@.len() != "вещ"@.len());
            assert("подключить"@ != "вещ"@);
            assert("import"@.len() != "вещ"@.len());
            assert("import"@ != "вещ"@);
            assert("использовать"@.len() != "вещ"@.len());
            assert("использовать"@ != "вещ"@);
            assert("use"@[0] != "вещ"@[0]);
            assert("use"@ != "вещ"@);
            assert("цел"@[0] != "вещ"@[0]);
            assert("цел"@ != "вещ"@);
            assert(keyword_of("вещ"@) == Some(Token::RealType));
        },
        Token::BoolType => {
            reveal_strlit("алг");
            reveal_strlit("alg");
            reveal_strlit("нач");
            reveal_strlit("begin");
            reveal_strlit("кон");
            reveal_strlit("end");
            reveal_strlit("если");
            reveal_strlit("if");
            reveal_strlit("то");
            reveal_strlit("then");
            reveal_strlit("иначе");
            reveal_strlit("else");
            reveal_strlit("все");
            reveal_strlit("fi");
            reveal_strlit("выбор");
            reveal_strlit("switch");
            reveal_strlit("при");
            reveal_strlit("case");
            reveal_strlit("нц");
            reveal_strlit("loop");
            reveal_strlit("кц");
            reveal_strlit("endloop");
            reveal_strlit("пока");
            reveal_strlit("while");
            reveal_strlit("для");
            reveal_strlit("for");
            reveal_strlit("от");
            reveal_strlit("from");
            reveal_strlit("до");
            reveal_strlit("to");
            reveal_strlit("шаг");
            reveal_strlit("step");
            reveal_strlit("раз");
            reveal_strlit("times");
            reveal_strlit("выход");
            reveal_strlit("exit");
            reveal_strlit("ввод");
            reveal_strlit("input");
            reveal_strlit("вывод");
            reveal_strlit("output");
            reveal_strlit("арг");
            reveal_strlit("рез");
            reveal_strlit("аргрез");
            reveal_strlit("знач");
            reveal_strlit("дано");
            reveal_strlit("надо");
            reveal_strlit("утв");
            reveal_strlit("assert");
            reveal_strlit("подключить");
            reveal_strlit("import");
            reveal_strlit("использовать");
            reveal_strlit("use");
            reveal_strlit("цел");
            reveal_strlit("вещ");
            reveal_strlit("лог");
            assert("алг"@[0] != "лог"@[0]);
            assert("алг"@ != "лог"@);
            assert("alg"@[0] != "лог"@[0]);
            assert("alg"@ != "лог"@);
            assert("нач"@[0] != "лог"@[0]);
            assert("нач"@ != "лог"@);
            assert("begin"@.len() != "лог"@.len());
            assert("begin"@ != "лог"@);
            assert("кон"@[0] != "лог"@[0]);
            assert("кон"@ != "лог"@);
            assert("end"@[0] != "лог"@[0]);
            assert("end"@ != "лог"@);
            assert("если"@.len() != "лог"@.len());
            assert("если"@ != "лог"@);
            assert("if"@.len() != "лог"@.len());
            assert("if"@ != "лог"@);
            assert("то"@.len() != "лог"@.len());
            assert("то"@ != "лог"@);
            assert("then"@.len() != "лог"@.len());
            assert("then"@ != "лог"@);
            assert("иначе"@.len() != "лог"@.len());
            assert("иначе"@ != "лог"@);
            assert("else"@.len() != "лог"@.len());
            assert("else"@ != "лог"@);
            assert("все"@[0] != "лог"@[0]);
            assert("все"@ != "лог"@);
            assert("fi"@.len() != "лог"@.len());
            assert("fi"@ != "лог"@);
            assert("выбор"@.len() != "лог"@.len());
            assert("выбор"@ != "лог"@);
            assert("switch"@.len() != "лог"@.len());
            assert("switch"@ != "лог"@);
            assert("при"@[0] != "лог"@[0]);
            assert("при"@ != "лог"@);
            assert("case"@.len() != "лог"@.len());
            assert("case"@ != "лог"@);
            assert("нц"@.len() != "лог"@.len());
            assert("нц"@ != "лог"@);
            assert("loop"@.len() != "лог"@.len());
            assert("loop"@ != "лог"@);
            assert("кц"@.len() != "лог"@.len());
            assert("кц"@ != "лог"@);
            assert("endloop"@.len() != "лог"@.len());
            assert("endloop"@ != "лог"@);
            assert("пока"@.len() != "лог"@.len());
            assert("пока"@ != "лог"@);
            assert("while"@.len() != "лог"@.len());
            assert("while"@ != "лог"@);
            assert("для"@[0] != "лог"@[0]);
            assert("для"@ != "лог"@);
            assert("for"@[0] != "лог"@[0]);
            assert("for"@ != "лог"@);
            assert("от"@.len() != "лог"@.len());
            assert("от"@ != "лог"@);
            assert("from"@.len() != "лог"@.len());
            assert("from"@ != "лог"@);
            assert("до"@.len() != "лог"@.len());
            assert("до"@ != "лог"@);
            assert("to"@.len() != "лог"@.len());
            assert("to"@ != "лог"@);
            assert("шаг"@[0] != "лог"@[0]);
            assert("шаг"@ != "лог"@);
            assert("step"@.len() != "лог"@.len());
            assert("step"@ != "лог"@);
            assert("раз"@[0] != "лог"@[0]);
            assert("раз"@ != "лог"@);
            assert("times"@.len() != "лог"@.len());
            assert("times"@ != "лог"@);
            assert("выход"@.len() != "лог"@.len());
            assert("выход"@ != "лог"@);
            assert("exit"@.len() != "лог"@.len());
            assert("exit"@ != "лог"@);
            assert("ввод"@.len() != "лог"@.len());
            assert("ввод"@ != "лог"@);
            assert("input"@.len() != "лог"@.len());
            assert("input"@ != "лог"@);
            assert("вывод"@.len() != "лог"@.len());
            assert("вывод"@ != "лог"@);
            assert("output"@.len() != "лог"@.len());
            assert("output"@ != "лог"@);
            assert("арг"@[0] != "лог"@[0]);
            assert("арг"@ != "лог"@);
            assert("рез"@[0] != "лог"@[0]);
            assert("рез"@ != "лог"@);
            assert("аргрез"@.len() != "лог"@.len());
            assert("аргрез"@ != "лог"@);
            assert("знач"@.len() != "лог"@.len());
            assert("знач"@ != "лог"@);
            assert("дано"@.len() != "лог"@.len());
            assert("дано"@ != "лог"@);
            assert("надо"@.len() != "лог"@.len());
            assert("надо"@ != "лог"@);
            assert("утв"@[0] != "лог"@[0]);
            assert("утв"@ != "лог"@);
            assert("assert"@.len() != "лог"@.len());
            assert("assert"@ != "лог"@);
            assert("подключить"@.len() != "лог"@.len());
            assert("подключить"@ != "лог"@);
            assert("import"@.len() != "лог"@.len());
            assert("import"@ != "лог"@);
            assert("использовать"@.len() != "лог"@.len());
            assert("использовать"@ != "лог"@);
            assert("use"@[0] != "лог"@[0]);
            assert("use"@ != "лог"@);
            assert("цел"@[0] != "лог"@[0]);
            assert("цел"@ != "лог"@);
            assert("вещ"@[0] != "лог"@[0]);
            assert("вещ"@ != "лог"@);
            assert(keyword_of("лог"@) == Some(Token::BoolType));
        },
        Token::CharType => {
            reveal_strlit("алг");
            reveal_strlit("alg");
            reveal_strlit("нач");
            reveal_strlit("begin");
            reveal_strlit("кон");
            reveal_strlit("end");
            reveal_strlit("если");
            reveal_strlit("if");
            reveal_strlit("то");
            reveal_strlit("then");
            reveal_strlit("иначе");
            reveal_strlit("else");
            reveal_strlit("все");
            reveal_strlit("fi");
            reveal_strlit("выбор");
            reveal_strlit("switch");
            reveal_strlit("при");
            reveal_strlit("case");
            reveal_strlit("нц");
            reveal_strlit("loop");
            reveal_strlit("кц");
            reveal_strlit("endloop");
            reveal_strlit("пока");
            reveal_strlit("while");
            reveal_strlit("для");
            reveal_strlit("for");
            reveal_strlit("от");
            reveal_strlit("from");
            reveal_strlit("до");
            reveal_strlit("to");
            reveal_strlit("шаг");
            reveal_strlit("step");
            reveal_strlit("раз");
            reveal_strlit("times");
            reveal_strlit("выход");
            reveal_strlit("exit");
            reveal_strlit("ввод");
            reveal_strlit("input");
            reveal_strlit("вывод");
            reveal_strlit("output");
            reveal_strlit("арг");
            reveal_strlit("рез");
            reveal_strlit("аргрез");
            reveal_strlit("знач");
            reveal_strlit("дано");
            reveal_strlit("надо");
            reveal_strlit("утв");
            reveal_strlit("assert");
            reveal_strlit("подключить");
            reveal_strlit("import");
            reveal_strlit("использовать");
            reveal_strlit("use");
            reveal_strlit("цел");
            reveal_strlit("вещ");
            reveal_strlit("лог");
            reveal_strlit("сим");
            assert("алг"@[0] != "сим"@[0]);
            assert("алг"@ != "сим"@);
            assert("alg"@[0] != "сим"@[0]);
            assert("alg"@ != "сим"@);
            assert("нач"@[0] != "сим"@[0]);
            assert("нач"@ != "сим"@);
            assert("begin"@.len() != "сим"@.len());
            assert("begin"@ != "сим"@);
            assert("кон"@[0] != "сим"@[0]);
            assert("кон"@ != "сим"@);
            assert("end"@[0] != "сим"@[0]);
            assert("end"@ != "сим"@);
            assert("если"@.len() != "сим"@.len());
            assert("если"@ != "сим"@);
            assert("if"@.len() != "сим"@.len());
            assert("if"@ != "сим"@);
            assert("то"@.len() != "сим"@.len());
            assert("то"@ != "сим"@);
            assert("then"@.len() != "сим"@.len());
            assert("then"@ != "сим"@);
            assert("иначе"@.len() != "сим"@.len());
            assert("иначе"@ != "сим"@);
            assert("else"@.len() != "сим"@.len());
            assert("else"@ != "сим"@);
            assert("все"@[0] != "сим"@[0]);
            assert("все"@ != "сим"@);
            assert("fi"@.len() != "сим"@.len());
            assert("fi"@ != "сим"@);
            assert("выбор"@.len() != "сим"@.len());
            assert("выбор"@ != "сим"@);
            assert("switch"@.len() != "сим"@.len());
            assert("switch"@ != "сим"@);
            assert("при"@[0] != "сим"@[0]);
            assert("при"@ != "сим"@);
            assert("case"@.len() != "сим"@.len());
            assert("case"@ != "сим"@);
            assert("нц"@.len() != "сим"@.len());
            assert("нц"@ != "сим"@);
            assert("loop"@.len() != "сим"@.len());
            assert("loop"@ != "сим"@);
            assert("кц"@.len() != "сим"@.len());
            assert("кц"@ != "сим"@);
            assert("endloop"@.len() != "сим"@.len());
            assert("endloop"@ != "сим"@);
            assert("пока"@.len() != "сим"@.len());
            assert("пока"@ != "сим"@);
            assert("while"@.len() != "сим"@.len());
            assert("while"@ != "сим"@);
            assert("для"@[0] != "сим"@[0]);
            assert("для"@ != "сим"@);
            assert("for"@[0] != "сим"@[0]);
            assert("for"@ != "сим"@);
            assert("от"@.len() != "сим"@.len());
            assert("от"@ != "сим"@);
            assert("from"@.len() != "сим"@.len());
            assert("from"@ != "сим"@);
            assert("до"@.len() != "сим"@.len());
            assert("до"@ != "сим"@);
            assert("to"@.len() != "сим"@.len());
            assert("to"@ != "сим"@);
            assert("шаг"@[0] != "сим"@[0]);
            assert("шаг"@ != "сим"@);
            assert("step"@.len() != "сим"@.len());
            assert("step"@ != "сим"@);
            assert("раз"@[0] != "сим"@[0]);
            assert("раз"@ != "сим"@);
            assert("times"@.len() != "сим"@.len());
            assert("times"@ != "сим"@);
            assert("выход"@.len() != "сим"@.len());
            assert("выход"@ != "сим"@);
            assert("exit"@.len() != "сим"@.len());
            assert("exit"@ != "сим"@);
            assert("ввод"@.len() != "сим"@.len());
            assert("ввод"@ != "сим"@);
            assert("input"@.len() != "сим"@.len());
            assert("input"@ != "сим"@);
            assert("вывод"@.len() != "сим"@.len());
            assert("вывод"@ != "сим"@);
            assert("output"@.len() != "сим"@.len());
            assert("output"@ != "сим"@);
            assert("арг"@[0] != "сим"@[0]);
            assert("арг"@ != "сим"@);
            assert("рез"@[0] != "сим"@[0]);
            assert("рез"@ != "сим"@);
            assert("аргрез"@.len() != "сим"@.len());
            assert("аргрез"@ != "сим"@);
            assert("знач"@.len() != "сим"@.len());
            assert("знач"@ != "сим"@);
            assert("дано"@.len() != "сим"@.len());
            assert("дано"@ != "сим"@);
            assert("надо"@.len() != "сим"@.len());
            assert("надо"@ != "сим"@);
            assert("утв"@[0] != "сим"@[0]);
            assert("утв"@ != "сим"@);
            assert("assert"@.len() != "сим"@.len());
            assert("assert"@ != "сим"@);
            assert("подключить"@.len() != "сим"@.len());
            assert("подключить"@ != "сим"@);
            assert("import"@.len() != "сим"@.len());
            assert("import"@ != "сим"@);
            assert("использовать"@.len() != "сим"@.len());
            assert("использовать"@ != "сим"@);
            assert("use"@[0] != "сим"@[0]);
            assert("use"@ != "сим"@);
            assert("цел"@[0] != "сим"@[0]);
            assert("цел"@ != "сим"@);
            assert("вещ"@[0] != "сим"@[0]);
            assert("вещ"@ != "сим"@);
            assert("лог"@[0] != "сим"@[0]);
            assert("лог"@ != "сим"@);
            assert(keyword_of("сим"@) == Some(Token::CharType));
        },
        Token::StringType => {
            reveal_strlit("алг");
            reveal_strlit("alg");
            reveal_strlit("нач");
            reveal_strlit("begin");
            reveal_strlit("кон");
            reveal_strlit("end");
            reveal_strlit("если");
            reveal_strlit("if");
            reveal_strlit("то");
            reveal_strlit("then");
            reveal_strlit("иначе");
            reveal_strlit("else");
            reveal_strlit("все");
            reveal_strlit("fi");
            reveal_strlit("выбор");
            reveal_strlit("switch");
            reveal_strlit("при");
            reveal_strlit("case");
            reveal_strlit("нц");
            reveal_strlit("loop");
            reveal_strlit("кц");
            reveal_strlit("endloop");
            reveal_strlit("пока");
            reveal_strlit("while");
            reveal_strlit("для");
            reveal_strlit("for");
            reveal_strlit("от");
            reveal_strlit("from");
            reveal_strlit("до");
            reveal_strlit("to");
            reveal_strlit("шаг");
            reveal_strlit("step");
            reveal_strlit("раз");
            reveal_strlit("times");
            reveal_strlit("выход");
            reveal_strlit("exit");
            reveal_strlit("ввод");
            reveal_strlit("input");
            reveal_strlit("вывод");
            reveal_strlit("output");
            reveal_strlit("арг");
            reveal_strlit("рез");
            reveal_strlit("аргрез");
            reveal_strlit("знач");
            reveal_strlit("дано");
            reveal_strlit("надо");
            reveal_strlit("утв");
            reveal_strlit("assert");
            reveal_strlit("подключить");
            reveal_strlit("import");
            reveal_strlit("использовать");
            reveal_strlit("use");
            reveal_strlit("цел");
            reveal_strlit("вещ");
            reveal_strlit("лог");
            reveal_strlit("сим");
            reveal_strlit("лит");
            assert("алг"@[0] != "лит"@[0]);
            assert("алг"@ != "лит"@);
            assert("alg"@[0] != "лит"@[0]);
            assert("alg"@ != "лит"@);
            assert("нач"@[0] != "лит"@[0]);
            assert("нач"@ != "лит"@);
            assert("begin"@.len() != "лит"@.len());
            assert("begin"@ != "лит"@);
            assert("кон"@[0] != "лит"@[0]);
            assert("кон"@ != "лит"@);
            assert("end"@[0] != "лит"@[0]);
            assert("end"@ != "лит"@);
            assert("если"@.len() != "лит"@.len());
            assert("если"@ != "лит"@);
            assert("if"@.len() != "лит"@.len());
            assert("if"@ != "лит"@);
            assert("то"@.len() != "лит"@.len());
            assert("то"@ != "лит"@);
            assert("then"@.len() != "лит"@.len());
            assert("then"@ != "лит"@);
            assert("иначе"@.len() != "лит"@.len());
            assert("иначе"@ != "лит"@);
            assert("else"@.len() != "лит"@.len());
            assert("else"@ != "лит"@);
            assert("все"@[0] != "лит"@[0]);
            assert("все"@ != "лит"@);
            assert("fi"@.len() != "лит"@.len());
            assert("fi"@ != "лит"@);
            assert("выбор"@.len() != "лит"@.len());
            assert("выбор"@ != "лит"@);
            assert("switch"@.len() != "лит"@.len());
            assert("switch"@ != "лит"@);
            assert("при"@[0] != "лит"@[0]);
            assert("при"@ != "лит"@);
            assert("case"@.len() != "лит"@.len());
            assert("case"@ != "лит"@);
            assert("нц"@.len() != "лит"@.len());
            assert("нц"@ != "лит"@);
            assert("loop"@.len() != "лит"@.len());
            assert("loop"@ != "лит"@);
            assert("кц"@.len() != "лит"@.len());
            assert("кц"@ != "лит"@);
            assert("endloop"@.len() != "лит"@.len());
            assert("endloop"@ != "лит"@);
            assert("пока"@.len() != "лит"@.len());
            assert("пока"@ != "лит"@);
            assert("while"@.len() != "лит"@.len());
            assert("while"@ != "лит"@);
            assert("для"@[0] != "лит"@[0]);
            assert("для"@ != "лит"@);
            assert("for"@[0] != "лит"@[0]);
            assert("for"@ != "лит"@);
            assert("от"@.len() != "лит"@.len());
            assert("от"@ != "лит"@);
            assert("from"@.len() != "лит"@.len());
            assert("from"@ != "лит"@);
            assert("до"@.len() != "лит"@.len());
            assert("до"@ != "лит"@);
            assert("to"@.len() != "лит"@.len());
            assert("to"@ != "лит"@);
            assert("шаг"@[0] != "лит"@[0]);
            assert("шаг"@ != "лит"@);
            assert("step"@.len() != "лит"@.len());
            assert("step"@ != "лит"@);
            assert("раз"@[0] != "лит"@[0]);
            assert("раз"@ != "лит"@);
            assert("times"@.len() != "лит"@.len());
            assert("times"@ != "лит"@);
            assert("выход"@.len() != "лит"@.len());
            assert("выход"@ != "лит"@);
            assert("exit"@.len() != "лит"@.len());
            assert("exit"@ != "лит"@);
            assert("ввод"@.len() != "лит"@.len());
            assert("ввод"@ != "лит"@);
            assert("input"@.len() != "лит"@.len());
            assert("input"@ != "лит"@);
            assert("вывод"@.len() != "лит"@.len());
            assert("вывод"@ != "лит"@);
            assert("output"@.len() != "лит"@.len());
            assert("output"@ != "лит"@);
            assert("арг"@[0] != "лит"@[0]);
            assert("арг"@ != "лит"@);
            assert("рез"@[0] != "лит"@[0]);
            assert("рез"@ != "лит"@);
            assert("аргрез"@.len() != "лит"@.len());
            assert("аргрез"@ != "лит"@);
            assert("знач"@.len() != "лит"@.len());
            assert("знач"@ != "лит"@);
            assert("дано"@.len() != "лит"@.len());
            assert("дано"@ != "лит"@);
            assert("надо"@.len() != "лит"@.len());
            assert("надо"@ != "лит"@);
            assert("утв"@[0] != "лит"@[0]);
            assert("утв"@ != "лит"@);
            assert("assert"@.len() != "лит"@.len());
            assert("assert"@ != "лит"@);
            assert("подключить"@.len() != "лит"@.len());
            assert("подключить"@ != "лит"@);
            assert("import"@.len() != "лит"@.len());
            assert("import"@ != "лит"@);
            assert("использовать"@.len() != "лит"@.len());
            assert("использовать"@ != "лит"@);
            assert("use"@[0] != "лит"@[0]);
            assert("use"@ != "лит"@);
            assert("цел"@[0] != "лит"@[0]);
            assert("цел"@ != "лит"@);
            assert("вещ"@[0] != "лит"@[0]);
            assert("вещ"@ != "лит"@);
            assert("лог"@[1] != "лит"@[1]);
            assert("лог"@ != "лит"@);
            assert("сим"@[0] != "лит"@[0]);
            assert("сим"@ != "лит"@);
            assert(keyword_of("лит"@) == Some(Token::StringType));
        },
        Token::TableSuffix => {
            reveal_strlit("алг");
            reveal_strlit("alg");
            reveal_strlit("нач");
            reveal_strlit("begin");
            reveal_strlit("кон");
            reveal_strlit("end");
            reveal_strlit("если");
            reveal_strlit("if");
            reveal_strlit("то");
            reveal_strlit("then");
            reveal_strlit("иначе");
            reveal_strlit("else");
            reveal_strlit("все");
            reveal_strlit("fi");
            reveal_strlit("выбор");
            reveal_strlit("switch");
            reveal_strlit("при");
            reveal_strlit("case");
            reveal_strlit("нц");
            reveal_strlit("loop");
            reveal_strlit("кц");
            reveal_strlit("endloop");
            reveal_strlit("пока");
            reveal_strlit("while");
            reveal_strlit("для");
            reveal_strlit("for");
            reveal_strlit("от");
            reveal_strlit("from");
            reveal_strlit("до");
            reveal_strlit("to");
            reveal_strlit("шаг");
            reveal_strlit("step");
            reveal_strlit("раз");
            reveal_strlit("times");
            reveal_strlit("выход");
            reveal_strlit("exit");
            reveal_strlit("ввод");
            reveal_strlit("input");
            reveal_strlit("вывод");
            reveal_strlit("output");
            reveal_strlit("арг");
            reveal_strlit("рез");
            reveal_strlit("аргрез");
            reveal_strlit("знач");
            reveal_strlit("дано");
            reveal_strlit("надо");
            reveal_strlit("утв");
            reveal_strlit("assert");
            reveal_strlit("подключить");
            reveal_strlit("import");
            reveal_strlit("использовать");
            reveal_strlit("use");
            reveal_strlit("цел");
            reveal_strlit("вещ");
            reveal_strlit("лог");
            reveal_strlit("сим");
            reveal_strlit("лит");
            reveal_strlit("таб");
            assert("алг"@[0] != "таб"@[0]);
            assert("алг"@ != "таб"@);
            assert("alg"@[0] != "таб"@[0]);
            assert("alg"@ != "таб"@);
            assert("нач"@[0] != "таб"@[0]);
            assert("нач"@ != "таб"@);
            assert("begin"@.len() != "таб"@.len());
            assert("begin"@ != "таб"@);
            assert("кон"@[0] != "таб"@[0]);
            assert("кон"@ != "таб"@);
            assert("end"@[0] != "таб"@[0]);
            assert("end"@ != "таб"@);
            assert("если"@.len() != "таб"@.len());
            assert("если"@ != "таб"@);
            assert("if"@.len() != "таб"@.len());
            assert("if"@ != "таб"@);
            assert("то"@.len() != "таб"@.len());
            assert("то"@ != "таб"@);
            assert("then"@.len() != "таб"@.len());
            assert("then"@ != "таб"@);
            assert("иначе"@.len() != "таб"@.len());
            assert("иначе"@ != "таб"@);
            assert("else"@.len() != "таб"@.len());
            assert("else"@ != "таб"@);
            assert("все"@[0] != "таб"@[0]);
            assert("все"@ != "таб"@);
            assert("fi"@.len() != "таб"@.len());
            assert("fi"@ != "таб"@);
            assert("выбор"@.len() != "таб"@.len());
            assert("выбор"@ != "таб"@);
            assert("switch"@.len() != "таб"@.len());
            assert("switch"@ != "таб"@);
            assert("при"@[0] != "таб"@[0]);
            assert("при"@ != "таб"@);
            assert("case"@.len() != "таб"@.len());
            assert("case"@ != "таб"@);
            assert("нц"@.len() != "таб"@.len());
            assert("нц"@ != "таб"@);
            assert("loop"@.len() != "таб"@.len());
            assert("loop"@ != "таб"@);
            assert("кц"@.len() != "таб"@.len());
            assert("кц"@ != "таб"@);
            assert("endloop"@.len() != "таб"@.len());
            assert("endloop"@ != "таб"@);
            assert("пока"@.len() != "таб"@.len());
            assert("пока"@ != "таб"@);
            assert("while"@.len() != "таб"@.len());
            assert("while"@ != "таб"@);
            assert("для"@[0] != "таб"@[0]);
            assert("для"@ != "таб"@);
            assert("for"@[0] != "таб"@[0]);
            assert("for"@ != "таб"@);
            assert("от"@.len() != "таб"@.len());
            assert("от"@ != "таб"@);
            assert("from"@.len() != "таб"@.len());
            assert("from"@ != "таб"@);
            assert("до"@.len() != "таб"@.len());
            assert("до"@ != "таб"@);
            assert("to"@.len() != "таб"@.len());
            assert("to"@ != "таб"@);
            assert("шаг"@[0] != "таб"@[0]);
            assert("шаг"@ != "таб"@);
            assert("step"@.len() != "таб"@.len());
            assert("step"@ != "таб"@);
            assert("раз"@[0] != "таб"@[0]);
            assert("раз"@ != "таб"@);
            assert("times"@.len() != "таб"@.len());
            assert("times"@ != "таб"@);
            assert("выход"@.len() != "таб"@.len());
            assert("выход"@ != "таб"@);
            assert("exit"@.len() != "таб"@.len());
            assert("exit"@ != "таб"@);
            assert("ввод"@.len() != "таб"@.len());
            assert("ввод"@ != "таб"@);
            assert("input"@.len() != "таб"@.len());
            assert("input"@ != "таб"@);
            assert("вывод"@.len() != "таб"@.len());
            assert("вывод"@ != "таб"@);
            assert("output"@.len() != "таб"@.len());
            assert("output"@ != "таб"@);
            assert("арг"@[0] != "таб"@[0]);
            assert("арг"@ != "таб"@);
            assert("рез"@[0] != "таб"@[0]);
            assert("рез"@ != "таб"@);
            assert("аргрез"@.len() != "таб"@.len());
            assert("аргрез"@ != "таб"@);
            assert("знач"@.len() != "таб"@.len());
            assert("знач"@ != "таб"@);
            assert("дано"@.len() != "таб"@.len());
            assert("дано"@ != "таб"@);
            assert("надо"@.len() != "таб"@.len());
            assert("надо"@ != "таб"@);
            assert("утв"@[0] != "таб"@[0]);
            assert("утв"@ != "таб"@);
            assert("assert"@.len() != "таб"@.len());
            assert("assert"@ != "таб"@);
            assert("подключить"@.len() != "таб"@.len());
            assert("подключить"@ != "таб"@);
            assert("import"@.len() != "таб"@.len());
            assert("import"@ != "таб"@);
            assert("использовать"@.len() != "таб"@.len());
            assert("использовать"@ != "таб"@);
            assert("use"@[0] != "таб"@[0]);
            assert("use"@ != "таб"@);
            assert("цел"@[0] != "таб"@[0]);
            assert("цел"@ != "таб"@);
            assert("вещ"@[0] != "таб"@[0]);
            assert("вещ"@ != "таб"@);
            assert("лог"@[0] != "таб"@[0]);
            assert("лог"@ != "таб"@);
            assert("сим"@[0] != "таб"@[0]);
            assert("сим"@ != "таб"@);
            assert("лит"@[0] != "таб"@[0]);
            assert("лит"@ != "таб"@);
            assert(keyword_of("таб"@) == Some(Token::TableSuffix));
        },
        Token::True => {
            reveal_strlit("алг");
            reveal_strlit("alg");
            reveal_strlit("нач");
            reveal_strlit("begin");
            reveal_strlit("кон");
            reveal_strlit("end");
            reveal_strlit("если");
            reveal_strlit("if");
            reveal_strlit("то");
            reveal_strlit("then");
            reveal_strlit("иначе");
            reveal_strlit("else");
            reveal_strlit("все");
            reveal_strlit("fi");
            reveal_strlit("выбор");
            reveal_strlit("switch");
            reveal_strlit("при");
            reveal_strlit("case");
            reveal_strlit("нц");
            reveal_strlit("loop");
            reveal_strlit("кц");
            reveal_strlit("endloop");
            reveal_strlit("пока");
            reveal_strlit("while");
            reveal_strlit("для");
            reveal_strlit("for");
            reveal_strlit("от");
            reveal_strlit("from");
            reveal_strlit("до");
            reveal_strlit("to");
            reveal_strlit("шаг");
            reveal_strlit("step");
            reveal_strlit("раз");
            reveal_strlit("times");
            reveal_strlit("выход");
            reveal_strlit("exit");
            reveal_strlit("ввод");
            reveal_strlit("input");
            reveal_strlit("вывод");
            reveal_strlit("output");
            reveal_strlit("арг");
            reveal_strlit("рез");
            reveal_strlit("аргрез");
            reveal_strlit("знач");
            reveal_strlit("дано");
            reveal_strlit("надо");
            reveal_strlit("утв");
            reveal_strlit("assert");
            reveal_strlit("подключить");
            reveal_strlit("import");
            reveal_strlit("использовать");
            reveal_strlit("use");
            reveal_strlit("цел");
            reveal_strlit("вещ");
            reveal_strlit("лог");
            reveal_strlit("сим");
            reveal_strlit("лит");
            reveal_strlit("таб");
            reveal_strlit("да");
            assert("алг"@.len() != "да"@.len());
            assert("алг"@ != "да"@);
            assert("alg"@.len() != "да"@.len());
            assert("alg"@ != "да"@);
            assert("нач"@.len() != "да"@.len());
            assert("нач"@ != "да"@);
            assert("begin"@.len() != "да"@.len());
            assert("begin"@ != "да"@);
            assert("кон"@.len() != "да"@.len());
            assert("кон"@ != "да"@);
            assert("end"@.len() != "да"@.len());
            assert("end"@ != "да"@);
            assert("если"@.len() != "да"@.len());
            assert("если"@ != "да"@);
            assert("if"@[0] != "да"@[0]);
            assert("if"@ != "да"@);
            assert("то"@[0] != "да"@[0]);
            assert("то"@ != "да"@);
            assert("then"@.len() != "да"@.len());
            assert("then"@ != "да"@);
            assert("иначе"@.len() != "да"@.len());
            assert("иначе"@ != "да"@);
            assert("else"@.len() != "да"@.len());
            assert("else"@ != "да"@);
            assert("все"@.len() != "да"@.len());
            assert("все"@ != "да"@);
            assert("fi"@[0] != "да"@[0]);
            assert("fi"@ != "да"@);
            assert("выбор"@.len() != "да"@.len());
            assert("выбор"@ != "да"@);
            assert("switch"@.len() != "да"@.len());
            assert("switch"@ != "да"@);
            assert("при"@.len() != "да"@.len());
            assert("при"@ != "да"@);
            assert("case"@.len() != "да"@.len());
            assert("case"@ != "да"@);
            assert("нц"@[0] != "да"@[0]);
            assert("нц"@ != "да"@);
            assert("loop"@.len() != "да"@.len());
            assert("loop"@ != "да"@);
            assert("кц"@[0] != "да"@[0]);
            assert("кц"@ != "да"@);
            assert("endloop"@.len() != "да"@.len());
            assert("endloop"@ != "да"@);
            assert("пока"@.len() != "да"@.len());
            assert("пока"@ != "да"@);
            assert("while"@.len() != "да"@.len());
            assert("while"@ != "да"@);
            assert("для"@.len() != "да"@.len());
            assert("для"@ != "да"@);
            assert("for"@.len() != "да"@.len());
            assert("for"@ != "да"@);
            assert("от"@[0] != "да"@[0]);
            assert("от"@ != "да"@);
            assert("from"@.len() != "да"@.len());
            assert("from"@ != "да"@);
            assert("до"@[1] != "да"@[1]);
            assert("до"@ != "да"@);
            assert("to"@[0] != "да"@[0]);
            assert("to"@ != "да"@);
            assert("шаг"@.len() != "да"@.len());
            assert("шаг"@ != "да"@);
            assert("step"@.len() != "да"@.len());
            assert("step"@ != "да"@);
            assert("раз"@.len() != "да"@.len());
            assert("раз"@ != "да"@);
            assert("times"@.len() != "да"@.len());
            assert("times"@ != "да"@);
            assert("выход"@.len() != "да"@.len());
            assert("выход"@ != "да"@);
            assert("exit"@.len() != "да"@.len());
            assert("exit"@ != "да"@);
            assert("ввод"@.len() != "да"@.len());
            assert("ввод"@ != "да"@);
            assert("input"@.len() != "да"@.len());
            assert("input"@ != "да"@);
            assert("вывод"@.len() != "да"@.len());
            assert("вывод"@ != "да"@);
            assert("output"@.len() != "да"@.len());
            assert("output"@ != "да"@);
            assert("арг"@.len() != "да"@.len());
            assert("арг"@ != "да"@);
            assert("рез"@.len() != "да"@.len());
            assert("рез"@ != "да"@);
            assert("аргрез"@.len() != "да"@.len());
            assert("аргрез"@ != "да"@);
            assert("знач"@.len() != "да"@.len());
            assert("знач"@ != "да"@);
            assert("дано"@.len() != "да"@.len());
            assert("дано"@ != "да"@);
            assert("надо"@.len() != "да"@.len());
            assert("надо"@ != "да"@);
            assert("утв"@.len() != "да"@.len());
            assert("утв"@ != "да"@);
            assert("assert"@.len() != "да"@.len());
            assert("assert"@ != "да"@);
            assert("подключить"@.len() != "да"@.len());
            assert("подключить"@ != "да"@);
            assert("import"@.len() != "да"@.len());
            assert("import"@ != "да"@);
            assert("использовать"@.len() != "да"@.len());
            assert("использовать"@ != "да"@);
            assert("use"@.len() != "да"@.len());
            assert("use"@ != "да"@);
            assert("цел"@.len() != "да"@.len());
            assert("цел"@ != "да"@);
            assert("вещ"@.len() != "да"@.len());
            assert("вещ"@ != "да"@);
            assert("лог"@.len() != "да"@.len());
            assert("лог"@ != "да"@);
            assert("сим"@.len() != "да"@.len());
            assert("сим"@ != "да"@);
            assert("лит"@.len() != "да"@.len());
            assert("лит"@ != "да"@);
            assert("таб"@.len() != "да"@.len());
            assert("таб"@ != "да"@);
            assert(keyword_of("да"@) == Some(Token::True));
        },
        Token::False => {
            reveal_strlit("алг");
            reveal_strlit("alg");
            reveal_strlit("нач");
            reveal_strlit("begin");
            reveal_strlit("кон");
            reveal_strlit("end");
            reveal_strlit("если");
            reveal_strlit("if");
            reveal_strlit("то");
            reveal_strlit("then");
            reveal_strlit("иначе");
            reveal_strlit("else");
            reveal_strlit("все");
            reveal_strlit("fi");
            reveal_strlit("выбор");
            reveal_strlit("switch");
            reveal_strlit("при");
            reveal_strlit("case");
            reveal_strlit("нц");
            reveal_strlit("loop");
            reveal_strlit("кц");
            reveal_strlit("endloop");
            reveal_strlit("пока");
            reveal_strlit("while");
            reveal_strlit("для");
            reveal_strlit("for");
            reveal_strlit("от");
            reveal_strlit("from");
            reveal_strlit("до");
            reveal_strlit("to");
            reveal_strlit("шаг");
            reveal_strlit("step");
            reveal_strlit("раз");
            reveal_strlit("times");
            reveal_strlit("выход");
            reveal_strlit("exit");
            reveal_strlit("ввод");
            reveal_strlit("input");
            reveal_strlit("вывод");
            reveal_strlit("output");
            reveal_strlit("арг");
            reveal_strlit("рез");
            reveal_strlit("аргрез");
            reveal_strlit("знач");
            reveal_strlit("дано");
            reveal_strlit("надо");
            reveal_strlit("утв");
            reveal_strlit("assert");
            reveal_strlit("подключить");
            reveal_strlit("import");
            reveal_strlit("использовать");
            reveal_strlit("use");
            reveal_strlit("цел");
            reveal_strlit("вещ");
            reveal_strlit("лог");
            reveal_strlit("сим");
            reveal_strlit("лит");
            reveal_strlit("таб");
            reveal_strlit("да");
            reveal_strlit("true");
            reveal_strlit("нет");
            assert("алг"@[0] != "нет"@[0]);
            assert("алг"@ != "нет"@);
            assert("alg"@[0] != "нет"@[0]);
            assert("alg"@ != "нет"@);
            assert("нач"@[1] != "нет"@[1]);
            assert("нач"@ != "нет"@);
            assert("begin"@.len() != "нет"@.len());
            assert("begin"@ != "нет"@);
            assert("кон"@[0] != "нет"@[0]);
            assert("кон"@ != "нет"@);
            assert("end"@[0] != "нет"@[0]);
            assert("end"@ != "нет"@);
            assert("если"@.len() != "нет"@.len());
            assert("если"@ != "нет"@);
            assert("if"@.len() != "нет"@.len());
            assert("if"@ != "нет"@);
            assert("то"@.len() != "нет"@.len());
            assert("то"@ != "нет"@);
            assert("then"@.len() != "нет"@.len());
            assert("then"@ != "нет"@);
            assert("иначе"@.len() != "нет"@.len());
            assert("иначе"@ != "нет"@);
            assert("else"@.len() != "нет"@.len());
            assert("else"@ != "нет"@);
            assert("все"@[0] != "нет"@[0]);
            assert("все"@ != "нет"@);
            assert("fi"@.len() != "нет"@.len());
            assert("fi"@ != "нет"@);
            assert("выбор"@.len() != "нет"@.len());
            assert("выбор"@ != "нет"@);
            assert("switch"@.len() != "нет"@.len());
            assert("switch"@ != "нет"@);
            assert("при"@[0] != "нет"@[0]);
            assert("при"@ != "нет"@);
            assert("case"@.len() != "нет"@.len());
            assert("case"@ != "нет"@);
            assert("нц"@.len() != "нет"@.len());
            assert("нц"@ != "нет"@);
            assert("loop"@.len() != "нет"@.len());
            assert("loop"@ != "нет"@);
            assert("кц"@.len() != "нет"@.len());
            assert("кц"@ != "нет"@);
            assert("endloop"@.len() != "нет"@.len());
            assert("endloop"@ != "нет"@);
            assert("пока"@.len() != "нет"@.len());
            assert("пока"@ != "нет"@);
            assert("while"@.len() != "нет"@.len());
            assert("while"@ != "нет"@);
            assert("для"@[0] != "нет"@[0]);
            assert("для"@ != "нет"@);
            assert("for"@[0] != "нет"@[0]);
            assert("for"@ != "нет"@);
            assert("от"@.len() != "нет"@.len());
            assert("от"@ != "нет"@);
            assert("from"@.len() != "нет"@.len());
            assert("from"@ != "нет"@);
            assert("до"@.len() != "нет"@.len());
            assert("до"@ != "нет"@);
            assert("to"@.len() != "нет"@.len());
            assert("to"@ != "нет"@);
            assert("шаг"@[0] != "нет"@[0]);
            assert("шаг"@ != "нет"@);
            assert("step"@.len() != "нет"@.len());
            assert("step"@ != "нет"@);
            assert("раз"@[0] != "нет"@[0]);
            assert("раз"@ != "нет"@);
            assert("times"@.len() != "нет"@.len());
            assert("times"@ != "нет"@);
            assert("выход"@.len() != "нет"@.len());
            assert("выход"@ != "нет"@);
            assert("exit"@.len() != "нет"@.len());
            assert("exit"@ != "нет"@);
            assert("ввод"@.len() != "нет"@.len());
            assert("ввод"@ != "нет"@);
            assert("input"@.len() != "нет"@.len());
            assert("input"@ != "нет"@);
            assert("вывод"@.len() != "нет"@.len());
            assert("вывод"@ != "нет"@);
            assert("output"@.len() != "нет"@.len());
            assert("output"@ != "нет"@);
            assert("арг"@[0] != "нет"@[0]);
            assert("арг"@ != "нет"@);
            assert("рез"@[0] != "нет"@[0]);
            assert("рез"@ != "нет"@);
            assert("аргрез"@.len() != "нет"@.len());
            assert("аргрез"@ != "нет"@);
            assert("знач"@.len() != "нет"@.len());
            assert("знач"@ != "нет"@);
            assert("дано"@.len() != "нет"@.len());
            assert("дано"@ != "нет"@);
            assert("надо"@.len() != "нет"@.len());
            assert("надо"@ != "нет"@);
            assert("утв"@[0] != "нет"@[0]);
            assert("утв"@ != "нет"@);
            assert("assert"@.len() != "нет"@.len());
            assert("assert"@ != "нет"@);
            assert("подключить"@.len() != "нет"@.len());
            assert("подключить"@ != "нет"@);
            assert("import"@.len() != "нет"@.len());
            assert("import"@ != "нет"@);
            assert("использовать"@.len() != "нет"@.len());
            assert("использовать"@ != "нет"@);
            assert("use"@[0] != "нет"@[0]);
            assert("use"@ != "нет"@);
            assert("цел"@[0] != "нет"@[0]);
            assert("цел"@ != "нет"@);
            assert("вещ"@[0] != "нет"@[0]);
            assert("вещ"@ != "нет"@);
            assert("лог"@[0] != "нет"@[0]);
            assert("лог"@ != "нет"@);
            assert("сим"@[0] != "нет"@[0]);
            assert("сим"@ != "нет"@);
            assert("лит"@[0] != "нет"@[0]);
            assert("лит"@ != "нет"@);
            assert("таб"@[0] != "нет"@[0]);
            assert("таб"@ != "нет"@);
            assert("да"@.len() != "нет"@.len());
            assert("да"@ != "нет"@);
            assert("true"@.len() != "нет"@.len());
            assert("true"@ != "нет"@);
            assert(keyword_of("нет"@) == Some(Token::False));
        },
        Token::And => {
            reveal_strlit("алг");
            reveal_strlit("alg");
            reveal_strlit("нач");
            reveal_strlit("begin");
            reveal_strlit("кон");
            reveal_strlit("end");
            reveal_strlit("если");
            reveal_strlit("if");
            reveal_strlit("то");
            reveal_strlit("then");
            reveal_strlit("иначе");
            reveal_strlit("else");
            reveal_strlit("все");
            reveal_strlit("fi");
            reveal_strlit("выбор");
            reveal_strlit("switch");
            reveal_strlit("при");
            reveal_strlit("case");
            reveal_strlit("нц");
            reveal_strlit("loop");
            reveal_strlit("кц");
            reveal_strlit("endloop");
            reveal_strlit("пока");
            reveal_strlit("while");
            reveal_strlit("для");
            reveal_strlit("for");
            reveal_strlit("от");
            reveal_strlit("from");
            reveal_strlit("до");
            reveal_strlit("to");
            reveal_strlit("шаг");
            reveal_strlit("step");
            reveal_strlit("раз");
            reveal_strlit("times");
            reveal_strlit("выход");
            reveal_strlit("exit");
            reveal_strlit("ввод");
            reveal_strlit("input");
            reveal_strlit("вывод");
            reveal_strlit("output");
            reveal_strlit("арг");
            reveal_strlit("рез");
            reveal_strlit("аргрез");
            reveal_strlit("знач");
            reveal_strlit("дано");
            reveal_strlit("надо");
            reveal_strlit("утв");
            reveal_strlit("assert");
            reveal_strlit("подключить");
            reveal_strlit("import");
            reveal_strlit("использовать");
            reveal_strlit("use");
            reveal_strlit("цел");
            reveal_strlit("вещ");
            reveal_strlit("лог");
            reveal_strlit("сим");
            reveal_strlit("лит");
            reveal_strlit("таб");
            reveal_strlit("да");
            reveal_strlit("true");
            reveal_strlit("нет");
            reveal_strlit("false");
            reveal_strlit("и");
            assert("алг"@.len() != "и"@.len());
            assert("алг"@ != "и"@);
            assert("alg"@.len() != "и"@.len());
            assert("alg"@ != "и"@);
            assert("нач"@.len() != "и"@.len());
            assert("нач"@ != "и"@);
            assert("begin"@.len() != "и"@.len());
            assert("begin"@ != "и"@);
            assert("кон"@.len() != "и"@.len());
            assert("кон"@ != "и"@);
            assert("end"@.len() != "и"@.len());
            assert("end"@ != "и"@);
            assert("если"@.len() != "и"@.len());
            assert("если"@ != "и"@);
            assert("if"@.len() != "и"@.len());
            assert("if"@ != "и"@);
            assert("то"@.len() != "и"@.len());
            assert("то"@ != "и"@);
            assert("then"@.len() != "и"@.len());
            assert("then"@ != "и"@);
            assert("иначе"@.len() != "и"@.len());
            assert("иначе"@ != "и"@);
            assert("else"@.len() != "и"@.len());
            assert("else"@ != "и"@);
            assert("все"@.len() != "и"@.len());
            assert("все"@ != "и"@);
            assert("fi"@.len() != "и"@.len());
            assert("fi"@ != "и"@);
            assert("выбор"@.len() != "и"@.len());
            assert("выбор"@ != "и"@);
            assert("switch"@.len() != "и"@.len());
            assert("switch"@ != "и"@);
            assert("при"@.len() != "и"@.len());
            assert("при"@ != "и"@);
            assert("case"@.len() != "и"@.len());
            assert("case"@ != "и"@);
            assert("нц"@.len() != "и"@.len());
            assert("нц"@ != "и"@);
            assert("loop"@.len() != "и"@.len());
            assert("loop"@ != "и"@);
            assert("кц"@.len() != "и"@.len());
            assert("кц"@ != "и"@);
            assert("endloop"@.len() != "и"@.len());
            assert("endloop"@ != "и"@);
            assert("пока"@.len() != "и"@.len());
            assert("пока"@ != "и"@);
            assert("while"@.len() != "и"@.len());
            assert("while"@ != "и"@);
            assert("для"@.len() != "и"@.len());
            assert("для"@ != "и"@);
            assert("for"@.len() != "и"@.len());
            assert("for"@ != "и"@);
            assert("от"@.len() != "и"@.len());
            assert("от"@ != "и"@);
            assert("from"@.len() != "и"@.len());
            assert("from"@ != "и"@);
            assert("до"@.len() != "и"@.len());
            assert("до"@ != "и"@);
            assert("to"@.len() != "и"@.len());
            assert("to"@ != "и"@);
            assert("шаг"@.len() != "и"@.len());
            assert("шаг"@ != "и"@);
            assert("step"@.len() != "и"@.len());
            assert("step"@ != "и"@);
            assert("раз"@.len() != "и"@.len());
            assert("раз"@ != "и"@);
            assert("times"@.len() != "и"@.len());
            assert("times"@ != "и"@);
            assert("выход"@.len() != "и"@.len());
            assert("выход"@ != "и"@);
            assert("exit"@.len() != "и"@.len());
            assert("exit"@ != "и"@);
            assert("ввод"@.len() != "и"@.len());
            assert("ввод"@ != "и"@);
            assert("input"@.len() != "и"@.len());
            assert("input"@ != "и"@);
            assert("вывод"@.len() != "и"@.len());
            assert("вывод"@ != "и"@);
            assert("output"@.len() != "и"@.len());
            assert("output"@ != "и"@);
            assert("арг"@.len() != "и"@.len());
            assert("арг"@ != "и"@);
            assert("рез"@.len() != "и"@.len());
            assert("рез"@ != "и"@);
            assert("аргрез"@.len() != "и"@.len());
            assert("аргрез"@ != "и"@);
            assert("знач"@.len() != "и"@.len());
            assert("знач"@ != "и"@);
            assert("дано"@.len() != "и"@.len());
            assert("дано"@ != "и"@);
            assert("надо"@.len() != "и"@.len());
            assert("надо"@ != "и"@);
            assert("утв"@.len() != "и"@.len());
            assert("утв"@ != "и"@);
            assert("assert"@.len() != "и"@.len());
            assert("assert"@ != "и"@);
            assert("подключить"@.len() != "и"@.len());
            assert("подключить"@ != "и"@);
            assert("import"@.len() != "и"@.len());
            assert("import"@ != "и"@);
            assert("использовать"@.len() != "и"@.len());
            assert("использовать"@ != "и"@);
            assert("use"@.len() != "и"@.len());
            assert("use"@ != "и"@);
            assert("цел"@.len() != "и"@.len());
            assert("цел"@ != "и"@);
            assert("вещ"@.len() != "и"@.len());
            assert("вещ"@ != "и"@);
            assert("лог"@.len() != "и"@.len());
            assert("лог"@ != "и"@);
            assert("сим"@.len() != "и"@.len());
            assert("сим"@ != "и"@);
            assert("лит"@.len() != "и"@.len());
            assert("лит"@ != "и"@);
            assert("таб"@.len() != "и"@.len());
            assert("таб"@ != "и"@);
            assert("да"@.len() != "и"@.len());
            assert("да"@ != "и"@);
            assert("true"@.len() != "и"@.len());
            assert("true"@ != "и"@);
            assert("нет"@.len() != "и"@.len());
            assert("нет"@ != "и"@);
            assert("false"@.len() != "и"@.len());
            assert("false"@ != "и"@);
            assert(keyword_of("и"@) == Some(Token::And));
        },
        Token::Or => {
            reveal_strlit("алг");
            reveal_strlit("alg");
            reveal_strlit("нач");
            reveal_strlit("begin");
            reveal_strlit("кон");
            reveal_strlit("end");
            reveal_strlit("если");
            reveal_strlit("if");
            reveal_strlit("то");
            reveal_strlit("then");
            reveal_strlit("иначе");
            reveal_strlit("else");
            reveal_strlit("все");
            reveal_strlit("fi");
            reveal_strlit("выбор");
            reveal_strlit("switch");
            reveal_strlit("при");
            reveal_strlit("case");
            reveal_strlit("нц");
            reveal_strlit("loop");
            reveal_strlit("кц");
            reveal_strlit("endloop");
            reveal_strlit("пока");
            reveal_strlit("while");
            reveal_strlit("для");
            reveal_strlit("for");
            reveal_strlit("от");
            reveal_strlit("from");
            reveal_strlit("до");
            reveal_strlit("to");
            reveal_strlit("шаг");
            reveal_strlit("step");
            reveal_strlit("раз");
            reveal_strlit("times");
            reveal_strlit("выход");
            reveal_strlit("exit");
            reveal_strlit("ввод");
            reveal_strlit("input");
            reveal_strlit("вывод");
            reveal_strlit("output");
            reveal_strlit("арг");
            reveal_strlit("рез");
            reveal_strlit("аргрез");
            reveal_strlit("знач");
            reveal_strlit("дано");
            reveal_strlit("надо");
            reveal_strlit("утв");
            reveal_strlit("assert");
            reveal_strlit("подключить");
            reveal_strlit("import");
            reveal_strlit("использовать");
            reveal_strlit("use");
            reveal_strlit("цел");
            reveal_strlit("вещ");
            reveal_strlit("лог");
            reveal_strlit("сим");
            reveal_strlit("лит");
            reveal_strlit("таб");
            reveal_strlit("да");
            reveal_strlit("true");
            reveal_strlit("нет");
            reveal_strlit("false");
            reveal_strlit("и");
            reveal_strlit("and");
            reveal_strlit("или");
            assert("алг"@[0] != "или"@[0]);
            assert("алг"@ != "или"@);
            assert("alg"@[0] != "или"@[0]);
            assert("alg"@ != "или"@);
            assert("нач"@[0] != "или"@[0]);
            assert("нач"@ != "или"@);
            assert("begin"@.len() != "или"@.len());
            assert("begin"@ != "или"@);
            assert("кон"@[0] != "или"@[0]);
            assert("кон"@ != "или"@);
            assert("end"@[0] != "или"@[0]);
            assert("end"@ != "или"@);
            assert("если"@.len() != "или"@.len());
            assert("если"@ != "или"@);
            assert("if"@.len() != "или"@.len());
            assert("if"@ != "или"@);
            assert("то"@.len() != "или"@.len());
            assert("то"@ != "или"@);
            assert("then"@.len() != "или"@.len());
            assert("then"@ != "или"@);
            assert("иначе"@.len() != "или"@.len());
            assert("иначе"@ != "или"@);
            assert("else"@.len() != "или"@.len());
            assert("else"@ != "или"@);
            assert("все"@[0] != "или"@[0]);
            assert("все"@ != "или"@);
            assert("fi"@.len() != "или"@.len());
            assert("fi"@ != "или"@);
            assert("выбор"@.len() != "или"@.len());
            assert("выбор"@ != "или"@);
            assert("switch"@.len() != "или"@.len());
            assert("switch"@ != "или"@);
            assert("при"@[0] != "или"@[0]);
            assert("при"@ != "или"@);
            assert("case"@.len() != "или"@.len());
            assert("case"@ != "или"@);
            assert("нц"@.len() != "или"@.len());
            assert("нц"@ != "или"@);
            assert("loop"@.len() != "или"@.len());
            assert("loop"@ != "или"@);
            assert("кц"@.len() != "или"@.len());
            assert("кц"@ != "или"@);
            assert("endloop"@.len() != "или"@.len());
            assert("endloop"@ != "или"@);
            assert("пока"@.len() != "или"@.len());
            assert("пока"@ != "или"@);
            assert("while"@.len() != "или"@.len());
            assert("while"@ != "или"@);
            assert("для"@[0] != "или"@[0]);
            assert("для"@ != "или"@);
            assert("for"@[0] != "или"@[0]);
            assert("for"@ != "или"@);
            assert("от"@.len() != "или"@.len());
            assert("от"@ != "или"@);
            assert("from"@.len() != "или"@.len());
            assert("from"@ != "или"@);
            assert("до"@.len() != "или"@.len());
            assert("до"@ != "или"@);
            assert("to"@.len() != "или"@.len());
            assert("to"@ != "или"@);
            assert("шаг"@[0] != "или"@[0]);
            assert("шаг"@ != "или"@);
            assert("step"@.len() != "или"@.len());
            assert("step"@ != "или"@);
            assert("раз"@[0] != "или"@[0]);
            assert("раз"@ != "или"@);
            assert("times"@.len() != "или"@.len());
            assert("times"@ != "или"@);
            assert("выход"@.len() != "или"@.len());
            assert("выход"@ != "или"@);
            assert("exit"@.len() != "или"@.len());
            assert("exit"@ != "или"@);
            assert("ввод"@.len() != "или"@.len());
            assert("ввод"@ != "или"@);
            assert("input"@.len() != "или"@.len());
            assert("input"@ != "или"@);
            assert("вывод"@.len() != "или"@.len());
            assert("вывод"@ != "или"@);
            assert("output"@.len() != "или"@.len());
            assert("output"@ != "или"@);
            assert("арг"@[0] != "или"@[0]);
            assert("арг"@ != "или"@);
            assert("рез"@[0] != "или"@[0]);
            assert("рез"@ != "или"@);
            assert("аргрез"@.len() != "или"@.len());
            assert("аргрез"@ != "или"@);
            assert("знач"@.len() != "или"@.len());
            assert("знач"@ != "или"@);
            assert("дано"@.len() != "или"@.len());
            assert("дано"@ != "или"@);
            assert("надо"@.len() != "или"@.len());
            assert("надо"@ != "или"@);
            assert("утв"@[0] != "или"@[0]);
            assert("утв"@ != "или"@);
            assert("assert"@.len() != "или"@.len());
            assert("assert"@ != "или"@);
            assert("подключить"@.len() != "или"@.len());
            assert("подключить"@ != "или"@);
            assert("import"@.len() != "или"@.len());
            assert("import"@ != "или"@);
            assert("использовать"@.len() != "или"@.len());
            assert("использовать"@ != "или"@);
            assert("use"@[0] != "или"@[0]);
            assert("use"@ != "или"@);
            assert("цел"@[0] != "или"@[0]);
            assert("цел"@ != "или"@);
            assert("вещ"@[0] != "или"@[0]);
            assert("вещ"@ != "или"@);
            assert("лог"@[0] != "или"@[0]);
            assert("лог"@ != "или"@);
            assert("сим"@[0] != "или"@[0]);
            assert("сим"@ != "или"@);
            assert("лит"@[0] != "или"@[0]);
            assert("лит"@ != "или"@);
            assert("таб"@[0] != "или"@[0]);
            assert("таб"@ != "или"@);
            assert("да"@.len() != "или"@.len());
            assert("да"@ != "или"@);
            assert("true"@.len() != "или"@.len());
            assert("true"@ != "или"@);
            assert("нет"@[0] != "или"@[0]);
            assert("нет"@ != "или"@);
            assert("false"@.len() != "или"@.len());
            assert("false"@ != "или"@);
            assert("и"@.len() != "или"@.len());
            assert("и"@ != "или"@);
            assert("and"@[0] != "или"@[0]);
            assert("and"@ != "или"@);
            assert(keyword_of("или"@) == Some(Token::Or));
        },
        Token::Not => {
            reveal_strlit("алг");
            reveal_strlit("alg");
            reveal_strlit("нач");
            reveal_strlit("begin");
            reveal_strlit("кон");
            reveal_strlit("end");
            reveal_strlit("если");
            reveal_strlit("if");
            reveal_strlit("то");
            reveal_strlit("then");
            reveal_strlit("иначе");
            reveal_strlit("else");
            reveal_strlit("все");
            reveal_strlit("fi");
            reveal_strlit("выбор");
            reveal_strlit("switch");
            reveal_strlit("при");
            reveal_strlit("case");
            reveal_strlit("нц");
            reveal_strlit("loop");
            reveal_strlit("кц");
            reveal_strlit("endloop");
            reveal_strlit("пока");
            reveal_strlit("while");
            reveal_strlit("для");
            reveal_strlit("for");
            reveal_strlit("от");
            reveal_strlit("from");
            reveal_strlit("до");
            reveal_strlit("to");
            reveal_strlit("шаг");
            reveal_strlit("step");
            reveal_strlit("раз");
            reveal_strlit("times");
            reveal_strlit("выход");
            reveal_strlit("exit");
            reveal_strlit("ввод");
            reveal_strlit("input");
            reveal_strlit("вывод");
            reveal_strlit("output");
            reveal_strlit("арг");
            reveal_strlit("рез");
            reveal_strlit("аргрез");
            reveal_strlit("знач");
            reveal_strlit("дано");
            reveal_strlit("надо");
            reveal_strlit("утв");
            reveal_strlit("assert");
            reveal_strlit("подключить");
            reveal_strlit("import");
            reveal_strlit("использовать");
            reveal_strlit("use");
            reveal_strlit("цел");
            reveal_strlit("вещ");
            reveal_strlit("лог");
            reveal_strlit("сим");
            reveal_strlit("лит");
            reveal_strlit("таб");
            reveal_strlit("да");
            reveal_strlit("true");
            reveal_strlit("нет");
            reveal_strlit("false");
            reveal_strlit("и");
            reveal_strlit("and");
            reveal_strlit("или");
            reveal_strlit("or");
            reveal_strlit("не");
            assert("алг"@.len() != "не"@.len());
            assert("алг"@ != "не"@);
            assert("alg"@.len() != "не"@.len());
            assert("alg"@ != "не"@);
            assert("нач"@.len() != "не"@.len());
            assert("нач"@ != "не"@);
            assert("begin"@.len() != "не"@.len());
            assert("begin"@ != "не"@);
            assert("кон"@.len() != "не"@.len());
            assert("кон"@ != "не"@);
            assert("end"@.len() != "не"@.len());
            assert("end"@ != "не"@);
            assert("если"@.len() != "не"@.len());
            assert("если"@ != "не"@);
            assert("if"@[0] != "не"@[0]);
            assert("if"@ != "не"@);
            assert("то"@[0] != "не"@[0]);
            assert("то"@ != "не"@);
            assert("then"@.len() != "не"@.len());
            assert("then"@ != "не"@);
            assert("иначе"@.len() != "не"@.len());
            assert("иначе"@ != "не"@);
            assert("else"@.len() != "не"@.len());
            assert("else"@ != "не"@);
            assert("все"@.len() != "не"@.len());
            assert("все"@ != "не"@);
            assert("fi"@[0] != "не"@[0]);
            assert("fi"@ != "не"@);
            assert("выбор"@.len() != "не"@.len());
            assert("выбор"@ != "не"@);
            assert("switch"@.len() != "не"@.len());
            assert("switch"@ != "не"@);
            assert("при"@.len() != "не"@.len());
            assert("при"@ != "не"@);
            assert("case"@.len() != "не"@.len());
            assert("case"@ != "не"@);
            assert("нц"@[1] != "не"@[1]);
            assert("нц"@ != "не"@);
            assert("loop"@.len() != "не"@.len());
            assert("loop"@ != "не"@);
            assert("кц"@[0] != "не"@[0]);
            assert("кц"@ != "не"@);
            assert("endloop"@.len() != "не"@.len());
            assert("endloop"@ != "не"@);
            assert("пока"@.len() != "не"@.len());
            assert("пока"@ != "не"@);
            assert("while"@.len() != "не"@.len());
            assert("while"@ != "не"@);
            assert("для"@.len() != "не"@.len());
            assert("для"@ != "не"@);
            assert("for"@.len() != "не"@.len());
            assert("for"@ != "не"@);
            assert("от"@[0] != "не"@[0]);
            assert("от"@ != "не"@);
            assert("from"@.len() != "не"@.len());
            assert("from"@ != "не"@);
            assert("до"@[0] != "не"@[0]);
            assert("до"@ != "не"@);
            assert("to"@[0] != "не"@[0]);
            assert("to"@ != "не"@);
            assert("шаг"@.len() != "не"@.len());
            assert("шаг"@ != "не"@);
            assert("step"@.len() != "не"@.len());
            assert("step"@ != "не"@);
            assert("раз"@.len() != "не"@.len());
            assert("раз"@ != "не"@);
            assert("times"@.len() != "не"@.len());
            assert("times"@ != "не"@);
            assert("выход"@.len() != "не"@.len());
            assert("выход"@ != "не"@);
            assert("exit"@.len() != "не"@.len());
            assert("exit"@ != "не"@);
            assert("ввод"@.len() != "не"@.len());
            assert("ввод"@ != "не"@);
            assert("input"@.len() != "не"@.len());
            assert("input"@ != "не"@);
            assert("вывод"@.len() != "не"@.len());
            assert("вывод"@ != "не"@);
            assert("output"@.len() != "не"@.len());
            assert("output"@ != "не"@);
            assert("арг"@.len() != "не"@.len());
            assert("арг"@ != "не"@);
            assert("рез"@.len() != "не"@.len());
            assert("рез"@ != "не"@);
            assert("аргрез"@.len() != "не"@.len());
            assert("аргрез"@ != "не"@);
            assert("знач"@.len() != "не"@.len());
            assert("знач"@ != "не"@);
            assert("дано"@.len() != "не"@.len());
            assert("дано"@ != "не"@);
            assert("надо"@.len() != "не"@.len());
            assert("надо"@ != "не"@);
            assert("утв"@.len() != "не"@.len());
            assert("утв"@ != "не"@);
            assert("assert"@.len() != "не"@.len());
            assert("assert"@ != "не"@);
            assert("подключить"@.len() != "не"@.len());
            assert("подключить"@ != "не"@);
            assert("import"@.len() != "не"@.len());
            assert("import"@ != "не"@);
            assert("использовать"@.len() != "не"@.len());
            assert("использовать"@ != "не"@);
            assert("use"@.len() != "не"@.len());
            assert("use"@ != "не"@);
            assert("цел"@.len() != "не"@.len());
            assert("цел"@ != "не"@);
            assert("вещ"@.len() != "не"@.len());
            assert("вещ"@ != "не"@);
            assert("лог"@.len() != "не"@.len());
            assert("лог"@ != "не"@);
            assert("сим"@.len() != "не"@.len());
            assert("сим"@ != "не"@);
            assert("лит"@.len() != "не"@.len());
            assert("лит"@ != "не"@);
            assert("таб"@.len() != "не"@.len());
            assert("таб"@ != "не"@);
            assert("да"@[0] != "не"@[0]);
            assert("да"@ != "не"@);
            assert("true"@.len() != "не"@.len());
            assert("true"@ != "не"@);
            assert("нет"@.len() != "не"@.len());
            assert("нет"@ != "не"@);
            assert("false"@.len() != "не"@.len());
            assert("false"@ != "не"@);
            assert("и"@.len() != "не"@.len());
            assert("и"@ != "не"@);
            assert("and"@.len() != "не"@.len());
            assert("and"@ != "не"@);
            assert("или"@.len() != "не"@.len());
            assert("или"@ != "не"@);
            assert("or"@[0] != "не"@[0]);
            assert("or"@ != "не"@);
            assert(keyword_of("не"@) == Some(Token::Not));
        },
        _ => {},
    }
}

/// The keyword list holds exactly the keywords: a text is in
/// [`spec_all_keywords`] when, and only when, it spells a keyword.
pub proof fn lemma_keyword_list_exact(s: Seq<char>)
    ensures
        spec_all_keywords().contains(s) <==> keyword_of(s) is Some,
{
    let l = spec_all_keywords();
    assert(l[0] == "алг"@);
    assert(l[1] == "alg"@);
    assert(l[2] == "нач"@);
    assert(l[3] == "begin"@);
    assert(l[4] == "кон"@);
    assert(l[5] == "end"@);
    assert(l[6] == "если"@);
    assert(l[7] == "if"@);
    assert(l[8] == "то"@);
    assert(l[9] == "then"@);
    assert(l[10] == "иначе"@);
    assert(l[11] == "else"@);
    assert(l[12] == "все"@);
    assert(l[13] == "fi"@);
    assert(l[14] == "выбор"@);
    assert(l[15] == "switch"@);
    assert(l[16] == "при"@);
    assert(l[17] == "case"@);
    assert(l[18] == "нц"@);
    assert(l[19] == "loop"@);
    assert(l[20] == "кц"@);
    assert(l[21] == "endloop"@);
    assert(l[22] == "пока"@);
    assert(l[23] == "while"@);
    assert(l[24] == "для"@);
    assert(l[25] == "for"@);
    assert(l[26] == "от"@);
    assert(l[27] == "from"@);
    assert(l[28] == "до"@);
    assert(l[29] == "to"@);
    assert(l[30] == "шаг"@);
    assert(l[31] == "step"@);
    assert(l[32] == "раз"@);
    assert(l[33] == "times"@);
    assert(l[34] == "выход"@);
    assert(l[35] == "exit"@);
    assert(l[36] == "ввод"@);
    assert(l[37] == "input"@);
    assert(l[38] == "вывод"@);
    assert(l[39] == "output"@);
    assert(l[40] == "арг"@);
    assert(l[41] == "рез"@);
    assert(l[42] == "аргрез"@);
    assert(l[43] == "знач"@);
    assert(l[44] == "дано"@);
    assert(l[45] == "надо"@);
    assert(l[46] == "утв"@);
    assert(l[47] == "assert"@);
    assert(l[48] == "подключить"@);
    assert(l[49] == "import"@);
    assert(l[50] == "использовать"@);
    assert(l[51] == "use"@);
    assert(l[52] == "цел"@);
    assert(l[53] == "вещ"@);
    assert(l[54] == "лог"@);
    assert(l[55] == "сим"@);
    assert(l[56] == "лит"@);
    assert(l[57] == "таб"@);
    assert(l[58] == "да"@);
    assert(l[59] == "true"@);
    assert(l[60] == "нет"@);
    assert(l[61] == "false"@);
    assert(l[62] == "и"@);
    assert(l[63] == "and"@);
    assert(l[64] == "или"@);
    assert(l[65] == "or"@);
    assert(l[66] == "не"@);
    assert(l[67] == "not"@);
    if l.contains(s) {
        let i = choose|i: int| 0 <= i < l.len() && l[i] == s;
        assert(keyword_of(l[i]) is Some) by {
            if i == 0 {
                assert(keyword_of("алг"@) is Some);
            } else if i == 1 {
                assert(keyword_of("alg"@) is Some);
            } else if i == 2 {
                assert(keyword_of("нач"@) is Some);
            } else if i == 3 {
                assert(keyword_of("begin"@) is Some);
            } else if i == 4 {
                assert(keyword_of("кон"@) is Some);
            } else if i == 5 {
                assert(keyword_of("end"@) is Some);
            } else if i == 6 {
                assert(keyword_of("если"@) is Some);
            } else if i == 7 {
                assert(keyword_of("if"@) is Some);
            } else if i == 8 {
                assert(keyword_of("то"@) is Some);
            } else if i == 9 {
                assert(keyword_of("then"@) is Some);
            } else if i == 10 {
                assert(keyword_of("иначе"@) is Some);
            } else if i == 11 {
                assert(keyword_of("else"@) is Some);
            } else if i == 12 {
                assert(keyword_of("все"@) is Some);
            } else if i == 13 {
                assert(keyword_of("fi"@) is Some);
            } else if i == 14 {
                assert(keyword_of("выбор"@) is Some);
            } else if i == 15 {
                assert(keyword_of("switch"@) is Some);
            } else if i == 16 {
                assert(keyword_of("при"@) is Some);
            } else if i == 17 {
                assert(keyword_of("case"@) is Some);
            } else if i == 18 {
                assert(keyword_of("нц"@) is Some);
            } else if i == 19 {
                assert(keyword_of("loop"@) is Some);
            } else if i == 20 {
                assert(keyword_of("кц"@) is Some);
            } else if i == 21 {
                assert(keyword_of("endloop"@) is Some);
            } else if i == 22 {
                assert(keyword_of("пока"@) is Some);
            } else if i == 23 {
                assert(keyword_of("while"@) is Some);
            } else if i == 24 {
                assert(keyword_of("для"@) is Some);
            } else if i == 25 {
                assert(keyword_of("for"@) is Some);
            } else if i == 26 {
                assert(keyword_of("от"@) is Some);
            } else if i == 27 {
                assert(keyword_of("from"@) is Some);
            } else if i == 28 {
                assert(keyword_of("до"@) is Some);
            } else if i == 29 {
                assert(keyword_of("to"@) is Some);
            } else if i == 30 {
                assert(keyword_of("шаг"@) is Some);
            } else if i == 31 {
                assert(keyword_of("step"@) is Some);
            } else if i == 32 {
                assert(keyword_of("раз"@) is Some);
            } else if i == 33 {
                assert(keyword_of("times"@) is Some);
            } else if i == 34 {
                assert(keyword_of("выход"@) is Some);
            } else if i == 35 {
                assert(keyword_of("exit"@) is Some);
            } else if i == 36 {
                assert(keyword_of("ввод"@) is Some);
            } else if i == 37 {
                assert(keyword_of("input"@) is Some);
            } else if i == 38 {
                assert(keyword_of("вывод"@) is Some);
            } else if i == 39 {
                assert(keyword_of("output"@) is Some);
            } else if i == 40 {
                assert(keyword_of("арг"@) is Some);
            } else if i == 41 {
                assert(keyword_of("рез"@) is Some);
            } else if i == 42 {
                assert(keyword_of("аргрез"@) is Some);
            } else if i == 43 {
                assert(keyword_of("знач"@) is Some);
            } else if i == 44 {
                assert(keyword_of("дано"@) is Some);
            } else if i == 45 {
                assert(keyword_of("надо"@) is Some);
            } else if i == 46 {
                assert(keyword_of("утв"@) is Some);
            } else if i == 47 {
                assert(keyword_of("assert"@) is Some);
            } else if i == 48 {
                assert(keyword_of("подключить"@) is Some);
            } else if i == 49 {
                assert(keyword_of("import"@) is Some);
            } else if i == 50 {
                assert(keyword_of("использовать"@) is Some);
            } else if i == 51 {
                assert(keyword_of("use"@) is Some);
            } else if i == 52 {
                assert(keyword_of("цел"@) is Some);
            } else if i == 53 {
                assert(keyword_of("вещ"@) is Some);
            } else if i == 54 {
                assert(keyword_of("лог"@) is Some);
            } else if i == 55 {
                assert(keyword_of("сим"@) is Some);
            } else if i == 56 {
                assert(keyword_of("лит"@) is Some);
            } else if i == 57 {
                assert(keyword_of("таб"@) is Some);
            } else if i == 58 {
                assert(keyword_of("да"@) is Some);
            } else if i == 59 {
                assert(keyword_of("true"@) is Some);
            } else if i == 60 {
                assert(keyword_of("нет"@) is Some);
            } else if i == 61 {
                assert(keyword_of("false"@) is Some);
            } else if i == 62 {
                assert(keyword_of("и"@) is Some);
            } else if i == 63 {
                assert(keyword_of("and"@) is Some);
            } else if i == 64 {
                assert(keyword_of("или"@) is Some);
            } else if i == 65 {
                assert(keyword_of("or"@) is Some);
            } else if i == 66 {
                assert(keyword_of("не"@) is Some);
            } else if i == 67 {
                assert(keyword_of("not"@) is Some);
            }
        }
    }
}

} // verus!
