//! The fixed spellings of the language: its reserved words and its punctuators.
use vstd::prelude::*;

use crate::text::same_text;

verus! {

/// Whether a text is a reserved word.
pub open spec fn is_keyword(s: Seq<char>) -> bool {
    ||| s == "await"@
    ||| s == "break"@
    ||| s == "case"@
    ||| s == "catch"@
    ||| s == "class"@
    ||| s == "const"@
    ||| s == "continue"@
    ||| s == "debugger"@
    ||| s == "default"@
    ||| s == "delete"@
    ||| s == "do"@
    ||| s == "else"@
    ||| s == "enum"@
    ||| s == "export"@
    ||| s == "extends"@
    ||| s == "false"@
    ||| s == "finally"@
    ||| s == "for"@
    ||| s == "function"@
    ||| s == "if"@
    ||| s == "import"@
    ||| s == "in"@
    ||| s == "instanceof"@
    ||| s == "new"@
    ||| s == "null"@
    ||| s == "return"@
    ||| s == "super"@
    ||| s == "switch"@
    ||| s == "this"@
    ||| s == "throw"@
    ||| s == "true"@
    ||| s == "try"@
    ||| s == "typeof"@
    ||| s == "var"@
    ||| s == "void"@
    ||| s == "while"@
    ||| s == "with"@
    ||| s == "yield"@
}

/// Whether a text is a punctuator.
pub open spec fn is_punctuator(s: Seq<char>) -> bool {
    ||| s == "{"@
    ||| s == "}"@
    ||| s == "("@
    ||| s == ")"@
    ||| s == "["@
    ||| s == "]"@
    ||| s == "."@
    ||| s == "..."@
    ||| s == ";"@
    ||| s == ","@
    ||| s == "<"@
    ||| s == ">"@
    ||| s == "<="@
    ||| s == ">="@
    ||| s == "=="@
    ||| s == "!="@
    ||| s == "==="@
    ||| s == "!=="@
    ||| s == "+"@
    ||| s == "-"@
    ||| s == "*"@
    ||| s == "/"@
    ||| s == "%"@
    ||| s == "**"@
    ||| s == "++"@
    ||| s == "--"@
    ||| s == "<<"@
    ||| s == ">>"@
    ||| s == ">>>"@
    ||| s == "&"@
    ||| s == "|"@
    ||| s == "^"@
    ||| s == "!"@
    ||| s == "~"@
    ||| s == "&&"@
    ||| s == "||"@
    ||| s == "??"@
    ||| s == "?"@
    ||| s == "?."@
    ||| s == ":"@
    ||| s == "="@
    ||| s == "+="@
    ||| s == "-="@
    ||| s == "*="@
    ||| s == "/="@
    ||| s == "%="@
    ||| s == "**="@
    ||| s == "<<="@
    ||| s == ">>="@
    ||| s == ">>>="@
    ||| s == "&="@
    ||| s == "|="@
    ||| s == "^="@
    ||| s == "&&="@
    ||| s == "||="@
    ||| s == "??="@
    ||| s == "=>"@
}

/// Whether a text is one of the fixed spellings. Every operator of a parsed program is.
pub open spec fn is_spelling(s: Seq<char>) -> bool {
    is_keyword(s) || is_punctuator(s)
}

/// The shared copy of a reserved word.
fn keyword(s: &str) -> (r: Option<&'static str>)
    ensures
        match r {
            Some(t) => t@ == s@ && is_keyword(s@),
            None => !is_keyword(s@),
        },
{
    if same_text(s, "await") {
        return Some("await");
    }
    if same_text(s, "break") {
        return Some("break");
    }
    if same_text(s, "case") {
        return Some("case");
    }
    if same_text(s, "catch") {
        return Some("catch");
    }
    if same_text(s, "class") {
        return Some("class");
    }
    if same_text(s, "const") {
        return Some("const");
    }
    if same_text(s, "continue") {
        return Some("continue");
    }
    if same_text(s, "debugger") {
        return Some("debugger");
    }
    if same_text(s, "default") {
        return Some("default");
    }
    if same_text(s, "delete") {
        return Some("delete");
    }
    if same_text(s, "do") {
        return Some("do");
    }
    if same_text(s, "else") {
        return Some("else");
    }
    if same_text(s, "enum") {
        return Some("enum");
    }
    if same_text(s, "export") {
        return Some("export");
    }
    if same_text(s, "extends") {
        return Some("extends");
    }
    if same_text(s, "false") {
        return Some("false");
    }
    if same_text(s, "finally") {
        return Some("finally");
    }
    if same_text(s, "for") {
        return Some("for");
    }
    if same_text(s, "function") {
        return Some("function");
    }
    if same_text(s, "if") {
        return Some("if");
    }
    if same_text(s, "import") {
        return Some("import");
    }
    if same_text(s, "in") {
        return Some("in");
    }
    if same_text(s, "instanceof") {
        return Some("instanceof");
    }
    if same_text(s, "new") {
        return Some("new");
    }
    if same_text(s, "null") {
        return Some("null");
    }
    if same_text(s, "return") {
        return Some("return");
    }
    if same_text(s, "super") {
        return Some("super");
    }
    if same_text(s, "switch") {
        return Some("switch");
    }
    if same_text(s, "this") {
        return Some("this");
    }
    if same_text(s, "throw") {
        return Some("throw");
    }
    if same_text(s, "true") {
        return Some("true");
    }
    if same_text(s, "try") {
        return Some("try");
    }
    if same_text(s, "typeof") {
        return Some("typeof");
    }
    if same_text(s, "var") {
        return Some("var");
    }
    if same_text(s, "void") {
        return Some("void");
    }
    if same_text(s, "while") {
        return Some("while");
    }
    if same_text(s, "with") {
        return Some("with");
    }
    if same_text(s, "yield") {
        return Some("yield");
    }
    None
}

/// The shared copy of a punctuator.
fn punctuator(s: &str) -> (r: Option<&'static str>)
    ensures
        match r {
            Some(t) => t@ == s@ && is_punctuator(s@),
            None => !is_punctuator(s@),
        },
{
    if same_text(s, "{") {
        return Some("{");
    }
    if same_text(s, "}") {
        return Some("}");
    }
    if same_text(s, "(") {
        return Some("(");
    }
    if same_text(s, ")") {
        return Some(")");
    }
    if same_text(s, "[") {
        return Some("[");
    }
    if same_text(s, "]") {
        return Some("]");
    }
    if same_text(s, ".") {
        return Some(".");
    }
    if same_text(s, "...") {
        return Some("...");
    }
    if same_text(s, ";") {
        return Some(";");
    }
    if same_text(s, ",") {
        return Some(",");
    }
    if same_text(s, "<") {
        return Some("<");
    }
    if same_text(s, ">") {
        return Some(">");
    }
    if same_text(s, "<=") {
        return Some("<=");
    }
    if same_text(s, ">=") {
        return Some(">=");
    }
    if same_text(s, "==") {
        return Some("==");
    }
    if same_text(s, "!=") {
        return Some("!=");
    }
    if same_text(s, "===") {
        return Some("===");
    }
    if same_text(s, "!==") {
        return Some("!==");
    }
    if same_text(s, "+") {
        return Some("+");
    }
    if same_text(s, "-") {
        return Some("-");
    }
    if same_text(s, "*") {
        return Some("*");
    }
    if same_text(s, "/") {
        return Some("/");
    }
    if same_text(s, "%") {
        return Some("%");
    }
    if same_text(s, "**") {
        return Some("**");
    }
    if same_text(s, "++") {
        return Some("++");
    }
    if same_text(s, "--") {
        return Some("--");
    }
    if same_text(s, "<<") {
        return Some("<<");
    }
    if same_text(s, ">>") {
        return Some(">>");
    }
    if same_text(s, ">>>") {
        return Some(">>>");
    }
    if same_text(s, "&") {
        return Some("&");
    }
    if same_text(s, "|") {
        return Some("|");
    }
    if same_text(s, "^") {
        return Some("^");
    }
    if same_text(s, "!") {
        return Some("!");
    }
    if same_text(s, "~") {
        return Some("~");
    }
    if same_text(s, "&&") {
        return Some("&&");
    }
    if same_text(s, "||") {
        return Some("||");
    }
    if same_text(s, "??") {
        return Some("??");
    }
    if same_text(s, "?") {
        return Some("?");
    }
    if same_text(s, "?.") {
        return Some("?.");
    }
    if same_text(s, ":") {
        return Some(":");
    }
    if same_text(s, "=") {
        return Some("=");
    }
    if same_text(s, "+=") {
        return Some("+=");
    }
    if same_text(s, "-=") {
        return Some("-=");
    }
    if same_text(s, "*=") {
        return Some("*=");
    }
    if same_text(s, "/=") {
        return Some("/=");
    }
    if same_text(s, "%=") {
        return Some("%=");
    }
    if same_text(s, "**=") {
        return Some("**=");
    }
    if same_text(s, "<<=") {
        return Some("<<=");
    }
    if same_text(s, ">>=") {
        return Some(">>=");
    }
    if same_text(s, ">>>=") {
        return Some(">>>=");
    }
    if same_text(s, "&=") {
        return Some("&=");
    }
    if same_text(s, "|=") {
        return Some("|=");
    }
    if same_text(s, "^=") {
        return Some("^=");
    }
    if same_text(s, "&&=") {
        return Some("&&=");
    }
    if same_text(s, "||=") {
        return Some("||=");
    }
    if same_text(s, "??=") {
        return Some("??=");
    }
    if same_text(s, "=>") {
        return Some("=>");
    }
    None
}

/// The shared copy of a fixed spelling; `None` for any other text.
pub fn spelling(s: &str) -> (r: Option<&'static str>)
    ensures
        match r {
            Some(t) => t@ == s@ && is_spelling(s@),
            None => !is_spelling(s@),
        },
{
    match keyword(s) {
        Some(t) => Some(t),
        None => punctuator(s),
    }
}

} // verus!
