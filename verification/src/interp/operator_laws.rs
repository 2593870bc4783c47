//! What holds of operators and conversions, whatever the host answers.
use vstd::prelude::*;

use crate::bigint::radix_text;
use crate::grammar::Symbol;
use crate::interp::object::js_has_property_step;
use crate::interp::operate::{
    binary_step, bitwise_result, byte_length, call_bare_step, complemented, drain_step,
    fn_name_for_key_step, get_iterator_step, in_chain_from, in_chain_step, instanceof_step,
    iterate_with_step, iterator_close_normal_step, iterator_close_step, loose_equals_step,
    magnitude_of, name_method_step, ordinary_has_instance_from, prefix_operate_step,
    primitive_to_text_step, push_characters_from, push_elements_from, strict_equals_step,
    text_to_number_step, throws, to_boolean_step, to_number_step, to_primitive_step,
    to_property_key_step, to_string_step, type_of_step, Hint, MAX_STR_LEN,
};
use crate::interp::promise_laws::said;
use crate::interp::session::{Abrupt, Answer, ErrorKind, Key, Request, Value, WellKnown, World};
use crate::literal::{needs_digits, spelled_number, up_to, NumberTextView};
use crate::number::{
    double_of, int32_of, integers_read_back, magnitude, negated, negative, number_relation,
    truncated, truthy, wrap_signed, INFINITY, NAN, ONE, Relation,
};
use crate::text::decimal;
use crate::units::{text_units, units_relation};

verus! {

/// The operators are spelled differently.
#[verifier::spinoff_prover]
pub proof fn operators_differ()
    ensures
        "+"@ != "-"@,
        "+"@ != "*"@,
        "+"@ != "/"@,
        "+"@ != "%"@,
        "+"@ != "**"@,
        "+"@ != "&"@,
        "+"@ != "|"@,
        "+"@ != "^"@,
        "+"@ != "<<"@,
        "+"@ != ">>"@,
        "+"@ != ">>>"@,
        "+"@ != "=="@,
        "+"@ != "!="@,
        "+"@ != "==="@,
        "+"@ != "!=="@,
        "+"@ != "<"@,
        "+"@ != ">"@,
        "+"@ != "<="@,
        "+"@ != ">="@,
        "+"@ != "instanceof"@,
        "+"@ != "in"@,
        "+"@ != "!"@,
        "+"@ != "~"@,
        "+"@ != "typeof"@,
        "+"@ != "delete"@,
        "+"@ != "void"@,
        "+"@ != "&&"@,
        "+"@ != "||"@,
        "+"@ != "??"@,
        "+"@ != "++"@,
        "+"@ != "--"@,
        "-"@ != "*"@,
        "-"@ != "/"@,
        "-"@ != "%"@,
        "-"@ != "**"@,
        "-"@ != "&"@,
        "-"@ != "|"@,
        "-"@ != "^"@,
        "-"@ != "<<"@,
        "-"@ != ">>"@,
        "-"@ != ">>>"@,
        "-"@ != "=="@,
        "-"@ != "!="@,
        "-"@ != "==="@,
        "-"@ != "!=="@,
        "-"@ != "<"@,
        "-"@ != ">"@,
        "-"@ != "<="@,
        "-"@ != ">="@,
        "-"@ != "instanceof"@,
        "-"@ != "in"@,
        "-"@ != "!"@,
        "-"@ != "~"@,
        "-"@ != "typeof"@,
        "-"@ != "delete"@,
        "-"@ != "void"@,
        "-"@ != "&&"@,
        "-"@ != "||"@,
        "-"@ != "??"@,
        "-"@ != "++"@,
        "-"@ != "--"@,
        "*"@ != "/"@,
        "*"@ != "%"@,
        "*"@ != "**"@,
        "*"@ != "&"@,
        "*"@ != "|"@,
        "*"@ != "^"@,
        "*"@ != "<<"@,
        "*"@ != ">>"@,
        "*"@ != ">>>"@,
        "*"@ != "=="@,
        "*"@ != "!="@,
        "*"@ != "==="@,
        "*"@ != "!=="@,
        "*"@ != "<"@,
        "*"@ != ">"@,
        "*"@ != "<="@,
        "*"@ != ">="@,
        "*"@ != "instanceof"@,
        "*"@ != "in"@,
        "*"@ != "!"@,
        "*"@ != "~"@,
        "*"@ != "typeof"@,
        "*"@ != "delete"@,
        "*"@ != "void"@,
        "*"@ != "&&"@,
        "*"@ != "||"@,
        "*"@ != "??"@,
        "*"@ != "++"@,
        "*"@ != "--"@,
        "/"@ != "%"@,
        "/"@ != "**"@,
        "/"@ != "&"@,
        "/"@ != "|"@,
        "/"@ != "^"@,
        "/"@ != "<<"@,
        "/"@ != ">>"@,
        "/"@ != ">>>"@,
        "/"@ != "=="@,
        "/"@ != "!="@,
        "/"@ != "==="@,
        "/"@ != "!=="@,
        "/"@ != "<"@,
        "/"@ != ">"@,
        "/"@ != "<="@,
        "/"@ != ">="@,
        "/"@ != "instanceof"@,
        "/"@ != "in"@,
        "/"@ != "!"@,
        "/"@ != "~"@,
        "/"@ != "typeof"@,
        "/"@ != "delete"@,
        "/"@ != "void"@,
        "/"@ != "&&"@,
        "/"@ != "||"@,
        "/"@ != "??"@,
        "/"@ != "++"@,
        "/"@ != "--"@,
        "%"@ != "**"@,
        "%"@ != "&"@,
        "%"@ != "|"@,
        "%"@ != "^"@,
        "%"@ != "<<"@,
        "%"@ != ">>"@,
        "%"@ != ">>>"@,
        "%"@ != "=="@,
        "%"@ != "!="@,
        "%"@ != "==="@,
        "%"@ != "!=="@,
        "%"@ != "<"@,
        "%"@ != ">"@,
        "%"@ != "<="@,
        "%"@ != ">="@,
        "%"@ != "instanceof"@,
        "%"@ != "in"@,
        "%"@ != "!"@,
        "%"@ != "~"@,
        "%"@ != "typeof"@,
        "%"@ != "delete"@,
        "%"@ != "void"@,
        "%"@ != "&&"@,
        "%"@ != "||"@,
        "%"@ != "??"@,
        "%"@ != "++"@,
        "%"@ != "--"@,
        "**"@ != "&"@,
        "**"@ != "|"@,
        "**"@ != "^"@,
        "**"@ != "<<"@,
        "**"@ != ">>"@,
        "**"@ != ">>>"@,
        "**"@ != "=="@,
        "**"@ != "!="@,
        "**"@ != "==="@,
        "**"@ != "!=="@,
        "**"@ != "<"@,
        "**"@ != ">"@,
        "**"@ != "<="@,
        "**"@ != ">="@,
        "**"@ != "instanceof"@,
        "**"@ != "in"@,
        "**"@ != "!"@,
        "**"@ != "~"@,
        "**"@ != "typeof"@,
        "**"@ != "delete"@,
        "**"@ != "void"@,
        "**"@ != "&&"@,
        "**"@ != "||"@,
        "**"@ != "??"@,
        "**"@ != "++"@,
        "**"@ != "--"@,
        "&"@ != "|"@,
        "&"@ != "^"@,
        "&"@ != "<<"@,
        "&"@ != ">>"@,
        "&"@ != ">>>"@,
        "&"@ != "=="@,
        "&"@ != "!="@,
        "&"@ != "==="@,
        "&"@ != "!=="@,
        "&"@ != "<"@,
        "&"@ != ">"@,
        "&"@ != "<="@,
        "&"@ != ">="@,
        "&"@ != "instanceof"@,
        "&"@ != "in"@,
        "&"@ != "!"@,
        "&"@ != "~"@,
        "&"@ != "typeof"@,
        "&"@ != "delete"@,
        "&"@ != "void"@,
        "&"@ != "&&"@,
        "&"@ != "||"@,
        "&"@ != "??"@,
        "&"@ != "++"@,
        "&"@ != "--"@,
        "|"@ != "^"@,
        "|"@ != "<<"@,
        "|"@ != ">>"@,
        "|"@ != ">>>"@,
        "|"@ != "=="@,
        "|"@ != "!="@,
        "|"@ != "==="@,
        "|"@ != "!=="@,
        "|"@ != "<"@,
        "|"@ != ">"@,
        "|"@ != "<="@,
        "|"@ != ">="@,
        "|"@ != "instanceof"@,
        "|"@ != "in"@,
        "|"@ != "!"@,
        "|"@ != "~"@,
        "|"@ != "typeof"@,
        "|"@ != "delete"@,
        "|"@ != "void"@,
        "|"@ != "&&"@,
        "|"@ != "||"@,
        "|"@ != "??"@,
        "|"@ != "++"@,
        "|"@ != "--"@,
        "^"@ != "<<"@,
        "^"@ != ">>"@,
        "^"@ != ">>>"@,
        "^"@ != "=="@,
        "^"@ != "!="@,
        "^"@ != "==="@,
        "^"@ != "!=="@,
        "^"@ != "<"@,
        "^"@ != ">"@,
        "^"@ != "<="@,
        "^"@ != ">="@,
        "^"@ != "instanceof"@,
        "^"@ != "in"@,
        "^"@ != "!"@,
        "^"@ != "~"@,
        "^"@ != "typeof"@,
        "^"@ != "delete"@,
        "^"@ != "void"@,
        "^"@ != "&&"@,
        "^"@ != "||"@,
        "^"@ != "??"@,
        "^"@ != "++"@,
        "^"@ != "--"@,
        "<<"@ != ">>"@,
        "<<"@ != ">>>"@,
        "<<"@ != "=="@,
        "<<"@ != "!="@,
        "<<"@ != "==="@,
        "<<"@ != "!=="@,
        "<<"@ != "<"@,
        "<<"@ != ">"@,
        "<<"@ != "<="@,
        "<<"@ != ">="@,
        "<<"@ != "instanceof"@,
        "<<"@ != "in"@,
        "<<"@ != "!"@,
        "<<"@ != "~"@,
        "<<"@ != "typeof"@,
        "<<"@ != "delete"@,
        "<<"@ != "void"@,
        "<<"@ != "&&"@,
        "<<"@ != "||"@,
        "<<"@ != "??"@,
        "<<"@ != "++"@,
        "<<"@ != "--"@,
        ">>"@ != ">>>"@,
        ">>"@ != "=="@,
        ">>"@ != "!="@,
        ">>"@ != "==="@,
        ">>"@ != "!=="@,
        ">>"@ != "<"@,
        ">>"@ != ">"@,
        ">>"@ != "<="@,
        ">>"@ != ">="@,
        ">>"@ != "instanceof"@,
        ">>"@ != "in"@,
        ">>"@ != "!"@,
        ">>"@ != "~"@,
        ">>"@ != "typeof"@,
        ">>"@ != "delete"@,
        ">>"@ != "void"@,
        ">>"@ != "&&"@,
        ">>"@ != "||"@,
        ">>"@ != "??"@,
        ">>"@ != "++"@,
        ">>"@ != "--"@,
        ">>>"@ != "=="@,
        ">>>"@ != "!="@,
        ">>>"@ != "==="@,
        ">>>"@ != "!=="@,
        ">>>"@ != "<"@,
        ">>>"@ != ">"@,
        ">>>"@ != "<="@,
        ">>>"@ != ">="@,
        ">>>"@ != "instanceof"@,
        ">>>"@ != "in"@,
        ">>>"@ != "!"@,
        ">>>"@ != "~"@,
        ">>>"@ != "typeof"@,
        ">>>"@ != "delete"@,
        ">>>"@ != "void"@,
        ">>>"@ != "&&"@,
        ">>>"@ != "||"@,
        ">>>"@ != "??"@,
        ">>>"@ != "++"@,
        ">>>"@ != "--"@,
        "=="@ != "!="@,
        "=="@ != "==="@,
        "=="@ != "!=="@,
        "=="@ != "<"@,
        "=="@ != ">"@,
        "=="@ != "<="@,
        "=="@ != ">="@,
        "=="@ != "instanceof"@,
        "=="@ != "in"@,
        "=="@ != "!"@,
        "=="@ != "~"@,
        "=="@ != "typeof"@,
        "=="@ != "delete"@,
        "=="@ != "void"@,
        "=="@ != "&&"@,
        "=="@ != "||"@,
        "=="@ != "??"@,
        "=="@ != "++"@,
        "=="@ != "--"@,
        "!="@ != "==="@,
        "!="@ != "!=="@,
        "!="@ != "<"@,
        "!="@ != ">"@,
        "!="@ != "<="@,
        "!="@ != ">="@,
        "!="@ != "instanceof"@,
        "!="@ != "in"@,
        "!="@ != "!"@,
        "!="@ != "~"@,
        "!="@ != "typeof"@,
        "!="@ != "delete"@,
        "!="@ != "void"@,
        "!="@ != "&&"@,
        "!="@ != "||"@,
        "!="@ != "??"@,
        "!="@ != "++"@,
        "!="@ != "--"@,
        "==="@ != "!=="@,
        "==="@ != "<"@,
        "==="@ != ">"@,
        "==="@ != "<="@,
        "==="@ != ">="@,
        "==="@ != "instanceof"@,
        "==="@ != "in"@,
        "==="@ != "!"@,
        "==="@ != "~"@,
        "==="@ != "typeof"@,
        "==="@ != "delete"@,
        "==="@ != "void"@,
        "==="@ != "&&"@,
        "==="@ != "||"@,
        "==="@ != "??"@,
        "==="@ != "++"@,
        "==="@ != "--"@,
        "!=="@ != "<"@,
        "!=="@ != ">"@,
        "!=="@ != "<="@,
        "!=="@ != ">="@,
        "!=="@ != "instanceof"@,
        "!=="@ != "in"@,
        "!=="@ != "!"@,
        "!=="@ != "~"@,
        "!=="@ != "typeof"@,
        "!=="@ != "delete"@,
        "!=="@ != "void"@,
        "!=="@ != "&&"@,
        "!=="@ != "||"@,
        "!=="@ != "??"@,
        "!=="@ != "++"@,
        "!=="@ != "--"@,
        "<"@ != ">"@,
        "<"@ != "<="@,
        "<"@ != ">="@,
        "<"@ != "instanceof"@,
        "<"@ != "in"@,
        "<"@ != "!"@,
        "<"@ != "~"@,
        "<"@ != "typeof"@,
        "<"@ != "delete"@,
        "<"@ != "void"@,
        "<"@ != "&&"@,
        "<"@ != "||"@,
        "<"@ != "??"@,
        "<"@ != "++"@,
        "<"@ != "--"@,
        ">"@ != "<="@,
        ">"@ != ">="@,
        ">"@ != "instanceof"@,
        ">"@ != "in"@,
        ">"@ != "!"@,
        ">"@ != "~"@,
        ">"@ != "typeof"@,
        ">"@ != "delete"@,
        ">"@ != "void"@,
        ">"@ != "&&"@,
        ">"@ != "||"@,
        ">"@ != "??"@,
        ">"@ != "++"@,
        ">"@ != "--"@,
        "<="@ != ">="@,
        "<="@ != "instanceof"@,
        "<="@ != "in"@,
        "<="@ != "!"@,
        "<="@ != "~"@,
        "<="@ != "typeof"@,
        "<="@ != "delete"@,
        "<="@ != "void"@,
        "<="@ != "&&"@,
        "<="@ != "||"@,
        "<="@ != "??"@,
        "<="@ != "++"@,
        "<="@ != "--"@,
        ">="@ != "instanceof"@,
        ">="@ != "in"@,
        ">="@ != "!"@,
        ">="@ != "~"@,
        ">="@ != "typeof"@,
        ">="@ != "delete"@,
        ">="@ != "void"@,
        ">="@ != "&&"@,
        ">="@ != "||"@,
        ">="@ != "??"@,
        ">="@ != "++"@,
        ">="@ != "--"@,
        "instanceof"@ != "in"@,
        "instanceof"@ != "!"@,
        "instanceof"@ != "~"@,
        "instanceof"@ != "typeof"@,
        "instanceof"@ != "delete"@,
        "instanceof"@ != "void"@,
        "instanceof"@ != "&&"@,
        "instanceof"@ != "||"@,
        "instanceof"@ != "??"@,
        "instanceof"@ != "++"@,
        "instanceof"@ != "--"@,
        "in"@ != "!"@,
        "in"@ != "~"@,
        "in"@ != "typeof"@,
        "in"@ != "delete"@,
        "in"@ != "void"@,
        "in"@ != "&&"@,
        "in"@ != "||"@,
        "in"@ != "??"@,
        "in"@ != "++"@,
        "in"@ != "--"@,
        "!"@ != "~"@,
        "!"@ != "typeof"@,
        "!"@ != "delete"@,
        "!"@ != "void"@,
        "!"@ != "&&"@,
        "!"@ != "||"@,
        "!"@ != "??"@,
        "!"@ != "++"@,
        "!"@ != "--"@,
        "~"@ != "typeof"@,
        "~"@ != "delete"@,
        "~"@ != "void"@,
        "~"@ != "&&"@,
        "~"@ != "||"@,
        "~"@ != "??"@,
        "~"@ != "++"@,
        "~"@ != "--"@,
        "typeof"@ != "delete"@,
        "typeof"@ != "void"@,
        "typeof"@ != "&&"@,
        "typeof"@ != "||"@,
        "typeof"@ != "??"@,
        "typeof"@ != "++"@,
        "typeof"@ != "--"@,
        "delete"@ != "void"@,
        "delete"@ != "&&"@,
        "delete"@ != "||"@,
        "delete"@ != "??"@,
        "delete"@ != "++"@,
        "delete"@ != "--"@,
        "void"@ != "&&"@,
        "void"@ != "||"@,
        "void"@ != "??"@,
        "void"@ != "++"@,
        "void"@ != "--"@,
        "&&"@ != "||"@,
        "&&"@ != "??"@,
        "&&"@ != "++"@,
        "&&"@ != "--"@,
        "||"@ != "??"@,
        "||"@ != "++"@,
        "||"@ != "--"@,
        "??"@ != "++"@,
        "??"@ != "--"@,
        "++"@ != "--"@,
{
    reveal_strlit("+");
    reveal_strlit("-");
    reveal_strlit("*");
    reveal_strlit("/");
    reveal_strlit("%");
    reveal_strlit("**");
    reveal_strlit("&");
    reveal_strlit("|");
    reveal_strlit("^");
    reveal_strlit("<<");
    reveal_strlit(">>");
    reveal_strlit(">>>");
    reveal_strlit("==");
    reveal_strlit("!=");
    reveal_strlit("===");
    reveal_strlit("!==");
    reveal_strlit("<");
    reveal_strlit(">");
    reveal_strlit("<=");
    reveal_strlit(">=");
    reveal_strlit("instanceof");
    reveal_strlit("in");
    reveal_strlit("!");
    reveal_strlit("~");
    reveal_strlit("typeof");
    reveal_strlit("delete");
    reveal_strlit("void");
    reveal_strlit("&&");
    reveal_strlit("||");
    reveal_strlit("??");
    reveal_strlit("++");
    reveal_strlit("--");
    assert("+"@.len() == 1);
    assert("-"@.len() == 1);
    assert("*"@.len() == 1);
    assert("/"@.len() == 1);
    assert("%"@.len() == 1);
    assert("**"@.len() == 2);
    assert("&"@.len() == 1);
    assert("|"@.len() == 1);
    assert("^"@.len() == 1);
    assert("<<"@.len() == 2);
    assert(">>"@.len() == 2);
    assert(">>>"@.len() == 3);
    assert("=="@.len() == 2);
    assert("!="@.len() == 2);
    assert("==="@.len() == 3);
    assert("!=="@.len() == 3);
    assert("<"@.len() == 1);
    assert(">"@.len() == 1);
    assert("<="@.len() == 2);
    assert(">="@.len() == 2);
    assert("instanceof"@.len() == 10);
    assert("in"@.len() == 2);
    assert("!"@.len() == 1);
    assert("~"@.len() == 1);
    assert("typeof"@.len() == 6);
    assert("delete"@.len() == 6);
    assert("void"@.len() == 4);
    assert("&&"@.len() == 2);
    assert("||"@.len() == 2);
    assert("??"@.len() == 2);
    assert("++"@.len() == 2);
    assert("--"@.len() == 2);
    assert("+"@[0] != "-"@[0]);
    assert("+"@[0] != "*"@[0]);
    assert("+"@[0] != "/"@[0]);
    assert("+"@[0] != "%"@[0]);
    assert("+"@[0] != "&"@[0]);
    assert("+"@[0] != "|"@[0]);
    assert("+"@[0] != "^"@[0]);
    assert("+"@[0] != "<"@[0]);
    assert("+"@[0] != ">"@[0]);
    assert("+"@[0] != "!"@[0]);
    assert("+"@[0] != "~"@[0]);
    assert("-"@[0] != "*"@[0]);
    assert("-"@[0] != "/"@[0]);
    assert("-"@[0] != "%"@[0]);
    assert("-"@[0] != "&"@[0]);
    assert("-"@[0] != "|"@[0]);
    assert("-"@[0] != "^"@[0]);
    assert("-"@[0] != "<"@[0]);
    assert("-"@[0] != ">"@[0]);
    assert("-"@[0] != "!"@[0]);
    assert("-"@[0] != "~"@[0]);
    assert("*"@[0] != "/"@[0]);
    assert("*"@[0] != "%"@[0]);
    assert("*"@[0] != "&"@[0]);
    assert("*"@[0] != "|"@[0]);
    assert("*"@[0] != "^"@[0]);
    assert("*"@[0] != "<"@[0]);
    assert("*"@[0] != ">"@[0]);
    assert("*"@[0] != "!"@[0]);
    assert("*"@[0] != "~"@[0]);
    assert("/"@[0] != "%"@[0]);
    assert("/"@[0] != "&"@[0]);
    assert("/"@[0] != "|"@[0]);
    assert("/"@[0] != "^"@[0]);
    assert("/"@[0] != "<"@[0]);
    assert("/"@[0] != ">"@[0]);
    assert("/"@[0] != "!"@[0]);
    assert("/"@[0] != "~"@[0]);
    assert("%"@[0] != "&"@[0]);
    assert("%"@[0] != "|"@[0]);
    assert("%"@[0] != "^"@[0]);
    assert("%"@[0] != "<"@[0]);
    assert("%"@[0] != ">"@[0]);
    assert("%"@[0] != "!"@[0]);
    assert("%"@[0] != "~"@[0]);
    assert("**"@[0] != "<<"@[0]);
    assert("**"@[0] != ">>"@[0]);
    assert("**"@[0] != "=="@[0]);
    assert("**"@[0] != "!="@[0]);
    assert("**"@[0] != "<="@[0]);
    assert("**"@[0] != ">="@[0]);
    assert("**"@[0] != "in"@[0]);
    assert("**"@[0] != "&&"@[0]);
    assert("**"@[0] != "||"@[0]);
    assert("**"@[0] != "??"@[0]);
    assert("**"@[0] != "++"@[0]);
    assert("**"@[0] != "--"@[0]);
    assert("&"@[0] != "|"@[0]);
    assert("&"@[0] != "^"@[0]);
    assert("&"@[0] != "<"@[0]);
    assert("&"@[0] != ">"@[0]);
    assert("&"@[0] != "!"@[0]);
    assert("&"@[0] != "~"@[0]);
    assert("|"@[0] != "^"@[0]);
    assert("|"@[0] != "<"@[0]);
    assert("|"@[0] != ">"@[0]);
    assert("|"@[0] != "!"@[0]);
    assert("|"@[0] != "~"@[0]);
    assert("^"@[0] != "<"@[0]);
    assert("^"@[0] != ">"@[0]);
    assert("^"@[0] != "!"@[0]);
    assert("^"@[0] != "~"@[0]);
    assert("<<"@[0] != ">>"@[0]);
    assert("<<"@[0] != "=="@[0]);
    assert("<<"@[0] != "!="@[0]);
    assert("<<"@[1] != "<="@[1]);
    assert("<<"@[0] != ">="@[0]);
    assert("<<"@[0] != "in"@[0]);
    assert("<<"@[0] != "&&"@[0]);
    assert("<<"@[0] != "||"@[0]);
    assert("<<"@[0] != "??"@[0]);
    assert("<<"@[0] != "++"@[0]);
    assert("<<"@[0] != "--"@[0]);
    assert(">>"@[0] != "=="@[0]);
    assert(">>"@[0] != "!="@[0]);
    assert(">>"@[0] != "<="@[0]);
    assert(">>"@[1] != ">="@[1]);
    assert(">>"@[0] != "in"@[0]);
    assert(">>"@[0] != "&&"@[0]);
    assert(">>"@[0] != "||"@[0]);
    assert(">>"@[0] != "??"@[0]);
    assert(">>"@[0] != "++"@[0]);
    assert(">>"@[0] != "--"@[0]);
    assert(">>>"@[0] != "==="@[0]);
    assert(">>>"@[0] != "!=="@[0]);
    assert("=="@[0] != "!="@[0]);
    assert("=="@[0] != "<="@[0]);
    assert("=="@[0] != ">="@[0]);
    assert("=="@[0] != "in"@[0]);
    assert("=="@[0] != "&&"@[0]);
    assert("=="@[0] != "||"@[0]);
    assert("=="@[0] != "??"@[0]);
    assert("=="@[0] != "++"@[0]);
    assert("=="@[0] != "--"@[0]);
    assert("!="@[0] != "<="@[0]);
    assert("!="@[0] != ">="@[0]);
    assert("!="@[0] != "in"@[0]);
    assert("!="@[0] != "&&"@[0]);
    assert("!="@[0] != "||"@[0]);
    assert("!="@[0] != "??"@[0]);
    assert("!="@[0] != "++"@[0]);
    assert("!="@[0] != "--"@[0]);
    assert("==="@[0] != "!=="@[0]);
    assert("<"@[0] != ">"@[0]);
    assert("<"@[0] != "!"@[0]);
    assert("<"@[0] != "~"@[0]);
    assert(">"@[0] != "!"@[0]);
    assert(">"@[0] != "~"@[0]);
    assert("<="@[0] != ">="@[0]);
    assert("<="@[0] != "in"@[0]);
    assert("<="@[0] != "&&"@[0]);
    assert("<="@[0] != "||"@[0]);
    assert("<="@[0] != "??"@[0]);
    assert("<="@[0] != "++"@[0]);
    assert("<="@[0] != "--"@[0]);
    assert(">="@[0] != "in"@[0]);
    assert(">="@[0] != "&&"@[0]);
    assert(">="@[0] != "||"@[0]);
    assert(">="@[0] != "??"@[0]);
    assert(">="@[0] != "++"@[0]);
    assert(">="@[0] != "--"@[0]);
    assert("in"@[0] != "&&"@[0]);
    assert("in"@[0] != "||"@[0]);
    assert("in"@[0] != "??"@[0]);
    assert("in"@[0] != "++"@[0]);
    assert("in"@[0] != "--"@[0]);
    assert("!"@[0] != "~"@[0]);
    assert("typeof"@[0] != "delete"@[0]);
    assert("&&"@[0] != "||"@[0]);
    assert("&&"@[0] != "??"@[0]);
    assert("&&"@[0] != "++"@[0]);
    assert("&&"@[0] != "--"@[0]);
    assert("||"@[0] != "??"@[0]);
    assert("||"@[0] != "++"@[0]);
    assert("||"@[0] != "--"@[0]);
    assert("??"@[0] != "++"@[0]);
    assert("??"@[0] != "--"@[0]);
    assert("++"@[0] != "--"@[0]);
}

// ---- numbers

/// Numbers that are not negative are ordered as their bits are; a number is never ordered against a NaN,
/// and turning both signs round turns the order round.
pub proof fn numbers_are_ordered(a: u64, b: u64)
    ensures
        a <= INFINITY && b <= INFINITY ==> number_relation(a, b) == (if a < b {
            Relation::Less
        } else if a == b {
            Relation::Equal
        } else {
            Relation::Greater
        }),
        magnitude(a) > INFINITY || magnitude(b) > INFINITY ==> number_relation(a, b)
            == Relation::Unordered,
        number_relation(negated(b), negated(a)) == number_relation(a, b),
        negative(a) && !negative(b) && magnitude(a) <= INFINITY && magnitude(b) <= INFINITY && (
        magnitude(a) != 0 || magnitude(b) != 0) ==> number_relation(a, b) == Relation::Less,
        magnitude(a) == 0 && magnitude(b) == 0 ==> number_relation(a, b) == Relation::Equal,
{
}

/// Turning the sign of a number round keeps its size, and turning it round twice gives the number back.
pub proof fn negation_turns_signs(a: u64)
    ensures
        negated(negated(a)) == a,
        magnitude(negated(a)) == magnitude(a),
        negative(negated(a)) == !negative(a),
{
}

/// Of the numbers, zero, negative zero and NaN alone count as false.
pub proof fn falsy_numbers(a: u64)
    ensures
        truthy(a) <==> a != 0 && a != 0x8000_0000_0000_0000 && magnitude(a) <= INFINITY,
{
}

/// Bitwise operators on two numbers, by what they do with special operands: `-1` has every bit and `0` none.
pub proof fn bits_combine(a: u64, b: u64)
    ensures
        truncated(bitwise_result("&"@, a, double_of(-1))) == int32_of(a),
        truncated(bitwise_result("&"@, a, 0)) == 0,
        truncated(bitwise_result("|"@, a, 0)) == int32_of(a),
        truncated(bitwise_result("|"@, a, double_of(-1))) == -1,
        truncated(bitwise_result("^"@, a, a)) == 0,
        truncated(bitwise_result("^"@, a, 0)) == int32_of(a),
        truncated(bitwise_result("^"@, a, double_of(-1))) == -int32_of(a) - 1,
        truncated(bitwise_result("<<"@, a, 0)) == int32_of(a),
        truncated(bitwise_result("<<"@, a, double_of(1))) == wrap_signed(2 * int32_of(a)),
        truncated(bitwise_result(">>"@, a, 0)) == int32_of(a),
        truncated(bitwise_result(">>"@, a, double_of(31))) == (if int32_of(a) < 0 {
            -1int
        } else {
            0
        }),
        truncated(bitwise_result(">>>"@, a, 0)) == int32_of(a) % 0x1_0000_0000,
        truncated(complemented(a)) == -int32_of(a) - 1,
{
    operators_differ();
    integers_read_back(-1);
    integers_read_back(0);
    integers_read_back(1);
    integers_read_back(31);
    assert(double_of(0) == 0);
    assert(truncated(0) == 0) by {
        integers_read_back(0);
    }
    assert(int32_of(double_of(-1)) == -1);
    assert(int32_of(0) == 0);
    assert(int32_of(double_of(1)) == 1);
    assert(int32_of(double_of(31)) == 31);
    let x = int32_of(a) as i32;
    assert(x as int == int32_of(a));
    lemma_bit_facts(x);
    integers_read_back(int32_of(a));
    integers_read_back(-int32_of(a) - 1);
    integers_read_back(wrap_signed(2 * int32_of(a)));
    integers_read_back(int32_of(a) % 0x1_0000_0000);
}

proof fn lemma_bit_facts(x: i32)
    ensures
        x & (-1i32) == x,
        x & 0i32 == 0,
        x | 0i32 == x,
        x | (-1i32) == -1,
        x ^ x == 0,
        x ^ 0i32 == x,
        x ^ (-1i32) == -x - 1,
        ((0i32 as u32) & 31) as u32 == 0,
        ((1i32 as u32) & 31) as u32 == 1,
        ((31i32 as u32) & 31) as u32 == 31,
        ((x as u32) << 0u32) as i32 == x,
        ((x as u32) << 1u32) as i32 as int == wrap_signed(2 * x as int),
        x >> 0u32 == x,
        x >> 31u32 == (if x < 0 {
            -1i32
        } else {
            0
        }),
        ((x as u32) >> 0u32) as int == x as int % 0x1_0000_0000,
{
    assert(x & (-1i32) == x) by (bit_vector);
    assert(x & 0i32 == 0) by (bit_vector);
    assert(x | 0i32 == x) by (bit_vector);
    assert(x | (-1i32) == -1i32) by (bit_vector);
    assert(x ^ x == 0) by (bit_vector);
    assert(x ^ 0i32 == x) by (bit_vector);
    assert(x ^ (-1i32) == -x - 1) by (bit_vector);
    assert(((0i32 as u32) & 31) as u32 == 0) by (bit_vector);
    assert(((1i32 as u32) & 31) as u32 == 1) by (bit_vector);
    assert(((31i32 as u32) & 31) as u32 == 31) by (bit_vector);
    assert(((x as u32) << 0u32) as i32 == x) by (bit_vector);
    assert(x >> 0u32 == x) by (bit_vector);
    assert(x >> 31u32 == (if x < 0 {
        -1i32
    } else {
        0i32
    })) by (bit_vector);
    let u = x as u32;
    assert(u >> 0u32 == u) by (bit_vector);
    assert(x >= 0 ==> u as i64 == x as i64) by (bit_vector)
        requires
            u == x as u32,
    ;
    assert(x < 0 ==> u as i64 - 0x1_0000_0000i64 == x as i64) by (bit_vector)
        requires
            u == x as u32,
    ;
    let d = (u << 1u32) as i32;
    assert(x >= 0x4000_0000i32 ==> d as i64 == x as i64 + x as i64 - 0x1_0000_0000i64) by (bit_vector)
        requires
            u == x as u32,
            d == (u << 1u32) as i32,
    ;
    assert(x < -0x4000_0000i32 ==> d as i64 == x as i64 + x as i64 + 0x1_0000_0000i64) by (bit_vector)
        requires
            u == x as u32,
            d == (u << 1u32) as i32,
    ;
    assert(-0x4000_0000i32 <= x && x < 0x4000_0000i32 ==> d as i64 == x as i64 + x as i64)
        by (bit_vector)
        requires
            u == x as u32,
            d == (u << 1u32) as i32,
    ;
}

// ---- equality and order

/// `===` on numbers: equal bits, but that no NaN equals anything and that the two zeros are equal.
pub proof fn equal_numbers<'a>(a: u64, b: u64, w: World<'a>)
    ensures
        strict_equals_step(Value::Num(a), Value::Num(b), w) == (
            Ok::<bool, Abrupt<'a>>(
                magnitude(a) <= INFINITY && magnitude(b) <= INFINITY && (a == b || (magnitude(a) == 0
                    && magnitude(b) == 0)),
            ),
            w,
        ),
{
}

/// `===` on values of one type other than numbers, and on values of two types.
pub proof fn equal_values<'a>(a: Value, b: Value, w: World<'a>)
    ensures
        ({
            let (r, after) = strict_equals_step(a, b, w);
            &&& after == w
            &&& r is Ok
            &&& match (a, b) {
                (Value::Undefined, Value::Undefined) | (Value::Null, Value::Null) => r->Ok_0,
                (Value::Bool(x), Value::Bool(y)) => r->Ok_0 == (x == y),
                (Value::Str(x), Value::Str(y)) => r->Ok_0 == (w.text(x) == w.text(y)),
                (Value::BigInt(_), Value::BigInt(_)) => r->Ok_0 == (w.integer(a) == w.integer(b)),
                (Value::Sym(x), Value::Sym(y)) => r->Ok_0 == (x == y),
                (Value::Obj(x), Value::Obj(y)) => r->Ok_0 == (x == y),
                (Value::Num(_), Value::Num(_)) => true,
                _ => !r->Ok_0,
            }
            &&& strict_equals_step(b, a, w) == (r, after)
        }),
{
}

/// `==` on values that need no conversion: `undefined` and `null` equal each other and nothing else that is
/// no object; two values of one type are equal as with `===`; a boolean counts as a number.
pub proof fn loosely_equal_values<'a>(a: Value, b: Value, w: World<'a>)
    requires
        !(a is Obj) && !(b is Obj),
    ensures
        a.nullish() && b.nullish() ==> loose_equals_step(a, b, w) == (
            Ok::<bool, Abrupt<'a>>(true),
            w,
        ),
        a.nullish() && !b.nullish() && !(b is Empty) ==> loose_equals_step(a, b, w) == (
            Ok::<bool, Abrupt<'a>>(false),
            w,
        ) && loose_equals_step(b, a, w) == (Ok::<bool, Abrupt<'a>>(false), w),
        (a is Num && b is Num) || (a is Str && b is Str) || (a is Bool && b is Bool) || (a is Sym && b
            is Sym) || (a is BigInt && b is BigInt) ==> loose_equals_step(a, b, w)
            == strict_equals_step(a, b, w),
        a matches Value::Bool(x) ==> (b is Num ==> loose_equals_step(a, b, w) == strict_equals_step(
            Value::Num(
                if x {
                    ONE
                } else {
                    0
                },
            ),
            b,
            w,
        )),
{
}

/// A number and a string are loosely equal if the number that the string spells is, on either side.
pub proof fn texts_compare_as_numbers<'a>(x: u64, t: u64, n: u64, w: World<'a>)
    requires
        text_to_number_step(Value::Str(t), w).0 == Ok::<u64, Abrupt<'a>>(n),
    ensures
        loose_equals_step(Value::Num(x), Value::Str(t), w).0 == strict_equals_step(
            Value::Num(x),
            Value::Num(n),
            w,
        ).0,
        loose_equals_step(Value::Str(t), Value::Num(x), w).0 == strict_equals_step(
            Value::Num(x),
            Value::Num(n),
            w,
        ).0,
{
    equal_numbers(x, n, w);
    equal_numbers(n, x, w);
}

/// An object is loosely equal to itself alone among the objects.
pub proof fn objects_are_themselves<'a>(x: u64, y: u64, w: World<'a>)
    ensures
        loose_equals_step(Value::Obj(x), Value::Obj(y), w) == (Ok::<bool, Abrupt<'a>>(x == y), w),
{
}

/// The operators `!=` and `!==` say the opposite of `==` and `===`.
pub proof fn inequality_is_the_opposite<'a>(l: Value, r: Value, w: World<'a>)
    ensures
        ({
            let (e, we) = binary_step("==", l, r, w);
            let (n, wn) = binary_step("!=", l, r, w);
            &&& we == wn
            &&& e matches Ok(x) ==> x is Bool && n == Ok::<Value, Abrupt<'a>>(Value::Bool(!x->Bool_0))
            &&& e matches Err(a) ==> n == e
            &&& loose_equals_step(l, r, w).1 == we
            &&& loose_equals_step(l, r, w).0 matches Ok(b) ==> e == Ok::<Value, Abrupt<'a>>(
                Value::Bool(b),
            )
        }),
        ({
            let (e, we) = binary_step("===", l, r, w);
            let (n, wn) = binary_step("!==", l, r, w);
            &&& we == wn
            &&& e matches Ok(x) ==> x is Bool && n == Ok::<Value, Abrupt<'a>>(Value::Bool(!x->Bool_0))
            &&& strict_equals_step(l, r, w).0 matches Ok(b) ==> e == Ok::<Value, Abrupt<'a>>(
                Value::Bool(b),
            )
        }),
{
    operators_differ();
}

/// The order of two numbers: `<` and `>` are each other with the operands exchanged, `<=` and `>=` hold
/// where `<` or `>` does or the numbers are equal, and none holds of a NaN.
pub proof fn numbers_compare<'a>(a: u64, b: u64, w: World<'a>)
    ensures
        ({
            let rel = number_relation(a, b);
            &&& binary_step("<", Value::Num(a), Value::Num(b), w) == (
                Ok::<Value, Abrupt<'a>>(Value::Bool(rel == Relation::Less)),
                w,
            )
            &&& binary_step(">", Value::Num(b), Value::Num(a), w) == (
                Ok::<Value, Abrupt<'a>>(Value::Bool(rel == Relation::Less)),
                w,
            )
            &&& binary_step("<=", Value::Num(a), Value::Num(b), w) == (
                Ok::<Value, Abrupt<'a>>(
                    Value::Bool(rel == Relation::Less || rel == Relation::Equal),
                ),
                w,
            )
            &&& binary_step(">=", Value::Num(b), Value::Num(a), w) == (
                Ok::<Value, Abrupt<'a>>(
                    Value::Bool(rel == Relation::Less || rel == Relation::Equal),
                ),
                w,
            )
        }),
{
    operators_differ();
}

/// The order of two strings is that of their units, and that of two big integers that of the integers.
pub proof fn texts_and_integers_compare<'a>(l: Value, r: Value, w: World<'a>)
    ensures
        l is Str && r is Str ==> binary_step("<", l, r, w) == (
            Ok::<Value, Abrupt<'a>>(
                Value::Bool(
                    units_relation(text_units(w.chars(l)), text_units(w.chars(r)))
                        == Relation::Less,
                ),
            ),
            w,
        ),
        l is BigInt && r is BigInt ==> binary_step("<", l, r, w) == (
            Ok::<Value, Abrupt<'a>>(Value::Bool(w.integer(l) < w.integer(r))),
            w,
        ),
        l is BigInt && r is BigInt ==> binary_step(">=", l, r, w) == (
            Ok::<Value, Abrupt<'a>>(Value::Bool(w.integer(l) >= w.integer(r))),
            w,
        ),
{
    operators_differ();
}

// ---- arithmetic

/// An arithmetic operator on two numbers is one request to the host, with the operands in their order, and
/// its value is the host's answer.
pub proof fn numbers_are_computed<'a>(op: &'static str, a: u64, b: u64, w: World<'a>)
    requires
        op@ == "+"@ || op@ == "-"@ || op@ == "*"@ || op@ == "/"@ || op@ == "**"@,
    ensures
        ({
            let (r, after) = binary_step(op, Value::Num(a), Value::Num(b), w);
            &&& after.asked.len() == w.asked.len() + 1
            &&& after.asked.last() matches Request::Arithmetic { op: o, left, right } && o@ == op@ && left
                == a && right == b
            &&& said(w, w.asked.len()) matches Answer::Value(v) ==> r == Ok::<Value, Abrupt<'a>>(v)
        }),
{
    operators_differ();
}

/// The same for two big integers, where the operator is one that the integers have.
pub proof fn integers_are_computed<'a>(op: &'static str, l: Value, r: Value, w: World<'a>)
    requires
        l is BigInt,
        r is BigInt,
        op@ == "+"@ || op@ == "-"@ || op@ == "*"@ || op@ == "&"@ || op@ == "|"@ || op@ == "^"@,
    ensures
        ({
            let (x, after) = binary_step(op, l, r, w);
            &&& after.asked.len() == w.asked.len() + 1
            &&& after.asked.last() matches Request::IntegerOperate { op: o, left, right } && o@ == op@
                && left == l && right == r
            &&& said(w, w.asked.len()) matches Answer::Integer(n) ==> x matches Ok(v) && (
            w.integers.len() < u64::MAX ==> after.integer(v) == n@)
        }),
{
    operators_differ();
}

/// Dividing a big integer by zero, and a negative exponent, are a `RangeError`; a big integer and a number
/// do not mix, which is a `TypeError`.
pub proof fn integer_operators_refuse<'a>(l: Value, r: Value, w: World<'a>)
    requires
        l is BigInt,
    ensures
        r is BigInt && w.integer(r) == 0 ==> binary_step("/", l, r, w) == throws::<Value>(
            ErrorKind::RangeError,
            "Division by zero",
            w,
        ) && binary_step("%", l, r, w) == throws::<Value>(
            ErrorKind::RangeError,
            "Division by zero",
            w,
        ),
        r is BigInt && w.integer(r) < 0 ==> binary_step("**", l, r, w) == throws::<Value>(
            ErrorKind::RangeError,
            "Exponent must be non-negative",
            w,
        ),
        r is Num ==> binary_step("-", l, r, w) == throws::<Value>(
            ErrorKind::TypeError,
            "Cannot mix BigInt and other types, use explicit conversions",
            w,
        ) && binary_step("+", l, r, w) == throws::<Value>(
            ErrorKind::TypeError,
            "Cannot mix BigInt and other types, use explicit conversions",
            w,
        ),
{
    operators_differ();
}

/// A bitwise operator on two numbers asks for nothing and gives a number.
pub proof fn bitwise_operators_give_numbers<'a>(op: &'static str, a: u64, b: u64, w: World<'a>)
    requires
        op@ == "&"@ || op@ == "|"@ || op@ == "^"@ || op@ == "<<"@ || op@ == ">>"@ || op@ == ">>>"@,
    ensures
        binary_step(op, Value::Num(a), Value::Num(b), w) == (
            Ok::<Value, Abrupt<'a>>(Value::Num(bitwise_result(op@, a, b))),
            w,
        ),
{
    operators_differ();
}

/// `+` with a string on either side joins the texts of both, left first; a number on the other side is its
/// text.
pub proof fn plus_joins_texts<'a>(l: Value, r: Value, w: World<'a>)
    requires
        l matches Value::Str(t) && t < w.texts.len(),
        r is Bool || r is Null || r is Undefined || (r matches Value::Str(u) && u < w.texts.len()),
        w.texts.len() < u64::MAX - 2,
        ({
            let (t, w1) = primitive_to_text_step(r, w);
            byte_length(w.chars(l)) + byte_length(w1.chars(t->Ok_0)) <= MAX_STR_LEN
        }),
    ensures
        ({
            let (t, w1) = primitive_to_text_step(r, w);
            let (x, after) = binary_step("+", l, r, w);
            &&& t is Ok
            &&& x matches Ok(v) && v is Str && after.chars(v) == w.chars(l) + w1.chars(t->Ok_0)
            &&& after.asked == w.asked
        }),
{
    operators_differ();
    let (t, w1) = primitive_to_text_step(r, w);
    assert(w1.chars(l) == w.chars(l));
}

/// `%` of two numbers, where no division is needed: of infinity, by zero and with a NaN it is NaN; by
/// infinity, and of zero, it is the left operand.
pub proof fn easy_remainders<'a>(a: u64, b: u64, w: World<'a>)
    ensures
        magnitude(a) >= INFINITY || magnitude(b) == 0 || magnitude(b) > INFINITY ==> binary_step(
            "%",
            Value::Num(a),
            Value::Num(b),
            w,
        ) == (Ok::<Value, Abrupt<'a>>(Value::Num(NAN)), w),
        magnitude(a) < INFINITY && magnitude(b) == INFINITY ==> binary_step(
            "%",
            Value::Num(a),
            Value::Num(b),
            w,
        ) == (Ok::<Value, Abrupt<'a>>(Value::Num(a)), w),
        magnitude(a) == 0 && 0 < magnitude(b) <= INFINITY ==> binary_step(
            "%",
            Value::Num(a),
            Value::Num(b),
            w,
        ) == (Ok::<Value, Abrupt<'a>>(Value::Num(a)), w),
        0 < magnitude(a) < INFINITY && 0 < magnitude(b) < INFINITY ==> (binary_step(
            "%",
            Value::Num(a),
            Value::Num(b),
            w,
        ).1.asked.last() matches Request::Arithmetic { op, left, right } && op@ == "%"@ && left == a
            && right == b),
{
    operators_differ();
}

// ---- prefix operators

/// `!` is the opposite of what counts as true, `void` is `undefined`, `-` on a number turns its sign round,
/// `~` gives the opposite less one, and `+` on a number is the number.
pub proof fn prefix_operators<'a>(v: Value, w: World<'a>)
    ensures
        to_boolean_step(v, w).0 matches Ok(b) ==> prefix_operate_step("!", v, w) == (
            Ok::<Value, Abrupt<'a>>(Value::Bool(!b)),
            to_boolean_step(v, w).1,
        ),
        prefix_operate_step("void", v, w) == (Ok::<Value, Abrupt<'a>>(Value::Undefined), w),
        v matches Value::Num(n) ==> prefix_operate_step("+", v, w) == (Ok::<Value, Abrupt<'a>>(v), w),
        v matches Value::Num(n) ==> prefix_operate_step("-", v, w).0 == Ok::<Value, Abrupt<'a>>(
            Value::Num(negated(n)),
        ),
        v matches Value::Num(n) ==> (prefix_operate_step("~", v, w).0 matches Ok(Value::Num(x))
            && truncated(x) == -int32_of(n) - 1),
        v is BigInt && w.integers.len() < u64::MAX ==> (prefix_operate_step("-", v, w).0 matches Ok(x)
            && prefix_operate_step("-", v, w).1.integer(x) == -w.integer(v)),
{
    operators_differ();
    if let Value::Num(n) = v {
        bits_combine(n, n);
    }
}

/// What counts as true: of the values that are no objects, all but `undefined`, `null`, `false`, the zeros
/// and NaN, the empty string and the integer zero; nothing is asked for that.
pub proof fn what_counts_as_true<'a>(v: Value, w: World<'a>)
    requires
        !(v is Obj),
    ensures
        to_boolean_step(v, w) == (
            Ok::<bool, Abrupt<'a>>(
                match v {
                    Value::Undefined | Value::Empty | Value::Null => false,
                    Value::Bool(b) => b,
                    Value::Num(n) => n != 0 && n != 0x8000_0000_0000_0000 && magnitude(n) <= INFINITY,
                    Value::Str(t) => w.text(t).len() > 0,
                    Value::BigInt(_) => w.integer(v) != 0,
                    _ => true,
                },
            ),
            w,
        ),
{
    if let Value::Num(n) = v {
        falsy_numbers(n);
    }
}

/// What `typeof` calls a value that is no object; an object that can be called is a function.
pub proof fn types_have_names<'a>(v: Value, w: World<'a>)
    requires
        w.texts.len() < u64::MAX,
    ensures
        !(v is Obj) ==> ({
            let (r, after) = type_of_step(v, w);
            &&& r matches Ok(t) && t is Str && after.chars(t) == (match v {
                Value::Undefined | Value::Empty => "undefined"@,
                Value::Null => "object"@,
                Value::Bool(_) => "boolean"@,
                Value::Num(_) => "number"@,
                Value::BigInt(_) => "bigint"@,
                Value::Str(_) => "string"@,
                _ => "symbol"@,
            })
            &&& after.asked == w.asked
        }),
        v is Obj && said(w, w.asked.len()) == Answer::<'a>::Flag(true) ==> ({
            let (r, after) = type_of_step(v, w);
            &&& said(w, w.asked.len() + 1) == Answer::<'a>::Flag(true) ==> (r matches Ok(t)
                && after.chars(t) == "function"@)
            &&& said(w, w.asked.len() + 1) == Answer::<'a>::Flag(false) ==> (r matches Ok(t)
                && after.chars(t) == "object"@)
            &&& after.asked[w.asked.len() as int + 1] == Request::<'a>::Callable(v)
        }),
{
}

// ---- conversions

/// Primitive values as numbers: `undefined` is NaN, `null` and `false` are zero, `true` is one, and a
/// symbol or a big integer is refused with a `TypeError`.
pub proof fn primitives_as_numbers<'a>(v: Value, w: World<'a>)
    ensures
        v is Undefined ==> to_number_step(v, w) == (Ok::<u64, Abrupt<'a>>(NAN), w),
        v is Null ==> to_number_step(v, w) == (Ok::<u64, Abrupt<'a>>(0), w),
        v matches Value::Bool(b) ==> to_number_step(v, w) == (
            Ok::<u64, Abrupt<'a>>(
                if b {
                    ONE
                } else {
                    0
                },
            ),
            w,
        ),
        v matches Value::Num(n) ==> to_number_step(v, w) == (Ok::<u64, Abrupt<'a>>(n), w),
        v is Sym ==> to_number_step(v, w) == throws::<u64>(
            ErrorKind::TypeError,
            "Cannot convert a Symbol value to a number",
            w,
        ),
        v is BigInt ==> to_number_step(v, w) == throws::<u64>(
            ErrorKind::TypeError,
            "Cannot convert a BigInt value to a number",
            w,
        ),
{
}

/// Primitive values as texts: each has its spelling, a string is its own, and a symbol is refused with a
/// `TypeError`.
pub proof fn primitives_as_texts<'a>(v: Value, w: World<'a>)
    requires
        w.texts.len() < u64::MAX,
    ensures
        v is Str ==> to_string_step(v, w) == (Ok::<Value, Abrupt<'a>>(v), w),
        v is Undefined || v is Null || v is Bool || v is BigInt ==> ({
            let (r, after) = to_string_step(v, w);
            &&& r matches Ok(t) && t is Str && after.chars(t) == (match v {
                Value::Undefined => "undefined"@,
                Value::Null => "null"@,
                Value::Bool(true) => "true"@,
                Value::Bool(false) => "false"@,
                _ => radix_text(w.integer(v), 10),
            })
            &&& after.asked == w.asked
        }),
        v is Sym ==> to_string_step(v, w) == throws::<Value>(
            ErrorKind::TypeError,
            "Cannot convert a Symbol value to a string",
            w,
        ),
{
}

/// A whole number up to a million as a text is its decimal digits, with a sign in front if it is negative.
pub proof fn whole_numbers_as_texts<'a>(n: u64, w: World<'a>)
    requires
        !needs_digits(n),
        magnitude(n) < INFINITY,
        w.texts.len() < u64::MAX,
    ensures
        ({
            let (r, after) = to_string_step(Value::Num(n), w);
            &&& r matches Ok(t) && t is Str && after.chars(t) == (if truncated(n) < 0 {
                "-"@ + decimal((-truncated(n)) as nat)
            } else {
                decimal(truncated(n) as nat)
            })
            &&& after.asked == w.asked
        }),
{
}

/// A string as a number: an empty one is zero; one that spells no number is NaN. The digits of any other
/// are handed to the host to be rounded.
pub proof fn texts_as_numbers<'a>(t: u64, w: World<'a>)
    ensures
        match spelled_number(w.text(t)) {
            NumberTextView::Known(n) => to_number_step(Value::Str(t), w) == (
                Ok::<u64, Abrupt<'a>>(n),
                w,
            ),
            NumberTextView::Decimal(d) => {
                let after = to_number_step(Value::Str(t), w).1;
                w.texts.len() < u64::MAX ==> (after.asked.last() matches Request::RoundDecimal(x)
                    && after.chars(x) == d)
            },
            NumberTextView::Radix(k, d) => {
                let after = to_number_step(Value::Str(t), w).1;
                w.texts.len() < u64::MAX ==> (after.asked.last() matches Request::RoundRadix {
                    digits,
                    radix,
                } && radix == k && after.chars(digits) == d)
            },
        },
{
}

/// A value that is no object is its own primitive. An object with a method for that is converted by the
/// method, which is called on it with what is wanted, and must give a primitive.
pub proof fn primitives_stay<'a>(v: Value, hint: Hint, w: World<'a>)
    ensures
        !(v is Obj) ==> to_primitive_step(v, hint, w) == (Ok::<Value, Abrupt<'a>>(v), w),
{
}

/// An object's own conversion method is called on the object with a text for what is wanted; what it
/// returns is the primitive, and another object is a `TypeError`.
pub proof fn conversion_methods_are_called<'a>(
    o: u64,
    hint: Hint,
    sym: u64,
    f: u64,
    w: World<'a>,
)
    requires
        said(w, w.asked.len()) == Answer::<'a>::Handle(sym),
        said(w, w.asked.len() + 1) == Answer::<'a>::Value(Value::Obj(f)),
        said(w, w.asked.len() + 2) == Answer::<'a>::Flag(true),
        (w.answers)(w.asked.len() + 1).texts.len() < u64::MAX,
        w.lists.len() < u64::MAX,
    ensures
        ({
            let n = w.asked.len();
            let (r, after) = to_primitive_step(Value::Obj(o), hint, w);
            &&& after.asked[n as int + 1] == (Request::GetMember {
                base: Value::Obj(o),
                key: Key::Symbol(sym),
            })
            &&& after.asked[n as int + 3] matches Request::Call { func, this, args } && func == Value::Obj(
                f,
            ) && this == Value::Obj(o) && args == w.next_list()
            &&& after.list(w.next_list()).len() == 1
            &&& said(w, n + 3) matches Answer::Value(p) ==> (!(p is Obj) ==> r == Ok::<
                Value,
                Abrupt<'a>,
            >(p)) && (p is Obj ==> r is Err)
        }),
{
    let l = w.next_list();
    let w1 = w.new_list(Seq::empty());
    assert(w1.list(l) =~= Seq::<Value>::empty());
}

/// An object without such a method is converted by its `toString` first if a string is wanted, and by its
/// `valueOf` first otherwise; the first of the two that gives a primitive counts.
pub proof fn ordinary_objects_are_converted<'a>(o: u64, hint: Hint, sym: u64, f: u64, w: World<'a>)
    requires
        said(w, w.asked.len()) == Answer::<'a>::Handle(sym),
        said(w, w.asked.len() + 1) == Answer::<'a>::Value(Value::Undefined),
        said(w, w.asked.len() + 2) == Answer::<'a>::Value(Value::Obj(f)),
        said(w, w.asked.len() + 3) == Answer::<'a>::Flag(true),
    ensures
        ({
            let n = w.asked.len();
            let (r, after) = to_primitive_step(Value::Obj(o), hint, w);
            &&& after.asked[n as int + 2] == (Request::GetMember {
                base: Value::Obj(o),
                key: Key::Fixed(
                    if hint == Hint::String {
                        "toString"
                    } else {
                        "valueOf"
                    },
                ),
            })
            &&& after.asked[n as int + 4] matches Request::Call { func, this, .. } && func
                == Value::Obj(f) && this == Value::Obj(o)
            &&& said(w, n + 4) matches Answer::Value(p) ==> (!(p is Obj) ==> r == Ok::<
                Value,
                Abrupt<'a>,
            >(p))
            &&& said(w, n + 4) matches Answer::Value(Value::Obj(_)) ==> after.asked[n as int + 5] == (
            Request::GetMember {
                base: Value::Obj(o),
                key: Key::Fixed(
                    if hint == Hint::String {
                        "valueOf"
                    } else {
                        "toString"
                    },
                ),
            })
        }),
{
}

/// A symbol is a property key of its own, and a string is the key with its text.
pub proof fn keys_of_values<'a>(v: Value, w: World<'a>)
    ensures
        v matches Value::Sym(h) ==> to_property_key_step(v, w) == (
            Ok::<Key<'a>, Abrupt<'a>>(Key::Symbol(h)),
            w,
        ),
        v matches Value::Str(t) ==> ({
            let (k, after) = to_property_key_step(v, w);
            &&& after == w
            &&& k matches Ok(key) && !(key is Symbol) && w.key_chars(key) == w.text(t)
        }),
{
}

/// `in` asks whether the right operand has the left as a key; what is no object on the right is a
/// `TypeError`.
pub proof fn in_asks_for_keys<'a>(l: Value, r: Value, w: World<'a>)
    ensures
        !(r is Obj) ==> binary_step("in", l, r, w) == throws::<Value>(
            ErrorKind::TypeError,
            "'in' requires an object on the right",
            w,
        ),
        r is Obj ==> ({
            let (k, w1) = to_property_key_step(l, w);
            let (b, w2) = js_has_property_step(r, k->Ok_0, w1);
            k is Ok && b is Ok ==> binary_step("in", l, r, w) == (
                Ok::<Value, Abrupt<'a>>(Value::Bool(b->Ok_0)),
                w2,
            )
        }),
{
    operators_differ();
}

/// `instanceof` on a function of the ordinary kind asks whether its `prototype` is on the prototype chain
/// of the left operand, beginning with that operand's own prototype.
pub proof fn instances_have_the_prototype<'a>(
    o: u64,
    f: u64,
    sym: u64,
    p: u64,
    q: Value,
    w: World<'a>,
)
    requires
        w.limit > 0,
        said(w, w.asked.len()) == Answer::<'a>::Handle(sym),
        said(w, w.asked.len() + 1) == Answer::<'a>::Value(Value::Undefined),
        said(w, w.asked.len() + 2) == Answer::<'a>::Flag(true),
        said(w, w.asked.len() + 3) == Answer::<'a>::Flag(true),
        said(w, w.asked.len() + 4) == Answer::<'a>::Value(Value::Undefined),
        said(w, w.asked.len() + 5) == Answer::<'a>::Value(Value::Obj(p)),
        said(w, w.asked.len() + 6) == Answer::<'a>::Value(q),
    ensures
        ({
            let n = w.asked.len() as int;
            let (r, after) = binary_step("instanceof", Value::Obj(o), Value::Obj(f), w);
            &&& q == Value::Obj(p) || !(q is Obj) ==> after.asked[n + 5] == (Request::GetMember {
                base: Value::Obj(f),
                key: Key::Fixed("prototype"),
            })
            &&& q == Value::Obj(p) || !(q is Obj) ==> after.asked[n + 6] == Request::<
                'a,
            >::GetPrototype(Value::Obj(o))
            &&& q == Value::Obj(p) ==> r == Ok::<Value, Abrupt<'a>>(Value::Bool(true))
            &&& !(q is Obj) ==> r == Ok::<Value, Abrupt<'a>>(Value::Bool(false))
        }),
{
    operators_differ();
    let (l, r) = (Value::Obj(o), Value::Obj(f));
    let w1 = w.ask(Request::WellKnownKey(WellKnown::HasInstance)).1;
    let w2 = w1.ask(Request::GetMember { base: r, key: Key::Symbol(sym) }).1;
    let w3 = w2.ask(Request::Callable(r)).1;
    let w4 = w3.ask(Request::Callable(r)).1;
    let w5 = w4.ask(Request::BoundTarget(r)).1;
    let w6 = w5.ask(Request::GetMember { base: r, key: Key::Fixed("prototype") }).1;
    assert(binary_step("instanceof", l, r, w) == instanceof_step(l, r, w));
    assert(ordinary_has_instance_from(l, w3.limit, r, w3) == in_chain_step(Value::Obj(p), l, w6));
    if q == Value::Obj(p) || !(q is Obj) {
        let w7 = w6.ask(Request::GetPrototype(l)).1;
        assert(in_chain_from(Value::Obj(p), w6.limit, l, w6) == (
            Ok::<bool, Abrupt<'a>>(q == Value::Obj(p)),
            w7,
        ));
    }
}

/// An iterable that is no array is iterated by its own method: the method is called on it, and the
/// iterator's `next` is read once.
pub proof fn iterators_are_made<'a>(v: Value, sym: u64, f: u64, it: u64, next: Value, w: World<'a>)
    requires
        !(v is Str),
        w.lists.len() < u64::MAX,
        said(w, w.asked.len()) == Answer::<'a>::Handle(sym),
        said(w, w.asked.len() + 1) == Answer::<'a>::Value(Value::Obj(f)),
        said(w, w.asked.len() + 2) == Answer::<'a>::Flag(true),
        said(w, w.asked.len() + 3) == Answer::<'a>::Value(Value::Obj(it)),
        said(w, w.asked.len() + 4) == Answer::<'a>::Value(next),
    ensures
        ({
            let n = w.asked.len() as int;
            let (r, after) = get_iterator_step(v, w);
            &&& r == Ok::<(Value, Value), Abrupt<'a>>((Value::Obj(it), next))
            &&& after.asked[n] == Request::<'a>::WellKnownKey(WellKnown::Iterator)
            &&& after.asked[n + 1] == (Request::GetMember { base: v, key: Key::Symbol(sym) })
            &&& after.asked[n + 3] matches Request::Call { func, this, args } && func == Value::Obj(f)
                && this == v
            &&& after.asked[n + 4] == (Request::GetMember {
                base: Value::Obj(it),
                key: Key::Fixed("next"),
            })
        }),
{
}

/// Closing an iterator calls its `return` method on it, without arguments; an iterator that has none is
/// left alone.
pub proof fn iterators_are_closed<'a>(iter: Value, f: u64, w: World<'a>)
    requires
        w.lists.len() < u64::MAX,
    ensures
        ({
            let n = w.asked.len() as int;
            let (r, after) = iterator_close_normal_step(iter, w);
            &&& after.asked[n] == (Request::GetMember { base: iter, key: Key::Fixed("return") })
            &&& said(w, w.asked.len()) == Answer::<'a>::Value(Value::Undefined) ==> r is Ok
                && after.asked.len() == n + 1
            &&& said(w, w.asked.len()) == Answer::<'a>::Value(Value::Obj(f)) && said(
                w,
                w.asked.len() + 1,
            ) == Answer::<'a>::Flag(true) ==> (after.asked[n + 2] matches Request::Call {
                func,
                this,
                args,
            } && func == Value::Obj(f) && this == iter)
            &&& said(w, w.asked.len()) == Answer::<'a>::Value(Value::Obj(f)) && said(
                w,
                w.asked.len() + 1,
            ) == Answer::<'a>::Flag(true) && (said(w, w.asked.len() + 2) matches Answer::Throw(_))
                ==> r is Err
        }),
        iterator_close_step(iter, w).0 is Ok,
{
}

/// Spreading an array lists its elements by their places, each as the host reads it.
pub proof fn array_elements_are_listed<'a>(
    array: Value,
    length: u64,
    list: u64,
    k: nat,
    n: u64,
    v: Value,
    w: World<'a>,
)
    requires
        k > 0,
        n < length,
        said(w, w.asked.len()) == Answer::<'a>::Value(v),
    ensures
        ({
            let read = w.ask(Request::GetMember { base: array, key: Key::Index(n) }).1;
            push_elements_from(array, length, list, k, n, w) == push_elements_from(
                array,
                length,
                list,
                (k - 1) as nat,
                (n + 1) as u64,
                read.push(list, v),
            )
        }),
        push_elements_from(array, length, list, k, length, w) == (Ok::<(), Abrupt<'a>>(()), w),
{
}

/// Spreading a string lists its characters one by one.
pub proof fn characters_are_listed<'a>(text: Value, list: u64, k: nat, n: u64, w: World<'a>)
    requires
        k > 0,
        n < u64::MAX,
    ensures
        n < w.chars(text).len() ==> push_characters_from(text, list, k, n, w)
            == push_characters_from(
            text,
            list,
            (k - 1) as nat,
            (n + 1) as u64,
            w.add_text(seq![w.chars(text)[n as int]]).push(list, w.next_text()),
        ),
        n >= w.chars(text).len() ==> push_characters_from(text, list, k, n, w) == (
            Ok::<(), Abrupt<'a>>(()),
            w,
        ),
{
}

/// An object is loosely equal to a primitive as the primitive that it is converted to is, on either side.
pub proof fn objects_compare_as_primitives<'a>(o: u64, b: Value, p: Value, w: World<'a>)
    requires
        b is Num || b is Str,
        p is Num || p is Str,
        to_primitive_step(Value::Obj(o), Hint::Default, w).0 == Ok::<Value, Abrupt<'a>>(p),
    ensures
        ({
            let w1 = to_primitive_step(Value::Obj(o), Hint::Default, w).1;
            &&& loose_equals_step(Value::Obj(o), b, w) == loose_equals_step(p, b, w1)
            &&& loose_equals_step(b, Value::Obj(o), w) == loose_equals_step(b, p, w1)
        }),
{
}

/// An object that is loosely equal to `undefined` or `null` is one that counts as false.
pub proof fn hidden_objects_are_undefined<'a>(o: u64, b: Value, w: World<'a>)
    requires
        b is Undefined || b is Null,
    ensures
        said(w, w.asked.len()) matches Answer::Flag(t) ==> loose_equals_step(Value::Obj(o), b, w).0 == Ok::<
            bool,
            Abrupt<'a>,
        >(!t) && loose_equals_step(b, Value::Obj(o), w).0 == Ok::<bool, Abrupt<'a>>(!t),
{
}

/// Shifting a big integer by a negative count shifts it the other way; zero stays zero to the left, and what
/// is shifted out entirely to the right is zero, or minus one for a negative integer.
pub proof fn integers_are_shifted<'a>(l: Value, r: Value, w: World<'a>)
    requires
        l is BigInt,
        r is BigInt,
        0 < w.integer(r) < 0x4000_0000,
        w.integer(l) != 0,
        magnitude_of(w.integer(r)) == w.integer(r),
    ensures
        binary_step("<<", l, r, w).1.asked == w.asked.push(
            Request::ShiftInteger { left: true, arg: l, count: w.integer(r) as u64 },
        ),
        binary_step(">>", l, r, w).1.asked == w.asked.push(
            Request::ShiftInteger { left: false, arg: l, count: w.integer(r) as u64 },
        ),
{
    operators_differ();
}

/// A symbol names a function by its description in brackets, and by nothing where it has none.
pub proof fn symbols_name_functions<'a>(h: u64, d: u64, w: World<'a>)
    requires
        w.texts.len() < u64::MAX,
    ensures
        said(w, w.asked.len()) == Answer::<'a>::Value(Value::Str(d)) ==> ({
            let w1 = w.ask(Request::SymbolDescription(Value::Sym(h))).1;
            let (r, after) = fn_name_for_key_step(Key::Symbol(h), false, w);
            r matches Ok(v) && v is Str && (w1.texts.len() < u64::MAX ==> after.chars(v) == "["@ + w1.text(d)
                + "]"@)
        }),
        said(w, w.asked.len()) == Answer::<'a>::Value(Value::Undefined) ==> ({
            let (r, after) = fn_name_for_key_step(Key::Symbol(h), false, w);
            r matches Ok(v) && v is Str && after.chars(v) == ""@
        }),
{
}

/// A method of a class is named by its prefix and its key, whatever name it has.
pub proof fn methods_are_named<'a>(f: Value, prefix: &'static str, n: &'a String, w: World<'a>)
    requires
        w.texts.len() < u64::MAX - 1,
        up_to(n@, '\u{1}') == n@,
    ensures
        ({
            let (r, after) = name_method_step(f, prefix, Key::Source(n), w);
            &&& after.asked.len() == w.asked.len() + 1
            &&& after.asked.last() matches Request::DefineOwn { base, key, prop } && base == f && key
                == Key::Fixed("name") && w.add_text(n@).add_text(prefix@ + n@).chars(prop.value) == prefix@
                + n@ && !prop.writable && !prop.enumerable && prop.configurable
        }),
{
}

/// The values of an iterable are listed by its iterator: its method is called on it, and the iterator's `next`
/// is asked until it is done.
pub proof fn iterables_are_listed<'a>(
    v: Value,
    method: Value,
    list: u64,
    iter: Value,
    next_method: u64,
    w: World<'a>,
)
    requires
        call_bare_step(method, v, w).0 == Ok::<Value, Abrupt<'a>>(iter),
        ({
            let w1 = call_bare_step(method, v, w).1;
            said(w1, w1.asked.len()) == Answer::<'a>::Value(Value::Obj(next_method)) && said(
                w1,
                w1.asked.len() + 1,
            ) == Answer::<'a>::Flag(true)
        }),
    ensures
        ({
            let w1 = call_bare_step(method, v, w).1;
            let w2 = w1.ask(Request::GetMember { base: iter, key: Key::Fixed("next") }).1;
            let w3 = w2.ask(Request::Callable(Value::Obj(next_method))).1;
            iterate_with_step(v, method, list, w) == drain_step(iter, Value::Obj(next_method), list, w3)
        }),
{
}

} // verus!
