//! The message grammar, as a mathematical recursive-descent definition, and
//! the verified parser that implements it.
//!
//! The grammar, with ordered choice:
//!
//! ```text
//! message      = (element | text_run)* end
//! element      = if_else | tag_element
//! if_else      = "<If(" if_param ")>" branch "<Else/>" branch "</If>"
//! if_param     = function | auto_closing_tag
//! branch       = (element | function | text_run)*   until "<Else/>" or "</If>"
//! tag_element  = "<" tag_name params? ( "/>" | ">" text_run? "</" tag_name ">" )
//! function     = func_name "(" param ("," param)* ")"
//! params       = "(" param ("," param)* ")"
//! param        = element | number | object_literal | function
//! text_run     = maximal span of characters other than '<'
//! ```

use vstd::prelude::*;

use super::ast::condition::Answers;
use super::ast::condition_texts::{lemma_eval_append, sp_conds_hold, sp_eval_texts, ConditionTexts};
use super::ast::types::{
    lemma_process_parts_append, lemma_process_parts_singleton, sp_process_message,
    sp_process_part, sp_process_parts, Element, Function, IfElse,
    IfElseThen, IfParam, Message, MessagePart, Obj, Param, SpecConditionText, SpecElement,
    SpecFunction, SpecIfElse, SpecIfElseThen, SpecIfParam, SpecMessage, SpecMessagePart, SpecParam,
    SpecProcessError, SpecTag, SpecText, Tag, TagName, FuncName,
};
use super::ast::types::{
    lemma_view_params_pointwise, view_element, view_function, view_if_else, view_if_param,
    view_param, view_params, view_parts, view_part, view_tag, view_then, view_thens,
};
use super::EmoteTextError;

verus! {

/// Error produced when the input does not conform to the message grammar.
/// Carries the position the parse failed at and the construct expected there.
#[derive(Debug, Clone)]
pub struct ParseError {
    pub pos: usize,
    pub expected: &'static str,
}

pub type EmoteTextResult<T> = std::result::Result<T, EmoteTextError>;

// ---------------------------------------------------------------------------
// Keywords of the grammar.
// ---------------------------------------------------------------------------

pub open spec fn kw_clickable() -> Seq<char> {
    seq!['C', 'l', 'i', 'c', 'k', 'a', 'b', 'l', 'e']
}

pub open spec fn kw_sheet_en() -> Seq<char> {
    seq!['S', 'h', 'e', 'e', 't', 'E', 'n']
}

pub open spec fn kw_sheet() -> Seq<char> {
    seq!['S', 'h', 'e', 'e', 't']
}

pub open spec fn kw_equal() -> Seq<char> {
    seq!['E', 'q', 'u', 'a', 'l']
}

pub open spec fn kw_object_parameter() -> Seq<char> {
    seq!['O', 'b', 'j', 'e', 'c', 't', 'P', 'a', 'r', 'a', 'm', 'e', 't', 'e', 'r']
}

pub open spec fn kw_player_parameter() -> Seq<char> {
    seq!['P', 'l', 'a', 'y', 'e', 'r', 'P', 'a', 'r', 'a', 'm', 'e', 't', 'e', 'r']
}

pub open spec fn kw_obj_str() -> Seq<char> {
    seq!['O', 'b', 'j', 'S', 't', 'r']
}

pub open spec fn kw_bnpc_name() -> Seq<char> {
    seq!['B', 'N', 'p', 'c', 'N', 'a', 'm', 'e']
}

pub open spec fn kw_if_open() -> Seq<char> {
    seq!['<', 'I', 'f', '(']
}

pub open spec fn kw_else_tag() -> Seq<char> {
    seq!['<', 'E', 'l', 's', 'e', '/', '>']
}

pub open spec fn kw_close_if() -> Seq<char> {
    seq!['<', '/', 'I', 'f', '>']
}

pub open spec fn kw_paren_gt() -> Seq<char> {
    seq![')', '>']
}

pub open spec fn kw_auto_close() -> Seq<char> {
    seq!['/', '>']
}

pub open spec fn kw_close_open() -> Seq<char> {
    seq!['<', '/']
}

/// Does `s` hold `lit` starting at position `i`?
pub open spec fn sp_match(s: Seq<char>, i: int, lit: Seq<char>) -> bool {
    &&& 0 <= i
    &&& i + lit.len() <= s.len()
    &&& forall|k: int| 0 <= k < lit.len() ==> s[i + k] == lit[k]
}

/// A decimal digit.
pub open spec fn is_digit(c: char) -> bool {
    '0' <= c && c <= '9'
}

// ---------------------------------------------------------------------------
// Text runs and numbers.
// ---------------------------------------------------------------------------

/// The end of the maximal run of non-`'<'` characters starting at `i`.
pub open spec fn sp_text_end(s: Seq<char>, i: int) -> int
    decreases s.len() - i,
{
    if 0 <= i < s.len() && s[i] != '<' {
        sp_text_end(s, i + 1)
    } else {
        i
    }
}

/// The end of the run of decimal digits starting at `i`.
pub open spec fn sp_digits_end(s: Seq<char>, i: int) -> int
    decreases s.len() - i,
{
    if 0 <= i < s.len() && is_digit(s[i]) {
        sp_digits_end(s, i + 1)
    } else {
        i
    }
}

/// The value of the decimal digits of `s` in `[i, j)`.
pub open spec fn sp_dec_val(s: Seq<char>, i: int, j: int) -> int
    decreases j - i,
{
    if i < j {
        sp_dec_val(s, i, j - 1) * 10 + (s[j - 1] as int - '0' as int)
    } else {
        0
    }
}

/// A number parameter: one or more digits whose value fits in a `u32`.
pub open spec fn sp_number(s: Seq<char>, i: int) -> Option<(u32, int)> {
    let e = sp_digits_end(s, i);
    if e > i && sp_dec_val(s, i, e) <= u32::MAX as int {
        Some((sp_dec_val(s, i, e) as u32, e))
    } else {
        None
    }
}

/// Basic facts about a text run: it stays within bounds, contains no `'<'`,
/// and ends at the end of input or at a `'<'`.
pub proof fn lemma_text_end(s: Seq<char>, i: int)
    requires
        0 <= i <= s.len(),
    ensures
        i <= sp_text_end(s, i) <= s.len(),
        forall|k: int| i <= k < sp_text_end(s, i) ==> s[k] != '<',
        sp_text_end(s, i) == s.len() || s[sp_text_end(s, i)] == '<',
    decreases s.len() - i,
{
    if 0 <= i < s.len() && s[i] != '<' {
        lemma_text_end(s, i + 1);
    }
}

/// Basic facts about a digit run.
pub proof fn lemma_digits_end(s: Seq<char>, i: int)
    requires
        0 <= i <= s.len(),
    ensures
        i <= sp_digits_end(s, i) <= s.len(),
        forall|k: int| i <= k < sp_digits_end(s, i) ==> is_digit(s[k]),
        sp_digits_end(s, i) == s.len() || !is_digit(s[sp_digits_end(s, i)]),
    decreases s.len() - i,
{
    if 0 <= i < s.len() && is_digit(s[i]) {
        lemma_digits_end(s, i + 1);
    }
}

/// The value of a digit run is nonnegative and grows (weakly) with its
/// length.
pub proof fn lemma_dec_val_monotone(s: Seq<char>, i: int, j1: int, j2: int)
    requires
        i <= j1 <= j2,
        forall|k: int| i <= k < j2 ==> is_digit(s[k]),
    ensures
        0 <= sp_dec_val(s, i, j1) <= sp_dec_val(s, i, j2),
    decreases j2 - j1,
{
    if j1 == j2 {
        lemma_dec_val_nonneg(s, i, j1);
    } else {
        lemma_dec_val_monotone(s, i, j1, j2 - 1);
        assert(is_digit(s[j2 - 1]));
        assert(sp_dec_val(s, i, j2) == sp_dec_val(s, i, j2 - 1) * 10 + (s[j2 - 1] as int
            - '0' as int));
        assert(sp_dec_val(s, i, j2 - 1) * 10 >= sp_dec_val(s, i, j2 - 1)) by (nonlinear_arith)
            requires
                sp_dec_val(s, i, j2 - 1) >= 0,
        ;
    }
}

/// The value of a digit run is nonnegative.
pub proof fn lemma_dec_val_nonneg(s: Seq<char>, i: int, j: int)
    requires
        forall|k: int| i <= k < j ==> is_digit(s[k]),
    ensures
        sp_dec_val(s, i, j) >= 0,
    decreases j - i,
{
    if i < j {
        lemma_dec_val_nonneg(s, i, j - 1);
        assert(is_digit(s[j - 1]));
        assert(sp_dec_val(s, i, j - 1) * 10 >= 0) by (nonlinear_arith)
            requires
                sp_dec_val(s, i, j - 1) >= 0,
        ;
    }
}

// ---------------------------------------------------------------------------
// The grammar itself, as one group of mutually recursive definitions over
// the input and a position. Each rule returns the parsed node and the
// position after it, or nothing when the input does not conform. Nested
// positions are checked before use so that each definition is well-founded
// on its own; the checks never fail on positions the rules themselves
// produce.
// ---------------------------------------------------------------------------

pub open spec fn sp_tag_name(s: Seq<char>, i: int) -> Option<(TagName, int)> {
    if sp_match(s, i, kw_clickable()) {
        Some((TagName::Clickable, i + 9))
    } else if sp_match(s, i, kw_sheet_en()) {
        Some((TagName::SheetEn, i + 7))
    } else if sp_match(s, i, kw_sheet()) {
        Some((TagName::Sheet, i + 5))
    } else {
        None
    }
}

pub open spec fn sp_func_name(s: Seq<char>, i: int) -> Option<(FuncName, int)> {
    if sp_match(s, i, kw_equal()) {
        Some((FuncName::Equal, i + 5))
    } else if sp_match(s, i, kw_object_parameter()) {
        Some((FuncName::ObjectParameter, i + 15))
    } else if sp_match(s, i, kw_player_parameter()) {
        Some((FuncName::PlayerParameter, i + 15))
    } else {
        None
    }
}

/// A close tag `</name>`.
pub open spec fn sp_close_tag(s: Seq<char>, i: int) -> Option<(TagName, int)> {
    if sp_match(s, i, kw_close_open()) {
        match sp_tag_name(s, i + 2) {
            None => None,
            Some((name, j)) => {
                if j < s.len() && s[j] == '>' {
                    Some((name, j + 1))
                } else {
                    None
                }
            },
        }
    } else {
        None
    }
}

/// The parenthesised parameter list `( param ("," param)* )`.
pub open spec fn sp_params(s: Seq<char>, i: int) -> Option<(Seq<SpecParam>, int)>
    decreases s.len() - i, 0int,
{
    if !(0 <= i < s.len() && s[i] == '(') {
        None
    } else {
        match sp_param(s, i + 1) {
            None => None,
            Some((p, j)) => {
                if i + 1 < j <= s.len() {
                    sp_params_rest(s, j, seq![p])
                } else {
                    None
                }
            },
        }
    }
}

pub open spec fn sp_params_rest(s: Seq<char>, i: int, acc: Seq<SpecParam>) -> Option<
    (Seq<SpecParam>, int),
>
    decreases s.len() - i, 0int,
{
    if !(0 <= i < s.len()) {
        None
    } else if s[i] == ')' {
        Some((acc, i + 1))
    } else if s[i] == ',' {
        match sp_param(s, i + 1) {
            None => None,
            Some((p, j)) => {
                if i + 1 < j <= s.len() {
                    sp_params_rest(s, j, acc.push(p))
                } else {
                    None
                }
            },
        }
    } else {
        None
    }
}

/// A parameter: element, number, object literal or function, in that order.
pub open spec fn sp_param(s: Seq<char>, i: int) -> Option<(SpecParam, int)>
    decreases s.len() - i, 3int,
{
    if !(0 <= i < s.len()) {
        None
    } else if s[i] == '<' {
        match sp_element(s, i) {
            None => None,
            Some((e, j)) => Some((SpecParam::Element(e), j)),
        }
    } else if is_digit(s[i]) {
        match sp_number(s, i) {
            None => None,
            Some((n, j)) => Some((SpecParam::Num(n), j)),
        }
    } else if sp_match(s, i, kw_obj_str()) {
        Some((SpecParam::Obj(Obj::ObjStr), i + 6))
    } else if sp_match(s, i, kw_bnpc_name()) {
        Some((SpecParam::Obj(Obj::BNpcName), i + 8))
    } else {
        match sp_function(s, i) {
            None => None,
            Some((f, j)) => Some((SpecParam::Function(f), j)),
        }
    }
}

/// A function call `name(param, ...)`.
pub open spec fn sp_function(s: Seq<char>, i: int) -> Option<(SpecFunction, int)>
    decreases s.len() - i, 1int,
{
    if !(0 <= i <= s.len()) {
        None
    } else {
        match sp_func_name(s, i) {
            None => None,
            Some((name, j)) => {
                match sp_params(s, j) {
                    None => None,
                    Some((ps, k)) => Some((SpecFunction { name, params: ps }, k)),
                }
            },
        }
    }
}

/// The head of a tag: `<name` with optional parameters, closed by either
/// `/>` (auto-closing, second component true) or `>` (open tag).
pub open spec fn sp_tag_head(s: Seq<char>, i: int) -> Option<((SpecTag, bool), int)>
    decreases s.len() - i, 1int,
{
    if !(0 <= i < s.len() && s[i] == '<') {
        None
    } else {
        match sp_tag_name(s, i + 1) {
            None => None,
            Some((name, j)) => {
                let pr: Option<(Seq<SpecParam>, int)> = if j < s.len() && s[j] == '(' {
                    sp_params(s, j)
                } else {
                    Some((Seq::empty(), j))
                };
                match pr {
                    None => None,
                    Some((ps, k)) => {
                        if j <= k <= s.len() {
                            if sp_match(s, k, kw_auto_close()) {
                                Some(((SpecTag { name, params: ps }, true), k + 2))
                            } else if k < s.len() && s[k] == '>' {
                                Some(((SpecTag { name, params: ps }, false), k + 1))
                            } else {
                                None
                            }
                        } else {
                            None
                        }
                    },
                }
            },
        }
    }
}

/// The condition of an if-else: a function or an auto-closing tag.
pub open spec fn sp_if_param(s: Seq<char>, i: int) -> Option<(SpecIfParam, int)>
    decreases s.len() - i, 3int,
{
    if !(0 <= i <= s.len()) {
        None
    } else {
        match sp_function(s, i) {
            Some((f, j)) => Some((SpecIfParam::Function(f), j)),
            None => match sp_tag_head(s, i) {
                Some(((t, auto), j)) => {
                    if auto {
                        Some((SpecIfParam::Tag(t), j))
                    } else {
                        None
                    }
                },
                None => None,
            },
        }
    }
}

/// An element: an if-else construct, an auto-closing tag, or an open/close
/// tag pair with matching names around an optional text run.
pub open spec fn sp_element(s: Seq<char>, i: int) -> Option<(SpecElement, int)>
    decreases s.len() - i, 2int,
{
    if !(0 <= i <= s.len()) {
        None
    } else if sp_match(s, i, kw_if_open()) {
        match sp_if_else(s, i) {
            None => None,
            Some((ie, j)) => Some((SpecElement::IfElse(ie), j)),
        }
    } else {
        match sp_tag_head(s, i) {
            None => None,
            Some(((tag, auto), j)) => {
                if auto {
                    Some((SpecElement::Tag(tag, None), j))
                } else if !(i < j <= s.len()) {
                    None
                } else {
                    let te = sp_text_end(s, j);
                    if !(j <= te <= s.len()) {
                        None
                    } else {
                        let txt: Option<Seq<char>> = if te > j {
                            Some(s.subrange(j, te))
                        } else {
                            None
                        };
                        match sp_close_tag(s, te) {
                            None => None,
                            Some((cname, k)) => {
                                if cname == tag.name {
                                    Some((SpecElement::Tag(tag, txt), k))
                                } else {
                                    None
                                }
                            },
                        }
                    }
                }
            },
        }
    }
}

/// The if-else construct.
pub open spec fn sp_if_else(s: Seq<char>, i: int) -> Option<(SpecIfElse, int)>
    decreases s.len() - i, 1int,
{
    if !(0 <= i <= s.len() && sp_match(s, i, kw_if_open())) {
        None
    } else {
        match sp_if_param(s, i + 4) {
            None => None,
            Some((cond, j)) => {
                if !(i + 4 <= j <= s.len()) {
                    None
                } else if sp_match(s, j, kw_paren_gt()) {
                    match sp_branch(s, j + 2) {
                        None => None,
                        Some((if_then, k)) => {
                            if !(j + 2 <= k <= s.len()) {
                                None
                            } else if sp_match(s, k, kw_else_tag()) {
                                match sp_branch(s, k + 7) {
                                    None => None,
                                    Some((else_then, l)) => {
                                        if !(k + 7 <= l <= s.len()) {
                                            None
                                        } else if sp_match(s, l, kw_close_if()) {
                                            Some(
                                                (
                                                    SpecIfElse { if_cond: cond, if_then, else_then },
                                                    l + 5,
                                                ),
                                            )
                                        } else {
                                            None
                                        }
                                    },
                                }
                            } else {
                                None
                            }
                        },
                    }
                } else {
                    None
                }
            },
        }
    }
}

/// The items of one branch, up to (but not including) the terminator
/// `<Else/>` or `</If>`.
pub open spec fn sp_branch(s: Seq<char>, i: int) -> Option<(Seq<SpecIfElseThen>, int)>
    decreases s.len() - i, 4int,
{
    if !(0 <= i <= s.len()) {
        None
    } else if sp_match(s, i, kw_else_tag()) || sp_match(s, i, kw_close_if()) {
        Some((Seq::empty(), i))
    } else if i == s.len() {
        None
    } else if s[i] == '<' {
        match sp_element(s, i) {
            None => None,
            Some((e, j)) => {
                if i < j <= s.len() {
                    match sp_branch(s, j) {
                        None => None,
                        Some((rest, k)) => Some((seq![SpecIfElseThen::Element(e)] + rest, k)),
                    }
                } else {
                    None
                }
            },
        }
    } else {
        match sp_function(s, i) {
            Some((f, j)) => {
                if i < j <= s.len() {
                    match sp_branch(s, j) {
                        None => None,
                        Some((rest, k)) => Some((seq![SpecIfElseThen::Function(f)] + rest, k)),
                    }
                } else {
                    None
                }
            },
            None => {
                let te = sp_text_end(s, i);
                if i < te <= s.len() {
                    match sp_branch(s, te) {
                        None => None,
                        Some((rest, k)) => Some(
                            (seq![SpecIfElseThen::Text(s.subrange(i, te))] + rest, k),
                        ),
                    }
                } else {
                    None
                }
            },
        }
    }
}

/// The parts of a message, up to the end of the input.
pub open spec fn sp_message_parts(s: Seq<char>, i: int) -> Option<(Seq<SpecMessagePart>, int)>
    decreases s.len() - i, 4int,
{
    if !(0 <= i <= s.len()) {
        None
    } else if i == s.len() {
        Some((Seq::empty(), i))
    } else if s[i] == '<' {
        match sp_element(s, i) {
            None => None,
            Some((e, j)) => {
                if i < j <= s.len() {
                    match sp_message_parts(s, j) {
                        None => None,
                        Some((rest, k)) => Some((seq![SpecMessagePart::Element(e)] + rest, k)),
                    }
                } else {
                    None
                }
            },
        }
    } else {
        let te = sp_text_end(s, i);
        if i < te <= s.len() {
            match sp_message_parts(s, te) {
                None => None,
                Some((rest, k)) => Some((seq![SpecMessagePart::Text(s.subrange(i, te))] + rest, k)),
            }
        } else {
            None
        }
    }
}

/// A whole message: what the parser accepts, and the AST it denotes.
pub open spec fn sp_parse_message(s: Seq<char>) -> Option<SpecMessage> {
    match sp_message_parts(s, 0) {
        Some((parts, _)) => Some(SpecMessage { parts }),
        None => None,
    }
}


// ---------------------------------------------------------------------------
// The executable parser. Each function returns exactly what the grammar
// definition above says for its rule.
// ---------------------------------------------------------------------------

/// Every keyword literal denotes its keyword sequence.
proof fn kw_lits()
    ensures
        "Clickable"@ == kw_clickable(),
        "SheetEn"@ == kw_sheet_en(),
        "Sheet"@ == kw_sheet(),
        "Equal"@ == kw_equal(),
        "ObjectParameter"@ == kw_object_parameter(),
        "PlayerParameter"@ == kw_player_parameter(),
        "ObjStr"@ == kw_obj_str(),
        "BNpcName"@ == kw_bnpc_name(),
        "<If("@ == kw_if_open(),
        "<Else/>"@ == kw_else_tag(),
        "</If>"@ == kw_close_if(),
        ")>"@ == kw_paren_gt(),
        "/>"@ == kw_auto_close(),
        "</"@ == kw_close_open(),
{
    reveal_strlit("Clickable");
    assert("Clickable"@ =~= kw_clickable());
    reveal_strlit("SheetEn");
    assert("SheetEn"@ =~= kw_sheet_en());
    reveal_strlit("Sheet");
    assert("Sheet"@ =~= kw_sheet());
    reveal_strlit("Equal");
    assert("Equal"@ =~= kw_equal());
    reveal_strlit("ObjectParameter");
    assert("ObjectParameter"@ =~= kw_object_parameter());
    reveal_strlit("PlayerParameter");
    assert("PlayerParameter"@ =~= kw_player_parameter());
    reveal_strlit("ObjStr");
    assert("ObjStr"@ =~= kw_obj_str());
    reveal_strlit("BNpcName");
    assert("BNpcName"@ =~= kw_bnpc_name());
    reveal_strlit("<If(");
    assert("<If("@ =~= kw_if_open());
    reveal_strlit("<Else/>");
    assert("<Else/>"@ =~= kw_else_tag());
    reveal_strlit("</If>");
    assert("</If>"@ =~= kw_close_if());
    reveal_strlit(")>");
    assert(")>"@ =~= kw_paren_gt());
    reveal_strlit("/>");
    assert("/>"@ =~= kw_auto_close());
    reveal_strlit("</");
    assert("</"@ =~= kw_close_open());
}

/// Does `s` hold `lit` starting at `i`?
fn match_lit(s: &str, i: usize, lit: &str) -> (b: bool)
    requires
        i <= s@.len(),
    ensures
        b == sp_match(s@, i as int, lit@),
{
    let sl = s.unicode_len();
    let ll = lit.unicode_len();
    if ll > sl - i {
        return false;
    }
    let mut k: usize = 0;
    while k < ll
        invariant
            k <= ll,
            ll == lit@.len(),
            sl == s@.len(),
            i + ll <= sl,
            forall|t: int| 0 <= t < k ==> s@[i + t] == lit@[t],
        decreases ll - k,
    {
        if s.get_char(i + k) != lit.get_char(k) {
            assert(s@[i + k as int] != lit@[k as int]);
            return false;
        }
        k += 1;
    }
    true
}

/// The end of the maximal non-`'<'` run starting at `i`.
fn p_text_end(s: &str, i: usize) -> (te: usize)
    requires
        i <= s@.len(),
    ensures
        te as int == sp_text_end(s@, i as int),
        i <= te <= s@.len(),
{
    let n = s.unicode_len();
    let mut j = i;
    loop
        invariant
            i <= j <= n,
            n == s@.len(),
            sp_text_end(s@, i as int) == sp_text_end(s@, j as int),
        decreases n - j,
    {
        if j == n {
            return j;
        }
        if s.get_char(j) == '<' {
            return j;
        }
        j += 1;
    }
}

/// A number parameter: one or more digits, with value at most `u32::MAX`.
fn p_number(s: &str, i: usize) -> (r: Result<(u32, usize), ParseError>)
    requires
        i <= s@.len(),
    ensures
        match r {
            Ok((v, j)) => {
                &&& sp_number(s@, i as int) == Some((v, j as int))
                &&& i < j <= s@.len()
            },
            Err(_) => sp_number(s@, i as int) is None,
        },
{
    let n = s.unicode_len();
    proof {
        lemma_digits_end(s@, i as int);
    }
    let ghost de = sp_digits_end(s@, i as int);
    let mut j = i;
    let mut acc: u64 = 0;
    loop
        invariant
            i <= j <= de <= n,
            n == s@.len(),
            de == sp_digits_end(s@, i as int),
            forall|k: int| i <= k < de ==> is_digit(s@[k]),
            de == s@.len() || !is_digit(s@[de as int]),
            acc as int == sp_dec_val(s@, i as int, j as int),
            acc <= u32::MAX as u64,
        decreases n - j,
    {
        let done: bool = if j == n {
            true
        } else {
            let c = s.get_char(j);
            !('0' <= c && c <= '9')
        };
        if done {
            proof {
                assert(j == de);
            }
            if j == i {
                return Err(ParseError { pos: i, expected: "number" });
            }
            return Ok((acc as u32, j));
        }
        let c = s.get_char(j);
        proof {
            assert(is_digit(s@[j as int]));
            assert(j < de);
        }
        let d = (c as u32) - ('0' as u32);
        let next: u64 = acc * 10 + (d as u64);
        proof {
            assert(next as int == sp_dec_val(s@, i as int, j as int + 1));
        }
        if next > (u32::MAX as u64) {
            proof {
                lemma_dec_val_monotone(s@, i as int, j as int + 1, de);
            }
            return Err(ParseError { pos: j, expected: "number fitting in 32 bits" });
        }
        acc = next;
        j += 1;
    }
}

/// A tag name.
fn p_tag_name(s: &str, i: usize) -> (r: Result<(TagName, usize), ParseError>)
    requires
        i <= s@.len(),
    ensures
        match r {
            Ok((t, j)) => {
                &&& sp_tag_name(s@, i as int) == Some((t, j as int))
                &&& i < j <= s@.len()
            },
            Err(_) => sp_tag_name(s@, i as int) is None,
        },
{
    proof {
        kw_lits();
    }
    let _n = s.unicode_len();
    if match_lit(s, i, "Clickable") {
        Ok((TagName::Clickable, i + 9))
    } else if match_lit(s, i, "SheetEn") {
        Ok((TagName::SheetEn, i + 7))
    } else if match_lit(s, i, "Sheet") {
        Ok((TagName::Sheet, i + 5))
    } else {
        Err(ParseError { pos: i, expected: "tag name" })
    }
}

/// A function name.
fn p_func_name(s: &str, i: usize) -> (r: Result<(FuncName, usize), ParseError>)
    requires
        i <= s@.len(),
    ensures
        match r {
            Ok((f, j)) => {
                &&& sp_func_name(s@, i as int) == Some((f, j as int))
                &&& i < j <= s@.len()
            },
            Err(_) => sp_func_name(s@, i as int) is None,
        },
{
    proof {
        kw_lits();
    }
    let _n = s.unicode_len();
    if match_lit(s, i, "Equal") {
        Ok((FuncName::Equal, i + 5))
    } else if match_lit(s, i, "ObjectParameter") {
        Ok((FuncName::ObjectParameter, i + 15))
    } else if match_lit(s, i, "PlayerParameter") {
        Ok((FuncName::PlayerParameter, i + 15))
    } else {
        Err(ParseError { pos: i, expected: "function name" })
    }
}

/// A close tag `</name>`.
fn p_close_tag(s: &str, i: usize) -> (r: Result<(TagName, usize), ParseError>)
    requires
        i <= s@.len(),
    ensures
        match r {
            Ok((t, j)) => {
                &&& sp_close_tag(s@, i as int) == Some((t, j as int))
                &&& i < j <= s@.len()
            },
            Err(_) => sp_close_tag(s@, i as int) is None,
        },
{
    proof {
        kw_lits();
    }
    let n = s.unicode_len();
    if !match_lit(s, i, "</") {
        return Err(ParseError { pos: i, expected: "close tag" });
    }
    let (name, j) = match p_tag_name(s, i + 2) {
        Ok(x) => x,
        Err(e) => {
            return Err(e);
        },
    };
    if j < n && s.get_char(j) == '>' {
        Ok((name, j + 1))
    } else {
        Err(ParseError { pos: j, expected: "'>'" })
    }
}

/// The parenthesised parameter list.
fn p_params(s: &str, i: usize) -> (r: Result<(Vec<Param>, usize), ParseError>)
    requires
        i <= s@.len(),
    ensures
        match r {
            Ok((ps, j)) => {
                &&& sp_params(s@, i as int) == Some((view_params(ps@), j as int))
                &&& i < j <= s@.len()
            },
            Err(_) => sp_params(s@, i as int) is None,
        },
    decreases s@.len() - i, 0int,
{
    let n = s.unicode_len();
    if !(i < n && s.get_char(i) == '(') {
        return Err(ParseError { pos: i, expected: "'('" });
    }
    let (p0, j0) = match p_param(s, i + 1) {
        Ok(x) => x,
        Err(e) => {
            return Err(e);
        },
    };
    let mut acc: Vec<Param> = Vec::new();
    acc.push(p0);
    let mut cur = j0;
    proof {
        lemma_view_params_pointwise(acc@);
        assert(view_params(acc@) =~= seq![view_param(acc@[0])]);
    }
    loop
        invariant
            i < cur <= n,
            n == s@.len(),
            sp_params(s@, i as int) == sp_params_rest(s@, cur as int, view_params(acc@)),
        decreases n - cur,
    {
        if cur < n && s.get_char(cur) == ')' {
            return Ok((acc, cur + 1));
        }
        if !(cur < n && s.get_char(cur) == ',') {
            return Err(ParseError { pos: cur, expected: "',' or ')'" });
        }
        let (p, j) = match p_param(s, cur + 1) {
            Ok(x) => x,
            Err(e) => {
                return Err(e);
            },
        };
        let ghost acc_old = acc@;
        acc.push(p);
        proof {
            assert(acc@.subrange(0, acc@.len() - 1) =~= acc_old);
            assert(view_params(acc@) == view_params(acc_old).push(view_param(p)));
        }
        cur = j;
    }
}

/// A parameter: element, number, object literal or function, in that order.
fn p_param(s: &str, i: usize) -> (r: Result<(Param, usize), ParseError>)
    requires
        i <= s@.len(),
    ensures
        match r {
            Ok((p, j)) => {
                &&& sp_param(s@, i as int) == Some((view_param(p), j as int))
                &&& i < j <= s@.len()
            },
            Err(_) => sp_param(s@, i as int) is None,
        },
    decreases s@.len() - i, 3int,
{
    proof {
        kw_lits();
    }
    let n = s.unicode_len();
    if i == n {
        return Err(ParseError { pos: i, expected: "parameter" });
    }
    let c = s.get_char(i);
    if c == '<' {
        match p_element(s, i) {
            Ok((e, j)) => Ok((Param::Element(e), j)),
            Err(e) => Err(e),
        }
    } else if '0' <= c && c <= '9' {
        match p_number(s, i) {
            Ok((v, j)) => Ok((Param::Num(v), j)),
            Err(e) => Err(e),
        }
    } else if match_lit(s, i, "ObjStr") {
        Ok((Param::Obj(Obj::ObjStr), i + 6))
    } else if match_lit(s, i, "BNpcName") {
        Ok((Param::Obj(Obj::BNpcName), i + 8))
    } else {
        match p_function(s, i) {
            Ok((f, j)) => Ok((Param::Function(f), j)),
            Err(e) => Err(e),
        }
    }
}

/// A function call `name(param, ...)`.
fn p_function(s: &str, i: usize) -> (r: Result<(Function, usize), ParseError>)
    requires
        i <= s@.len(),
    ensures
        match r {
            Ok((f, j)) => {
                &&& sp_function(s@, i as int) == Some((view_function(f), j as int))
                &&& i < j <= s@.len()
            },
            Err(_) => sp_function(s@, i as int) is None,
        },
    decreases s@.len() - i, 1int,
{
    let (name, ni) = match p_func_name(s, i) {
        Ok(x) => x,
        Err(e) => {
            return Err(e);
        },
    };
    match p_params(s, ni) {
        Ok((ps, j)) => Ok((Function { name, params: ps }, j)),
        Err(e) => Err(e),
    }
}

/// The head of a tag: `<name` with optional parameters, ending in `/>`
/// (auto-closing) or `>`.
fn p_tag_head(s: &str, i: usize) -> (r: Result<((Tag, bool), usize), ParseError>)
    requires
        i <= s@.len(),
    ensures
        match r {
            Ok(((t, auto), j)) => {
                &&& sp_tag_head(s@, i as int) == Some(((view_tag(t), auto), j as int))
                &&& i < j <= s@.len()
            },
            Err(_) => sp_tag_head(s@, i as int) is None,
        },
    decreases s@.len() - i, 1int,
{
    proof {
        kw_lits();
    }
    let n = s.unicode_len();
    if !(i < n && s.get_char(i) == '<') {
        return Err(ParseError { pos: i, expected: "'<'" });
    }
    let (name, ni) = match p_tag_name(s, i + 1) {
        Ok(x) => x,
        Err(e) => {
            return Err(e);
        },
    };
    let (params, k) = if ni < n && s.get_char(ni) == '(' {
        match p_params(s, ni) {
            Ok(x) => x,
            Err(e) => {
                return Err(e);
            },
        }
    } else {
        (Vec::new(), ni)
    };
    if match_lit(s, k, "/>") {
        Ok(((Tag { name, params }, true), k + 2))
    } else if k < n && s.get_char(k) == '>' {
        Ok(((Tag { name, params }, false), k + 1))
    } else {
        Err(ParseError { pos: k, expected: "'>' or '/>'" })
    }
}

/// The condition of an if-else: a function or an auto-closing tag.
fn p_if_param(s: &str, i: usize) -> (r: Result<(IfParam, usize), ParseError>)
    requires
        i <= s@.len(),
    ensures
        match r {
            Ok((p, j)) => {
                &&& sp_if_param(s@, i as int) == Some((view_if_param(p), j as int))
                &&& i < j <= s@.len()
            },
            Err(_) => sp_if_param(s@, i as int) is None,
        },
    decreases s@.len() - i, 3int,
{
    match p_function(s, i) {
        Ok((f, j)) => Ok((IfParam::Function(f), j)),
        Err(_) => {
            let ((tag, auto), j) = match p_tag_head(s, i) {
                Ok(x) => x,
                Err(e) => {
                    return Err(e);
                },
            };
            if auto {
                Ok((IfParam::Tag(tag), j))
            } else {
                Err(ParseError { pos: i, expected: "function or auto-closing tag" })
            }
        },
    }
}

/// An element.
fn p_element(s: &str, i: usize) -> (r: Result<(Element, usize), ParseError>)
    requires
        i <= s@.len(),
    ensures
        match r {
            Ok((e, j)) => {
                &&& sp_element(s@, i as int) == Some((view_element(e), j as int))
                &&& i < j <= s@.len()
            },
            Err(_) => sp_element(s@, i as int) is None,
        },
    decreases s@.len() - i, 2int,
{
    proof {
        kw_lits();
    }
    if match_lit(s, i, "<If(") {
        match p_if_else(s, i) {
            Ok((ie, j)) => Ok((Element::IfElse(Box::new(ie)), j)),
            Err(e) => Err(e),
        }
    } else {
        let ((tag, auto), j) = match p_tag_head(s, i) {
            Ok(x) => x,
            Err(e) => {
                return Err(e);
            },
        };
        if auto {
            Ok((Element::Tag(tag, None), j))
        } else {
            let te = p_text_end(s, j);
            let txt: Option<String> = if te > j {
                Some(String::from_str(s.substring_char(j, te)))
            } else {
                None
            };
            let (cname, k) = match p_close_tag(s, te) {
                Ok(x) => x,
                Err(e) => {
                    return Err(e);
                },
            };
            if cname == tag.name {
                Ok((Element::Tag(tag, txt), k))
            } else {
                Err(ParseError { pos: te, expected: "matching close tag" })
            }
        }
    }
}

/// The if-else construct.
fn p_if_else(s: &str, i: usize) -> (r: Result<(IfElse, usize), ParseError>)
    requires
        i <= s@.len(),
        sp_match(s@, i as int, kw_if_open()),
    ensures
        match r {
            Ok((ie, j)) => {
                &&& sp_if_else(s@, i as int) == Some((view_if_else(ie), j as int))
                &&& i < j <= s@.len()
            },
            Err(_) => sp_if_else(s@, i as int) is None,
        },
    decreases s@.len() - i, 1int,
{
    proof {
        kw_lits();
    }
    let _n = s.unicode_len();
    let (cond, j) = match p_if_param(s, i + 4) {
        Ok(x) => x,
        Err(e) => {
            return Err(e);
        },
    };
    if !match_lit(s, j, ")>") {
        return Err(ParseError { pos: j, expected: "')>'" });
    }
    let (if_then, k) = match p_branch(s, j + 2) {
        Ok(x) => x,
        Err(e) => {
            return Err(e);
        },
    };
    if !match_lit(s, k, "<Else/>") {
        return Err(ParseError { pos: k, expected: "'<Else/>'" });
    }
    let (else_then, l) = match p_branch(s, k + 7) {
        Ok(x) => x,
        Err(e) => {
            return Err(e);
        },
    };
    if !match_lit(s, l, "</If>") {
        return Err(ParseError { pos: l, expected: "'</If>'" });
    }
    Ok((IfElse { if_cond: cond, if_then, else_then }, l + 5))
}

/// The items of one branch, up to the terminator `<Else/>` or `</If>`.
fn p_branch(s: &str, i: usize) -> (r: Result<(Vec<IfElseThen>, usize), ParseError>)
    requires
        i <= s@.len(),
    ensures
        match r {
            Ok((ts, j)) => {
                &&& sp_branch(s@, i as int) == Some((view_thens(ts@), j as int))
                &&& i <= j <= s@.len()
            },
            Err(_) => sp_branch(s@, i as int) is None,
        },
    decreases s@.len() - i, 4int,
{
    proof {
        kw_lits();
    }
    let n = s.unicode_len();
    let mut acc: Vec<IfElseThen> = Vec::new();
    let mut cur = i;
    proof {
        assert(view_thens(acc@) =~= Seq::<SpecIfElseThen>::empty());
    }
    loop
        invariant
            i <= cur <= n,
            n == s@.len(),
            sp_branch(s@, i as int) == match sp_branch(s@, cur as int) {
                None => None::<(Seq<SpecIfElseThen>, int)>,
                Some((rest, k)) => Some((view_thens(acc@) + rest, k)),
            },
        decreases n - cur,
    {
        proof {
            kw_lits();
        }
        if match_lit(s, cur, "<Else/>") || match_lit(s, cur, "</If>") {
            proof {
                assert(view_thens(acc@) + Seq::<SpecIfElseThen>::empty() =~= view_thens(acc@));
            }
            return Ok((acc, cur));
        }
        if cur == n {
            return Err(ParseError { pos: cur, expected: "'<Else/>' or '</If>'" });
        }
        let ghost acc_old = acc@;
        let c = s.get_char(cur);
        let next: usize;
        if c == '<' {
            let (e, j) = match p_element(s, cur) {
                Ok(x) => x,
                Err(e) => {
                    return Err(e);
                },
            };
            acc.push(IfElseThen::Element(e));
            next = j;
        } else {
            match p_function(s, cur) {
                Ok((f, j)) => {
                    acc.push(IfElseThen::Function(f));
                    next = j;
                },
                Err(_) => {
                    let te = p_text_end(s, cur);
                    proof {
                        assert(s@[cur as int] != '<');
                        assert(sp_text_end(s@, cur as int) == sp_text_end(s@, cur as int + 1));
                        lemma_text_end(s@, cur as int + 1);
                        assert(te > cur);
                    }
                    let txt = String::from_str(s.substring_char(cur, te));
                    acc.push(IfElseThen::Text(txt));
                    next = te;
                },
            }
        }
        proof {
            assert(acc@.subrange(0, acc@.len() - 1) =~= acc_old);
            assert(view_thens(acc@) == view_thens(acc_old).push(view_then(acc@[acc@.len() - 1])));
            assert forall|rest: Seq<SpecIfElseThen>|
                view_thens(acc_old) + (seq![view_then(acc@[acc@.len() - 1])] + rest) =~= view_thens(
                    acc@,
                ) + rest by {}
        }
        cur = next;
    }
}

/// The parts of a message, up to the end of the input.
fn p_message_parts(s: &str, i: usize) -> (r: Result<(Vec<MessagePart>, usize), ParseError>)
    requires
        i <= s@.len(),
    ensures
        match r {
            Ok((ps, j)) => {
                &&& sp_message_parts(s@, i as int) == Some((view_parts(ps@), j as int))
                &&& i <= j <= s@.len()
            },
            Err(_) => sp_message_parts(s@, i as int) is None,
        },
    decreases s@.len() - i, 4int,
{
    let n = s.unicode_len();
    let mut acc: Vec<MessagePart> = Vec::new();
    let mut cur = i;
    proof {
        assert(view_parts(acc@) =~= Seq::<SpecMessagePart>::empty());
    }
    loop
        invariant
            i <= cur <= n,
            n == s@.len(),
            sp_message_parts(s@, i as int) == match sp_message_parts(s@, cur as int) {
                None => None::<(Seq<SpecMessagePart>, int)>,
                Some((rest, k)) => Some((view_parts(acc@) + rest, k)),
            },
        decreases n - cur,
    {
        if cur == n {
            proof {
                assert(view_parts(acc@) + Seq::<SpecMessagePart>::empty() =~= view_parts(acc@));
            }
            return Ok((acc, cur));
        }
        let ghost acc_old = acc@;
        let c = s.get_char(cur);
        let next: usize;
        if c == '<' {
            let (e, j) = match p_element(s, cur) {
                Ok(x) => x,
                Err(e) => {
                    return Err(e);
                },
            };
            acc.push(MessagePart::Element(e));
            next = j;
        } else {
            let te = p_text_end(s, cur);
            proof {
                assert(s@[cur as int] != '<');
                assert(sp_text_end(s@, cur as int) == sp_text_end(s@, cur as int + 1));
                lemma_text_end(s@, cur as int + 1);
                assert(te > cur);
            }
            let txt = String::from_str(s.substring_char(cur, te));
            acc.push(MessagePart::Text(txt));
            next = te;
        }
        proof {
            assert(acc@.subrange(0, acc@.len() - 1) =~= acc_old);
            assert(view_parts(acc@) == view_parts(acc_old).push(view_part(acc@[acc@.len() - 1])));
            assert forall|rest: Seq<SpecMessagePart>|
                view_parts(acc_old) + (seq![view_part(acc@[acc@.len() - 1])] + rest) =~= view_parts(
                    acc@,
                ) + rest by {}
        }
        cur = next;
    }
}

/// The hand-written parser for the log message grammar.
pub struct LogMessageParser;

impl LogMessageParser {
    /// Parse a whole message into its AST. Succeeds exactly on the strings
    /// of the grammar, and the AST denotes the input's unique derivation.
    pub fn message(input: &str) -> (r: Result<Message, ParseError>)
        ensures
            match r {
                Ok(m) => sp_parse_message(input@) == Some(m@),
                Err(_) => sp_parse_message(input@) is None,
            },
    {
        match p_message_parts(input, 0) {
            Ok((parts, _)) => Ok(Message(parts)),
            Err(e) => Err(e),
        }
    }
}

// ---------------------------------------------------------------------------
// The public entry points.
// ---------------------------------------------------------------------------

/// Parse a raw log message and reduce it into its reusable list of
/// (condition-set, text) pairs.
pub fn extract_condition_texts(log_msg: &str) -> (r: EmoteTextResult<ConditionTexts>)
    ensures
        match sp_parse_message(log_msg@) {
            None => r matches Err(EmoteTextError::ParseError(_)),
            Some(m) => match sp_process_message(m) {
                Err(se) => r matches Err(EmoteTextError::ProcessError(e)) && e@ == se,
                Ok(l) => r matches Ok(ct) && ct@ == l,
            },
        },
{
    let message = match LogMessageParser::message(log_msg) {
        Ok(m) => m,
        Err(e) => {
            return Err(EmoteTextError::ParseError(e));
        },
    };
    match message.process_string() {
        Ok(ct) => Ok(ct),
        Err(e) => Err(EmoteTextError::ProcessError(e)),
    }
}

/// The entry point of this library: parse the raw log message, reduce it,
/// and evaluate it against `answers`, producing the final display text.
pub fn process_log_message<T: Answers>(log_msg: &str, answers: &T) -> (r: EmoteTextResult<String>)
    ensures
        match sp_parse_message(log_msg@) {
            None => r matches Err(EmoteTextError::ParseError(_)),
            Some(m) => match sp_process_message(m) {
                Err(se) => r matches Err(EmoteTextError::ProcessError(e)) && e@ == se,
                Ok(l) => r matches Ok(out) && out@ == sp_eval_texts(answers, l),
            },
        },
{
    let condition_texts = match extract_condition_texts(log_msg) {
        Ok(ct) => ct,
        Err(e) => {
            return Err(e);
        },
    };
    Ok(condition_texts.evaluate(answers))
}


// ---------------------------------------------------------------------------
// Laws of the whole pipeline.
// ---------------------------------------------------------------------------

/// Round trip on pure text: a message without any markup parses to a single
/// text part, reduces to one unconditional entry, and evaluates to itself,
/// whatever the oracle.
pub proof fn lemma_pure_text_round_trip<A: Answers>(a: &A, s: Seq<char>)
    requires
        forall|k: int| 0 <= k < s.len() ==> s[k] != '<',
    ensures
        sp_parse_message(s) matches Some(m) && sp_process_message(m) matches Ok(l)
            && sp_eval_texts(a, l) == s,
{
    if s.len() == 0 {
        assert(sp_message_parts(s, 0) == Some((Seq::<SpecMessagePart>::empty(), 0int)));
        let m = sp_parse_message(s).unwrap();
        assert(m.parts.len() == 0);
        assert(sp_process_message(m) == Ok::<Seq<SpecConditionText>, SpecProcessError>(
            Seq::empty(),
        ));
        assert(sp_eval_texts(a, Seq::<SpecConditionText>::empty()) =~= s);
    } else {
        lemma_text_end(s, 0);
        let te = sp_text_end(s, 0);
        assert(te == s.len()) by {
            if te < s.len() {
                assert(s[te] == '<');
            }
        }
        assert(s.subrange(0, s.len() as int) =~= s);
        assert(sp_message_parts(s, s.len() as int) == Some(
            (Seq::<SpecMessagePart>::empty(), s.len() as int),
        ));
        let part = SpecMessagePart::Text(s);
        assert(sp_message_parts(s, 0) == Some(
            (seq![part] + Seq::<SpecMessagePart>::empty(), s.len() as int),
        ));
        assert(seq![part] + Seq::<SpecMessagePart>::empty() =~= seq![part]);
        let m = sp_parse_message(s).unwrap();
        assert(m.parts == seq![part]);
        lemma_process_parts_singleton(part, Seq::empty());
        let entry = SpecConditionText { conds: Seq::empty(), text: SpecText::Static(s) };
        assert(sp_process_part(part, Seq::empty()) == Ok::<
            Seq<SpecConditionText>,
            SpecProcessError,
        >(seq![entry]));
        assert(sp_process_message(m) == Ok::<Seq<SpecConditionText>, SpecProcessError>(
            seq![entry],
        ));
        reveal_with_fuel(sp_eval_texts, 2);
        assert(seq![entry].drop_first() =~= Seq::<SpecConditionText>::empty());
        assert(sp_conds_hold(a, entry.conds));
        assert(sp_eval_texts(a, seq![entry]) =~= s);
    }
}

/// Order preservation, end to end: reducing a concatenation of message
/// parts emits the two parts' entries in order, and evaluating them
/// concatenates the two outputs in the same order, whatever the oracle.
pub proof fn lemma_output_order<A: Answers>(
    a: &A,
    p1: Seq<SpecMessagePart>,
    p2: Seq<SpecMessagePart>,
    l1: Seq<SpecConditionText>,
    l2: Seq<SpecConditionText>,
)
    requires
        sp_process_parts(p1, Seq::empty()) == Ok::<Seq<SpecConditionText>, SpecProcessError>(l1),
        sp_process_parts(p2, Seq::empty()) == Ok::<Seq<SpecConditionText>, SpecProcessError>(l2),
    ensures
        sp_process_parts(p1 + p2, Seq::empty()) == Ok::<Seq<SpecConditionText>, SpecProcessError>(
            l1 + l2,
        ),
        sp_eval_texts(a, l1 + l2) == sp_eval_texts(a, l1) + sp_eval_texts(a, l2),
{
    lemma_process_parts_append(p1, p2, Seq::empty());
    lemma_eval_append(a, l1, l2);
}

/// Reduction is a pure function of the markup: any two successful
/// reductions of the same input are structurally equal.
pub proof fn lemma_reduction_deterministic(
    s: Seq<char>,
    l1: Seq<SpecConditionText>,
    l2: Seq<SpecConditionText>,
)
    requires
        sp_parse_message(s) matches Some(m1) && sp_process_message(m1) == Ok::<
            Seq<SpecConditionText>,
            SpecProcessError,
        >(l1),
        sp_parse_message(s) matches Some(m2) && sp_process_message(m2) == Ok::<
            Seq<SpecConditionText>,
            SpecProcessError,
        >(l2),
    ensures
        l1 == l2,
{
}

/// Evaluation is a pure function of the reduced form and the oracle: any
/// two evaluations of the same list against the same oracle are equal.
pub proof fn lemma_evaluation_deterministic<A: Answers>(
    a: &A,
    l: Seq<SpecConditionText>,
    o1: Seq<char>,
    o2: Seq<char>,
)
    requires
        o1 == sp_eval_texts(a, l),
        o2 == sp_eval_texts(a, l),
    ensures
        o1 == o2,
{
}

} // verus!
