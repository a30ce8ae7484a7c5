//! The executable recursive-descent parser, proved to return exactly what
//! the specification-level grammar in `grammar` describes.

use crate::ast::lemma_lists_view_push;
use crate::ast::lemma_tokens_view_push;
use crate::ast::lists_view;
use crate::ast::tokens_view;
use crate::ast::Arg;
use crate::ast::FormatTemplate;
use crate::ast::Token;
use crate::ast::TokenList;
use crate::ast::TokenV;
use crate::ast::Formatter;
use crate::ast::Placeholder;
use crate::ast::ArgV;
use crate::chars::bare_value_char;
use crate::chars::chars_to_string;
use crate::chars::str_to_chars;
use crate::chars::ident_char;
use crate::chars::space_char;
use crate::chars::text_char;
use crate::grammar::bare_value_pred;
use crate::grammar::ident_pred;
use crate::grammar::not_quote_pred;
use crate::grammar::peek;
use crate::grammar::scan_while;
use crate::grammar::space_pred;
use crate::grammar::text_pred;
use crate::grammar::sp_arg;
use crate::grammar::sp_args;
use crate::grammar::sp_args_inner;
use crate::grammar::sp_args_rest;
use crate::grammar::sp_arg_value;
use crate::grammar::sp_icon;
use crate::grammar::sp_ident;
use crate::grammar::sp_formatter;
use crate::grammar::sp_placeholder;
use crate::grammar::sp_text;
use crate::grammar::sp_text_loop;
use crate::grammar::sp_recursive;
use crate::grammar::sp_token;
use crate::grammar::sp_token_list;
use crate::grammar::sp_template;
use crate::grammar::sp_template_rest;
use crate::grammar::sp_spaces;
use crate::grammar::FailV;
use crate::grammar::Sp;
use vstd::prelude::*;

verus! {

/// A failure as reported to callers: a required character together with
/// what was actually found, or a production that matched nothing at a
/// position (counted in characters).
#[derive(Debug, PartialEq, Eq, Clone)]
pub enum ErrorDetail {
    Expected { expected: char, actual: Option<char> },
    NoMatch { at: usize },
}

/// A failure, together with whether it was committed: a recoverable
/// failure lets an enclosing alternation try its next branch, a committed
/// one aborts the whole parse.
#[derive(Debug, PartialEq, Eq, Clone)]
pub enum ParseError {
    Recoverable(ErrorDetail),
    Committed(ErrorDetail),
}

/// Internal outcome of one production, mirroring `grammar::Sp`.
pub(crate) enum Step<T> {
    Done { v: T, next: usize },
    Miss { e: ErrorDetail },
    Halt { e: ErrorDetail },
}

/// The reported failure carries the same information as the
/// specification-level one.
pub open spec fn fail_matches(e: ErrorDetail, f: FailV) -> bool {
    match (e, f) {
        (
            ErrorDetail::Expected { expected, actual },
            FailV::Expected { expected: fe, actual: fa },
        ) => expected == fe && actual == fa,
        (ErrorDetail::NoMatch { at }, FailV::NoMatch { at: fa }) => at as int == fa,
        _ => false,
    }
}

/// An internal outcome agrees with a specification-level one: same case,
/// same position, and the parsed value views to the specified value.
pub(crate) open spec fn step_matches<T: View>(r: Step<T>, sp: Sp<<T as View>::V>) -> bool {
    match (r, sp) {
        (Step::Done { v, next }, Sp::Done { v: sv, next: snext }) => v@ == sv && next as int
            == snext,
        (Step::Miss { e }, Sp::Miss { e: se }) => fail_matches(e, se),
        (Step::Halt { e }, Sp::Halt { e: se }) => fail_matches(e, se),
        _ => false,
    }
}

/// As `step_matches`, for an argument list.
pub(crate) open spec fn args_step_matches(r: Step<Vec<Arg>>, sp: Sp<Seq<ArgV>>) -> bool {
    match (r, sp) {
        (Step::Done { v, next }, Sp::Done { v: sv, next: snext }) => v@.map_values(|a: Arg| a@)
            == sv && next as int == snext,
        (Step::Miss { e }, Sp::Miss { e: se }) => fail_matches(e, se),
        (Step::Halt { e }, Sp::Halt { e: se }) => fail_matches(e, se),
        _ => false,
    }
}

pub(crate) fn peek_at(s: &Vec<char>, i: usize) -> (r: Option<char>)
    ensures
        r == peek(s@, i as int),
{
    if i < s.len() {
        Option::Some(s[i])
    } else {
        Option::None
    }
}

pub(crate) fn scan_spaces(s: &Vec<char>, i: usize) -> (j: usize)
    requires
        i as int <= s@.len(),
    ensures
        j as int == sp_spaces(s@, i as int),
        i <= j && j as int <= s@.len(),
{
    let mut j = i;
    while j < s.len() && space_char(s[j])
        invariant
            i <= j && j as int <= s@.len(),
            scan_while(s@, j as int, space_pred()) == scan_while(s@, i as int, space_pred()),
        decreases s@.len() - j,
    {
        j = j + 1;
    }
    j
}

pub(crate) fn scan_ident(s: &Vec<char>, i: usize) -> (j: usize)
    requires
        i as int <= s@.len(),
    ensures
        j as int == scan_while(s@, i as int, ident_pred()),
        i <= j && j as int <= s@.len(),
{
    let mut j = i;
    while j < s.len() && ident_char(s[j])
        invariant
            i <= j && j as int <= s@.len(),
            scan_while(s@, j as int, ident_pred()) == scan_while(s@, i as int, ident_pred()),
        decreases s@.len() - j,
    {
        j = j + 1;
    }
    j
}

pub(crate) fn scan_bare_value(s: &Vec<char>, i: usize) -> (j: usize)
    requires
        i as int <= s@.len(),
    ensures
        j as int == scan_while(s@, i as int, bare_value_pred()),
        i <= j && j as int <= s@.len(),
{
    let mut j = i;
    while j < s.len() && bare_value_char(s[j])
        invariant
            i <= j && j as int <= s@.len(),
            scan_while(s@, j as int, bare_value_pred()) == scan_while(
                s@,
                i as int,
                bare_value_pred(),
            ),
        decreases s@.len() - j,
    {
        j = j + 1;
    }
    j
}

pub(crate) fn scan_not_quote(s: &Vec<char>, i: usize) -> (j: usize)
    requires
        i as int <= s@.len(),
    ensures
        j as int == scan_while(s@, i as int, not_quote_pred()),
        i <= j && j as int <= s@.len(),
{
    let mut j = i;
    while j < s.len() && s[j] != '\''
        invariant
            i <= j && j as int <= s@.len(),
            scan_while(s@, j as int, not_quote_pred()) == scan_while(
                s@,
                i as int,
                not_quote_pred(),
            ),
        decreases s@.len() - j,
    {
        j = j + 1;
    }
    j
}

/// The characters of `s` from `i` up to `j`, as an owned string.
pub(crate) fn substring(s: &Vec<char>, i: usize, j: usize) -> (r: String)
    requires
        i <= j && j as int <= s@.len(),
    ensures
        r@ == s@.subrange(i as int, j as int),
{
    let mut v: Vec<char> = Vec::new();
    let mut k = i;
    while k < j
        invariant
            i <= k <= j && j as int <= s@.len(),
            v@ == s@.subrange(i as int, k as int),
        decreases j - k,
    {
        v.push(s[k]);
        k = k + 1;
        proof {
            assert(v@ =~= s@.subrange(i as int, k as int));
        }
    }
    chars_to_string(&v)
}

pub(crate) fn p_ident(s: &Vec<char>, i: usize) -> (r: Step<String>)
    requires
        i as int <= s@.len(),
    ensures
        step_matches(r, sp_ident(s@, i as int)),
        r matches Step::Done { v: _, next } ==> i < next && next as int <= s@.len(),
{
    let j = scan_ident(s, i);
    if j > i {
        Step::Done { v: substring(s, i, j), next: j }
    } else {
        Step::Miss { e: ErrorDetail::NoMatch { at: i } }
    }
}

pub(crate) fn p_arg_value(s: &Vec<char>, i: usize) -> (r: Step<String>)
    requires
        i as int <= s@.len(),
    ensures
        step_matches(r, sp_arg_value(s@, i as int)),
        r matches Step::Done { v: _, next } ==> i < next && next as int <= s@.len(),
{
    let j = scan_bare_value(s, i);
    if j > i {
        Step::Done { v: substring(s, i, j), next: j }
    } else if i < s.len() && s[i] == '\'' {
        let q = scan_not_quote(s, i + 1);
        if q < s.len() {
            Step::Done { v: substring(s, i + 1, q), next: q + 1 }
        } else {
            Step::Halt {
                e: ErrorDetail::Expected { expected: '\'', actual: Option::None },
            }
        }
    } else {
        Step::Miss {
            e: ErrorDetail::Expected { expected: '\'', actual: peek_at(s, i) },
        }
    }
}

pub(crate) fn p_arg(s: &Vec<char>, i: usize) -> (r: Step<Arg>)
    requires
        i as int <= s@.len(),
    ensures
        step_matches(r, sp_arg(s@, i as int)),
        r matches Step::Done { v: _, next } ==> i < next && next as int <= s@.len(),
{
    match p_ident(s, i) {
        Step::Done { v: key, next: j } => {
            if j < s.len() && s[j] == ':' {
                match p_arg_value(s, j + 1) {
                    Step::Done { v: val, next: m } => Step::Done {
                        v: Arg { key, val: Option::Some(val) },
                        next: m,
                    },
                    Step::Miss { e } => Step::Halt { e },
                    Step::Halt { e } => Step::Halt { e },
                }
            } else {
                Step::Done { v: Arg { key, val: Option::None }, next: j }
            }
        },
        Step::Miss { e } => Step::Miss { e },
        Step::Halt { e } => Step::Halt { e },
    }
}

} // verus!

verus! {

pub(crate) fn p_args_inner(s: &Vec<char>, i: usize) -> (r: Step<Vec<Arg>>)
    requires
        i as int <= s@.len(),
    ensures
        args_step_matches(r, sp_args_inner(s@, i as int)),
        r matches Step::Done { v: _, next } ==> i <= next && next as int <= s@.len(),
{
    let j0 = scan_spaces(s, i);
    match p_arg(s, j0) {
        Step::Done { v: a0, next: m0 } => {
            let ghost first = seq![a0@];
            let mut acc: Vec<Arg> = Vec::new();
            acc.push(a0);
            proof {
                assert(acc@.map_values(|a: Arg| a@) =~= first);
            }
            let mut pos = m0;
            loop
                invariant
                    i < pos && pos as int <= s@.len(),
                    i < m0 && m0 as int <= s@.len(),
                    sp_args_inner(s@, i as int) == sp_args_rest(s@, m0 as int, first),
                    sp_args_rest(s@, m0 as int, first) == sp_args_rest(
                        s@,
                        pos as int,
                        acc@.map_values(|a: Arg| a@),
                    ),
                ensures
                    args_step_matches(
                        Step::Done { v: acc, next: pos },
                        sp_args_rest(s@, m0 as int, first),
                    ),
                decreases s@.len() - pos,
            {
                let j = scan_spaces(s, pos);
                if j < s.len() && s[j] == ',' {
                    let k = scan_spaces(s, j + 1);
                    match p_arg(s, k) {
                        Step::Done { v: a, next: m } => {
                            let ghost before = acc@.map_values(|a: Arg| a@);
                            acc.push(a);
                            proof {
                                assert(acc@.map_values(|a: Arg| a@) =~= before.push(a@));
                            }
                            pos = m;
                        },
                        Step::Miss { e: _ } => {
                            break ;
                        },
                        Step::Halt { e } => {
                            proof {
                                assert(sp_args_rest(
                                    s@,
                                    pos as int,
                                    acc@.map_values(|a: Arg| a@),
                                ) matches Sp::Halt { e: se } && fail_matches(e, se));
                            }
                            return Step::Halt { e };
                        },
                    }
                } else {
                    break ;
                }
            }
            Step::Done { v: acc, next: pos }
        },
        Step::Miss { e: _ } => {
            let empty_args: Vec<Arg> = Vec::new();
            proof {
                assert(empty_args@.map_values(|a: Arg| a@) =~= Seq::<ArgV>::empty());
            }
            Step::Done { v: empty_args, next: i }
        },
        Step::Halt { e } => Step::Halt { e },
    }
}

pub(crate) fn p_args(s: &Vec<char>, i: usize) -> (r: Step<Vec<Arg>>)
    requires
        i as int <= s@.len(),
    ensures
        args_step_matches(r, sp_args(s@, i as int)),
        r matches Step::Done { v: _, next } ==> i < next && next as int <= s@.len(),
{
    if i < s.len() && s[i] == '(' {
        match p_args_inner(s, i + 1) {
            Step::Done { v: args, next: n } => {
                let c = scan_spaces(s, n);
                if c < s.len() && s[c] == ')' {
                    Step::Done { v: args, next: c + 1 }
                } else {
                    Step::Halt {
                        e: ErrorDetail::Expected { expected: ')', actual: peek_at(s, c) },
                    }
                }
            },
            Step::Miss { e } => Step::Halt { e },
            Step::Halt { e } => Step::Halt { e },
        }
    } else {
        Step::Miss {
            e: ErrorDetail::Expected { expected: '(', actual: peek_at(s, i) },
        }
    }
}

} // verus!

verus! {

pub(crate) fn scan_text(s: &Vec<char>, i: usize) -> (j: usize)
    requires
        i as int <= s@.len(),
    ensures
        j as int == scan_while(s@, i as int, text_pred()),
        i <= j && j as int <= s@.len(),
{
    let mut j = i;
    while j < s.len() && text_char(s[j])
        invariant
            i <= j && j as int <= s@.len(),
            scan_while(s@, j as int, text_pred()) == scan_while(s@, i as int, text_pred()),
        decreases s@.len() - j,
    {
        j = j + 1;
    }
    j
}

/// Appends the characters of `s` from `i` up to `j` to `acc`.
pub(crate) fn push_range(acc: &mut Vec<char>, s: &Vec<char>, i: usize, j: usize)
    requires
        i <= j && j as int <= s@.len(),
    ensures
        final(acc)@ == old(acc)@ + s@.subrange(i as int, j as int),
{
    proof {
        assert(acc@ =~= acc@ + s@.subrange(i as int, i as int));
    }
    let mut k = i;
    while k < j
        invariant
            i <= k <= j && j as int <= s@.len(),
            acc@ == old(acc)@ + s@.subrange(i as int, k as int),
        decreases j - k,
    {
        acc.push(s[k]);
        k = k + 1;
        proof {
            assert(acc@ =~= old(acc)@ + s@.subrange(i as int, k as int));
        }
    }
}

pub(crate) fn p_text(s: &Vec<char>, i: usize) -> (r: Step<String>)
    requires
        i as int <= s@.len(),
    ensures
        step_matches(r, sp_text(s@, i as int)),
        r matches Step::Done { v: _, next } ==> i < next && next as int <= s@.len(),
{
    let mut acc: Vec<char> = Vec::new();
    let mut pos = i;
    let mut end: usize = i;
    proof {
        assert(acc@ =~= Seq::<char>::empty());
    }
    loop
        invariant_except_break
            sp_text_loop(s@, i as int, Seq::empty()) == sp_text_loop(s@, pos as int, acc@),
        invariant
            i <= pos && pos as int <= s@.len(),
        ensures
            i <= end && end as int <= s@.len(),
            sp_text_loop(s@, i as int, Seq::empty()) == (Sp::Done {
                v: acc@,
                next: end as int,
            }),
        decreases s@.len() - pos,
    {
        let j = scan_text(s, pos);
        push_range(&mut acc, s, pos, j);
        if j < s.len() && s[j] == '\\' {
            if j + 1 < s.len() {
                acc.push(s[j + 1]);
                pos = j + 2;
            } else {
                return Step::Miss { e: ErrorDetail::NoMatch { at: j + 1 } };
            }
        } else {
            end = j;
            break ;
        }
    }
    if end > i {
        Step::Done { v: chars_to_string(&acc), next: end }
    } else {
        Step::Miss { e: ErrorDetail::NoMatch { at: i } }
    }
}

pub(crate) fn p_formatter(s: &Vec<char>, i: usize) -> (r: Step<Formatter>)
    requires
        i as int <= s@.len(),
    ensures
        step_matches(r, sp_formatter(s@, i as int)),
        r matches Step::Done { v: _, next } ==> i < next && next as int <= s@.len(),
{
    if i < s.len() && s[i] == '.' {
        match p_ident(s, i + 1) {
            Step::Done { v: name, next: j } => {
                match p_args(s, j) {
                    Step::Done { v: args, next: m } => Step::Done {
                        v: Formatter { name, args },
                        next: m,
                    },
                    Step::Miss { e: _ } => {
                        let f = Formatter { name, args: Vec::new() };
                        proof {
                            assert(f.args@.map_values(|a: Arg| a@) =~= Seq::<ArgV>::empty());
                        }
                        Step::Done { v: f, next: j }
                    },
                    Step::Halt { e } => Step::Halt { e },
                }
            },
            Step::Miss { e } => Step::Halt { e },
            Step::Halt { e } => Step::Halt { e },
        }
    } else {
        Step::Miss {
            e: ErrorDetail::Expected { expected: '.', actual: peek_at(s, i) },
        }
    }
}

pub(crate) fn p_placeholder(s: &Vec<char>, i: usize) -> (r: Step<Placeholder>)
    requires
        i as int <= s@.len(),
    ensures
        step_matches(r, sp_placeholder(s@, i as int)),
        r matches Step::Done { v: _, next } ==> i < next && next as int <= s@.len(),
{
    if i < s.len() && s[i] == '$' {
        match p_ident(s, i + 1) {
            Step::Done { v: name, next: j } => {
                match p_formatter(s, j) {
                    Step::Done { v: f, next: m } => Step::Done {
                        v: Placeholder { name, formatter: Option::Some(f) },
                        next: m,
                    },
                    Step::Miss { e: _ } => Step::Done {
                        v: Placeholder { name, formatter: Option::None },
                        next: j,
                    },
                    Step::Halt { e } => Step::Halt { e },
                }
            },
            Step::Miss { e } => Step::Halt { e },
            Step::Halt { e } => Step::Halt { e },
        }
    } else {
        Step::Miss {
            e: ErrorDetail::Expected { expected: '$', actual: peek_at(s, i) },
        }
    }
}

pub(crate) fn p_icon(s: &Vec<char>, i: usize) -> (r: Step<String>)
    requires
        i as int <= s@.len(),
    ensures
        step_matches(r, sp_icon(s@, i as int)),
        r matches Step::Done { v: _, next } ==> i < next && next as int <= s@.len(),
{
    if i < s.len() && s[i] == '^' {
        if s.len() - i > 5 && s[i + 1] == 'i' && s[i + 2] == 'c' && s[i + 3] == 'o' && s[i + 4]
            == 'n' && s[i + 5] == '_' {
            match p_ident(s, i + 6) {
                Step::Done { v: id, next: j } => Step::Done { v: id, next: j },
                Step::Miss { e } => Step::Halt { e },
                Step::Halt { e } => Step::Halt { e },
            }
        } else {
            Step::Halt { e: ErrorDetail::NoMatch { at: i + 1 } }
        }
    } else {
        Step::Miss {
            e: ErrorDetail::Expected { expected: '^', actual: peek_at(s, i) },
        }
    }
}

} // verus!

verus! {

pub(crate) fn p_recursive(s: &Vec<char>, i: usize) -> (r: Step<Token>)
    requires
        i as int <= s@.len(),
    ensures
        step_matches(r, sp_recursive(s@, i as int)),
        r matches Step::Done { v: _, next } ==> i < next && next as int <= s@.len(),
    decreases s@.len() - i, 1int,
{
    if i < s.len() && s[i] == '{' {
        match p_template(s, i + 1) {
            Step::Done { v: t, next: j } => {
                if j < s.len() && s[j] == '}' {
                    Step::Done { v: Token::Recursive(t), next: j + 1 }
                } else {
                    Step::Halt {
                        e: ErrorDetail::Expected { expected: '}', actual: peek_at(s, j) },
                    }
                }
            },
            Step::Miss { e } => Step::Halt { e },
            Step::Halt { e } => Step::Halt { e },
        }
    } else {
        Step::Miss {
            e: ErrorDetail::Expected { expected: '{', actual: peek_at(s, i) },
        }
    }
}

pub(crate) fn p_token(s: &Vec<char>, i: usize) -> (r: Step<Token>)
    requires
        i as int <= s@.len(),
    ensures
        step_matches(r, sp_token(s@, i as int)),
        r matches Step::Done { v: _, next } ==> i < next && next as int <= s@.len(),
    decreases s@.len() - i, 2int,
{
    match p_text(s, i) {
        Step::Done { v: t, next: j } => Step::Done { v: Token::Text(t), next: j },
        Step::Halt { e } => Step::Halt { e },
        Step::Miss { e: _ } => match p_placeholder(s, i) {
            Step::Done { v: p, next: j } => Step::Done { v: Token::Placeholder(p), next: j },
            Step::Halt { e } => Step::Halt { e },
            Step::Miss { e: _ } => match p_icon(s, i) {
                Step::Done { v: id, next: j } => Step::Done { v: Token::Icon(id), next: j },
                Step::Halt { e } => Step::Halt { e },
                Step::Miss { e: _ } => p_recursive(s, i),
            },
        },
    }
}

pub(crate) fn p_token_list(s: &Vec<char>, i: usize) -> (r: Step<TokenList>)
    requires
        i as int <= s@.len(),
    ensures
        step_matches(r, sp_token_list(s@, i as int, Seq::empty())),
        r matches Step::Done { v: _, next } ==> i <= next && next as int <= s@.len(),
    decreases s@.len() - i, 3int,
{
    let mut acc: Vec<Token> = Vec::new();
    let mut pos = i;
    proof {
        assert(tokens_view(acc@) =~= Seq::<TokenV>::empty());
    }
    loop
        invariant
            i <= pos && pos as int <= s@.len(),
            sp_token_list(s@, i as int, Seq::empty()) == sp_token_list(
                s@,
                pos as int,
                tokens_view(acc@),
            ),
        ensures
            i <= pos && pos as int <= s@.len(),
            sp_token_list(s@, i as int, Seq::empty()) == (Sp::Done {
                v: tokens_view(acc@),
                next: pos as int,
            }),
        decreases s@.len() - pos,
    {
        match p_token(s, pos) {
            Step::Done { v: t, next: m } => {
                proof {
                    lemma_tokens_view_push(acc@, t);
                }
                acc.push(t);
                pos = m;
            },
            Step::Miss { e: _ } => {
                break ;
            },
            Step::Halt { e } => {
                proof {
                    assert(sp_token_list(s@, pos as int, tokens_view(acc@)) matches Sp::Halt {
                        e: se,
                    } && fail_matches(e, se));
                }
                return Step::Halt { e };
            },
        }
    }
    Step::Done { v: TokenList(acc), next: pos }
}

pub(crate) fn p_template(s: &Vec<char>, i: usize) -> (r: Step<FormatTemplate>)
    requires
        i as int <= s@.len(),
    ensures
        step_matches(r, sp_template(s@, i as int)),
        r matches Step::Done { v: _, next } ==> i <= next && next as int <= s@.len(),
    decreases s@.len() - i, 5int,
{
    match p_token_list(s, i) {
        Step::Done { v: l0, next: j } => {
            let ghost first = seq![l0@];
            let mut acc: Vec<TokenList> = Vec::new();
            acc.push(l0);
            proof {
                assert(acc@.drop_first() =~= Seq::<TokenList>::empty());
                assert(lists_view(Seq::<TokenList>::empty()) == Seq::<Seq<TokenV>>::empty());
                assert(lists_view(acc@) =~= first);
            }
            let mut pos = j;
            loop
                invariant
                    i <= pos && pos as int <= s@.len(),
                    sp_template(s@, i as int) == sp_template_rest(s@, j as int, first),
                    i <= j && j as int <= s@.len(),
                    sp_template_rest(s@, j as int, first) == sp_template_rest(
                        s@,
                        pos as int,
                        lists_view(acc@),
                    ),
                ensures
                    i <= pos && pos as int <= s@.len(),
                    sp_template(s@, i as int) == (Sp::Done {
                        v: lists_view(acc@),
                        next: pos as int,
                    }),
                decreases s@.len() - pos,
            {
                if pos < s.len() && s[pos] == '|' {
                    match p_token_list(s, pos + 1) {
                        Step::Done { v: l, next: m } => {
                            proof {
                                lemma_lists_view_push(acc@, l);
                            }
                            acc.push(l);
                            pos = m;
                        },
                        Step::Miss { e: _ } => {
                            break ;
                        },
                        Step::Halt { e } => {
                            proof {
                                assert(sp_template_rest(
                                    s@,
                                    pos as int,
                                    lists_view(acc@),
                                ) matches Sp::Halt { e: se } && fail_matches(e, se));
                            }
                            return Step::Halt { e };
                        },
                    }
                } else {
                    break ;
                }
            }
            Step::Done { v: FormatTemplate(acc), next: pos }
        },
        Step::Miss { e } => Step::Miss { e },
        Step::Halt { e } => Step::Halt { e },
    }
}

} // verus!

verus! {

/// A diagnostic from parsing a whole template.
#[derive(Debug, PartialEq, Eq, Clone)]
pub enum TemplateError {
    /// A specific character was required at a committed point; `actual` is
    /// what stood there, or none at end of input.
    Expected { expected: char, actual: Option<char> },
    /// A template was parsed but this character followed it.
    Trailing { found: char },
    /// A committed production matched nothing at this position.
    Failed { at: usize },
}

/// The diagnostic carries the same information as the grammar's failure.
pub open spec fn diag_matches(d: TemplateError, f: FailV) -> bool {
    match (d, f) {
        (
            TemplateError::Expected { expected, actual },
            FailV::Expected { expected: fe, actual: fa },
        ) => expected == fe && actual == fa,
        (TemplateError::Failed { at }, FailV::NoMatch { at: fa }) => at as int == fa,
        _ => false,
    }
}

pub(crate) fn to_diag(e: ErrorDetail) -> (d: TemplateError)
    ensures
        forall|f: FailV| fail_matches(e, f) ==> diag_matches(d, f),
{
    match e {
        ErrorDetail::Expected { expected, actual } => TemplateError::Expected { expected, actual },
        ErrorDetail::NoMatch { at } => TemplateError::Failed { at },
    }
}

/// What `parse_full` returns, stated against the grammar: either the whole
/// input parses as one template and is wholly consumed, or the first
/// character left over is reported, or the grammar's failure is reported.
pub open spec fn parse_full_spec(s: Seq<char>, r: Result<FormatTemplate, TemplateError>) -> bool {
    match sp_template(s, 0) {
        Sp::Done { v, next } => {
            if next == s.len() {
                r matches Result::Ok(t) && t@ == v
            } else {
                r == Result::<FormatTemplate, TemplateError>::Err(
                    TemplateError::Trailing { found: s[next] },
                )
            }
        },
        Sp::Miss { e } => r matches Result::Err(d) && diag_matches(d, e),
        Sp::Halt { e } => r matches Result::Err(d) && diag_matches(d, e),
    }
}

/// Parses a whole format template; the entire input must be consumed.
pub fn parse_full(input: &str) -> (r: Result<FormatTemplate, TemplateError>)
    ensures
        parse_full_spec(input@, r),
{
    let cs = str_to_chars(input);
    match p_template(&cs, 0) {
        Step::Done { v: t, next } => {
            if next == cs.len() {
                Ok(t)
            } else {
                Err(TemplateError::Trailing { found: cs[next] })
            }
        },
        Step::Miss { e } => Err(to_diag(e)),
        Step::Halt { e } => Err(to_diag(e)),
    }
}

/// A production applied to the front of the input agrees with the grammar:
/// on success the value and the rest of the input are returned; a failure
/// is reported as recoverable or committed, as the grammar has it.
pub open spec fn prod_result_matches<T: View>(
    s: Seq<char>,
    r: Result<(String, T), ParseError>,
    sp: Sp<<T as View>::V>,
) -> bool {
    match sp {
        Sp::Done { v, next } => r matches Result::Ok((rest, t)) && t@ == v && rest@ == s.subrange(
            next,
            s.len() as int,
        ),
        Sp::Miss { e } => r matches Result::Err(ParseError::Recoverable(d)) && fail_matches(d, e),
        Sp::Halt { e } => r matches Result::Err(ParseError::Committed(d)) && fail_matches(d, e),
    }
}

/// As `prod_result_matches`, for an argument list.
pub open spec fn args_result_matches(
    s: Seq<char>,
    r: Result<(String, Vec<Arg>), ParseError>,
    sp: Sp<Seq<ArgV>>,
) -> bool {
    match sp {
        Sp::Done { v, next } => r matches Result::Ok((rest, t)) && t@.map_values(|a: Arg| a@) == v
            && rest@ == s.subrange(next, s.len() as int),
        Sp::Miss { e } => r matches Result::Err(ParseError::Recoverable(d)) && fail_matches(d, e),
        Sp::Halt { e } => r matches Result::Err(ParseError::Committed(d)) && fail_matches(d, e),
    }
}

/// Parses one `key` or `key:value` argument at the front of the input.
pub fn parse_arg(input: &str) -> (r: Result<(String, Arg), ParseError>)
    ensures
        prod_result_matches(input@, r, sp_arg(input@, 0)),
{
    let cs = str_to_chars(input);
    match p_arg(&cs, 0) {
        Step::Done { v, next } => Ok((substring(&cs, next, cs.len()), v)),
        Step::Miss { e } => Err(ParseError::Recoverable(e)),
        Step::Halt { e } => Err(ParseError::Committed(e)),
    }
}

/// Parses a parenthesised argument list at the front of the input.
pub fn parse_args(input: &str) -> (r: Result<(String, Vec<Arg>), ParseError>)
    ensures
        args_result_matches(input@, r, sp_args(input@, 0)),
{
    let cs = str_to_chars(input);
    match p_args(&cs, 0) {
        Step::Done { v, next } => Ok((substring(&cs, next, cs.len()), v)),
        Step::Miss { e } => Err(ParseError::Recoverable(e)),
        Step::Halt { e } => Err(ParseError::Committed(e)),
    }
}

/// Parses a `.name(args...)` formatter at the front of the input.
pub fn parse_formatter(input: &str) -> (r: Result<(String, Formatter), ParseError>)
    ensures
        prod_result_matches(input@, r, sp_formatter(input@, 0)),
{
    let cs = str_to_chars(input);
    match p_formatter(&cs, 0) {
        Step::Done { v, next } => Ok((substring(&cs, next, cs.len()), v)),
        Step::Miss { e } => Err(ParseError::Recoverable(e)),
        Step::Halt { e } => Err(ParseError::Committed(e)),
    }
}

/// Parses a `$name` placeholder at the front of the input.
pub fn parse_placeholder(input: &str) -> (r: Result<(String, Placeholder), ParseError>)
    ensures
        prod_result_matches(input@, r, sp_placeholder(input@, 0)),
{
    let cs = str_to_chars(input);
    match p_placeholder(&cs, 0) {
        Step::Done { v, next } => Ok((substring(&cs, next, cs.len()), v)),
        Step::Miss { e } => Err(ParseError::Recoverable(e)),
        Step::Halt { e } => Err(ParseError::Committed(e)),
    }
}

/// Parses a `^icon_name` icon reference at the front of the input; only
/// the name after the `icon_` prefix is returned.
pub fn parse_icon(input: &str) -> (r: Result<(String, String), ParseError>)
    ensures
        prod_result_matches(input@, r, sp_icon(input@, 0)),
{
    let cs = str_to_chars(input);
    match p_icon(&cs, 0) {
        Step::Done { v, next } => Ok((substring(&cs, next, cs.len()), v)),
        Step::Miss { e } => Err(ParseError::Recoverable(e)),
        Step::Halt { e } => Err(ParseError::Committed(e)),
    }
}

/// Parses as many tokens as match at the front of the input.
pub fn parse_token_list(input: &str) -> (r: Result<(String, TokenList), ParseError>)
    ensures
        prod_result_matches(input@, r, sp_token_list(input@, 0, Seq::empty())),
{
    let cs = str_to_chars(input);
    match p_token_list(&cs, 0) {
        Step::Done { v, next } => Ok((substring(&cs, next, cs.len()), v)),
        Step::Miss { e } => Err(ParseError::Recoverable(e)),
        Step::Halt { e } => Err(ParseError::Committed(e)),
    }
}

/// Parses a template — `|`-separated alternatives — at the front of the
/// input, consuming as much as matches.
pub fn parse_format_template(input: &str) -> (r: Result<(String, FormatTemplate), ParseError>)
    ensures
        prod_result_matches(input@, r, sp_template(input@, 0)),
{
    let cs = str_to_chars(input);
    match p_template(&cs, 0) {
        Step::Done { v, next } => Ok((substring(&cs, next, cs.len()), v)),
        Step::Miss { e } => Err(ParseError::Recoverable(e)),
        Step::Halt { e } => Err(ParseError::Committed(e)),
    }
}

} // verus!
