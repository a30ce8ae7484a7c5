//! The alternative-count law: a template has one more alternative than
//! there are unescaped `|` characters outside braces.
//!
//! A counting scanner walks the raw input: a backslash skips the next
//! character, braces raise and lower the depth, and a `|` at depth zero is
//! counted.  Each grammar production other than the template itself is
//! shown to consume a stretch the scanner walks through without counting;
//! the template's own separators are exactly what the scanner counts.
//! A quoted argument value may hold a bare `|` that separates nothing, so
//! the law is stated for inputs without quote characters.

use crate::ast::ArgV;
use crate::ast::TokenV;
use crate::grammar::bare_value_pred;
use crate::grammar::ident_pred;
use crate::grammar::lemma_scan_while;
use crate::grammar::scan_while;
use crate::grammar::space_pred;
use crate::grammar::sp_arg;
use crate::grammar::sp_args;
use crate::grammar::sp_args_inner;
use crate::grammar::sp_args_rest;
use crate::grammar::sp_arg_value;
use crate::grammar::sp_formatter;
use crate::grammar::sp_icon;
use crate::grammar::sp_ident;
use crate::grammar::sp_placeholder;
use crate::grammar::sp_recursive;
use crate::grammar::sp_spaces;
use crate::grammar::sp_template;
use crate::grammar::sp_template_rest;
use crate::grammar::sp_text;
use crate::grammar::sp_text_loop;
use crate::grammar::sp_token;
use crate::grammar::sp_token_list;
use crate::grammar::text_pred;
use crate::grammar::Sp;
use vstd::prelude::*;

verus! {

/// The input holds no quote character.
pub open spec fn no_quotes(s: Seq<char>) -> bool {
    forall|k: int| 0 <= k < s.len() ==> s[k] != '\''
}

/// The number of unescaped `|` characters at brace depth zero, read from
/// position `i` at depth `d` to the end of the input.
pub open spec fn pipe_count(s: Seq<char>, i: int, d: int) -> int
    decreases s.len() - i
    when 0 <= i <= s.len()
{
    if i >= s.len() {
        0
    } else if s[i] == '\\' {
        if i + 2 <= s.len() {
            pipe_count(s, i + 2, d)
        } else {
            0
        }
    } else if s[i] == '{' {
        pipe_count(s, i + 1, d + 1)
    } else if s[i] == '}' {
        pipe_count(s, i + 1, d - 1)
    } else if s[i] == '|' && d == 0 {
        1 + pipe_count(s, i + 1, d)
    } else {
        pipe_count(s, i + 1, d)
    }
}

/// The scanner walks through a stretch free of its special characters
/// without counting or changing depth.
pub proof fn lemma_count_transparent(s: Seq<char>, i: int, n: int, d: int)
    requires
        0 <= i <= n <= s.len(),
        forall|k: int| i <= k < n ==> s[k] != '\\' && s[k] != '{' && s[k] != '}' && s[k] != '|',
    ensures
        pipe_count(s, i, d) == pipe_count(s, n, d),
    decreases n - i,
{
    if i < n {
        lemma_count_transparent(s, i + 1, n, d);
    }
}

/// An identifier stretch counts nothing.
pub proof fn lemma_count_ident(s: Seq<char>, i: int, d: int)
    requires
        0 <= i <= s.len(),
    ensures
        sp_ident(s, i) matches Sp::Done { v: _, next } ==> i < next <= s.len() && pipe_count(
            s,
            i,
            d,
        ) == pipe_count(s, next, d),
{
    lemma_scan_while(s, i, ident_pred());
    let j = scan_while(s, i, ident_pred());
    if j > i {
        lemma_count_transparent(s, i, j, d);
    }
}

/// A whitespace stretch counts nothing.
pub proof fn lemma_count_spaces(s: Seq<char>, i: int, d: int)
    requires
        0 <= i <= s.len(),
    ensures
        i <= sp_spaces(s, i) <= s.len(),
        pipe_count(s, i, d) == pipe_count(s, sp_spaces(s, i), d),
{
    lemma_scan_while(s, i, space_pred());
    lemma_count_transparent(s, i, sp_spaces(s, i), d);
}

/// Without quotes, an argument value is a bare stretch and counts nothing.
pub proof fn lemma_count_arg_value(s: Seq<char>, i: int, d: int)
    requires
        0 <= i <= s.len(),
        no_quotes(s),
    ensures
        sp_arg_value(s, i) matches Sp::Done { v: _, next } ==> i < next <= s.len() && pipe_count(
            s,
            i,
            d,
        ) == pipe_count(s, next, d),
{
    lemma_scan_while(s, i, bare_value_pred());
    let j = scan_while(s, i, bare_value_pred());
    if j > i {
        lemma_count_transparent(s, i, j, d);
    }
}

/// An argument counts nothing.
pub proof fn lemma_count_arg(s: Seq<char>, i: int, d: int)
    requires
        0 <= i <= s.len(),
        no_quotes(s),
    ensures
        sp_arg(s, i) matches Sp::Done { v: _, next } ==> i < next <= s.len() && pipe_count(
            s,
            i,
            d,
        ) == pipe_count(s, next, d),
{
    lemma_count_ident(s, i, d);
    match sp_ident(s, i) {
        Sp::Done { v: _, next: j } => {
            if j < s.len() && s[j] == ':' {
                assert(pipe_count(s, j, d) == pipe_count(s, j + 1, d));
                lemma_count_arg_value(s, j + 1, d);
            }
        },
        Sp::Miss { e: _ } => {},
        Sp::Halt { e: _ } => {},
    }
}

/// The later comma groups of an argument list count nothing.
pub proof fn lemma_count_args_rest(s: Seq<char>, i: int, d: int, acc: Seq<ArgV>)
    requires
        0 <= i <= s.len(),
        no_quotes(s),
    ensures
        sp_args_rest(s, i, acc) matches Sp::Done { v: _, next } ==> i <= next <= s.len()
            && pipe_count(s, i, d) == pipe_count(s, next, d),
    decreases s.len() - i, 2int,
{
    lemma_count_spaces(s, i, d);
    let j = sp_spaces(s, i);
    if j < s.len() && s[j] == ',' {
        assert(pipe_count(s, j, d) == pipe_count(s, j + 1, d));
        lemma_count_spaces(s, j + 1, d);
        let k = sp_spaces(s, j + 1);
        lemma_count_arg(s, k, d);
        match sp_arg(s, k) {
            Sp::Done { v: a, next: m } => {
                if i < m <= s.len() {
                    lemma_count_args_rest(s, m, d, acc.push(a));
                }
            },
            Sp::Miss { e: _ } => {},
            Sp::Halt { e: _ } => {},
        }
    }
}

/// The inside of an argument list counts nothing.
pub proof fn lemma_count_args_inner(s: Seq<char>, i: int, d: int)
    requires
        0 <= i <= s.len(),
        no_quotes(s),
    ensures
        sp_args_inner(s, i) matches Sp::Done { v: _, next } ==> i <= next <= s.len() && pipe_count(
            s,
            i,
            d,
        ) == pipe_count(s, next, d),
{
    lemma_count_spaces(s, i, d);
    let j = sp_spaces(s, i);
    lemma_count_arg(s, j, d);
    match sp_arg(s, j) {
        Sp::Done { v: a, next: m } => {
            if i <= m <= s.len() {
                lemma_count_args_rest(s, m, d, seq![a]);
            }
        },
        Sp::Miss { e: _ } => {},
        Sp::Halt { e: _ } => {},
    }
}

/// An argument list counts nothing.
pub proof fn lemma_count_args(s: Seq<char>, i: int, d: int)
    requires
        0 <= i <= s.len(),
        no_quotes(s),
    ensures
        sp_args(s, i) matches Sp::Done { v: _, next } ==> i < next <= s.len() && pipe_count(
            s,
            i,
            d,
        ) == pipe_count(s, next, d),
{
    if i < s.len() && s[i] == '(' {
        assert(pipe_count(s, i, d) == pipe_count(s, i + 1, d));
        lemma_count_args_inner(s, i + 1, d);
        match sp_args_inner(s, i + 1) {
            Sp::Done { v: _, next: n } => {
                lemma_count_spaces(s, n, d);
                let c = sp_spaces(s, n);
                if c < s.len() && s[c] == ')' {
                    assert(pipe_count(s, c, d) == pipe_count(s, c + 1, d));
                }
            },
            Sp::Miss { e: _ } => {},
            Sp::Halt { e: _ } => {},
        }
    }
}

/// A formatter counts nothing.
pub proof fn lemma_count_formatter(s: Seq<char>, i: int, d: int)
    requires
        0 <= i <= s.len(),
        no_quotes(s),
    ensures
        sp_formatter(s, i) matches Sp::Done { v: _, next } ==> i < next <= s.len() && pipe_count(
            s,
            i,
            d,
        ) == pipe_count(s, next, d),
{
    if i < s.len() && s[i] == '.' {
        assert(pipe_count(s, i, d) == pipe_count(s, i + 1, d));
        lemma_count_ident(s, i + 1, d);
        match sp_ident(s, i + 1) {
            Sp::Done { v: _, next: j } => {
                lemma_count_args(s, j, d);
            },
            Sp::Miss { e: _ } => {},
            Sp::Halt { e: _ } => {},
        }
    }
}

/// A placeholder counts nothing.
pub proof fn lemma_count_placeholder(s: Seq<char>, i: int, d: int)
    requires
        0 <= i <= s.len(),
        no_quotes(s),
    ensures
        sp_placeholder(s, i) matches Sp::Done { v: _, next } ==> i < next <= s.len()
            && pipe_count(s, i, d) == pipe_count(s, next, d),
{
    if i < s.len() && s[i] == '$' {
        assert(pipe_count(s, i, d) == pipe_count(s, i + 1, d));
        lemma_count_ident(s, i + 1, d);
        match sp_ident(s, i + 1) {
            Sp::Done { v: _, next: j } => {
                lemma_count_formatter(s, j, d);
            },
            Sp::Miss { e: _ } => {},
            Sp::Halt { e: _ } => {},
        }
    }
}

/// An icon reference counts nothing.
pub proof fn lemma_count_icon(s: Seq<char>, i: int, d: int)
    requires
        0 <= i <= s.len(),
    ensures
        sp_icon(s, i) matches Sp::Done { v: _, next } ==> i < next <= s.len() && pipe_count(
            s,
            i,
            d,
        ) == pipe_count(s, next, d),
{
    if sp_icon(s, i) is Done {
        assert(pipe_count(s, i, d) == pipe_count(s, i + 1, d));
        lemma_count_transparent(s, i + 1, i + 6, d);
        lemma_count_ident(s, i + 6, d);
    }
}

/// Decoded text counts nothing: its plain characters are no specials, and
/// an escape pair is skipped whole.
pub proof fn lemma_count_text_loop(s: Seq<char>, i: int, d: int, acc: Seq<char>)
    requires
        0 <= i <= s.len(),
    ensures
        sp_text_loop(s, i, acc) matches Sp::Done { v: _, next } ==> i <= next <= s.len()
            && pipe_count(s, i, d) == pipe_count(s, next, d),
    decreases s.len() - i,
{
    lemma_scan_while(s, i, text_pred());
    let j = scan_while(s, i, text_pred());
    lemma_count_transparent(s, i, j, d);
    if j < s.len() && s[j] == '\\' {
        if j + 1 < s.len() {
            lemma_count_text_loop(s, j + 2, d, (acc + s.subrange(i, j)).push(s[j + 1]));
        }
    }
}

/// A text token counts nothing.
pub proof fn lemma_count_text(s: Seq<char>, i: int, d: int)
    requires
        0 <= i <= s.len(),
    ensures
        sp_text(s, i) matches Sp::Done { v: _, next } ==> i < next <= s.len() && pipe_count(
            s,
            i,
            d,
        ) == pipe_count(s, next, d),
{
    lemma_count_text_loop(s, i, d, Seq::empty());
}

/// Any token counts nothing: at a raised depth a nested template's own
/// separators are not at depth zero.
pub proof fn lemma_count_token(s: Seq<char>, i: int, d: int)
    requires
        0 <= i <= s.len(),
        no_quotes(s),
        d >= 0,
    ensures
        sp_token(s, i) matches Sp::Done { v: _, next } ==> i < next <= s.len() && pipe_count(
            s,
            i,
            d,
        ) == pipe_count(s, next, d),
    decreases s.len() - i, 3int,
{
    if sp_token(s, i) is Done {
        lemma_count_text(s, i, d);
        match sp_text(s, i) {
            Sp::Done { v: _, next: _ } => {},
            Sp::Miss { e: _ } => {
                lemma_count_placeholder(s, i, d);
                match sp_placeholder(s, i) {
                    Sp::Done { v: _, next: _ } => {},
                    Sp::Miss { e: _ } => {
                        lemma_count_icon(s, i, d);
                        match sp_icon(s, i) {
                            Sp::Done { v: _, next: _ } => {},
                            Sp::Miss { e: _ } => {
                                lemma_count_recursive(s, i, d);
                            },
                            Sp::Halt { e: _ } => {},
                        }
                    },
                    Sp::Halt { e: _ } => {},
                }
            },
            Sp::Halt { e: _ } => {},
        }
    }
}

/// A braced sub-template counts nothing at a non-negative depth: its
/// braces raise and lower the depth around its body.
pub proof fn lemma_count_recursive(s: Seq<char>, i: int, d: int)
    requires
        0 <= i <= s.len(),
        no_quotes(s),
        d >= 0,
    ensures
        sp_recursive(s, i) matches Sp::Done { v: _, next } ==> i < next <= s.len() && pipe_count(
            s,
            i,
            d,
        ) == pipe_count(s, next, d),
    decreases s.len() - i, 2int,
{
    if sp_recursive(s, i) is Done {
        assert(i < s.len() && s[i] == '{');
        assert(pipe_count(s, i, d) == pipe_count(s, i + 1, d + 1));
        match sp_template(s, i + 1) {
            Sp::Done { v: _, next: m } => {
                assert(0 <= m < s.len() && s[m] == '}');
                lemma_count_template(s, i + 1, d + 1);
                assert(pipe_count(s, m, d + 1) == pipe_count(s, m + 1, d));
            },
            Sp::Miss { e: _ } => {},
            Sp::Halt { e: _ } => {},
        }
    }
}

/// A token list counts nothing.
pub proof fn lemma_count_token_list(s: Seq<char>, i: int, d: int, acc: Seq<TokenV>)
    requires
        0 <= i <= s.len(),
        no_quotes(s),
        d >= 0,
    ensures
        sp_token_list(s, i, acc) matches Sp::Done { v: _, next } ==> i <= next <= s.len()
            && pipe_count(s, i, d) == pipe_count(s, next, d),
    decreases s.len() - i, 4int,
{
    lemma_count_token(s, i, d);
    match sp_token(s, i) {
        Sp::Done { v: t, next: m } => {
            if i < m <= s.len() {
                lemma_count_token_list(s, m, d, acc.push(t));
            }
        },
        Sp::Miss { e: _ } => {},
        Sp::Halt { e: _ } => {},
    }
}

/// The alternatives after the first: at depth zero each further
/// alternative is announced by one counted separator; at a raised depth
/// the separators are not counted.
pub proof fn lemma_count_template_rest(s: Seq<char>, i: int, d: int, acc: Seq<Seq<TokenV>>)
    requires
        0 <= i <= s.len(),
        no_quotes(s),
        d >= 0,
    ensures
        sp_template_rest(s, i, acc) matches Sp::Done { v, next } ==> i <= next <= s.len()
            && acc.len() <= v.len() && pipe_count(s, i, d) == (if d == 0 {
            v.len() - acc.len()
        } else {
            0
        }) + pipe_count(s, next, d),
    decreases s.len() - i, 5int,
{
    if i < s.len() && s[i] == '|' {
        assert(pipe_count(s, i, d) == (if d == 0 {
            1int
        } else {
            0int
        }) + pipe_count(s, i + 1, d));
        lemma_count_token_list(s, i + 1, d, Seq::empty());
        match sp_token_list(s, i + 1, Seq::empty()) {
            Sp::Done { v: l, next: m } => {
                if i < m <= s.len() {
                    lemma_count_template_rest(s, m, d, acc.push(l));
                }
            },
            Sp::Miss { e: _ } => {},
            Sp::Halt { e: _ } => {},
        }
    }
}

/// A whole template: at depth zero the scanner counts exactly one fewer
/// than the number of alternatives over the consumed stretch.
pub proof fn lemma_count_template(s: Seq<char>, i: int, d: int)
    requires
        0 <= i <= s.len(),
        no_quotes(s),
        d >= 0,
    ensures
        sp_template(s, i) matches Sp::Done { v, next } ==> i <= next <= s.len() && v.len() >= 1
            && pipe_count(s, i, d) == (if d == 0 {
            v.len() - 1
        } else {
            0
        }) + pipe_count(s, next, d),
    decreases s.len() - i, 6int,
{
    lemma_count_token_list(s, i, d, Seq::empty());
    match sp_token_list(s, i, Seq::empty()) {
        Sp::Done { v: l0, next: j } => {
            if i <= j <= s.len() {
                lemma_count_template_rest(s, j, d, seq![l0]);
            }
        },
        Sp::Miss { e: _ } => {},
        Sp::Halt { e: _ } => {},
    }
}

/// Alternative count: a whole input without quote characters that parses
/// as a template yields exactly one more alternative than it has
/// unescaped `|` characters outside braces.
pub proof fn lemma_alternative_count(s: Seq<char>)
    requires
        no_quotes(s),
        sp_template(s, 0) matches Sp::Done { v: _, next } && next == s.len(),
    ensures
        sp_template(s, 0) matches Sp::Done { v, next: _ } && v.len() == 1 + pipe_count(s, 0, 0),
{
    lemma_count_template(s, 0, 0);
}

} // verus!
