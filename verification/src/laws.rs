//! Properties of the grammar that hold for whole families of inputs,
//! proved once and for all.  Termination of every parser and absence of
//! panics are checked by verification itself.

use crate::ast::TokenV;
use crate::ast::ArgV;
use crate::ast::FormatTemplate;
use crate::chars::is_text_char;
use crate::grammar::bare_value_pred;
use crate::grammar::ident_pred;
use crate::grammar::not_quote_pred;
use crate::grammar::scan_while;
use crate::grammar::space_pred;
use crate::grammar::text_pred;
use crate::grammar::lemma_scan_while_exact;
use crate::grammar::sp_arg;
use crate::grammar::sp_args;
use crate::grammar::sp_args_inner;
use crate::grammar::sp_args_rest;
use crate::grammar::sp_arg_value;
use crate::grammar::sp_icon;
use crate::grammar::sp_ident;
use crate::grammar::sp_placeholder;
use crate::grammar::sp_recursive;
use crate::grammar::sp_template;
use crate::grammar::sp_template_rest;
use crate::grammar::sp_text;
use crate::grammar::sp_text_loop;
use crate::grammar::sp_token;
use crate::grammar::sp_token_list;
use crate::grammar::Sp;
use crate::extend::lemma_template_embed;
use crate::parser::parse_full_spec;
use crate::parser::TemplateError;
use vstd::prelude::*;

verus! {

/// Full consumption: a successful whole-template parse consumed every
/// character of the input; any remainder is reported as an error instead.
pub proof fn lemma_full_consumption(s: Seq<char>, r: Result<FormatTemplate, TemplateError>)
    requires
        parse_full_spec(s, r),
        r is Ok,
    ensures
        sp_template(s, 0) matches Sp::Done { v: _, next } && next == s.len(),
{
}

/// A bare key — an identifier not followed by a colon — parses as an
/// argument with no value, ending where the identifier ends.
pub proof fn lemma_bare_key(s: Seq<char>, i: int)
    requires
        0 <= i <= s.len(),
        sp_ident(s, i) matches Sp::Done { v: _, next: j } && !(j < s.len() && s[j] == ':'),
    ensures
        sp_arg(s, i) matches Sp::Done { v: a, next: j } && a.val is None && (sp_ident(s, i)
            matches Sp::Done { v: k, next: j2 } && a.key == k && j == j2),
{
}

/// A key whose colon is not followed by a well-formed value is a committed
/// failure: the bare-key reading is not tried once the colon is consumed.
pub proof fn lemma_key_colon_no_value(s: Seq<char>, i: int)
    requires
        0 <= i <= s.len(),
        sp_ident(s, i) matches Sp::Done { v: _, next: j } && j < s.len() && s[j] == ':',
        !(sp_arg_value(s, (sp_ident(s, i)->Done_next) + 1) is Done),
    ensures
        sp_arg(s, i) is Halt,
{
}

/// At the end of the input no token matches, and a token list ends there.
pub proof fn lemma_token_list_at_end(s: Seq<char>, acc: Seq<TokenV>)
    ensures
        sp_token_list(s, s.len() as int, acc) == (Sp::Done { v: acc, next: s.len() as int }),
{
    let n = s.len() as int;
    lemma_scan_while_exact(s, n, n, text_pred());
    assert(Seq::<char>::empty() + s.subrange(n, n) =~= Seq::<char>::empty());
    assert(sp_text_loop(s, n, Seq::empty()) == (Sp::Done { v: Seq::<char>::empty(), next: n }));
    assert(sp_text(s, n) is Miss);
    assert(sp_placeholder(s, n) is Miss);
    assert(sp_icon(s, n) is Miss);
    assert(sp_recursive(s, n) is Miss);
    assert(sp_token(s, n) is Miss);
}

/// Escape round-trip, plain part: text without special characters parses
/// as one alternative holding exactly one text token with that text,
/// consuming the whole input.
pub proof fn lemma_plain_text_template(s: Seq<char>)
    requires
        s.len() > 0,
        forall|i: int| 0 <= i < s.len() ==> is_text_char(s[i]),
    ensures
        sp_template(s, 0) == (Sp::Done {
            v: seq![seq![TokenV::Text(s)]],
            next: s.len() as int,
        }),
{
    let n = s.len() as int;
    lemma_scan_while_exact(s, 0, n, text_pred());
    assert(Seq::<char>::empty() + s.subrange(0, n) =~= s);
    assert(sp_text_loop(s, 0, Seq::empty()) == (Sp::Done { v: s, next: n }));
    assert(sp_text(s, 0) == (Sp::Done { v: s, next: n }));
    assert(sp_token(s, 0) == (Sp::Done { v: TokenV::Text(s), next: n }));
    lemma_token_list_at_end(s, Seq::<TokenV>::empty().push(TokenV::Text(s)));
    assert(Seq::<TokenV>::empty().push(TokenV::Text(s)) =~= seq![TokenV::Text(s)]);
    assert(sp_token_list(s, 0, Seq::empty()) == (Sp::Done { v: seq![TokenV::Text(s)], next: n }));
    assert(sp_template_rest(s, n, seq![seq![TokenV::Text(s)]]) == (Sp::Done {
        v: seq![seq![TokenV::Text(s)]],
        next: n,
    }));
}

/// Escape round-trip, escape part: a backslash followed by any single
/// character parses as one alternative holding one text token with just
/// that character, the backslash removed.
pub proof fn lemma_escaped_char_template(c: char)
    ensures
        sp_template(seq!['\\', c], 0) == (Sp::Done {
            v: seq![seq![TokenV::Text(seq![c])]],
            next: 2,
        }),
{
    let s = seq!['\\', c];
    assert(s.len() == 2);
    assert(!is_text_char(s[0]));
    lemma_scan_while_exact(s, 0, 0, text_pred());
    assert(Seq::<char>::empty() + s.subrange(0, 0) =~= Seq::<char>::empty());
    lemma_scan_while_exact(s, 2, 2, text_pred());
    let acc1 = Seq::<char>::empty().push(s[1]);
    assert(acc1 + s.subrange(2, 2) =~= seq![c]);
    assert(sp_text_loop(s, 2, acc1) == (Sp::Done { v: seq![c], next: 2 }));
    assert(sp_text_loop(s, 0, Seq::empty()) == (Sp::Done { v: seq![c], next: 2 }));
    assert(sp_text(s, 0) == (Sp::Done { v: seq![c], next: 2 }));
    assert(sp_token(s, 0) == (Sp::Done { v: TokenV::Text(seq![c]), next: 2 }));
    lemma_token_list_at_end(s, Seq::<TokenV>::empty().push(TokenV::Text(seq![c])));
    assert(Seq::<TokenV>::empty().push(TokenV::Text(seq![c])) =~= seq![TokenV::Text(seq![c])]);
    assert(sp_token_list(s, 0, Seq::empty()) == (Sp::Done {
        v: seq![TokenV::Text(seq![c])],
        next: 2,
    }));
    assert(sp_template_rest(s, 2, seq![seq![TokenV::Text(seq![c])]]) == (Sp::Done {
        v: seq![seq![TokenV::Text(seq![c])]],
        next: 2,
    }));
}

/// Quote exactness: for any value without a quote character, a list
/// `(k:'value')` parses as exactly one argument with key `k` and that
/// value — also when the value is empty — consuming the whole input.
pub proof fn lemma_quoted_value_args(v: Seq<char>)
    requires
        forall|i: int| 0 <= i < v.len() ==> v[i] != '\'',
    ensures
        sp_args(seq!['(', 'k', ':', '\''] + v + seq!['\'', ')'], 0) == (Sp::Done {
            v: seq![ArgV { key: seq!['k'], val: Option::Some(v) }],
            next: v.len() as int + 6,
        }),
{
    let s = seq!['(', 'k', ':', '\''] + v + seq!['\'', ')'];
    let vl = v.len() as int;
    assert(s.len() == vl + 6);
    assert(s[0] == '(');
    assert(s[1] == 'k');
    assert(s[2] == ':');
    assert(s[3] == '\'');
    assert(forall|k: int| 4 <= k < 4 + vl ==> s[k] == v[k - 4]);
    assert(s[4 + vl] == '\'');
    assert(s[5 + vl] == ')');
    // identifier: exactly the `k`
    lemma_scan_while_exact(s, 1, 1, space_pred());
    lemma_scan_while_exact(s, 1, 2, ident_pred());
    assert(sp_ident(s, 1) == (Sp::Done { v: s.subrange(1, 2), next: 2 }));
    assert(s.subrange(1, 2) =~= seq!['k']);
    // value: the quoted run
    lemma_scan_while_exact(s, 3, 3, bare_value_pred());
    lemma_scan_while_exact(s, 4, 4 + vl, not_quote_pred());
    assert(sp_arg_value(s, 3) == (Sp::Done { v: s.subrange(4, 4 + vl), next: 5 + vl }));
    assert(s.subrange(4, 4 + vl) =~= v);
    let a = ArgV { key: seq!['k'], val: Option::Some(v) };
    assert(sp_arg(s, 1) == (Sp::Done { v: a, next: 5 + vl }));
    // no further comma-separated group, then the closing parenthesis
    lemma_scan_while_exact(s, 5 + vl, 5 + vl, space_pred());
    assert(sp_args_rest(s, 5 + vl, seq![a]) == (Sp::Done { v: seq![a], next: 5 + vl }));
    assert(sp_args_inner(s, 1) == (Sp::Done { v: seq![a], next: 5 + vl }));
    assert(sp_args(s, 0) == (Sp::Done { v: seq![a], next: 6 + vl }));
}

} // verus!

verus! {

/// Nesting: take any input that parses as a whole template.  Wrapped in
/// braces it parses as a whole template again, namely as one alternative
/// holding a single nested token with exactly the original alternatives.
pub proof fn lemma_nesting(t: Seq<char>)
    requires
        sp_template(t, 0) matches Sp::Done { v: _, next } && next == t.len(),
    ensures
        sp_template(seq!['{'] + t + seq!['}'], 0) matches Sp::Done { v: outer, next } && next == (
        seq!['{'] + t + seq!['}']).len() && (sp_template(t, 0) matches Sp::Done { v: inner, next: _ }
            && outer == seq![seq![TokenV::Recursive(inner)]]),
{
    let pre = seq!['{'];
    let post = seq!['}'];
    let u = pre + t + post;
    let inner = sp_template(t, 0)->Done_v;
    assert(u.len() == t.len() + 2);
    assert(u[0] == '{');
    assert(u[1 + t.len() as int] == '}');
    lemma_template_embed(pre, t, post, 0);
    assert(sp_template(u, 1) == (Sp::Done { v: inner, next: 1 + t.len() as int }));
    assert(sp_recursive(u, 0) == (Sp::Done {
        v: TokenV::Recursive(inner),
        next: u.len() as int,
    }));
    assert(scan_while(u, 0, text_pred()) == 0);
    assert(sp_text(u, 0) is Miss);
    assert(sp_placeholder(u, 0) is Miss);
    assert(sp_icon(u, 0) is Miss);
    assert(sp_token(u, 0) == (Sp::Done { v: TokenV::Recursive(inner), next: u.len() as int }));
    lemma_token_list_at_end(u, Seq::<TokenV>::empty().push(TokenV::Recursive(inner)));
    assert(Seq::<TokenV>::empty().push(TokenV::Recursive(inner)) =~= seq![
        TokenV::Recursive(inner),
    ]);
    assert(sp_token_list(u, 0, Seq::empty()) == (Sp::Done {
        v: seq![TokenV::Recursive(inner)],
        next: u.len() as int,
    }));
    assert(sp_template_rest(u, u.len() as int, seq![seq![TokenV::Recursive(inner)]]) == (Sp::Done {
        v: seq![seq![TokenV::Recursive(inner)]],
        next: u.len() as int,
    }));
}

} // verus!
