//! Embedding lemmas: a parse of `s` is unchanged when `s` stands inside a
//! larger input, between an arbitrary prefix and a suffix that begins with
//! `}` — positions simply shift by the prefix length.  These carry the
//! nesting law: a braced copy of a whole template parses to one nested
//! token holding exactly the original template's alternatives.

use crate::chars::is_text_char;
use crate::grammar::bare_value_pred;
use crate::grammar::ident_pred;
use crate::grammar::lemma_scan_while;
use crate::grammar::lemma_scan_while_exact;
use crate::grammar::not_quote_pred;
use crate::grammar::scan_while;
use crate::grammar::space_pred;
use crate::grammar::text_pred;
use crate::grammar::sp_arg;
use crate::grammar::sp_args;
use crate::grammar::sp_args_inner;
use crate::grammar::sp_args_rest;
use crate::grammar::sp_arg_value;
use crate::grammar::sp_formatter;
use crate::grammar::sp_icon;
use crate::grammar::sp_ident;
use crate::grammar::sp_placeholder;
use crate::grammar::sp_recursive;
use crate::grammar::sp_spaces;
use crate::grammar::sp_template;
use crate::grammar::sp_template_rest;
use crate::grammar::sp_text;
use crate::grammar::sp_text_loop;
use crate::grammar::sp_token;
use crate::grammar::sp_token_list;
use crate::grammar::icon_tag_at;
use crate::grammar::Sp;
use crate::ast::ArgV;
use crate::ast::TokenV;
use vstd::prelude::*;

verus! {

/// The embedding under consideration: `s` between a prefix `p` and a
/// suffix `w` whose first character is `}`.
pub open spec fn embedding(p: Seq<char>, s: Seq<char>, w: Seq<char>) -> bool {
    w.len() > 0 && w[0] == '}'
}

/// A token list never fails recoverably: it stops instead.
pub proof fn lemma_token_list_total(s: Seq<char>, i: int, acc: Seq<TokenV>)
    requires
        0 <= i <= s.len(),
    ensures
        !(sp_token_list(s, i, acc) is Miss),
    decreases s.len() - i, 4int,
{
    match sp_token(s, i) {
        Sp::Done { v: t, next: m } => {
            if i < m <= s.len() {
                lemma_token_list_total(s, m, acc.push(t));
            }
        },
        Sp::Miss { e: _ } => {},
        Sp::Halt { e: _ } => {},
    }
}

/// A token list that returns stays within bounds.
pub proof fn lemma_token_list_bound(s: Seq<char>, i: int, acc: Seq<TokenV>)
    requires
        0 <= i <= s.len(),
    ensures
        sp_token_list(s, i, acc) matches Sp::Done { v: _, next } ==> i <= next <= s.len(),
    decreases s.len() - i, 4int,
{
    match sp_token(s, i) {
        Sp::Done { v: t, next: m } => {
            if i < m <= s.len() {
                lemma_token_list_bound(s, m, acc.push(t));
            }
        },
        Sp::Miss { e: _ } => {},
        Sp::Halt { e: _ } => {},
    }
}

/// At a special, non-escape character the text production fails
/// recoverably, in the original and in the embedding alike.
pub proof fn lemma_text_miss_at_special(p: Seq<char>, s: Seq<char>, w: Seq<char>, i: int)
    requires
        0 <= i < s.len(),
        embedding(p, s, w),
        !is_text_char(s[i]),
        s[i] != '\\',
    ensures
        sp_text(s, i) is Miss,
        sp_text(p + s + w, p.len() + i) is Miss,
{
    let u = p + s + w;
    let d = p.len() as int;
    assert(forall|k: int| 0 <= k < s.len() ==> u[d + k] == s[k]);
    assert(scan_while(s, i, text_pred()) == i);
    lemma_scan_embed(p, s, w, i, text_pred());
}

/// A scan inside the embedding finds the shifted stopping point, provided
/// the suffix's first character would stop it too.
pub proof fn lemma_scan_embed(
    p: Seq<char>,
    s: Seq<char>,
    w: Seq<char>,
    i: int,
    pr: spec_fn(char) -> bool,
)
    requires
        0 <= i <= s.len(),
        w.len() > 0,
        !pr(w[0]),
    ensures
        scan_while(p + s + w, p.len() + i, pr) == p.len() + scan_while(s, i, pr),
        i <= scan_while(s, i, pr) <= s.len(),
    decreases s.len() - i,
{
    let u = p + s + w;
    let d = p.len() as int;
    lemma_scan_while(s, i, pr);
    let j = scan_while(s, i, pr);
    assert(forall|k: int| 0 <= k < s.len() ==> u[d + k] == s[k]);
    assert(u[d + s.len()] == w[0]);
    lemma_scan_while_exact(u, d + i, d + j, pr);
}

/// Subranges of the embedded string agree with those of the original.
pub proof fn lemma_subrange_embed(p: Seq<char>, s: Seq<char>, w: Seq<char>, a: int, b: int)
    requires
        0 <= a <= b <= s.len(),
    ensures
        (p + s + w).subrange(p.len() + a, p.len() + b) == s.subrange(a, b),
{
    assert((p + s + w).subrange(p.len() + a, p.len() + b) =~= s.subrange(a, b));
}

/// Identifiers embed: same result, shifted.
pub proof fn lemma_ident_embed(p: Seq<char>, s: Seq<char>, w: Seq<char>, i: int)
    requires
        0 <= i <= s.len(),
        embedding(p, s, w),
    ensures
        sp_ident(s, i) matches Sp::Done { v, next } ==> i < next <= s.len() && sp_ident(
            p + s + w,
            p.len() + i,
        ) == (Sp::Done { v, next: p.len() + next }),
        sp_ident(s, i) is Miss ==> sp_ident(p + s + w, p.len() + i) is Miss,
{
    assert(!ident_pred()(w[0]));
    lemma_scan_embed(p, s, w, i, ident_pred());
    let j = scan_while(s, i, ident_pred());
    if j > i {
        lemma_subrange_embed(p, s, w, i, j);
    }
}

/// Argument values embed when they do not fail at a committed point.
pub proof fn lemma_arg_value_embed(p: Seq<char>, s: Seq<char>, w: Seq<char>, i: int)
    requires
        0 <= i <= s.len(),
        embedding(p, s, w),
    ensures
        sp_arg_value(s, i) matches Sp::Done { v, next } ==> i < next <= s.len() && sp_arg_value(
            p + s + w,
            p.len() + i,
        ) == (Sp::Done { v, next: p.len() + next }),
        sp_arg_value(s, i) is Miss ==> sp_arg_value(p + s + w, p.len() + i) is Miss,
{
    let u = p + s + w;
    let d = p.len() as int;
    assert(forall|k: int| 0 <= k < s.len() ==> u[d + k] == s[k]);
    assert(u[d + s.len()] == w[0]);
    assert(!bare_value_pred()(w[0]));
    lemma_scan_embed(p, s, w, i, bare_value_pred());
    let j = scan_while(s, i, bare_value_pred());
    if j > i {
        lemma_subrange_embed(p, s, w, i, j);
    } else if i < s.len() && s[i] == '\'' {
        lemma_scan_while(s, i + 1, not_quote_pred());
        let q = scan_while(s, i + 1, not_quote_pred());
        if q < s.len() {
            lemma_scan_while_exact(u, d + i + 1, d + q, not_quote_pred());
            lemma_subrange_embed(p, s, w, i + 1, q);
        }
    }
}

/// Arguments embed when they do not fail at a committed point.
pub proof fn lemma_arg_embed(p: Seq<char>, s: Seq<char>, w: Seq<char>, i: int)
    requires
        0 <= i <= s.len(),
        embedding(p, s, w),
    ensures
        sp_arg(s, i) matches Sp::Done { v, next } ==> i < next <= s.len() && sp_arg(
            p + s + w,
            p.len() + i,
        ) == (Sp::Done { v, next: p.len() + next }),
        sp_arg(s, i) is Miss ==> sp_arg(p + s + w, p.len() + i) is Miss,
{
    let u = p + s + w;
    let d = p.len() as int;
    assert(forall|k: int| 0 <= k < s.len() ==> u[d + k] == s[k]);
    assert(u[d + s.len()] == w[0]);
    lemma_ident_embed(p, s, w, i);
    match sp_ident(s, i) {
        Sp::Done { v: _, next: j } => {
            if j < s.len() && s[j] == ':' {
                lemma_arg_value_embed(p, s, w, j + 1);
            }
        },
        Sp::Miss { e: _ } => {},
        Sp::Halt { e: _ } => {},
    }
}

/// The groups after the first argument embed when they do not fail at a
/// committed point.
#[verifier::rlimit(60)]
pub proof fn lemma_args_rest_embed(p: Seq<char>, s: Seq<char>, w: Seq<char>, i: int, acc: Seq<ArgV>)
    requires
        0 <= i <= s.len(),
        embedding(p, s, w),
    ensures
        sp_args_rest(s, i, acc) matches Sp::Done { v, next } ==> i <= next <= s.len()
            && sp_args_rest(p + s + w, p.len() + i, acc) == (Sp::Done { v, next: p.len() + next }),
    decreases s.len() - i, 2int,
{
    let u = p + s + w;
    let d = p.len() as int;
    assert(forall|k: int| 0 <= k < s.len() ==> u[d + k] == s[k]);
    assert(u[d + s.len()] == w[0]);
    assert(!space_pred()(w[0]));
    lemma_scan_embed(p, s, w, i, space_pred());
    let j = sp_spaces(s, i);
    if j < s.len() && s[j] == ',' {
        lemma_scan_embed(p, s, w, j + 1, space_pred());
        let k = sp_spaces(s, j + 1);
        lemma_arg_embed(p, s, w, k);
        match sp_arg(s, k) {
            Sp::Done { v: a, next: m } => {
                if i < m <= s.len() {
                    lemma_args_rest_embed(p, s, w, m, acc.push(a));
                }
            },
            Sp::Miss { e: _ } => {},
            Sp::Halt { e: _ } => {},
        }
    }
}

/// The inside of an argument list embeds when it does not fail at a
/// committed point.
pub proof fn lemma_args_inner_embed(p: Seq<char>, s: Seq<char>, w: Seq<char>, i: int)
    requires
        0 <= i <= s.len(),
        embedding(p, s, w),
    ensures
        sp_args_inner(s, i) matches Sp::Done { v, next } ==> i <= next <= s.len() && sp_args_inner(
            p + s + w,
            p.len() + i,
        ) == (Sp::Done { v, next: p.len() + next }),
{
    let u = p + s + w;
    let d = p.len() as int;
    assert(forall|k: int| 0 <= k < s.len() ==> u[d + k] == s[k]);
    assert(u[d + s.len()] == w[0]);
    lemma_scan_embed(p, s, w, i, space_pred());
    let j = sp_spaces(s, i);
    lemma_arg_embed(p, s, w, j);
    match sp_arg(s, j) {
        Sp::Done { v: a, next: m } => {
            if i <= m <= s.len() {
                lemma_args_rest_embed(p, s, w, m, seq![a]);
            }
        },
        Sp::Miss { e: _ } => {},
        Sp::Halt { e: _ } => {},
    }
}

/// Argument lists embed when they do not fail at a committed point.
pub proof fn lemma_args_embed(p: Seq<char>, s: Seq<char>, w: Seq<char>, i: int)
    requires
        0 <= i <= s.len(),
        embedding(p, s, w),
    ensures
        sp_args(s, i) matches Sp::Done { v, next } ==> i < next <= s.len() && sp_args(
            p + s + w,
            p.len() + i,
        ) == (Sp::Done { v, next: p.len() + next }),
        sp_args(s, i) is Miss ==> sp_args(p + s + w, p.len() + i) is Miss,
{
    let u = p + s + w;
    let d = p.len() as int;
    assert(forall|k: int| 0 <= k < s.len() ==> u[d + k] == s[k]);
    assert(u[d + s.len()] == w[0]);
    if i < s.len() && s[i] == '(' {
        lemma_args_inner_embed(p, s, w, i + 1);
        match sp_args_inner(s, i + 1) {
            Sp::Done { v: args, next: n } => {
                lemma_scan_embed(p, s, w, n, space_pred());
            },
            Sp::Miss { e: _ } => {},
            Sp::Halt { e: _ } => {},
        }
    }
}

/// Formatters embed when they do not fail at a committed point.
pub proof fn lemma_formatter_embed(p: Seq<char>, s: Seq<char>, w: Seq<char>, i: int)
    requires
        0 <= i <= s.len(),
        embedding(p, s, w),
    ensures
        sp_formatter(s, i) matches Sp::Done { v, next } ==> i < next <= s.len() && sp_formatter(
            p + s + w,
            p.len() + i,
        ) == (Sp::Done { v, next: p.len() + next }),
        sp_formatter(s, i) is Miss ==> sp_formatter(p + s + w, p.len() + i) is Miss,
{
    let u = p + s + w;
    let d = p.len() as int;
    assert(forall|k: int| 0 <= k < s.len() ==> u[d + k] == s[k]);
    assert(u[d + s.len()] == w[0]);
    if i < s.len() && s[i] == '.' {
        lemma_ident_embed(p, s, w, i + 1);
        match sp_ident(s, i + 1) {
            Sp::Done { v: _, next: j } => {
                lemma_args_embed(p, s, w, j);
            },
            Sp::Miss { e: _ } => {},
            Sp::Halt { e: _ } => {},
        }
    }
}

/// Placeholders embed when they do not fail at a committed point.
pub proof fn lemma_placeholder_embed(p: Seq<char>, s: Seq<char>, w: Seq<char>, i: int)
    requires
        0 <= i <= s.len(),
        embedding(p, s, w),
    ensures
        sp_placeholder(s, i) matches Sp::Done { v, next } ==> i < next <= s.len()
            && sp_placeholder(p + s + w, p.len() + i) == (Sp::Done { v, next: p.len() + next }),
        sp_placeholder(s, i) is Miss ==> sp_placeholder(p + s + w, p.len() + i) is Miss,
{
    let u = p + s + w;
    let d = p.len() as int;
    assert(forall|k: int| 0 <= k < s.len() ==> u[d + k] == s[k]);
    assert(u[d + s.len()] == w[0]);
    if i < s.len() && s[i] == '$' {
        lemma_ident_embed(p, s, w, i + 1);
        match sp_ident(s, i + 1) {
            Sp::Done { v: _, next: j } => {
                lemma_formatter_embed(p, s, w, j);
            },
            Sp::Miss { e: _ } => {},
            Sp::Halt { e: _ } => {},
        }
    }
}

/// Icons embed when they do not fail at a committed point.
pub proof fn lemma_icon_embed(p: Seq<char>, s: Seq<char>, w: Seq<char>, i: int)
    requires
        0 <= i <= s.len(),
        embedding(p, s, w),
    ensures
        sp_icon(s, i) matches Sp::Done { v, next } ==> i < next <= s.len() && sp_icon(
            p + s + w,
            p.len() + i,
        ) == (Sp::Done { v, next: p.len() + next }),
        sp_icon(s, i) is Miss ==> sp_icon(p + s + w, p.len() + i) is Miss,
{
    let u = p + s + w;
    let d = p.len() as int;
    assert(forall|k: int| 0 <= k < s.len() ==> u[d + k] == s[k]);
    assert(u[d + s.len()] == w[0]);
    if i < s.len() && s[i] == '^' {
        if icon_tag_at(s, i + 1) {
            assert(icon_tag_at(u, d + i + 1));
            lemma_ident_embed(p, s, w, i + 6);
        }
    }
}

/// Text embeds: a decoded text token is unchanged by the embedding.
pub proof fn lemma_text_loop_embed(p: Seq<char>, s: Seq<char>, w: Seq<char>, i: int, acc: Seq<char>)
    requires
        0 <= i <= s.len(),
        embedding(p, s, w),
    ensures
        sp_text_loop(s, i, acc) matches Sp::Done { v, next } ==> i <= next <= s.len()
            && sp_text_loop(p + s + w, p.len() + i, acc) == (Sp::Done { v, next: p.len() + next }),
    decreases s.len() - i,
{
    let u = p + s + w;
    let d = p.len() as int;
    assert(forall|k: int| 0 <= k < s.len() ==> u[d + k] == s[k]);
    assert(u[d + s.len()] == w[0]);
    assert(!text_pred()(w[0]));
    lemma_scan_embed(p, s, w, i, text_pred());
    let j = scan_while(s, i, text_pred());
    lemma_subrange_embed(p, s, w, i, j);
    if j < s.len() && s[j] == '\\' {
        if j + 1 < s.len() {
            lemma_text_loop_embed(p, s, w, j + 2, (acc + s.subrange(i, j)).push(s[j + 1]));
        }
    }
}

/// A text token embeds.
pub proof fn lemma_text_embed(p: Seq<char>, s: Seq<char>, w: Seq<char>, i: int)
    requires
        0 <= i <= s.len(),
        embedding(p, s, w),
    ensures
        sp_text(s, i) matches Sp::Done { v, next } ==> i < next <= s.len() && sp_text(
            p + s + w,
            p.len() + i,
        ) == (Sp::Done { v, next: p.len() + next }),
{
    lemma_text_loop_embed(p, s, w, i, Seq::empty());
}

/// Every token embeds.
pub proof fn lemma_token_embed(p: Seq<char>, s: Seq<char>, w: Seq<char>, i: int)
    requires
        0 <= i <= s.len(),
        embedding(p, s, w),
    ensures
        sp_token(s, i) matches Sp::Done { v, next } ==> i < next <= s.len() && sp_token(
            p + s + w,
            p.len() + i,
        ) == (Sp::Done { v, next: p.len() + next }),
    decreases s.len() - i, 3int,
{
    let u = p + s + w;
    let d = p.len() as int;
    assert(forall|k: int| 0 <= k < s.len() ==> u[d + k] == s[k]);
    assert(u[d + s.len()] == w[0]);
    if sp_token(s, i) is Done {
        lemma_text_embed(p, s, w, i);
        match sp_text(s, i) {
            Sp::Done { v: _, next: _ } => {},
            Sp::Miss { e: _ } => {
                // whichever later branch produced the token, its leading
                // character makes the earlier branches fail the same way
                // in both strings
                lemma_placeholder_embed(p, s, w, i);
                match sp_placeholder(s, i) {
                    Sp::Done { v: _, next: _ } => {
                        lemma_text_miss_at_special(p, s, w, i);
                    },
                    Sp::Miss { e: _ } => {
                        lemma_icon_embed(p, s, w, i);
                        match sp_icon(s, i) {
                            Sp::Done { v: _, next: _ } => {
                                lemma_text_miss_at_special(p, s, w, i);
                            },
                            Sp::Miss { e: _ } => {
                                lemma_recursive_embed(p, s, w, i);
                                match sp_recursive(s, i) {
                                    Sp::Done { v: _, next: _ } => {
                                        lemma_text_miss_at_special(p, s, w, i);
                                    },
                                    Sp::Miss { e: _ } => {},
                                    Sp::Halt { e: _ } => {},
                                }
                            },
                            Sp::Halt { e: _ } => {},
                        }
                    },
                    Sp::Halt { e: _ } => {},
                }
            },
            Sp::Halt { e: _ } => {},
        }
    }
}

/// A braced sub-template embeds.
#[verifier::rlimit(60)]
pub proof fn lemma_recursive_embed(p: Seq<char>, s: Seq<char>, w: Seq<char>, i: int)
    requires
        0 <= i <= s.len(),
        embedding(p, s, w),
    ensures
        sp_recursive(s, i) matches Sp::Done { v, next } ==> i < next <= s.len() && sp_recursive(
            p + s + w,
            p.len() + i,
        ) == (Sp::Done { v, next: p.len() + next }),
    decreases s.len() - i, 2int,
{
    let u = p + s + w;
    let d = p.len() as int;
    assert(forall|k: int| 0 <= k < s.len() ==> u[d + k] == s[k]);
    assert(u[d + s.len()] == w[0]);
    if sp_recursive(s, i) is Done {
        assert(i < s.len() && s[i] == '{');
        assert(u[d + i] == '{');
        match sp_template(s, i + 1) {
            Sp::Done { v: alts, next: m } => {
                // the closing brace stands inside `s`, so the inner
                // template meets the stop condition
                assert(0 <= m < s.len() && s[m] == '}');
                lemma_template_embed(p, s, w, i + 1);
                assert(sp_template(u, d + i + 1) == (Sp::Done { v: alts, next: d + m }));
                assert(u[d + m] == '}');
                assert(sp_recursive(u, d + i) == (Sp::Done {
                    v: TokenV::Recursive(alts),
                    next: d + m + 1,
                }));
            },
            Sp::Miss { e: _ } => {},
            Sp::Halt { e: _ } => {},
        }
    }
}

/// A token list that stops at the end of `s`, at `|`, or at `}` embeds.
pub proof fn lemma_token_list_embed(
    p: Seq<char>,
    s: Seq<char>,
    w: Seq<char>,
    i: int,
    acc: Seq<TokenV>,
)
    requires
        0 <= i <= s.len(),
        embedding(p, s, w),
        sp_token_list(s, i, acc) matches Sp::Done { v: _, next } && (next == s.len() || s[next]
            == '|' || s[next] == '}'),
    ensures
        sp_token_list(s, i, acc) matches Sp::Done { v, next } ==> i <= next <= s.len()
            && sp_token_list(p + s + w, p.len() + i, acc) == (Sp::Done {
            v,
            next: p.len() + next,
        }),
    decreases s.len() - i, 4int,
{
    let u = p + s + w;
    let d = p.len() as int;
    assert(forall|k: int| 0 <= k < s.len() ==> u[d + k] == s[k]);
    assert(u[d + s.len()] == w[0]);
    lemma_token_embed(p, s, w, i);
    match sp_token(s, i) {
        Sp::Done { v: t, next: m } => {
            lemma_token_list_embed(p, s, w, m, acc.push(t));
        },
        Sp::Miss { e: _ } => {
            // the list stops here; at this position — `|`, `}`, or the
            // suffix's leading `}` — no token matches in the embedding
            let c = if i < s.len() {
                s[i]
            } else {
                w[0]
            };
            assert(u[d + i] == c);
            assert(c == '|' || c == '}');
            lemma_scan_embed(p, s, w, i, text_pred());
            assert(scan_while(u, d + i, text_pred()) == d + i);
            assert(sp_text_loop(u, d + i, Seq::empty()) == (Sp::Done {
                v: Seq::<char>::empty() + u.subrange(d + i, d + i),
                next: d + i,
            }));
            assert(sp_text(u, d + i) is Miss);
            assert(sp_placeholder(u, d + i) is Miss);
            assert(sp_icon(u, d + i) is Miss);
            assert(sp_recursive(u, d + i) is Miss);
            assert(sp_token(u, d + i) is Miss);
        },
        Sp::Halt { e: _ } => {},
    }
}

/// The alternatives after the first embed, under the same stop condition.
pub proof fn lemma_template_rest_embed(
    p: Seq<char>,
    s: Seq<char>,
    w: Seq<char>,
    i: int,
    acc: Seq<Seq<TokenV>>,
)
    requires
        0 <= i <= s.len(),
        embedding(p, s, w),
        sp_template_rest(s, i, acc) matches Sp::Done { v: _, next } && (next == s.len() || s[next]
            == '}'),
    ensures
        sp_template_rest(s, i, acc) matches Sp::Done { v, next } ==> i <= next <= s.len()
            && sp_template_rest(p + s + w, p.len() + i, acc) == (Sp::Done {
            v,
            next: p.len() + next,
        }),
    decreases s.len() - i, 5int,
{
    let u = p + s + w;
    let d = p.len() as int;
    assert(forall|k: int| 0 <= k < s.len() ==> u[d + k] == s[k]);
    assert(u[d + s.len()] == w[0]);
    if i < s.len() && s[i] == '|' {
        lemma_token_list_total(s, i + 1, Seq::empty());
        lemma_token_list_bound(s, i + 1, Seq::empty());
        match sp_token_list(s, i + 1, Seq::empty()) {
            Sp::Done { v: l, next: m } => {
                // where does this list stop?  either the rest goes on at a
                // `|`, or it is the final position of the whole rest
                if i < m <= s.len() {
                    lemma_template_rest_embed(p, s, w, m, acc.push(l));
                    lemma_token_list_embed(p, s, w, i + 1, Seq::empty());
                }
            },
            Sp::Miss { e: _ } => {},
            Sp::Halt { e: _ } => {},
        }
    }
}

/// A whole template that stops at the end of `s` or at a `}` embeds: it
/// parses inside the larger input to the same alternatives, shifted.
pub proof fn lemma_template_embed(p: Seq<char>, s: Seq<char>, w: Seq<char>, i: int)
    requires
        0 <= i <= s.len(),
        embedding(p, s, w),
        sp_template(s, i) matches Sp::Done { v: _, next } && (next == s.len() || s[next] == '}'),
    ensures
        sp_template(s, i) matches Sp::Done { v, next } ==> i <= next <= s.len() && sp_template(
            p + s + w,
            p.len() + i,
        ) == (Sp::Done { v, next: p.len() + next }),
    decreases s.len() - i, 6int,
{
    let u = p + s + w;
    let d = p.len() as int;
    lemma_token_list_total(s, i, Seq::empty());
    lemma_token_list_bound(s, i, Seq::empty());
    match sp_token_list(s, i, Seq::empty()) {
        Sp::Done { v: l0, next: j } => {
            if i <= j <= s.len() {
                lemma_template_rest_embed(p, s, w, j, seq![l0]);
                lemma_token_list_embed(p, s, w, i, Seq::empty());
            }
        },
        Sp::Miss { e: _ } => {},
        Sp::Halt { e: _ } => {},
    }
}

} // verus!
