//! The grammar, written as specification-level parsing functions over a
//! sequence of characters and a position.
//!
//! Each function returns `Sp::Done` with the parsed value and the next
//! position, `Sp::Miss` for a recoverable failure (the enclosing
//! alternation may try its next branch), or `Sp::Halt` for a committed
//! failure that aborts the whole parse.  A committed point is reached once
//! a distinguishing prefix — `:` after a key, `(`, `.`, `$`, `^`, `{`, or
//! an opening `'` — has been consumed.

use crate::ast::ArgV;
use crate::ast::FormatterV;
use crate::ast::PlaceholderV;
use crate::ast::TokenV;
use crate::chars::is_bare_value_char;
use crate::chars::is_ident_char;
use crate::chars::is_space_char;
use crate::chars::is_text_char;
use vstd::prelude::*;

verus! {

/// A failure: either a specific character was required (reported with the
/// character actually found, or none at end of input), or a production
/// found nothing it could consume at a position.
pub ghost enum FailV {
    Expected { expected: char, actual: Option<char> },
    NoMatch { at: int },
}

/// Outcome of a specification-level parser.
pub ghost enum Sp<T> {
    Done { v: T, next: int },
    Miss { e: FailV },
    Halt { e: FailV },
}

/// The character at a position, or none at end of input.
pub open spec fn peek(s: Seq<char>, i: int) -> Option<char> {
    if 0 <= i < s.len() {
        Option::Some(s[i])
    } else {
        Option::None
    }
}

/// First position at or after `i` whose character fails `p`, or the end.
pub open spec fn scan_while(s: Seq<char>, i: int, p: spec_fn(char) -> bool) -> int
    decreases s.len() - i
    when 0 <= i <= s.len()
{
    if i < s.len() && p(s[i]) {
        scan_while(s, i + 1, p)
    } else {
        i
    }
}

pub open spec fn space_pred() -> spec_fn(char) -> bool {
    |c: char| is_space_char(c)
}

pub open spec fn ident_pred() -> spec_fn(char) -> bool {
    |c: char| is_ident_char(c)
}

pub open spec fn bare_value_pred() -> spec_fn(char) -> bool {
    |c: char| is_bare_value_char(c)
}

pub open spec fn text_pred() -> spec_fn(char) -> bool {
    |c: char| is_text_char(c)
}

pub open spec fn not_quote_pred() -> spec_fn(char) -> bool {
    |c: char| c != '\''
}

/// `scan_while` stays in range, accepts everything it passed over, and
/// stops at the end or at a failing character.
pub proof fn lemma_scan_while(s: Seq<char>, i: int, p: spec_fn(char) -> bool)
    requires
        0 <= i <= s.len(),
    ensures
        i <= scan_while(s, i, p) <= s.len(),
        forall|k: int| i <= k < scan_while(s, i, p) ==> p(s[k]),
        scan_while(s, i, p) < s.len() ==> !p(s[scan_while(s, i, p)]),
    decreases s.len() - i,
{
    if i < s.len() && p(s[i]) {
        lemma_scan_while(s, i + 1, p);
    }
}

/// Conversely, a stretch of accepted characters up to a failing one (or
/// the end) is exactly where `scan_while` stops.
pub proof fn lemma_scan_while_exact(s: Seq<char>, i: int, j: int, p: spec_fn(char) -> bool)
    requires
        0 <= i <= j <= s.len(),
        forall|k: int| i <= k < j ==> p(s[k]),
        j < s.len() ==> !p(s[j]),
    ensures
        scan_while(s, i, p) == j,
    decreases s.len() - i,
{
    if i < s.len() && p(s[i]) {
        lemma_scan_while_exact(s, i + 1, j, p);
    }
}

/// Skips whitespace; never fails.
pub open spec fn sp_spaces(s: Seq<char>, i: int) -> int {
    scan_while(s, i, space_pred())
}

/// One or more identifier characters.
pub open spec fn sp_ident(s: Seq<char>, i: int) -> Sp<Seq<char>> {
    let j = scan_while(s, i, ident_pred());
    if j > i {
        Sp::Done { v: s.subrange(i, j), next: j }
    } else {
        Sp::Miss { e: FailV::NoMatch { at: i } }
    }
}

/// An argument value: a run of bare-value characters, or a single-quoted
/// run of arbitrary non-quote characters.  Once the opening quote is
/// consumed, a missing closing quote is a committed failure.
pub open spec fn sp_arg_value(s: Seq<char>, i: int) -> Sp<Seq<char>> {
    let j = scan_while(s, i, bare_value_pred());
    if j > i {
        Sp::Done { v: s.subrange(i, j), next: j }
    } else if i < s.len() && s[i] == '\'' {
        let q = scan_while(s, i + 1, not_quote_pred());
        if q < s.len() {
            Sp::Done { v: s.subrange(i + 1, q), next: q + 1 }
        } else {
            Sp::Halt { e: FailV::Expected { expected: '\'', actual: Option::None } }
        }
    } else {
        Sp::Miss { e: FailV::Expected { expected: '\'', actual: peek(s, i) } }
    }
}

/// `key:value` or a bare `key`.  Once the `:` is consumed the value is
/// mandatory: its failure is committed.
pub open spec fn sp_arg(s: Seq<char>, i: int) -> Sp<ArgV> {
    match sp_ident(s, i) {
        Sp::Done { v: key, next: j } => {
            if j < s.len() && s[j] == ':' {
                match sp_arg_value(s, j + 1) {
                    Sp::Done { v: val, next: m } => Sp::Done {
                        v: ArgV { key, val: Option::Some(val) },
                        next: m,
                    },
                    Sp::Miss { e } => Sp::Halt { e },
                    Sp::Halt { e } => Sp::Halt { e },
                }
            } else {
                Sp::Done { v: ArgV { key, val: Option::None }, next: j }
            }
        },
        Sp::Miss { e } => Sp::Miss { e },
        Sp::Halt { e } => Sp::Halt { e },
    }
}

/// Further `ws , ws arg` groups after the first argument.  A group that
/// does not begin with a comma, or whose argument is recoverably absent,
/// ends the list just before it.
pub open spec fn sp_args_rest(s: Seq<char>, i: int, acc: Seq<ArgV>) -> Sp<Seq<ArgV>>
    decreases s.len() - i, 2int
    when 0 <= i <= s.len()
{
    let j = sp_spaces(s, i);
    if j < s.len() && s[j] == ',' && j + 1 <= s.len() {
        let k = sp_spaces(s, j + 1);
        if k <= s.len() {
            match sp_arg(s, k) {
                Sp::Done { v: a, next: m } => {
                    if i < m <= s.len() {
                        sp_args_rest(s, m, acc.push(a))
                    } else {
                        Sp::Done { v: acc, next: i }
                    }
                },
                Sp::Miss { e } => Sp::Done { v: acc, next: i },
                Sp::Halt { e } => Sp::Halt { e },
            }
        } else {
            Sp::Done { v: acc, next: i }
        }
    } else {
        Sp::Done { v: acc, next: i }
    }
}

/// The inside of an argument list, from the position just after the `(`:
/// a possibly empty comma-separated sequence of arguments.
pub open spec fn sp_args_inner(s: Seq<char>, i: int) -> Sp<Seq<ArgV>>
    decreases s.len() - i, 3int
    when 0 <= i <= s.len()
{
    let j = sp_spaces(s, i);
    if j <= s.len() {
        match sp_arg(s, j) {
            Sp::Done { v: a, next: m } => {
                if i <= m <= s.len() {
                    sp_args_rest(s, m, seq![a])
                } else {
                    Sp::Done { v: seq![a], next: m }
                }
            },
            Sp::Miss { e } => Sp::Done { v: Seq::empty(), next: i },
            Sp::Halt { e } => Sp::Halt { e },
        }
    } else {
        Sp::Done { v: Seq::empty(), next: i }
    }
}

/// A parenthesised, comma-separated, possibly empty argument list.
/// Committed after the `(`: the closing `)` is required.
pub open spec fn sp_args(s: Seq<char>, i: int) -> Sp<Seq<ArgV>>
    decreases s.len() - i, 4int
    when 0 <= i <= s.len()
{
    if i < s.len() && s[i] == '(' {
        match sp_args_inner(s, i + 1) {
            Sp::Done { v: args, next: n } => {
                let c = if 0 <= n <= s.len() {
                    sp_spaces(s, n)
                } else {
                    n
                };
                if 0 <= c < s.len() && s[c] == ')' {
                    Sp::Done { v: args, next: c + 1 }
                } else {
                    Sp::Halt { e: FailV::Expected { expected: ')', actual: peek(s, c) } }
                }
            },
            Sp::Miss { e } => Sp::Halt { e },
            Sp::Halt { e } => Sp::Halt { e },
        }
    } else {
        Sp::Miss { e: FailV::Expected { expected: '(', actual: peek(s, i) } }
    }
}

/// `.name` with an optional argument list; committed after the `.`.
/// An absent list is the empty list.
pub open spec fn sp_formatter(s: Seq<char>, i: int) -> Sp<FormatterV>
    decreases s.len() - i, 4int
    when 0 <= i <= s.len()
{
    if i < s.len() && s[i] == '.' {
        match sp_ident(s, i + 1) {
            Sp::Done { v: name, next: j } => {
                let r = if j <= s.len() {
                    sp_args(s, j)
                } else {
                    Sp::Miss { e: FailV::NoMatch { at: j } }
                };
                match r {
                    Sp::Done { v: args, next: m } => Sp::Done {
                        v: FormatterV { name, args },
                        next: m,
                    },
                    Sp::Miss { e } => Sp::Done {
                        v: FormatterV { name, args: Seq::empty() },
                        next: j,
                    },
                    Sp::Halt { e } => Sp::Halt { e },
                }
            },
            Sp::Miss { e } => Sp::Halt { e },
            Sp::Halt { e } => Sp::Halt { e },
        }
    } else {
        Sp::Miss { e: FailV::Expected { expected: '.', actual: peek(s, i) } }
    }
}

/// `$name` with an optional formatter; committed after the `$`.
pub open spec fn sp_placeholder(s: Seq<char>, i: int) -> Sp<PlaceholderV>
    decreases s.len() - i, 5int
    when 0 <= i <= s.len()
{
    if i < s.len() && s[i] == '$' {
        match sp_ident(s, i + 1) {
            Sp::Done { v: name, next: j } => {
                let r = if j <= s.len() {
                    sp_formatter(s, j)
                } else {
                    Sp::Miss { e: FailV::NoMatch { at: j } }
                };
                match r {
                    Sp::Done { v: f, next: m } => Sp::Done {
                        v: PlaceholderV { name, formatter: Option::Some(f) },
                        next: m,
                    },
                    Sp::Miss { e } => Sp::Done {
                        v: PlaceholderV { name, formatter: Option::None },
                        next: j,
                    },
                    Sp::Halt { e } => Sp::Halt { e },
                }
            },
            Sp::Miss { e } => Sp::Halt { e },
            Sp::Halt { e } => Sp::Halt { e },
        }
    } else {
        Sp::Miss { e: FailV::Expected { expected: '$', actual: peek(s, i) } }
    }
}

/// Whether the literal `icon_` stands at position `i`.
pub open spec fn icon_tag_at(s: Seq<char>, i: int) -> bool {
    i + 5 <= s.len() && s[i] == 'i' && s[i + 1] == 'c' && s[i + 2] == 'o' && s[i + 3] == 'n' && s[i
        + 4] == '_'
}

/// `^icon_name`; committed after the `^`: the literal `icon_` and an
/// identifier are required.  Only the identifier is kept.
pub open spec fn sp_icon(s: Seq<char>, i: int) -> Sp<Seq<char>> {
    if i < s.len() && s[i] == '^' {
        if icon_tag_at(s, i + 1) {
            match sp_ident(s, i + 6) {
                Sp::Done { v: id, next: j } => Sp::Done { v: id, next: j },
                Sp::Miss { e } => Sp::Halt { e },
                Sp::Halt { e } => Sp::Halt { e },
            }
        } else {
            Sp::Halt { e: FailV::NoMatch { at: i + 1 } }
        }
    } else {
        Sp::Miss { e: FailV::Expected { expected: '^', actual: peek(s, i) } }
    }
}

/// Literal text: runs of plain text characters and `\`-escapes, each
/// escape emitting the following character verbatim.  `acc` holds what has
/// been decoded so far.  A `\` at the very end of input fails the whole
/// text production recoverably.
pub open spec fn sp_text_loop(s: Seq<char>, i: int, acc: Seq<char>) -> Sp<Seq<char>>
    decreases s.len() - i
    when 0 <= i <= s.len()
{
    let j = scan_while(s, i, text_pred());
    let acc2 = acc + s.subrange(i, j);
    if j < s.len() && s[j] == '\\' {
        if j + 1 < s.len() {
            if i < j + 2 <= s.len() {
                sp_text_loop(s, j + 2, acc2.push(s[j + 1]))
            } else {
                Sp::Done { v: acc2, next: j }
            }
        } else {
            Sp::Miss { e: FailV::NoMatch { at: j + 1 } }
        }
    } else {
        Sp::Done { v: acc2, next: j }
    }
}

/// Literal text must decode at least one character; an empty match is a
/// recoverable failure so that the surrounding alternation can proceed.
pub open spec fn sp_text(s: Seq<char>, i: int) -> Sp<Seq<char>>
    decreases s.len() - i, 1int
    when 0 <= i <= s.len()
{
    match sp_text_loop(s, i, Seq::empty()) {
        Sp::Done { v: t, next: j } => {
            if j > i {
                Sp::Done { v: t, next: j }
            } else {
                Sp::Miss { e: FailV::NoMatch { at: i } }
            }
        },
        Sp::Miss { e } => Sp::Miss { e },
        Sp::Halt { e } => Sp::Halt { e },
    }
}

/// `{ template }`; committed after the `{`: the closing `}` is required.
pub open spec fn sp_recursive(s: Seq<char>, i: int) -> Sp<TokenV>
    decreases s.len() - i, 1int
    when 0 <= i <= s.len()
{
    if i < s.len() && s[i] == '{' {
        match sp_template(s, i + 1) {
            Sp::Done { v: alts, next: j } => {
                if 0 <= j < s.len() && s[j] == '}' {
                    Sp::Done { v: TokenV::Recursive(alts), next: j + 1 }
                } else {
                    Sp::Halt { e: FailV::Expected { expected: '}', actual: peek(s, j) } }
                }
            },
            Sp::Miss { e } => Sp::Halt { e },
            Sp::Halt { e } => Sp::Halt { e },
        }
    } else {
        Sp::Miss { e: FailV::Expected { expected: '{', actual: peek(s, i) } }
    }
}

/// One token, tried in fixed order: text, placeholder, icon, nested
/// template.
pub open spec fn sp_token(s: Seq<char>, i: int) -> Sp<TokenV>
    decreases s.len() - i, 2int
    when 0 <= i <= s.len()
{
    match sp_text(s, i) {
        Sp::Done { v: t, next: j } => Sp::Done { v: TokenV::Text(t), next: j },
        Sp::Halt { e } => Sp::Halt { e },
        Sp::Miss { e: _ } => match sp_placeholder(s, i) {
            Sp::Done { v: p, next: j } => Sp::Done { v: TokenV::Placeholder(p), next: j },
            Sp::Halt { e } => Sp::Halt { e },
            Sp::Miss { e: _ } => match sp_icon(s, i) {
                Sp::Done { v: id, next: j } => Sp::Done { v: TokenV::Icon(id), next: j },
                Sp::Halt { e } => Sp::Halt { e },
                Sp::Miss { e: _ } => sp_recursive(s, i),
            },
        },
    }
}

/// As many tokens as match, in order; stops where no token production
/// matches (end of input, `|`, or `}`).
pub open spec fn sp_token_list(s: Seq<char>, i: int, acc: Seq<TokenV>) -> Sp<Seq<TokenV>>
    decreases s.len() - i, 3int
    when 0 <= i <= s.len()
{
    match sp_token(s, i) {
        Sp::Done { v: t, next: j } => {
            if i < j <= s.len() {
                sp_token_list(s, j, acc.push(t))
            } else {
                Sp::Done { v: acc, next: i }
            }
        },
        Sp::Miss { e: _ } => Sp::Done { v: acc, next: i },
        Sp::Halt { e } => Sp::Halt { e },
    }
}

/// Further `| token_list` alternatives after the first one.
pub open spec fn sp_template_rest(s: Seq<char>, i: int, acc: Seq<Seq<TokenV>>) -> Sp<
    Seq<Seq<TokenV>>,
>
    decreases s.len() - i, 4int
    when 0 <= i <= s.len()
{
    if i < s.len() && s[i] == '|' {
        match sp_token_list(s, i + 1, Seq::empty()) {
            Sp::Done { v: l, next: m } => {
                if i < m <= s.len() {
                    sp_template_rest(s, m, acc.push(l))
                } else {
                    Sp::Done { v: acc, next: i }
                }
            },
            Sp::Miss { e } => Sp::Done { v: acc, next: i },
            Sp::Halt { e } => Sp::Halt { e },
        }
    } else {
        Sp::Done { v: acc, next: i }
    }
}

/// A whole template: `|`-separated alternatives.  Empty input yields one
/// empty alternative.
pub open spec fn sp_template(s: Seq<char>, i: int) -> Sp<Seq<Seq<TokenV>>>
    decreases s.len() - i, 5int
    when 0 <= i <= s.len()
{
    match sp_token_list(s, i, Seq::empty()) {
        Sp::Done { v: l0, next: j } => {
            if i <= j <= s.len() {
                sp_template_rest(s, j, seq![l0])
            } else {
                Sp::Done { v: seq![l0], next: j }
            }
        },
        Sp::Miss { e } => Sp::Miss { e },
        Sp::Halt { e } => Sp::Halt { e },
    }
}

} // verus!
