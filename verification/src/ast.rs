//! The tree that a parsed template is made of, together with the
//! mathematical view of each node as sequences of characters.

use vstd::prelude::*;

verus! {

/// One `key` or `key:value` parameter of a formatter.
#[derive(Debug, PartialEq, Eq, Clone)]
pub struct Arg {
    pub key: String,
    pub val: Option<String>,
}

/// A formatting operation `.name(args...)` applied to a placeholder.
#[derive(Debug, PartialEq, Eq, Clone)]
pub struct Formatter {
    pub name: String,
    pub args: Vec<Arg>,
}

/// A value reference `$name` with an optional formatter.
#[derive(Debug, PartialEq, Eq, Clone)]
pub struct Placeholder {
    pub name: String,
    pub formatter: Option<Formatter>,
}

/// One unit inside an alternative: literal text (escapes already decoded),
/// a placeholder, an icon reference, or a nested template.
#[derive(Debug, PartialEq, Eq)]
pub enum Token {
    Text(String),
    Placeholder(Placeholder),
    Icon(String),
    Recursive(FormatTemplate),
}

/// One `|`-separated alternative: an ordered list of tokens.
#[derive(Debug, PartialEq, Eq)]
pub struct TokenList(pub Vec<Token>);

/// A whole template: a non-empty ordered list of alternatives.
#[derive(Debug, PartialEq, Eq)]
pub struct FormatTemplate(pub Vec<TokenList>);

/// Mathematical shape of an `Arg`.
pub ghost struct ArgV {
    pub key: Seq<char>,
    pub val: Option<Seq<char>>,
}

/// Mathematical shape of a `Formatter`.
pub ghost struct FormatterV {
    pub name: Seq<char>,
    pub args: Seq<ArgV>,
}

/// Mathematical shape of a `Placeholder`.
pub ghost struct PlaceholderV {
    pub name: Seq<char>,
    pub formatter: Option<FormatterV>,
}

/// Mathematical shape of a `Token`; a nested template is a sequence of
/// alternatives, each a sequence of tokens.
pub ghost enum TokenV {
    Text(Seq<char>),
    Placeholder(PlaceholderV),
    Icon(Seq<char>),
    Recursive(Seq<Seq<TokenV>>),
}

impl View for Arg {
    type V = ArgV;

    open spec fn view(&self) -> ArgV {
        ArgV {
            key: self.key@,
            val: match self.val {
                Option::Some(s) => Option::Some(s@),
                Option::None => Option::None,
            },
        }
    }
}

impl View for Formatter {
    type V = FormatterV;

    open spec fn view(&self) -> FormatterV {
        FormatterV { name: self.name@, args: self.args@.map_values(|a: Arg| a@) }
    }
}

impl View for Placeholder {
    type V = PlaceholderV;

    open spec fn view(&self) -> PlaceholderV {
        PlaceholderV {
            name: self.name@,
            formatter: match self.formatter {
                Option::Some(f) => Option::Some(f@),
                Option::None => Option::None,
            },
        }
    }
}

/// View of a token, decoding the whole subtree.
pub open spec fn token_view(t: Token) -> TokenV
    decreases t,
{
    match t {
        Token::Text(s) => TokenV::Text(s@),
        Token::Placeholder(p) => TokenV::Placeholder(p@),
        Token::Icon(s) => TokenV::Icon(s@),
        Token::Recursive(ft) => TokenV::Recursive(lists_view(ft.0@)),
    }
}

/// View of a sequence of tokens, element by element.
pub open spec fn tokens_view(ts: Seq<Token>) -> Seq<TokenV>
    decreases ts,
{
    if ts.len() == 0 {
        Seq::empty()
    } else {
        seq![token_view(ts[0])] + tokens_view(ts.drop_first())
    }
}

/// View of a sequence of alternatives, element by element.
pub open spec fn lists_view(ls: Seq<TokenList>) -> Seq<Seq<TokenV>>
    decreases ls,
{
    if ls.len() == 0 {
        Seq::empty()
    } else {
        seq![tokens_view(ls[0].0@)] + lists_view(ls.drop_first())
    }
}

impl View for Token {
    type V = TokenV;

    open spec fn view(&self) -> TokenV {
        token_view(*self)
    }
}

impl View for TokenList {
    type V = Seq<TokenV>;

    open spec fn view(&self) -> Seq<TokenV> {
        tokens_view(self.0@)
    }
}

impl View for FormatTemplate {
    type V = Seq<Seq<TokenV>>;

    open spec fn view(&self) -> Seq<Seq<TokenV>> {
        lists_view(self.0@)
    }
}

} // verus!

verus! {

/// Viewing a token sequence extended by one token appends that token's view.
pub proof fn lemma_tokens_view_push(ts: Seq<Token>, t: Token)
    ensures
        tokens_view(ts.push(t)) == tokens_view(ts).push(token_view(t)),
    decreases ts.len(),
{
    if ts.len() == 0 {
        assert(ts.push(t)[0] == t);
        assert(ts.push(t).drop_first() =~= Seq::<Token>::empty());
        assert(tokens_view(Seq::<Token>::empty()) == Seq::<TokenV>::empty());
        assert(tokens_view(ts.push(t)) =~= tokens_view(ts).push(token_view(t)));
    } else {
        lemma_tokens_view_push(ts.drop_first(), t);
        assert(ts.push(t)[0] == ts[0]);
        assert(ts.push(t).drop_first() =~= ts.drop_first().push(t));
        assert(tokens_view(ts.push(t)) =~= tokens_view(ts).push(token_view(t)));
    }
}

/// Viewing an alternative sequence extended by one list appends that list's view.
pub proof fn lemma_lists_view_push(ls: Seq<TokenList>, l: TokenList)
    ensures
        lists_view(ls.push(l)) == lists_view(ls).push(tokens_view(l.0@)),
    decreases ls.len(),
{
    if ls.len() == 0 {
        assert(ls.push(l)[0] == l);
        assert(ls.push(l).drop_first() =~= Seq::<TokenList>::empty());
        assert(lists_view(Seq::<TokenList>::empty()) == Seq::<Seq<TokenV>>::empty());
        assert(lists_view(ls.push(l)) =~= lists_view(ls).push(tokens_view(l.0@)));
    } else {
        lemma_lists_view_push(ls.drop_first(), l);
        assert(ls.push(l)[0] == ls[0]);
        assert(ls.push(l).drop_first() =~= ls.drop_first().push(l));
        assert(lists_view(ls.push(l)) =~= lists_view(ls).push(tokens_view(l.0@)));
    }
}

} // verus!
