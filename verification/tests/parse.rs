use template_parse::parse_arg;
use template_parse::parse_args;
use template_parse::parse_format_template;
use template_parse::parse_formatter;
use template_parse::parse_full;
use template_parse::parse_icon;
use template_parse::parse_placeholder;
use template_parse::parse_token_list;
use template_parse::Arg;
use template_parse::ErrorDetail;
use template_parse::FormatTemplate;
use template_parse::Formatter;
use template_parse::ParseError;
use template_parse::Placeholder;
use template_parse::TemplateError;
use template_parse::Token;
use template_parse::TokenList;

fn s(x: &str) -> String {
    x.to_string()
}

fn mk_arg(k: &str, v: Option<&str>) -> Arg {
    Arg {
        key: s(k),
        val: v.map(|x| s(x)),
    }
}

#[test]
fn arg() {
    assert_eq!(parse_arg("key:val,"), Ok((s(","), mk_arg("key", Some("val")))));
    assert_eq!(
        parse_arg("key:'val ue',"),
        Ok((s(","), mk_arg("key", Some("val ue"))))
    );
    assert_eq!(parse_arg("key:'',"), Ok((s(","), mk_arg("key", Some("")))));
    assert_eq!(parse_arg("key,"), Ok((s(","), mk_arg("key", None))));
    assert_eq!(
        parse_arg("key:,"),
        Err(ParseError::Committed(ErrorDetail::Expected {
            expected: '\'',
            actual: Some(',')
        }))
    );
}

#[test]
fn args() {
    assert_eq!(
        parse_args("(key:val)"),
        Ok((s(""), vec![mk_arg("key", Some("val"))]))
    );
    assert_eq!(
        parse_args("( abc:d , key:val )"),
        Ok((s(""), vec![mk_arg("abc", Some("d")), mk_arg("key", Some("val"))]))
    );
    assert_eq!(parse_args("(abc)"), Ok((s(""), vec![mk_arg("abc", None)])));
    assert_eq!(
        parse_args("( key:, )"),
        Err(ParseError::Committed(ErrorDetail::Expected {
            expected: '\'',
            actual: Some(',')
        }))
    );
}

#[test]
fn formatter() {
    assert_eq!(
        parse_formatter(".str(key:val)"),
        Ok((
            s(""),
            Formatter {
                name: s("str"),
                args: vec![mk_arg("key", Some("val"))]
            }
        ))
    );
    assert_eq!(
        parse_formatter(".eng(w:3 , show:true )"),
        Ok((
            s(""),
            Formatter {
                name: s("eng"),
                args: vec![mk_arg("w", Some("3")), mk_arg("show", Some("true"))]
            }
        ))
    );
    assert_eq!(
        parse_formatter(".eng(w:3 , show)"),
        Ok((
            s(""),
            Formatter {
                name: s("eng"),
                args: vec![mk_arg("w", Some("3")), mk_arg("show", None)]
            }
        ))
    );
}

#[test]
fn placeholder() {
    assert_eq!(
        parse_placeholder("$key"),
        Ok((
            s(""),
            Placeholder {
                name: s("key"),
                formatter: None,
            }
        ))
    );
    assert_eq!(
        parse_placeholder("$var.str()"),
        Ok((
            s(""),
            Placeholder {
                name: s("var"),
                formatter: Some(Formatter {
                    name: s("str"),
                    args: vec![]
                }),
            }
        ))
    );
    assert_eq!(
        parse_placeholder("$var.str(a:b, c:d)"),
        Ok((
            s(""),
            Placeholder {
                name: s("var"),
                formatter: Some(Formatter {
                    name: s("str"),
                    args: vec![mk_arg("a", Some("b")), mk_arg("c", Some("d"))]
                }),
            }
        ))
    );
    assert!(parse_placeholder("$key.").is_err());
}

#[test]
fn icon() {
    assert_eq!(parse_icon("^icon_my_icon"), Ok((s(""), s("my_icon"))));
    assert_eq!(parse_icon("^icon_m"), Ok((s(""), s("m"))));
    assert!(parse_icon("^icon_").is_err());
    assert!(parse_icon("^2").is_err());
}

#[test]
fn token_list() {
    assert_eq!(
        parse_token_list(" abc \\$ $var.str(a:b)$x "),
        Ok((
            s(""),
            TokenList(vec![
                Token::Text(s(" abc $ ")),
                Token::Placeholder(Placeholder {
                    name: s("var"),
                    formatter: Some(Formatter {
                        name: s("str"),
                        args: vec![mk_arg("a", Some("b"))]
                    })
                }),
                Token::Placeholder(Placeholder {
                    name: s("x"),
                    formatter: None,
                }),
                Token::Text(s(" "))
            ])
        ))
    );
}

#[test]
fn format_template() {
    assert_eq!(
        parse_format_template("simple"),
        Ok((
            s(""),
            FormatTemplate(vec![TokenList(vec![Token::Text(s("simple"))])])
        ))
    );
    assert_eq!(
        parse_format_template(" $x.str() | N/A "),
        Ok((
            s(""),
            FormatTemplate(vec![
                TokenList(vec![
                    Token::Text(s(" ")),
                    Token::Placeholder(Placeholder {
                        name: s("x"),
                        formatter: Some(Formatter {
                            name: s("str"),
                            args: vec![]
                        })
                    }),
                    Token::Text(s(" ")),
                ]),
                TokenList(vec![Token::Text(s(" N/A "))]),
            ])
        ))
    );
}

#[test]
fn full() {
    assert_eq!(
        parse_format_template(" ^icon_my_icon {$x.str()|N/A} "),
        Ok((
            s(""),
            FormatTemplate(vec![TokenList(vec![
                Token::Text(s(" ")),
                Token::Icon(s("my_icon")),
                Token::Text(s(" ")),
                Token::Recursive(FormatTemplate(vec![
                    TokenList(vec![Token::Placeholder(Placeholder {
                        name: s("x"),
                        formatter: Some(Formatter {
                            name: s("str"),
                            args: vec![]
                        })
                    })]),
                    TokenList(vec![Token::Text(s("N/A"))]),
                ])),
                Token::Text(s(" ")),
            ])])
        ))
    );
}

#[test]
fn empty_template_is_one_empty_alternative() {
    assert_eq!(
        parse_full(""),
        Ok(FormatTemplate(vec![TokenList(vec![])]))
    );
}

#[test]
fn full_consumption_reports_trailing() {
    assert_eq!(
        parse_full("{a}}"),
        Err(TemplateError::Trailing { found: '}' })
    );
}

#[test]
fn full_reports_committed_failure() {
    assert_eq!(
        parse_full("$key."),
        Err(TemplateError::Failed { at: 5 })
    );
    assert_eq!(
        parse_full("{a"),
        Err(TemplateError::Expected {
            expected: '}',
            actual: None
        })
    );
    assert!(parse_full("^icon_").is_err());
    assert!(parse_full("^2").is_err());
}

#[test]
fn plain_text_round_trips() {
    assert_eq!(
        parse_full("hello, world!"),
        Ok(FormatTemplate(vec![TokenList(vec![Token::Text(s(
            "hello, world!"
        ))])]))
    );
}

#[test]
fn escaped_char_round_trips() {
    assert_eq!(
        parse_full("\\$"),
        Ok(FormatTemplate(vec![TokenList(vec![Token::Text(s("$"))])]))
    );
    assert_eq!(
        parse_full("\\\\"),
        Ok(FormatTemplate(vec![TokenList(vec![Token::Text(s("\\"))])]))
    );
    assert_eq!(
        parse_full("a\\|b"),
        Ok(FormatTemplate(vec![TokenList(vec![Token::Text(s("a|b"))])]))
    );
}

#[test]
fn quote_exactness() {
    assert_eq!(
        parse_args("(k:'v')"),
        Ok((s(""), vec![mk_arg("k", Some("v"))]))
    );
    assert_eq!(parse_args("(k:'')"), Ok((s(""), vec![mk_arg("k", Some(""))])));
    assert_eq!(
        parse_args("(k:'a b c')"),
        Ok((s(""), vec![mk_arg("k", Some("a b c"))]))
    );
}

#[test]
fn alternative_count() {
    let t = parse_full("a|b|c").unwrap();
    assert_eq!(t.0.len(), 3);
    let t = parse_full("a\\|b").unwrap();
    assert_eq!(t.0.len(), 1);
    let t = parse_full("{a|b}").unwrap();
    assert_eq!(t.0.len(), 1);
    let t = parse_full("|").unwrap();
    assert_eq!(t.0, vec![TokenList(vec![]), TokenList(vec![])]);
}

#[test]
fn nesting_wraps_inner_template() {
    let inner = parse_full("$x|y").unwrap();
    let outer = parse_full("{$x|y}").unwrap();
    assert_eq!(
        outer,
        FormatTemplate(vec![TokenList(vec![Token::Recursive(inner)])])
    );
}

#[test]
fn unicode_identifiers_are_accepted() {
    assert_eq!(
        parse_placeholder("$caf\u{e9}"),
        Ok((
            s(""),
            Placeholder {
                name: s("caf\u{e9}"),
                formatter: None,
            }
        ))
    );
}

#[test]
fn trailing_comma_is_rejected() {
    assert_eq!(
        parse_args("(a, )"),
        Err(ParseError::Committed(ErrorDetail::Expected {
            expected: ')',
            actual: Some(',')
        }))
    );
}

#[test]
fn bare_value_characters() {
    assert_eq!(parse_arg("k:1.5%"), Ok((s(""), mk_arg("k", Some("1.5%")))));
}

#[test]
fn recoverable_errors_are_recoverable() {
    assert_eq!(
        parse_arg(":x"),
        Err(ParseError::Recoverable(ErrorDetail::NoMatch { at: 0 }))
    );
    assert_eq!(
        parse_formatter("x"),
        Err(ParseError::Recoverable(ErrorDetail::Expected {
            expected: '.',
            actual: Some('x')
        }))
    );
}

#[test]
fn non_letter_symbols_are_not_identifier_characters() {
    assert!(parse_placeholder("$+").is_err());
    assert!(parse_full("$\u{2022}").is_err());
    assert_eq!(
        parse_arg("k\u{2022}"),
        Ok((s("\u{2022}"), mk_arg("k", None)))
    );
}
