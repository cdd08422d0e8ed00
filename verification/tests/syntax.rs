use htmxpress::attrs::HtmxMethod;
use htmxpress::derive::Attribute;
use htmxpress::expr::{Expr, MapExpr};
use htmxpress::format::FormatParams;
use htmxpress::syntax::{
    extract_list_and_args, is_text, parse_annotations, parse_dyn_attr, parse_expr, parse_format,
    parse_htmx_request, parse_hx_attrs, parse_name_values, parse_str, read_expr, read_format_args,
    read_key_values, read_method, read_name_values, read_single_str, Annotation, Data,
    DeriveInput, FieldInput, Meta, Token,
};
use htmxpress::validate::SchemaError;

fn s(text: &str) -> String {
    text.to_string()
}

fn lit(text: &str) -> Token {
    Token::Str(s(text))
}

fn id(name: &str) -> Token {
    Token::Ident(s(name))
}

fn p(c: char) -> Token {
    Token::Punct(c)
}

fn attr(name: &str, tokens: Vec<Token>) -> Annotation {
    Annotation {
        name: Some(s(name)),
        meta: Meta::List(tokens),
    }
}

fn word(name: &str) -> Annotation {
    Annotation {
        name: Some(s(name)),
        meta: Meta::Path,
    }
}

fn assigned(name: &str) -> Annotation {
    Annotation {
        name: Some(s(name)),
        meta: Meta::NameValue,
    }
}

fn pair(a: &str, b: &str) -> (String, String) {
    (s(a), s(b))
}

#[test]
fn text_is_compared_as_a_whole() {
    assert!(is_text(&s("attr"), "attr"));
    assert!(!is_text(&s("attr"), "attrs"));
    assert!(!is_text(&s("attrs"), "attr"));
    assert!(!is_text(&s(""), "x"));
    assert!(is_text(&s(""), ""));
}

#[test]
fn punctuation_is_told_apart() {
    assert!(p(',').is(','));
    assert!(!p(',').is('='));
    assert!(!id(",").is(','));
    assert!(!lit(",").is(','));
    assert!(!Token::Other.is(','));
}

#[test]
fn single_string_is_read() {
    assert_eq!(read_single_str(&vec![lit("div")]), Some(s("div")));
    assert_eq!(read_single_str(&vec![lit("")]), Some(s("")));
    assert_eq!(read_single_str(&vec![]), None);
    assert_eq!(read_single_str(&vec![id("div")]), None);
    assert_eq!(read_single_str(&vec![lit("a"), lit("b")]), None);
    assert_eq!(read_single_str(&vec![lit("a"), p(',')]), None);
}

#[test]
fn format_arguments_are_read() {
    let tokens = vec![lit("/{}/{}"), p(','), id("a"), p(','), id("b")];
    assert_eq!(read_format_args(&tokens, 1), Some(vec![s("a"), s("b")]));
    assert_eq!(read_format_args(&tokens, 3), Some(vec![s("b")]));
    assert_eq!(read_format_args(&tokens, 5), Some(vec![]));
    // a comma must come first
    assert_eq!(read_format_args(&tokens, 2), None);
    assert_eq!(read_format_args(&tokens, 0), None);
}

#[test]
fn format_arguments_may_end_in_a_comma() {
    let tokens = vec![p(','), id("a"), p(',')];
    assert_eq!(read_format_args(&tokens, 0), Some(vec![s("a")]));
    assert_eq!(read_format_args(&vec![p(',')], 0), Some(vec![]));
    assert_eq!(read_format_args(&vec![p(','), p(',')], 0), None);
    assert_eq!(read_format_args(&vec![p(','), lit("a")], 0), None);
    assert_eq!(read_format_args(&vec![p(','), id("a"), id("b")], 0), None);
}

#[test]
fn format_expression_is_parsed() {
    let tokens = vec![lit("/somewhere/{}"), p(','), id("some_property")];
    let parsed = FormatParams::parse(&tokens, 0).unwrap();
    assert_eq!(parsed.fmt, "/somewhere/{}");
    assert_eq!(parsed.args, vec![s("some_property")]);
    let alone = FormatParams::parse(&vec![lit("/elsewhere")], 0).unwrap();
    assert_eq!(alone.fmt, "/elsewhere");
    assert!(alone.args.is_empty());
    assert!(FormatParams::parse(&vec![], 0).is_none());
    assert!(FormatParams::parse(&vec![id("x")], 0).is_none());
    assert!(FormatParams::parse(&vec![lit("a"), id("x")], 0).is_none());
    assert!(FormatParams::parse(&tokens, 3).is_none());
}

#[test]
fn key_values_are_read() {
    let tokens = vec![
        lit("target"),
        p('='),
        lit("something"),
        p(','),
        lit("swap"),
        p('='),
        lit("innerHtml"),
    ];
    assert_eq!(
        read_key_values(&tokens),
        Some(vec![pair("target", "something"), pair("swap", "innerHtml")])
    );
    assert_eq!(read_key_values(&vec![]), Some(vec![]));
}

#[test]
fn key_values_take_a_comma_or_none() {
    let without = vec![lit("a"), p('='), lit("1"), lit("b"), p('='), lit("2")];
    assert_eq!(
        read_key_values(&without),
        Some(vec![pair("a", "1"), pair("b", "2")])
    );
    let trailing = vec![lit("a"), p('='), lit("1"), p(',')];
    assert_eq!(read_key_values(&trailing), Some(vec![pair("a", "1")]));
}

#[test]
fn key_values_must_be_string_pairs() {
    assert_eq!(read_key_values(&vec![lit("a")]), None);
    assert_eq!(read_key_values(&vec![lit("a"), p('=')]), None);
    assert_eq!(read_key_values(&vec![id("a"), p('='), lit("1")]), None);
    assert_eq!(read_key_values(&vec![lit("a"), p('='), id("x")]), None);
    assert_eq!(read_key_values(&vec![lit("a"), p(','), lit("1")]), None);
    assert_eq!(read_key_values(&vec![p(',')]), None);
    assert_eq!(
        read_key_values(&vec![lit("a"), p('='), lit("1"), p(','), p(',')]),
        None
    );
}

#[test]
fn name_values_are_read() {
    let tokens = vec![
        id("id"),
        p('='),
        lit("child"),
        p(','),
        id("class"),
        p('='),
        lit("child-class"),
    ];
    assert_eq!(
        read_name_values(&tokens),
        Some(vec![pair("id", "child"), pair("class", "child-class")])
    );
    assert_eq!(read_name_values(&vec![]), Some(vec![]));
    let trailing = vec![id("id"), p('='), lit("x"), p(',')];
    assert_eq!(read_name_values(&trailing), Some(vec![pair("id", "x")]));
}

#[test]
fn name_values_need_commas_between() {
    let without = vec![id("a"), p('='), lit("1"), id("b"), p('='), lit("2")];
    assert_eq!(read_name_values(&without), None);
    assert_eq!(read_name_values(&vec![lit("a"), p('='), lit("1")]), None);
    assert_eq!(read_name_values(&vec![id("a"), p('='), id("b")]), None);
    assert_eq!(read_name_values(&vec![id("a"), p('=')]), None);
    assert_eq!(read_name_values(&vec![p(',')]), None);
}

#[test]
fn methods_are_told_by_name() {
    assert_eq!(read_method(&s("hx_get")), Some(HtmxMethod::Get));
    assert_eq!(read_method(&s("hx_post")), Some(HtmxMethod::Post));
    assert_eq!(read_method(&s("hx_put")), Some(HtmxMethod::Put));
    assert_eq!(read_method(&s("hx_patch")), Some(HtmxMethod::Patch));
    assert_eq!(read_method(&s("hx_delete")), Some(HtmxMethod::Delete));
    assert_eq!(read_method(&s("hx")), None);
    assert_eq!(read_method(&s("hx_head")), None);
    assert_eq!(read_method(&s("get")), None);
}

fn call(on: &str, method: &str) -> Vec<Token> {
    vec![id(on), p('.'), id(method), p('('), p(')')]
}

#[test]
fn expressions_are_read() {
    assert!(matches!(read_expr(&vec![id("v")], 0), Some(Expr::Var(name)) if name == "v"));
    match read_expr(&call("v", "is_empty"), 0) {
        Some(Expr::IsEmpty(inner)) => assert!(matches!(*inner, Expr::Var(name) if name == "v")),
        other => panic!("{:?}", other),
    }
    match read_expr(&call("v", "len"), 0) {
        Some(Expr::Len(inner)) => assert!(matches!(*inner, Expr::Var(name) if name == "v")),
        other => panic!("{:?}", other),
    }
}

#[test]
fn negation_binds_weaker_than_a_call() {
    let mut tokens = vec![p('!')];
    tokens.extend(call("v", "is_empty"));
    match read_expr(&tokens, 0) {
        Some(Expr::Not(inner)) => assert!(matches!(*inner, Expr::IsEmpty(_))),
        other => panic!("{:?}", other),
    }
    let twice = vec![p('!'), p('!'), id("v")];
    match read_expr(&twice, 0) {
        Some(Expr::Not(inner)) => assert!(matches!(*inner, Expr::Not(_))),
        other => panic!("{:?}", other),
    }
}

#[test]
fn calls_are_chained_from_the_left() {
    let mut tokens = call("v", "len");
    tokens.extend(vec![p('.'), id("is_empty"), p('('), p(')')]);
    match read_expr(&tokens, 0) {
        Some(Expr::IsEmpty(inner)) => assert!(matches!(*inner, Expr::Len(_))),
        other => panic!("{:?}", other),
    }
}

#[test]
fn other_expressions_are_refused() {
    assert!(read_expr(&vec![], 0).is_none());
    assert!(read_expr(&vec![p('!')], 0).is_none());
    assert!(read_expr(&vec![lit("v")], 0).is_none());
    assert!(read_expr(&call("v", "trim"), 0).is_none());
    assert!(read_expr(&vec![id("v"), p('.'), id("len")], 0).is_none());
    assert!(read_expr(&vec![id("v"), p('.'), id("len"), p('('), id("x"), p(')')], 0).is_none());
    assert!(read_expr(&vec![id("v"), id("w")], 0).is_none());
}

#[test]
fn map_expression_is_parsed() {
    let mut tokens = vec![id("var"), p('='), p('>')];
    tokens.extend(call("var", "is_empty"));
    let parsed = MapExpr::parse(&tokens).unwrap();
    assert_eq!(parsed.var, "var");
    assert!(matches!(parsed.expr, Expr::IsEmpty(_)));
    assert!(parsed.expr.is_closed_over(&parsed.var));
    assert!(MapExpr::parse(&vec![id("var"), p('='), p('>')]).is_none());
    assert!(MapExpr::parse(&vec![id("var"), p('='), id("var")]).is_none());
    assert!(MapExpr::parse(&vec![lit("var"), p('='), p('>'), id("var")]).is_none());
    assert!(MapExpr::parse(&vec![id("var")]).is_none());
    assert!(MapExpr::parse(&vec![]).is_none());
}

#[test]
fn list_and_name_are_extracted() {
    let annotation = attr("hx_get", vec![lit("/x")]);
    let (list, ident) = extract_list_and_args(&annotation).unwrap();
    assert_eq!(list.len(), 1);
    assert_eq!(ident, "hx_get");
    assert_eq!(
        extract_list_and_args(&word("hx_get")).unwrap_err(),
        SchemaError::ExpectedList
    );
    let nameless = Annotation {
        name: None,
        meta: Meta::List(vec![]),
    };
    assert_eq!(
        extract_list_and_args(&nameless).unwrap_err(),
        SchemaError::ExpectedList
    );
}

#[test]
fn string_annotation_is_parsed() {
    assert_eq!(parse_str(&attr("element", vec![lit("div")])), Ok(s("div")));
    assert_eq!(
        parse_str(&word("element")),
        Err(SchemaError::ExpectedList)
    );
    assert_eq!(
        parse_str(&assigned("element")),
        Err(SchemaError::ExpectedList)
    );
    assert_eq!(
        parse_str(&attr("element", vec![id("div")])),
        Err(SchemaError::ExpectedStr)
    );
    assert_eq!(
        parse_str(&attr("element", vec![])),
        Err(SchemaError::ExpectedStr)
    );
}

#[test]
fn format_annotation_is_parsed() {
    let parsed = parse_format(&attr("format", vec![lit("{} {}"), p(','), id("two")])).unwrap();
    assert_eq!(parsed.fmt, "{} {}");
    assert_eq!(parsed.args, vec![s("two")]);
    assert_eq!(
        parse_format(&word("format")).unwrap_err(),
        SchemaError::ExpectedList
    );
    assert_eq!(
        parse_format(&attr("format", vec![id("x")])).unwrap_err(),
        SchemaError::ExpectedFormat
    );
}

#[test]
fn map_annotation_is_parsed() {
    let mut tokens = vec![id("v"), p('='), p('>'), p('!')];
    tokens.extend(call("v", "is_empty"));
    let parsed = parse_expr(&attr("map", tokens)).unwrap();
    assert_eq!(parsed.var, "v");
    assert!(matches!(parsed.expr, Expr::Not(_)));
    assert_eq!(
        parse_expr(&word("map")).unwrap_err(),
        SchemaError::ExpectedList
    );
    assert_eq!(
        parse_expr(&attr("map", vec![id("v")])).unwrap_err(),
        SchemaError::ExpectedExpr
    );
}

#[test]
fn hx_annotation_is_parsed() {
    assert_eq!(
        parse_hx_attrs(&attr("hx", vec![lit("push-url"), p('='), lit("hello")])),
        Ok(vec![pair("hx-push-url", "hello")])
    );
    assert_eq!(
        parse_hx_attrs(&attr(
            "hx",
            vec![
                lit("target"),
                p('='),
                lit("something"),
                p(','),
                lit("swap"),
                p('='),
                lit("innerHtml"),
            ]
        )),
        Ok(vec![
            pair("hx-target", "something"),
            pair("hx-swap", "innerHtml")
        ])
    );
    assert_eq!(parse_hx_attrs(&attr("hx", vec![])), Ok(vec![]));
    assert_eq!(
        parse_hx_attrs(&word("hx")),
        Err(SchemaError::ExpectedList)
    );
    assert_eq!(
        parse_hx_attrs(&attr("hx", vec![id("target"), p('='), lit("x")])),
        Err(SchemaError::ExpectedKeyValues)
    );
}

#[test]
fn attrs_annotation_is_parsed() {
    assert_eq!(
        parse_name_values(&attr("attrs", vec![id("id"), p('='), lit("foo")])),
        Ok(vec![pair("id", "foo")])
    );
    assert_eq!(
        parse_name_values(&word("attrs")),
        Err(SchemaError::ExpectedList)
    );
    assert_eq!(
        parse_name_values(&attr("attrs", vec![lit("id"), p('='), lit("foo")])),
        Err(SchemaError::ExpectedNameValues)
    );
}

#[test]
fn attr_annotation_is_parsed() {
    let parsed = parse_dyn_attr(&attr(
        "attr",
        vec![lit("id"), p('='), lit("keepit{}"), p(','), id("n")],
    ))
    .unwrap();
    assert_eq!(parsed.key, "id");
    assert_eq!(parsed.params.fmt, "keepit{}");
    assert_eq!(parsed.params.args, vec![s("n")]);
    assert_eq!(
        parse_dyn_attr(&word("attr")).unwrap_err(),
        SchemaError::ExpectedList
    );
    for bad in [
        vec![],
        vec![lit("id")],
        vec![lit("id"), p('=')],
        vec![id("id"), p('='), lit("x")],
        vec![lit("id"), p(','), lit("x")],
        vec![lit("id"), p('='), id("x")],
    ] {
        assert_eq!(
            parse_dyn_attr(&attr("attr", bad)).unwrap_err(),
            SchemaError::ExpectedDynAttr
        );
    }
}

#[test]
fn request_annotation_is_parsed() {
    let (method, params) =
        parse_htmx_request(&attr("hx_delete", vec![lit("/{}"), p(','), id("id")])).unwrap();
    assert_eq!(method, HtmxMethod::Delete);
    assert_eq!(params.fmt, "/{}");
    assert_eq!(params.args, vec![s("id")]);
    assert_eq!(
        parse_htmx_request(&word("hx_get")).unwrap_err(),
        SchemaError::ExpectedList
    );
    assert_eq!(
        parse_htmx_request(&attr("hx_head", vec![lit("/")])).unwrap_err(),
        SchemaError::UnknownMethod
    );
    assert_eq!(
        parse_htmx_request(&attr("hx_get", vec![id("x")])).unwrap_err(),
        SchemaError::ExpectedFormat
    );
}

#[test]
fn each_annotation_parses_to_its_declaration() {
    assert!(matches!(
        attr("element", vec![lit("p")]).parse(),
        Ok(Some(Attribute::Element(t))) if t == "p"
    ));
    assert!(matches!(
        attr("default", vec![lit("d")]).parse(),
        Ok(Some(Attribute::Default(t))) if t == "d"
    ));
    assert!(matches!(
        attr("before", vec![lit("b")]).parse(),
        Ok(Some(Attribute::Before(t))) if t == "b"
    ));
    assert!(matches!(
        attr("after", vec![lit("a")]).parse(),
        Ok(Some(Attribute::After(t))) if t == "a"
    ));
    assert!(matches!(
        attr("format", vec![lit("{}")]).parse(),
        Ok(Some(Attribute::Format(f))) if f.fmt == "{}" && f.args.is_empty()
    ));
    assert!(matches!(
        attr("attrs", vec![id("id"), p('='), lit("x")]).parse(),
        Ok(Some(Attribute::Attrs(pairs))) if pairs == vec![pair("id", "x")]
    ));
    assert!(matches!(
        attr("attr", vec![lit("id"), p('='), lit("x")]).parse(),
        Ok(Some(Attribute::Attr(d))) if d.key == "id" && d.params.fmt == "x"
    ));
    assert!(matches!(
        attr("hx", vec![lit("swap"), p('='), lit("none")]).parse(),
        Ok(Some(Attribute::Hx(pairs))) if pairs == vec![pair("hx-swap", "none")]
    ));
    assert!(matches!(
        attr("hx_patch", vec![lit("/x")]).parse(),
        Ok(Some(Attribute::Request(HtmxMethod::Patch, f))) if f.fmt == "/x"
    ));
    assert!(matches!(
        attr("map", vec![id("v"), p('='), p('>'), id("v")]).parse(),
        Ok(Some(Attribute::Mapped(m))) if m.var == "v"
    ));
    assert!(matches!(word("urlencode").parse(), Ok(Some(Attribute::Urlencode))));
    assert!(matches!(word("nest").parse(), Ok(Some(Attribute::Nest))));
    assert!(matches!(word("list").parse(), Ok(Some(Attribute::List))));
    assert!(matches!(
        attr("list", vec![id("nest")]).parse(),
        Ok(Some(Attribute::ListNest))
    ));
}

#[test]
fn other_annotations_are_ignored() {
    assert!(matches!(word("derive").parse(), Ok(None)));
    assert!(matches!(attr("doc", vec![id("anything")]).parse(), Ok(None)));
    assert!(matches!(assigned("doc").parse(), Ok(None)));
    let nameless = Annotation {
        name: None,
        meta: Meta::List(vec![id("x")]),
    };
    assert!(matches!(nameless.parse(), Ok(None)));
}

#[test]
fn list_takes_nothing_or_nest() {
    for bad in [
        attr("list", vec![]),
        attr("list", vec![id("nested")]),
        attr("list", vec![lit("nest")]),
        attr("list", vec![id("nest"), p(',')]),
        assigned("list"),
    ] {
        assert_eq!(bad.parse().unwrap_err(), SchemaError::InvalidList);
    }
}

#[test]
fn badly_written_annotations_are_refused() {
    assert_eq!(word("element").parse().unwrap_err(), SchemaError::ExpectedList);
    assert_eq!(
        attr("default", vec![]).parse().unwrap_err(),
        SchemaError::ExpectedStr
    );
    assert_eq!(
        attr("format", vec![]).parse().unwrap_err(),
        SchemaError::ExpectedFormat
    );
    assert_eq!(
        attr("attrs", vec![id("a")]).parse().unwrap_err(),
        SchemaError::ExpectedNameValues
    );
    assert_eq!(
        attr("attr", vec![lit("a")]).parse().unwrap_err(),
        SchemaError::ExpectedDynAttr
    );
    assert_eq!(
        attr("hx", vec![lit("a")]).parse().unwrap_err(),
        SchemaError::ExpectedKeyValues
    );
    assert_eq!(
        attr("hx_get", vec![]).parse().unwrap_err(),
        SchemaError::ExpectedFormat
    );
    assert_eq!(
        attr("map", vec![]).parse().unwrap_err(),
        SchemaError::ExpectedExpr
    );
}

#[test]
fn annotations_are_parsed_in_order() {
    let raw = vec![
        word("derive"),
        attr("element", vec![lit("p")]),
        attr("doc", vec![]),
        word("urlencode"),
        attr("after", vec![lit("!")]),
    ];
    let parsed = parse_annotations(&raw).unwrap();
    assert_eq!(parsed.len(), 3);
    assert!(matches!(&parsed[0], Attribute::Element(t) if t == "p"));
    assert!(matches!(&parsed[1], Attribute::Urlencode));
    assert!(matches!(&parsed[2], Attribute::After(t) if t == "!"));
    assert!(parse_annotations(&vec![]).unwrap().is_empty());
}

#[test]
fn first_badly_written_annotation_is_reported() {
    let raw = vec![
        attr("element", vec![lit("p")]),
        attr("hx", vec![lit("a")]),
        word("format"),
    ];
    assert_eq!(
        parse_annotations(&raw).unwrap_err(),
        SchemaError::ExpectedKeyValues
    );
}

fn field(name: Option<&str>, ty: Option<&str>, attrs: Vec<Annotation>) -> FieldInput {
    FieldInput {
        ident: name.map(s),
        ty: ty.map(s),
        attrs,
        nested: None,
    }
}

#[test]
fn field_is_optional_by_its_type() {
    let parsed = field(Some("a"), Some("Option"), vec![]).parse().unwrap();
    assert_eq!(parsed.ident, "a");
    assert!(parsed.optional);
    assert!(parsed.nested.is_none());
    assert!(!field(Some("a"), Some("String"), vec![]).parse().unwrap().optional);
    assert!(!field(Some("a"), Some("option"), vec![]).parse().unwrap().optional);
    assert!(!field(Some("a"), None, vec![]).parse().unwrap().optional);
}

#[test]
fn field_needs_a_name() {
    assert_eq!(
        field(None, Some("String"), vec![word("element")])
            .parse()
            .unwrap_err(),
        SchemaError::UnnamedField
    );
}

#[test]
fn only_record_types_are_parsed() {
    let other = DeriveInput {
        attrs: vec![attr("element", vec![lit("div")])],
        data: Data::Other,
    };
    assert_eq!(other.parse().unwrap_err(), SchemaError::NotAStruct);
    let badly_annotated = DeriveInput {
        attrs: vec![word("element")],
        data: Data::Other,
    };
    assert_eq!(
        badly_annotated.parse().unwrap_err(),
        SchemaError::ExpectedList
    );
}

#[test]
fn type_is_parsed_with_its_fields() {
    let inner = DeriveInput {
        attrs: vec![attr("element", vec![lit("li")])],
        data: Data::Struct(vec![field(Some("x"), Some("u8"), vec![])]),
    };
    let input = DeriveInput {
        attrs: vec![word("derive"), attr("element", vec![lit("ul")])],
        data: Data::Struct(vec![
            field(Some("a"), Some("String"), vec![attr("element", vec![lit("p")])]),
            FieldInput {
                ident: Some(s("items")),
                ty: Some(s("Vec")),
                attrs: vec![attr("list", vec![id("nest")])],
                nested: Some(inner),
            },
        ]),
    };
    let parsed = input.parse().unwrap();
    assert_eq!(parsed.attrs.len(), 1);
    assert_eq!(parsed.fields.len(), 2);
    assert_eq!(parsed.fields[0].ident, "a");
    assert_eq!(parsed.fields[1].ident, "items");
    assert!(matches!(parsed.fields[1].attrs[0], Attribute::ListNest));
    let nested = parsed.fields[1].nested.as_ref().unwrap();
    assert_eq!(nested.fields[0].ident, "x");
}

#[test]
fn first_badly_written_field_is_reported() {
    let inner = DeriveInput {
        attrs: vec![],
        data: Data::Other,
    };
    let input = DeriveInput {
        attrs: vec![],
        data: Data::Struct(vec![
            field(Some("a"), Some("String"), vec![]),
            FieldInput {
                ident: Some(s("b")),
                ty: Some(s("B")),
                attrs: vec![word("nest")],
                nested: Some(inner),
            },
            field(None, None, vec![]),
        ]),
    };
    assert_eq!(input.parse().unwrap_err(), SchemaError::NotAStruct);
}
