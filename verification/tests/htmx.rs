use htmxpress::record::{Field, FieldValue, Record};
use htmxpress::{derive_element, HtmxElement};
use htmxpress::syntax::{Annotation, Data, DeriveInput, FieldInput, Meta, Token};
use htmxpress::value::Value;

fn s(text: &str) -> String {
    text.to_string()
}

fn lit(text: &str) -> Token {
    Token::Str(s(text))
}

fn id(name: &str) -> Token {
    Token::Ident(s(name))
}

fn p(c: char) -> Token {
    Token::Punct(c)
}

/// `#[name(tokens)]`
fn attr(name: &str, tokens: Vec<Token>) -> Annotation {
    Annotation {
        name: Some(s(name)),
        meta: Meta::List(tokens),
    }
}

/// `#[name]`
fn word(name: &str) -> Annotation {
    Annotation {
        name: Some(s(name)),
        meta: Meta::Path,
    }
}

/// `name: ty`
fn field(name: &str, ty: &str, attrs: Vec<Annotation>) -> FieldInput {
    FieldInput {
        ident: Some(s(name)),
        ty: Some(s(ty)),
        attrs,
        nested: None,
    }
}

/// `name: ty`, where the type is that of records
fn nesting(name: &str, ty: &str, attrs: Vec<Annotation>, of: DeriveInput) -> FieldInput {
    FieldInput {
        ident: Some(s(name)),
        ty: Some(s(ty)),
        attrs,
        nested: Some(of),
    }
}

fn strct(attrs: Vec<Annotation>, fields: Vec<FieldInput>) -> DeriveInput {
    DeriveInput {
        attrs,
        data: Data::Struct(fields),
    }
}

fn text(value: &str) -> FieldValue {
    FieldValue::Scalar(Value::Str(s(value)))
}

fn record(fields: Vec<(&str, FieldValue)>) -> Record {
    Record {
        fields: fields
            .into_iter()
            .map(|(name, value)| Field {
                name: s(name),
                value,
            })
            .collect(),
    }
}

fn to_htmx(input: &DeriveInput, value: Record) -> String {
    let schema = derive_element(input.parse().unwrap()).unwrap();
    let element = schema.bind(value).unwrap();
    element.to_htmx()
}

#[test]
fn children_works() {
    let test_type = strct(
        vec![word("derive")],
        vec![field(
            "el",
            "String",
            vec![
                attr("element", vec![lit("p")]),
                attr("before", vec![lit("<span>Hello</span>")]),
                attr("after", vec![lit("<span>World</span>")]),
            ],
        )],
    );
    let test = record(vec![("el", text("My"))]);

    let html = r#"<p><span>Hello</span>My<span>World</span></p>"#;

    assert_eq!(html, to_htmx(&test_type, test));
}

#[test]
fn format_works() {
    let test_type = strct(
        vec![],
        vec![
            field(
                "one",
                "String",
                vec![
                    attr("element", vec![lit("p")]),
                    attr("format", vec![lit("{} {} three"), p(','), id("two")]),
                ],
            ),
            field("two", "String", vec![]),
        ],
    );
    let test = record(vec![("one", text("one")), ("two", text("two"))]);

    let html = r#"<p>one two three</p>"#;

    assert_eq!(html, to_htmx(&test_type, test));
}

#[test]
fn hx_works() {
    let parent_type = strct(
        vec![
            attr("element", vec![lit("div")]),
            attr(
                "hx_post",
                vec![lit("/somewhere/{}"), p(','), id("some_property")],
            ),
            attr("hx", vec![lit("push-url"), p('='), lit("hello")]),
        ],
        vec![
            field("some_property", "String", vec![]),
            field(
                "my_p",
                "String",
                vec![
                    attr("element", vec![lit("p")]),
                    attr(
                        "hx",
                        vec![
                            lit("target"),
                            p('='),
                            lit("something"),
                            p(','),
                            lit("swap"),
                            p('='),
                            lit("innerHtml"),
                        ],
                    ),
                    attr("hx_get", vec![lit("/somewhere/else")]),
                ],
            ),
        ],
    );
    let test = record(vec![("some_property", text("hello")), ("my_p", text("myp"))]);

    let html = r#"<div hx-push-url="hello" hx-post="/somewhere/hello"><p hx-target="something" hx-swap="innerHtml" hx-get="/somewhere/else">myp</p></div>"#;

    assert_eq!(html, to_htmx(&parent_type, test));
}

fn testicle_type() -> DeriveInput {
    strct(
        vec![attr("element", vec![lit("div")])],
        vec![field(
            "p",
            "String",
            vec![
                attr("element", vec![lit("p")]),
                attr("format", vec![lit("p {}")]),
            ],
        )],
    )
}

#[test]
fn list_works() {
    let test_type = strct(
        vec![
            attr("element", vec![lit("ul")]),
            attr("before", vec![lit("<h1>Hello</h2>")]),
        ],
        vec![
            field(
                "testi",
                "Vec",
                vec![word("list"), attr("element", vec![lit("li")])],
            ),
            nesting(
                "cles",
                "Vec",
                vec![attr("list", vec![id("nest")])],
                testicle_type(),
            ),
        ],
    );
    let test = record(vec![
        (
            "testi",
            FieldValue::List(vec![Value::Str(s("foo")), Value::Str(s("bar"))]),
        ),
        (
            "cles",
            FieldValue::NestedList(vec![
                record(vec![("p", text("p"))]),
                record(vec![("p", text("f"))]),
            ]),
        ),
    ]);

    let html = r#"<ul><h1>Hello</h2><li>foo</li><li>bar</li><div><p>p p</p></div><div><p>p f</p></div></ul>"#;

    assert_eq!(html, to_htmx(&test_type, test));
}

/// `var => var.is_empty()`
fn is_empty_of_var() -> Vec<Token> {
    vec![
        id("var"),
        p('='),
        p('>'),
        id("var"),
        p('.'),
        id("is_empty"),
        p('('),
        p(')'),
    ]
}

fn map_type(ty: &str) -> DeriveInput {
    strct(
        vec![attr("element", vec![lit("div")])],
        vec![field(
            "some_property",
            ty,
            vec![
                attr("element", vec![lit("p")]),
                attr("map", is_empty_of_var()),
                attr("format", vec![lit("empty: {}")]),
            ],
        )],
    )
}

#[test]
fn works_option() {
    let test = record(vec![(
        "some_property",
        FieldValue::Optional(Some(Value::Str(s("bar")))),
    )]);

    let html = r#"<div><p>empty: false</p></div>"#;

    assert_eq!(html, to_htmx(&map_type("Option"), test));
}

#[test]
fn map_works() {
    let test = record(vec![("some_property", text("foo"))]);

    let html = r#"<div><p>empty: false</p></div>"#;

    assert_eq!(html, to_htmx(&map_type("String"), test));

    let test = record(vec![("some_property", text(""))]);

    let html = r#"<div><p>empty: true</p></div>"#;

    assert_eq!(html, to_htmx(&map_type("String"), test));
}

#[test]
fn option_works() {
    let test_type = strct(
        vec![],
        vec![
            field("foo", "Option", vec![attr("element", vec![lit("p")])]),
            field(
                "bar",
                "Option",
                vec![
                    attr("element", vec![lit("p")]),
                    attr("format", vec![lit("bar: {}")]),
                ],
            ),
            field(
                "qux",
                "Option",
                vec![
                    attr("element", vec![lit("p")]),
                    attr("default", vec![lit("foo")]),
                ],
            ),
            field(
                "qua",
                "Option",
                vec![
                    attr("element", vec![lit("p")]),
                    attr("default", vec![lit("qua")]),
                    attr("format", vec![lit("{}ck")]),
                ],
            ),
        ],
    );
    let test = record(vec![
        ("foo", FieldValue::Optional(None)),
        ("bar", FieldValue::Optional(Some(Value::Int(420)))),
        ("qux", FieldValue::Optional(None)),
        ("qua", FieldValue::Optional(None)),
    ]);
    let html = r#"<p>bar: 420</p><p>foo</p><p>quack</p>"#;

    assert_eq!(html, to_htmx(&test_type, test))
}

#[test]
fn works_nested() {
    let child_type = strct(
        vec![],
        vec![field(
            "c",
            "Option",
            vec![
                attr("element", vec![lit("p")]),
                attr("format", vec![lit("c: {}")]),
                attr("default", vec![lit("foo")]),
            ],
        )],
    );
    let test_two_type = strct(
        vec![],
        vec![nesting("_foo", "Option", vec![word("nest")], child_type)],
    );
    let test = record(vec![(
        "_foo",
        FieldValue::OptionalNested(Some(record(vec![(
            "c",
            FieldValue::Optional(Some(Value::Str(s("s")))),
        )]))),
    )]);

    let html = r#"<p>c: s</p>"#;

    assert_eq!(html, to_htmx(&test_two_type, test))
}

#[test]
fn urlencode_works() {
    let test_type = strct(
        vec![
            attr("element", vec![lit("div")]),
            attr("hx_get", vec![lit("/foo?bar={}"), p(','), id("fo")]),
            word("urlencode"),
        ],
        vec![field(
            "fo",
            "String",
            vec![
                attr("element", vec![lit("p")]),
                attr("hx_get", vec![lit("/{}"), p(','), id("fo")]),
                word("urlencode"),
            ],
        )],
    );
    let test = record(vec![("fo", text("crazy param"))]);

    let html =
        r#"<div hx-get="/foo?bar=crazy%20param"><p hx-get="/crazy%20param">crazy param</p></div>"#;

    assert_eq!(html, to_htmx(&test_type, test))
}

#[test]
fn works_works() {
    let child_type = strct(
        vec![
            attr("element", vec![lit("div")]),
            attr(
                "attrs",
                vec![
                    id("id"),
                    p('='),
                    lit("child"),
                    p(','),
                    id("class"),
                    p('='),
                    lit("child-class"),
                ],
            ),
            attr("hx_get", vec![lit("/elsewhere")]),
        ],
        vec![field(
            "meaning_of_life",
            "usize",
            vec![
                attr("element", vec![lit("p")]),
                attr(
                    "attr",
                    vec![
                        lit("id"),
                        p('='),
                        lit("keepit{}"),
                        p(','),
                        id("meaning_of_life"),
                    ],
                ),
                attr("format", vec![lit("Always keep it {}")]),
            ],
        )],
    );
    let parent_type = strct(
        vec![
            attr("element", vec![lit("div")]),
            attr(
                "hx_post",
                vec![lit("/somewhere/{}"), p(','), id("some_property")],
            ),
        ],
        vec![
            field("some_property", "String", vec![]),
            field(
                "my_p",
                "String",
                vec![
                    attr("element", vec![lit("p")]),
                    attr("hx_get", vec![lit("/somewhere/else")]),
                    attr("format", vec![lit("I am a p! {}")]),
                ],
            ),
            nesting("child", "Child", vec![word("nest")], child_type),
        ],
    );
    let parent = record(vec![
        ("some_property", text("something")),
        ("my_p", text("Hello World!")),
        (
            "child",
            FieldValue::Nested(record(vec![(
                "meaning_of_life",
                FieldValue::Scalar(Value::Int(69)),
            )])),
        ),
    ]);

    let htmx = r#"<div hx-post="/somewhere/something"><p hx-get="/somewhere/else">I am a p! Hello World!</p><div id="child" class="child-class" hx-get="/elsewhere"><p id="keepit69">Always keep it 69</p></div></div>"#;

    println!("{}", to_htmx(&parent_type, record(vec![
        ("some_property", text("something")),
        ("my_p", text("Hello World!")),
        (
            "child",
            FieldValue::Nested(record(vec![(
                "meaning_of_life",
                FieldValue::Scalar(Value::Int(69)),
            )])),
        ),
    ])));
    assert_eq!(htmx, to_htmx(&parent_type, parent));
}
