//! The syntax of annotations: what the tokens of an annotation amount to.
use crate::attrs::{DynamicAttr, HtmxMethod};
use crate::derive::{Attribute, FieldDecl, Slot, StructDecl};
use crate::expr::{Expr, MapExpr};
use crate::format::FormatParams;
use crate::validate::{or_else, SchemaError};
use vstd::prelude::*;
use vstd::string::StringExecFns;

verus! {

/// One token of an annotation's arguments.
#[derive(Debug)]
pub enum Token {
    /// An identifier.
    Ident(String),
    /// A string literal, by the text that it stands for.
    Str(String),
    /// A punctuation character or a bracket.
    Punct(char),
    /// Any other token.
    Other,
}

impl Token {
    /// The token is the given punctuation character.
    pub open spec fn is_punct(&self, c: char) -> bool {
        *self == Token::Punct(c)
    }

    /// Says whether the token is the given punctuation character.
    pub fn is(&self, c: char) -> (ok: bool)
        ensures
            ok == self.is_punct(c),
    {
        match self {
            Token::Punct(p) => *p == c,
            _ => false,
        }
    }
}

/// The one string literal that the tokens consist of.
pub open spec fn single_str(t: Seq<Token>) -> Option<String> {
    if t.len() == 1 {
        match t[0] {
            Token::Str(s) => Some(s),
            _ => None,
        }
    } else {
        None
    }
}

/// The field names that follow a template: each after a comma, with one more
/// comma allowed at the end.
pub open spec fn format_args(t: Seq<Token>) -> Option<Seq<String>>
    decreases t.len(),
{
    if t.len() == 0 {
        Some(Seq::empty())
    } else if !t[0].is_punct(',') {
        None
    } else if t.len() == 1 {
        Some(Seq::empty())
    } else {
        match (t[1], format_args(t.skip(2))) {
            (Token::Ident(name), Some(more)) => Some(seq![name] + more),
            _ => None,
        }
    }
}

/// A format expression: a string literal for the template, then the field
/// names.
pub open spec fn format_params(t: Seq<Token>) -> Option<(String, Seq<String>)> {
    if t.len() == 0 {
        None
    } else {
        match (t[0], format_args(t.skip(1))) {
            (Token::Str(fmt), Some(args)) => Some((fmt, args)),
            _ => None,
        }
    }
}

/// Pairs of string literals, each written `"key" = "value"`, with a comma
/// allowed after each.
pub open spec fn key_values(t: Seq<Token>) -> Option<Seq<(String, String)>>
    decreases t.len(),
{
    if t.len() == 0 {
        Some(Seq::empty())
    } else if t.len() < 3 || !t[1].is_punct('=') {
        None
    } else {
        let rest = if t.len() >= 4 && t[3].is_punct(',') {
            t.skip(4)
        } else {
            t.skip(3)
        };
        match (t[0], t[2], key_values(rest)) {
            (Token::Str(key), Token::Str(value), Some(more)) => Some(seq![(key, value)] + more),
            _ => None,
        }
    }
}

/// Pairs of a name and a string literal, each written `name = "value"`, with
/// a comma between two of them and one more allowed at the end.
pub open spec fn name_values(t: Seq<Token>) -> Option<Seq<(String, String)>>
    decreases t.len(),
{
    if t.len() == 0 {
        Some(Seq::empty())
    } else if t.len() < 3 || !t[1].is_punct('=') {
        None
    } else {
        let more = if t.len() == 3 {
            Some(Seq::empty())
        } else if t[3].is_punct(',') {
            name_values(t.skip(4))
        } else {
            None
        };
        match (t[0], t[2], more) {
            (Token::Ident(name), Token::Str(value), Some(more)) => Some(
                seq![(name, value)] + more,
            ),
            _ => None,
        }
    }
}

/// Reads the one string literal that the tokens consist of.
pub fn read_single_str(tokens: &Vec<Token>) -> (out: Option<String>)
    ensures
        out == single_str(tokens@),
{
    if tokens.len() != 1 {
        return None;
    }
    match &tokens[0] {
        Token::Str(s) => Some(s.clone()),
        _ => None,
    }
}

/// Reads the field names that follow a template, from the token at `from`
/// on.
pub fn read_format_args(tokens: &Vec<Token>, from: usize) -> (out: Option<Vec<String>>)
    requires
        from <= tokens.len(),
    ensures
        match out {
            Some(args) => format_args(tokens@.skip(from as int)) == Some(args@),
            None => format_args(tokens@.skip(from as int)) is None,
        },
{
    let mut args: Vec<String> = Vec::new();
    let mut i: usize = from;
    let ghost all = tokens@.skip(from as int);
    proof {
        assert(Seq::<String>::empty() + format_args(all)->0 =~= format_args(all)->0);
    }
    while i < tokens.len()
        invariant
            from <= i <= tokens.len(),
            all == tokens@.skip(from as int),
            format_args(all) == match format_args(tokens@.skip(i as int)) {
                Some(more) => Some(args@ + more),
                None => None,
            },
        decreases tokens.len() - i,
    {
        let ghost rest = tokens@.skip(i as int);
        assert(rest[0] == tokens@[i as int]);
        if !tokens[i].is(',') {
            return None;
        }
        if i + 1 == tokens.len() {
            assert(rest.len() == 1);
            assert(args@ + Seq::<String>::empty() =~= args@);
            return Some(args);
        }
        assert(rest[1] == tokens@[i + 1]);
        assert(rest.skip(2) =~= tokens@.skip(i + 2));
        match &tokens[i + 1] {
            Token::Ident(name) => {
                let ghost before = args@;
                args.push(name.clone());
                proof {
                    match format_args(rest.skip(2)) {
                        Some(more) => {
                            assert(before + (seq![*name] + more) =~= args@ + more);
                        },
                        None => {},
                    }
                }
            },
            _ => {
                return None;
            },
        }
        i = i + 2;
    }
    assert(tokens@.skip(i as int) =~= Seq::<Token>::empty());
    assert(args@ + Seq::<String>::empty() =~= args@);
    Some(args)
}

impl FormatParams {
    /// The format expression is the one that the tokens are the syntax of.
    pub open spec fn parsed_from(&self, t: Seq<Token>) -> bool {
        format_params(t) == Some((self.fmt, self.args@))
    }

    /// Parses a format expression from the token at `from` on: a string
    /// literal for the template, then the names of the fields that fill it,
    /// each after a comma.
    pub fn parse(tokens: &Vec<Token>, from: usize) -> (out: Option<FormatParams>)
        requires
            from <= tokens.len(),
        ensures
            match out {
                Some(p) => p.parsed_from(tokens@.skip(from as int)),
                None => format_params(tokens@.skip(from as int)) is None,
            },
    {
        if from == tokens.len() {
            return None;
        }
        let ghost t = tokens@.skip(from as int);
        assert(t[0] == tokens@[from as int]);
        assert(t.skip(1) =~= tokens@.skip(from + 1));
        match &tokens[from] {
            Token::Str(fmt) => match read_format_args(tokens, from + 1) {
                Some(args) => Some(FormatParams { fmt: fmt.clone(), args }),
                None => None,
            },
            _ => None,
        }
    }
}

/// Reads pairs of string literals, each written `"key" = "value"`, with a
/// comma allowed after each.
pub fn read_key_values(tokens: &Vec<Token>) -> (out: Option<Vec<(String, String)>>)
    ensures
        match out {
            Some(pairs) => key_values(tokens@) == Some(pairs@),
            None => key_values(tokens@) is None,
        },
{
    let mut pairs: Vec<(String, String)> = Vec::new();
    let mut i: usize = 0;
    proof {
        assert(tokens@.skip(0) =~= tokens@);
        assert(Seq::<(String, String)>::empty() + key_values(tokens@)->0 =~= key_values(
            tokens@,
        )->0);
    }
    while i < tokens.len()
        invariant
            i <= tokens.len(),
            key_values(tokens@) == match key_values(tokens@.skip(i as int)) {
                Some(more) => Some(pairs@ + more),
                None => None,
            },
        decreases tokens.len() - i,
    {
        let ghost rest = tokens@.skip(i as int);
        if tokens.len() - i < 3 {
            return None;
        }
        assert(rest[0] == tokens@[i as int]);
        assert(rest[1] == tokens@[i + 1]);
        assert(rest[2] == tokens@[i + 2]);
        if !tokens[i + 1].is('=') {
            return None;
        }
        let next: usize = if tokens.len() - i >= 4 && tokens[i + 3].is(',') {
            i + 4
        } else {
            i + 3
        };
        proof {
            if rest.len() >= 4 {
                assert(rest[3] == tokens@[i + 3]);
            }
            assert(rest.skip(next - i) =~= tokens@.skip(next as int));
        }
        match (&tokens[i], &tokens[i + 2]) {
            (Token::Str(key), Token::Str(value)) => {
                let ghost before = pairs@;
                pairs.push((key.clone(), value.clone()));
                proof {
                    match key_values(tokens@.skip(next as int)) {
                        Some(more) => {
                            assert(before + (seq![(*key, *value)] + more) =~= pairs@ + more);
                        },
                        None => {},
                    }
                }
            },
            _ => {
                return None;
            },
        }
        i = next;
    }
    assert(tokens@.skip(i as int) =~= Seq::<Token>::empty());
    assert(pairs@ + Seq::<(String, String)>::empty() =~= pairs@);
    Some(pairs)
}

/// Reads pairs of a name and a string literal, each written
/// `name = "value"`, with a comma between two of them and one more allowed
/// at the end.
pub fn read_name_values(tokens: &Vec<Token>) -> (out: Option<Vec<(String, String)>>)
    ensures
        match out {
            Some(pairs) => name_values(tokens@) == Some(pairs@),
            None => name_values(tokens@) is None,
        },
{
    let mut pairs: Vec<(String, String)> = Vec::new();
    let mut i: usize = 0;
    proof {
        assert(tokens@.skip(0) =~= tokens@);
        assert(Seq::<(String, String)>::empty() + name_values(tokens@)->0 =~= name_values(
            tokens@,
        )->0);
    }
    while i < tokens.len()
        invariant
            i <= tokens.len(),
            name_values(tokens@) == match name_values(tokens@.skip(i as int)) {
                Some(more) => Some(pairs@ + more),
                None => None,
            },
        decreases tokens.len() - i,
    {
        let ghost rest = tokens@.skip(i as int);
        if tokens.len() - i < 3 {
            return None;
        }
        assert(rest[0] == tokens@[i as int]);
        assert(rest[1] == tokens@[i + 1]);
        assert(rest[2] == tokens@[i + 2]);
        if !tokens[i + 1].is('=') {
            return None;
        }
        let last = tokens.len() - i == 3;
        if !last {
            assert(rest[3] == tokens@[i + 3]);
            if !tokens[i + 3].is(',') {
                return None;
            }
        }
        let next: usize = if last {
            i + 3
        } else {
            i + 4
        };
        proof {
            assert(rest.skip(next - i) =~= tokens@.skip(next as int));
            if last {
                assert(tokens@.skip(next as int) =~= Seq::<Token>::empty());
            }
        }
        match (&tokens[i], &tokens[i + 2]) {
            (Token::Ident(name), Token::Str(value)) => {
                let ghost before = pairs@;
                pairs.push((name.clone(), value.clone()));
                proof {
                    match name_values(tokens@.skip(next as int)) {
                        Some(more) => {
                            assert(before + (seq![(*name, *value)] + more) =~= pairs@ + more);
                        },
                        None => {},
                    }
                }
            },
            _ => {
                return None;
            },
        }
        i = next;
    }
    assert(tokens@.skip(i as int) =~= Seq::<Token>::empty());
    assert(pairs@ + Seq::<(String, String)>::empty() =~= pairs@);
    Some(pairs)
}

/// Says whether a string is the given text.
pub fn is_text(s: &String, text: &str) -> (same: bool)
    ensures
        same == (s@ == text@),
{
    *s == String::from_str(text)
}

/// The expression for a method called without arguments on `base`.
pub open spec fn method_call(name: Seq<char>, base: Expr) -> Option<Expr> {
    if name == "is_empty"@ {
        Some(Expr::IsEmpty(Box::new(base)))
    } else if name == "len"@ {
        Some(Expr::Len(Box::new(base)))
    } else {
        None
    }
}

/// The expression for a chain of method calls on `base`, each written
/// `.name()`.
pub open spec fn calls_on(base: Expr, t: Seq<Token>) -> Option<Expr>
    decreases t.len(),
{
    if t.len() == 0 {
        Some(base)
    } else if t.len() < 4 || !t[0].is_punct('.') || !t[2].is_punct('(') || !t[3].is_punct(')') {
        None
    } else {
        match t[1] {
            Token::Ident(name) => match method_call(name@, base) {
                Some(called) => calls_on(called, t.skip(4)),
                None => None,
            },
            _ => None,
        }
    }
}

/// The expression that the tokens are the syntax of: a variable, method
/// calls on it, and negations in front.
pub open spec fn expr_of(t: Seq<Token>) -> Option<Expr>
    decreases t.len(),
{
    if t.len() == 0 {
        None
    } else if t[0].is_punct('!') {
        match expr_of(t.skip(1)) {
            Some(e) => Some(Expr::Not(Box::new(e))),
            None => None,
        }
    } else {
        match t[0] {
            Token::Ident(name) => calls_on(Expr::Var(name), t.skip(1)),
            _ => None,
        }
    }
}

/// A map expression: the bound variable, `=>`, and the expression.
pub open spec fn map_expr(t: Seq<Token>) -> Option<MapExpr> {
    if t.len() < 3 || !t[1].is_punct('=') || !t[2].is_punct('>') {
        None
    } else {
        match (t[0], expr_of(t.skip(3))) {
            (Token::Ident(var), Some(expr)) => Some(MapExpr { var, expr }),
            _ => None,
        }
    }
}

fn parse_calls(base: Expr, tokens: &Vec<Token>, from: usize) -> (out: Option<Expr>)
    requires
        from <= tokens.len(),
    ensures
        out == calls_on(base, tokens@.skip(from as int)),
{
    let mut expr = base;
    let mut i: usize = from;
    while i < tokens.len()
        invariant
            from <= i <= tokens.len(),
            calls_on(base, tokens@.skip(from as int)) == calls_on(expr, tokens@.skip(i as int)),
        decreases tokens.len() - i,
    {
        let ghost rest = tokens@.skip(i as int);
        if tokens.len() - i < 4 {
            return None;
        }
        assert(rest[0] == tokens@[i as int]);
        assert(rest[1] == tokens@[i + 1]);
        assert(rest[2] == tokens@[i + 2]);
        assert(rest[3] == tokens@[i + 3]);
        assert(rest.skip(4) =~= tokens@.skip(i + 4));
        if !tokens[i].is('.') || !tokens[i + 2].is('(') || !tokens[i + 3].is(')') {
            return None;
        }
        match &tokens[i + 1] {
            Token::Ident(name) => {
                if is_text(name, "is_empty") {
                    expr = Expr::IsEmpty(Box::new(expr));
                } else if is_text(name, "len") {
                    expr = Expr::Len(Box::new(expr));
                } else {
                    return None;
                }
            },
            _ => {
                return None;
            },
        }
        i = i + 4;
    }
    assert(tokens@.skip(i as int) =~= Seq::<Token>::empty());
    Some(expr)
}

/// Reads an expression from the token at `from` on.
pub fn read_expr(tokens: &Vec<Token>, from: usize) -> (out: Option<Expr>)
    requires
        from <= tokens.len(),
    ensures
        out == expr_of(tokens@.skip(from as int)),
    decreases tokens.len() - from,
{
    if from == tokens.len() {
        return None;
    }
    let ghost t = tokens@.skip(from as int);
    assert(t[0] == tokens@[from as int]);
    assert(t.skip(1) =~= tokens@.skip(from + 1));
    if tokens[from].is('!') {
        match read_expr(tokens, from + 1) {
            Some(e) => Some(Expr::Not(Box::new(e))),
            None => None,
        }
    } else {
        match &tokens[from] {
            Token::Ident(name) => parse_calls(Expr::Var(name.clone()), tokens, from + 1),
            _ => None,
        }
    }
}

impl MapExpr {
    /// Parses a map expression: the bound variable, `=>`, and the expression
    /// over it.
    pub fn parse(tokens: &Vec<Token>) -> (out: Option<MapExpr>)
        ensures
            out == map_expr(tokens@),
    {
        if tokens.len() < 3 || !tokens[1].is('=') || !tokens[2].is('>') {
            return None;
        }
        match &tokens[0] {
            Token::Ident(var) => match read_expr(tokens, 3) {
                Some(expr) => Some(MapExpr { var: var.clone(), expr }),
                None => None,
            },
            _ => None,
        }
    }
}

/// How the arguments of an annotation are written.
#[derive(Debug)]
pub enum Meta {
    /// No arguments: the name alone.
    Path,
    /// A list of tokens in parentheses.
    List(Vec<Token>),
    /// A value after an equals sign.
    NameValue,
}

/// An annotation as it is written: its name and its arguments.
#[derive(Debug)]
pub struct Annotation {
    /// The name, where the annotation's path is a single identifier.
    pub name: Option<String>,
    pub meta: Meta,
}

/// The request method that an annotation's name stands for.
pub open spec fn method_of(name: Seq<char>) -> Option<HtmxMethod> {
    if name == "hx_get"@ {
        Some(HtmxMethod::Get)
    } else if name == "hx_post"@ {
        Some(HtmxMethod::Post)
    } else if name == "hx_put"@ {
        Some(HtmxMethod::Put)
    } else if name == "hx_delete"@ {
        Some(HtmxMethod::Delete)
    } else if name == "hx_patch"@ {
        Some(HtmxMethod::Patch)
    } else {
        None
    }
}

/// A computed attribute: a string literal for the key, `=`, and a format
/// expression for the value.
pub open spec fn dyn_attr(t: Seq<Token>) -> Option<(String, (String, Seq<String>))> {
    if t.len() < 2 || !t[1].is_punct('=') {
        None
    } else {
        match (t[0], format_params(t.skip(2))) {
            (Token::Str(key), Some(params)) => Some((key, params)),
            _ => None,
        }
    }
}

/// The tokens are the one identifier `nest`.
pub open spec fn is_nest(t: Seq<Token>) -> bool {
    t.len() == 1 && match t[0] {
        Token::Ident(name) => name@ == "nest"@,
        _ => false,
    }
}

/// Reads the request method that an annotation's name stands for.
pub fn read_method(name: &String) -> (out: Option<HtmxMethod>)
    ensures
        out == method_of(name@),
{
    if is_text(name, "hx_get") {
        Some(HtmxMethod::Get)
    } else if is_text(name, "hx_post") {
        Some(HtmxMethod::Post)
    } else if is_text(name, "hx_put") {
        Some(HtmxMethod::Put)
    } else if is_text(name, "hx_delete") {
        Some(HtmxMethod::Delete)
    } else if is_text(name, "hx_patch") {
        Some(HtmxMethod::Patch)
    } else {
        None
    }
}

impl Annotation {
    /// The annotation has the given name.
    pub open spec fn named(&self, text: Seq<char>) -> bool {
        match self.name {
            Some(name) => name@ == text,
            None => false,
        }
    }

    /// The tokens of the annotation's argument list.
    pub open spec fn tokens(&self) -> Option<Seq<Token>> {
        match self.meta {
            Meta::List(tokens) => Some(tokens@),
            _ => None,
        }
    }

    /// Says whether the annotation has the given name.
    pub fn is_named(&self, text: &str) -> (ok: bool)
        ensures
            ok == self.named(text@),
    {
        match &self.name {
            Some(name) => is_text(name, text),
            None => false,
        }
    }
}

/// Takes an annotation apart: the tokens of its argument list and its name.
pub fn extract_list_and_args(attr: &Annotation) -> (r: Result<(&Vec<Token>, &String), SchemaError>)
    ensures
        match r {
            Ok((list, ident)) => attr.meta == Meta::List(*list) && attr.name == Some(*ident),
            Err(e) => e == SchemaError::ExpectedList && (attr.name is None || !(attr.meta is List)),
        },
{
    match (&attr.meta, &attr.name) {
        (Meta::List(list), Some(ident)) => Ok((list, ident)),
        _ => Err(SchemaError::ExpectedList),
    }
}

/// Parses an annotation whose argument is one string literal.
pub fn parse_str(attr: &Annotation) -> (r: Result<String, SchemaError>)
    ensures
        match r {
            Ok(s) => attr.tokens() is Some && single_str(attr.tokens()->0) == Some(s),
            Err(e) => match attr.tokens() {
                Some(t) => e == SchemaError::ExpectedStr && single_str(t) is None,
                None => e == SchemaError::ExpectedList,
            },
        },
{
    match &attr.meta {
        Meta::List(list) => match read_single_str(list) {
            Some(s) => Ok(s),
            None => Err(SchemaError::ExpectedStr),
        },
        _ => Err(SchemaError::ExpectedList),
    }
}

/// Parses an annotation whose arguments are a format expression.
pub fn parse_format(attr: &Annotation) -> (r: Result<FormatParams, SchemaError>)
    ensures
        match r {
            Ok(p) => attr.tokens() is Some && p.parsed_from(attr.tokens()->0),
            Err(e) => match attr.tokens() {
                Some(t) => e == SchemaError::ExpectedFormat && format_params(t) is None,
                None => e == SchemaError::ExpectedList,
            },
        },
{
    match &attr.meta {
        Meta::List(list) => {
            assert(list@.skip(0) =~= list@);
            match FormatParams::parse(list, 0) {
                Some(p) => Ok(p),
                None => Err(SchemaError::ExpectedFormat),
            }
        },
        _ => Err(SchemaError::ExpectedList),
    }
}

/// Parses an annotation whose arguments are a map expression.
pub fn parse_expr(attr: &Annotation) -> (r: Result<MapExpr, SchemaError>)
    ensures
        match r {
            Ok(m) => attr.tokens() is Some && map_expr(attr.tokens()->0) == Some(m),
            Err(e) => match attr.tokens() {
                Some(t) => e == SchemaError::ExpectedExpr && map_expr(t) is None,
                None => e == SchemaError::ExpectedList,
            },
        },
{
    match &attr.meta {
        Meta::List(list) => match MapExpr::parse(list) {
            Some(m) => Ok(m),
            None => Err(SchemaError::ExpectedExpr),
        },
        _ => Err(SchemaError::ExpectedList),
    }
}

/// The prefix of the keys in the `hx-` namespace.
pub open spec fn hx_prefix() -> Seq<char> {
    seq!['h', 'x', '-']
}

/// The texts of a sequence of pairs.
pub open spec fn pair_texts(pairs: Seq<(String, String)>) -> Seq<(Seq<char>, Seq<char>)> {
    pairs.map_values(|p: (String, String)| (p.0@, p.1@))
}

/// The texts of a sequence of pairs with each key put into the `hx-`
/// namespace: the prefix in front of the key, the value as it is.
pub open spec fn hx_pairs(pairs: Seq<(String, String)>) -> Seq<(Seq<char>, Seq<char>)> {
    pairs.map_values(|p: (String, String)| (hx_prefix() + p.0@, p.1@))
}

/// Parses an annotation whose arguments are pairs of string literals: the
/// pairs in order, each key with the prefix `hx-` in front of it.
pub fn parse_hx_attrs(attr: &Annotation) -> (r: Result<Vec<(String, String)>, SchemaError>)
    ensures
        match r {
            Ok(pairs) => {
                &&& attr.tokens() is Some
                &&& key_values(attr.tokens()->0) is Some
                &&& pair_texts(pairs@) == hx_pairs(key_values(attr.tokens()->0)->0)
            },
            Err(e) => match attr.tokens() {
                Some(t) => e == SchemaError::ExpectedKeyValues && key_values(t) is None,
                None => e == SchemaError::ExpectedList,
            },
        },
{
    let written = match &attr.meta {
        Meta::List(list) => match read_key_values(list) {
            Some(pairs) => pairs,
            None => {
                return Err(SchemaError::ExpectedKeyValues);
            },
        },
        _ => {
            return Err(SchemaError::ExpectedList);
        },
    };
    let mut attrs: Vec<(String, String)> = Vec::new();
    let ghost all = written@;
    proof {
        reveal_strlit("hx-");
        assert(pair_texts(attrs@) =~= hx_pairs(all.take(0)));
    }
    for pair in it: written
        invariant
            it.seq() == all,
            "hx-"@ == hx_prefix(),
            pair_texts(attrs@) == hx_pairs(all.take(it.index() as int)),
    {
        let ghost done = all.take(it.index() as int);
        let ghost before = attrs@;
        let (key, value) = pair;
        let full = String::from_str("hx-").concat(key.as_str());
        attrs.push((full, value));
        proof {
            assert(all.take(it.index() + 1) =~= done.push(pair));
            assert(pair_texts(attrs@) =~= pair_texts(before).push((full@, value@)));
            assert(hx_pairs(done.push(pair)) =~= hx_pairs(done).push(
                (hx_prefix() + pair.0@, pair.1@),
            ));
        }
    }
    assert(all.take(all.len() as int) =~= all);
    Ok(attrs)
}

/// Parses an annotation whose arguments are pairs of a name and a string
/// literal.
pub fn parse_name_values(attr: &Annotation) -> (r: Result<Vec<(String, String)>, SchemaError>)
    ensures
        match r {
            Ok(pairs) => attr.tokens() is Some && name_values(attr.tokens()->0) == Some(pairs@),
            Err(e) => match attr.tokens() {
                Some(t) => e == SchemaError::ExpectedNameValues && name_values(t) is None,
                None => e == SchemaError::ExpectedList,
            },
        },
{
    match &attr.meta {
        Meta::List(list) => match read_name_values(list) {
            Some(pairs) => Ok(pairs),
            None => Err(SchemaError::ExpectedNameValues),
        },
        _ => Err(SchemaError::ExpectedList),
    }
}

/// Parses an annotation that declares a computed attribute: a string literal
/// for the key, `=`, and a format expression for the value.
pub fn parse_dyn_attr(attr: &Annotation) -> (r: Result<DynamicAttr, SchemaError>)
    ensures
        match r {
            Ok(d) => attr.tokens() is Some && dyn_attr(attr.tokens()->0) == Some(
                (d.key, (d.params.fmt, d.params.args@)),
            ),
            Err(e) => match attr.tokens() {
                Some(t) => e == SchemaError::ExpectedDynAttr && dyn_attr(t) is None,
                None => e == SchemaError::ExpectedList,
            },
        },
{
    match &attr.meta {
        Meta::List(list) => {
            if list.len() < 2 || !list[1].is('=') {
                return Err(SchemaError::ExpectedDynAttr);
            }
            match (&list[0], FormatParams::parse(list, 2)) {
                (Token::Str(key), Some(params)) => Ok(DynamicAttr { key: key.clone(), params }),
                _ => Err(SchemaError::ExpectedDynAttr),
            }
        },
        _ => Err(SchemaError::ExpectedList),
    }
}

/// What keeps an annotation from being read as a request binding, if
/// anything: it has no name or no argument list, its name is that of no
/// method, or its arguments are no format expression.
pub open spec fn request_defect(attr: Annotation) -> Option<SchemaError> {
    if attr.name is None || attr.tokens() is None {
        Some(SchemaError::ExpectedList)
    } else if method_of(attr.name->0@) is None {
        Some(SchemaError::UnknownMethod)
    } else if format_params(attr.tokens()->0) is None {
        Some(SchemaError::ExpectedFormat)
    } else {
        None
    }
}

/// Parses an annotation that declares a request binding: the method is told
/// by the name, the path is a format expression.
pub fn parse_htmx_request(attr: &Annotation) -> (r: Result<(HtmxMethod, FormatParams), SchemaError>)
    ensures
        match r {
            Ok((method, params)) => {
                &&& request_defect(*attr) is None
                &&& method_of(attr.name->0@) == Some(method)
                &&& params.parsed_from(attr.tokens()->0)
            },
            Err(e) => request_defect(*attr) == Some(e),
        },
{
    let (list, ident) = match extract_list_and_args(attr) {
        Ok(parts) => parts,
        Err(e) => {
            return Err(e);
        },
    };
    let method = match read_method(ident) {
        Some(method) => method,
        None => {
            return Err(SchemaError::UnknownMethod);
        },
    };
    assert(list@.skip(0) =~= list@);
    match FormatParams::parse(list, 0) {
        Some(params) => Ok((method, params)),
        None => Err(SchemaError::ExpectedFormat),
    }
}

/// The text that an annotation of the given name sets.
pub open spec fn slot_of(name: Seq<char>) -> Option<Slot> {
    if name == "element"@ {
        Some(Slot::Element)
    } else if name == "default"@ {
        Some(Slot::Default)
    } else if name == "before"@ {
        Some(Slot::Before)
    } else if name == "after"@ {
        Some(Slot::After)
    } else {
        None
    }
}

/// The name is that of an annotation that concerns rendering.
pub open spec fn is_known(name: Seq<char>) -> bool {
    ||| slot_of(name) is Some
    ||| method_of(name) is Some
    ||| name == "format"@
    ||| name == "attrs"@
    ||| name == "attr"@
    ||| name == "hx"@
    ||| name == "urlencode"@
    ||| name == "map"@
    ||| name == "list"@
    ||| name == "nest"@
}

/// What is wrong with arguments that must be a list of a given form.
pub open spec fn list_defect(tokens: Option<Seq<Token>>, well_formed: bool, e: SchemaError)
    -> Option<SchemaError> {
    if tokens is None {
        Some(SchemaError::ExpectedList)
    } else if well_formed {
        None
    } else {
        Some(e)
    }
}

impl Annotation {
    /// The annotation does not concern rendering: its path is no single
    /// identifier, or its name is none of the known ones.
    pub open spec fn ignored(&self) -> bool {
        match self.name {
            Some(name) => !is_known(name@),
            None => true,
        }
    }

    /// What is wrong with the way the annotation is written, if anything.
    pub open spec fn syntax_defect(&self) -> Option<SchemaError> {
        match (self.name, self.tokens()) {
            (None, _) => None,
            (Some(n), tokens) => {
                let name = n@;
                let t = tokens.unwrap();
                if slot_of(name) is Some {
                    list_defect(tokens, single_str(t) is Some, SchemaError::ExpectedStr)
                } else if method_of(name) is Some {
                    request_defect(*self)
                } else if name == "format"@ {
                    list_defect(tokens, format_params(t) is Some, SchemaError::ExpectedFormat)
                } else if name == "attrs"@ {
                    list_defect(tokens, name_values(t) is Some, SchemaError::ExpectedNameValues)
                } else if name == "attr"@ {
                    list_defect(tokens, dyn_attr(t) is Some, SchemaError::ExpectedDynAttr)
                } else if name == "hx"@ {
                    list_defect(tokens, key_values(t) is Some, SchemaError::ExpectedKeyValues)
                } else if name == "map"@ {
                    list_defect(tokens, map_expr(t) is Some, SchemaError::ExpectedExpr)
                } else if name == "list"@ {
                    match self.meta {
                        Meta::Path => None,
                        Meta::List(list) => if is_nest(list@) {
                            None
                        } else {
                            Some(SchemaError::InvalidList)
                        },
                        Meta::NameValue => Some(SchemaError::InvalidList),
                    }
                } else {
                    None
                }
            },
        }
    }

    /// The annotation is the syntax of the given declaration.
    pub open spec fn parses_to(&self, out: Attribute) -> bool {
        let t = self.tokens().unwrap();
        match out {
            Attribute::Element(s) => self.named("element"@) && self.tokens() is Some
                && single_str(t) == Some(s),
            Attribute::Default(s) => self.named("default"@) && self.tokens() is Some
                && single_str(t) == Some(s),
            Attribute::Before(s) => self.named("before"@) && self.tokens() is Some && single_str(t)
                == Some(s),
            Attribute::After(s) => self.named("after"@) && self.tokens() is Some && single_str(t)
                == Some(s),
            Attribute::Format(p) => self.named("format"@) && self.tokens() is Some
                && p.parsed_from(t),
            Attribute::Attrs(pairs) => self.named("attrs"@) && self.tokens() is Some
                && name_values(t) == Some(pairs@),
            Attribute::Attr(d) => self.named("attr"@) && self.tokens() is Some && dyn_attr(t)
                == Some((d.key, (d.params.fmt, d.params.args@))),
            Attribute::Hx(pairs) => self.named("hx"@) && self.tokens() is Some && key_values(t)
                is Some && pair_texts(pairs@) == hx_pairs(key_values(t)->0),
            Attribute::Request(method, params) => self.name is Some && method_of(self.name->0@)
                == Some(method) && self.tokens() is Some && params.parsed_from(t),
            Attribute::Urlencode => self.named("urlencode"@),
            Attribute::Mapped(m) => self.named("map"@) && self.tokens() is Some && map_expr(t)
                == Some(m),
            Attribute::List => self.named("list"@) && self.meta is Path,
            Attribute::ListNest => self.named("list"@) && self.tokens() is Some && is_nest(t),
            Attribute::Nest => self.named("nest"@),
        }
    }

    /// Parses the annotation: `Ok(None)` where it does not concern
    /// rendering, the declaration that it is the syntax of where it is well
    /// written, else what is wrong with it.
    pub fn parse(&self) -> (r: Result<Option<Attribute>, SchemaError>)
        ensures
            match r {
                Ok(Some(out)) => !self.ignored() && self.syntax_defect() is None
                    && self.parses_to(out),
                Ok(None) => self.ignored(),
                Err(e) => !self.ignored() && self.syntax_defect() == Some(e),
            },
    {
        let name = match &self.name {
            Some(name) => name,
            None => {
                return Ok(None);
            },
        };
        if is_text(name, "element") {
            match parse_str(self) {
                Ok(s) => Ok(Some(Attribute::Element(s))),
                Err(e) => Err(e),
            }
        } else if is_text(name, "default") {
            match parse_str(self) {
                Ok(s) => Ok(Some(Attribute::Default(s))),
                Err(e) => Err(e),
            }
        } else if is_text(name, "before") {
            match parse_str(self) {
                Ok(s) => Ok(Some(Attribute::Before(s))),
                Err(e) => Err(e),
            }
        } else if is_text(name, "after") {
            match parse_str(self) {
                Ok(s) => Ok(Some(Attribute::After(s))),
                Err(e) => Err(e),
            }
        } else if read_method(name).is_some() {
            match parse_htmx_request(self) {
                Ok((method, params)) => Ok(Some(Attribute::Request(method, params))),
                Err(e) => Err(e),
            }
        } else if is_text(name, "format") {
            match parse_format(self) {
                Ok(p) => Ok(Some(Attribute::Format(p))),
                Err(e) => Err(e),
            }
        } else if is_text(name, "attrs") {
            match parse_name_values(self) {
                Ok(pairs) => Ok(Some(Attribute::Attrs(pairs))),
                Err(e) => Err(e),
            }
        } else if is_text(name, "attr") {
            match parse_dyn_attr(self) {
                Ok(d) => Ok(Some(Attribute::Attr(d))),
                Err(e) => Err(e),
            }
        } else if is_text(name, "hx") {
            match parse_hx_attrs(self) {
                Ok(pairs) => Ok(Some(Attribute::Hx(pairs))),
                Err(e) => Err(e),
            }
        } else if is_text(name, "map") {
            match parse_expr(self) {
                Ok(m) => Ok(Some(Attribute::Mapped(m))),
                Err(e) => Err(e),
            }
        } else if is_text(name, "list") {
            match &self.meta {
                Meta::Path => Ok(Some(Attribute::List)),
                Meta::List(list) => {
                    if list.len() == 1 {
                        if let Token::Ident(word) = &list[0] {
                            if is_text(word, "nest") {
                                return Ok(Some(Attribute::ListNest));
                            }
                        }
                    }
                    Err(SchemaError::InvalidList)
                },
                Meta::NameValue => Err(SchemaError::InvalidList),
            }
        } else if is_text(name, "urlencode") {
            Ok(Some(Attribute::Urlencode))
        } else if is_text(name, "nest") {
            Ok(Some(Attribute::Nest))
        } else {
            Ok(None)
        }
    }
}

/// Those of the first `k` annotations that concern rendering, in order.
pub open spec fn kept(raw: Seq<Annotation>, k: nat) -> Seq<Annotation>
    decreases k,
{
    if k == 0 || k > raw.len() {
        Seq::empty()
    } else if raw[k - 1].ignored() {
        kept(raw, (k - 1) as nat)
    } else {
        kept(raw, (k - 1) as nat).push(raw[k - 1])
    }
}

/// What is wrong with the way the first `k` annotations are written: the
/// defect of the first among them that has one.
pub open spec fn syntax_defect_upto(raw: Seq<Annotation>, k: nat) -> Option<SchemaError>
    decreases k,
{
    if k == 0 || k > raw.len() {
        None
    } else {
        or_else(syntax_defect_upto(raw, (k - 1) as nat), raw[k - 1].syntax_defect())
    }
}

/// The declarations are what the annotations are the syntax of: one for each
/// annotation that concerns rendering, in order.
pub open spec fn parsed_as(raw: Seq<Annotation>, out: Seq<Attribute>) -> bool {
    let kept = kept(raw, raw.len());
    &&& out.len() == kept.len()
    &&& forall|i: int| 0 <= i < kept.len() ==> (#[trigger] kept[i]).parses_to(out[i])
}

/// A defect found among the first annotations stays the first defect.
pub proof fn lemma_syntax_defect_stays(raw: Seq<Annotation>, k: nat, n: nat)
    requires
        k <= n <= raw.len(),
        syntax_defect_upto(raw, k) is Some,
    ensures
        syntax_defect_upto(raw, n) == syntax_defect_upto(raw, k),
    decreases n,
{
    if n > k {
        lemma_syntax_defect_stays(raw, k, (n - 1) as nat);
    }
}

/// Parses a sequence of annotations: the declarations that those which
/// concern rendering are the syntax of, in order, or what is wrong with the
/// first that is badly written.
pub fn parse_annotations(raw: &Vec<Annotation>) -> (r: Result<Vec<Attribute>, SchemaError>)
    ensures
        match r {
            Ok(out) => syntax_defect_upto(raw@, raw@.len()) is None && parsed_as(raw@, out@),
            Err(e) => syntax_defect_upto(raw@, raw@.len()) == Some(e),
        },
{
    let mut out: Vec<Attribute> = Vec::new();
    let mut i: usize = 0;
    while i < raw.len()
        invariant
            i <= raw.len(),
            syntax_defect_upto(raw@, i as nat) is None,
            out@.len() == kept(raw@, i as nat).len(),
            forall|j: int|
                0 <= j < out@.len() ==> (#[trigger] kept(raw@, i as nat)[j]).parses_to(out@[j]),
        decreases raw.len() - i,
    {
        let ghost before = kept(raw@, i as nat);
        match raw[i].parse() {
            Ok(Some(attribute)) => {
                out.push(attribute);
                assert forall|j: int| 0 <= j < out@.len() implies (#[trigger] kept(
                    raw@,
                    (i + 1) as nat,
                )[j]).parses_to(out@[j]) by {
                    if j < before.len() {
                        assert(kept(raw@, (i + 1) as nat)[j] == before[j]);
                    }
                }
            },
            Ok(None) => {},
            Err(e) => {
                proof {
                    assert(syntax_defect_upto(raw@, (i + 1) as nat) == Some(e));
                    lemma_syntax_defect_stays(raw@, (i + 1) as nat, raw@.len());
                }
                return Err(e);
            },
        }
        i = i + 1;
    }
    Ok(out)
}

/// A field as it is written.
#[derive(Debug)]
pub struct FieldInput {
    /// The name of the field, where it has one.
    pub ident: Option<String>,
    /// The first name in the path of the field's type, where the type is a
    /// path.
    pub ty: Option<String>,
    /// The annotations of the field, in order.
    pub attrs: Vec<Annotation>,
    /// The record type that the field holds, as it is written, where the
    /// field holds records.
    pub nested: Option<DeriveInput>,
}

/// The body of a type as it is written.
#[derive(Debug)]
pub enum Data {
    /// A record type, with its fields in declared order.
    Struct(Vec<FieldInput>),
    /// Any other type.
    Other,
}

/// A type as it is written.
#[derive(Debug)]
pub struct DeriveInput {
    /// The annotations of the type, in order.
    pub attrs: Vec<Annotation>,
    pub data: Data,
}

/// A type of this name may hold no value.
pub open spec fn is_option(ty: Option<String>) -> bool {
    match ty {
        Some(name) => name@ == "Option"@,
        None => false,
    }
}

impl FieldInput {
    /// What is wrong with the way the field is written: it has no name, or
    /// one of its annotations is badly written, or the record type that it
    /// holds is.
    pub open spec fn syntax_defect(&self) -> Option<SchemaError>
        decreases self, 0nat, 0nat,
    {
        if self.ident is None {
            Some(SchemaError::UnnamedField)
        } else {
            or_else(
                syntax_defect_upto(self.attrs@, self.attrs@.len()),
                match self.nested {
                    Some(inner) => inner.syntax_defect(),
                    None => None,
                },
            )
        }
    }

    /// The declaration is what the field is the syntax of.
    pub open spec fn parsed(&self, decl: FieldDecl) -> bool
        decreases self, 0nat, 0nat,
    {
        &&& self.ident == Some(decl.ident)
        &&& decl.optional == is_option(self.ty)
        &&& parsed_as(self.attrs@, decl.attrs@)
        &&& match (self.nested, decl.nested) {
            (Some(inner), Some(nested)) => inner.parsed(nested),
            (None, None) => true,
            _ => false,
        }
    }

    /// Parses the field.
    pub fn parse(&self) -> (r: Result<FieldDecl, SchemaError>)
        ensures
            match r {
                Ok(decl) => self.syntax_defect() is None && self.parsed(decl),
                Err(e) => self.syntax_defect() == Some(e),
            },
        decreases self, 0nat, 0nat,
    {
        let ident = match &self.ident {
            Some(ident) => ident.clone(),
            None => {
                return Err(SchemaError::UnnamedField);
            },
        };
        let optional = match &self.ty {
            Some(name) => is_text(name, "Option"),
            None => false,
        };
        let attrs = match parse_annotations(&self.attrs) {
            Ok(attrs) => attrs,
            Err(e) => {
                return Err(e);
            },
        };
        let nested = match &self.nested {
            Some(inner) => match inner.parse() {
                Ok(decl) => Some(decl),
                Err(e) => {
                    return Err(e);
                },
            },
            None => None,
        };
        Ok(FieldDecl { ident, optional, attrs, nested })
    }
}

impl DeriveInput {
    /// What is wrong with the way the first `k` fields are written.
    pub open spec fn fields_defect(&self, k: nat) -> Option<SchemaError>
        decreases self, 0nat, k,
    {
        match self.data {
            Data::Struct(fields) => if k == 0 || k > fields@.len() {
                None
            } else {
                or_else(self.fields_defect((k - 1) as nat), fields@[k - 1].syntax_defect())
            },
            Data::Other => None,
        }
    }

    /// What is wrong with the way the type is written: one of its
    /// annotations is badly written, or it is no record type, or one of its
    /// fields is badly written; the first of these in that order.
    pub open spec fn syntax_defect(&self) -> Option<SchemaError>
        decreases self, 1nat, 0nat,
    {
        or_else(
            syntax_defect_upto(self.attrs@, self.attrs@.len()),
            match self.data {
                Data::Struct(fields) => self.fields_defect(fields@.len()),
                Data::Other => Some(SchemaError::NotAStruct),
            },
        )
    }

    /// The declaration is what the type is the syntax of.
    pub open spec fn parsed(&self, decl: StructDecl) -> bool
        decreases self, 1nat, 0nat,
    {
        &&& parsed_as(self.attrs@, decl.attrs@)
        &&& match self.data {
            Data::Struct(fields) => {
                &&& decl.fields@.len() == fields@.len()
                &&& forall|i: int|
                    0 <= i < fields@.len() ==> (#[trigger] fields@[i]).parsed(decl.fields@[i])
            },
            Data::Other => false,
        }
    }

    /// A defect found among the first fields stays the first defect.
    pub proof fn lemma_fields_defect_stays(&self, k: nat, n: nat)
        requires
            self.data is Struct,
            k <= n <= self.data->Struct_0@.len(),
            self.fields_defect(k) is Some,
        ensures
            self.fields_defect(n) == self.fields_defect(k),
        decreases n,
    {
        if n > k {
            self.lemma_fields_defect_stays(k, (n - 1) as nat);
        }
    }

    /// Parses the type: its declaration where it is a record type and well
    /// written, else what is wrong with it.
    #[verifier::loop_isolation(false)]
    pub fn parse(&self) -> (r: Result<StructDecl, SchemaError>)
        ensures
            match r {
                Ok(decl) => self.syntax_defect() is None && self.parsed(decl),
                Err(e) => self.syntax_defect() == Some(e),
            },
        decreases self, 1nat, 0nat,
    {
        let attrs = match parse_annotations(&self.attrs) {
            Ok(attrs) => attrs,
            Err(e) => {
                return Err(e);
            },
        };
        let inputs = match &self.data {
            Data::Struct(inputs) => inputs,
            Data::Other => {
                return Err(SchemaError::NotAStruct);
            },
        };
        let mut fields: Vec<FieldDecl> = Vec::new();
        let mut i: usize = 0;
        while i < inputs.len()
            invariant
                i <= inputs.len(),
                fields@.len() == i,
                self.fields_defect(i as nat) is None,
                forall|j: int| 0 <= j < i ==> (#[trigger] inputs@[j]).parsed(fields@[j]),
            decreases inputs.len() - i,
        {
            match inputs[i].parse() {
                Ok(decl) => {
                    fields.push(decl);
                },
                Err(e) => {
                    proof {
                        assert(self.fields_defect((i + 1) as nat) == Some(e));
                        self.lemma_fields_defect_stays((i + 1) as nat, inputs@.len());
                    }
                    return Err(e);
                },
            }
            i = i + 1;
        }
        Ok(StructDecl { attrs, fields })
    }
}

} // verus!
