//! Declarations: a record type as it is annotated, and the schema that the
//! annotations amount to.
use crate::attrs::{AttributeSource, DynamicAttr, HtmlAttributes, HtmxMethod, HtmxRequest};
use crate::element::{HtmxFieldElement, HtmxStructElement};
use crate::expr::MapExpr;
use crate::format::FormatParams;
use crate::schema::{FieldKind, HtmxField, HtmxStruct};
use crate::validate::{or_else, SchemaError};
use vstd::prelude::*;

verus! {

/// One annotation of a record type or of a field.
#[derive(Debug)]
pub enum Attribute {
    /// The tag of the element.
    Element(String),
    /// The template of the element's content.
    Format(FormatParams),
    /// Literal attributes, as keys and values.
    Attrs(Vec<(String, String)>),
    /// An attribute whose value is computed from the record.
    Attr(DynamicAttr),
    /// Literal attributes of the `hx-` namespace; the keys are given in full,
    /// with the prefix.
    Hx(Vec<(String, String)>),
    /// A request binding: the method and the path.
    Request(HtmxMethod, FormatParams),
    /// The arguments of the element's request path are percent-encoded.
    Urlencode,
    /// The text that stands for an absent value.
    Default(String),
    /// The expression that the field's value is passed through.
    Mapped(MapExpr),
    /// The field holds a sequence of scalars.
    List,
    /// The field holds a sequence of records.
    ListNest,
    /// The field holds a record.
    Nest,
    /// Markup written right after the opening tag.
    Before(String),
    /// Markup written right before the closing tag.
    After(String),
}

/// The attributes that a pair list declares, one for each pair, in order.
pub open spec fn static_sources(pairs: Seq<(String, String)>) -> Seq<AttributeSource> {
    pairs.map_values(|p: (String, String)| AttributeSource::Static(p.0, p.1))
}

/// The attributes of the `hx-` namespace that a pair list declares, one for
/// each pair, in order.
pub open spec fn hx_sources(pairs: Seq<(String, String)>) -> Seq<AttributeSource> {
    pairs.map_values(|p: (String, String)| AttributeSource::Hx(p.0, p.1))
}

fn push_pairs(sources: &mut Vec<AttributeSource>, pairs: Vec<(String, String)>, hx: bool)
    ensures
        final(sources)@ == old(sources)@ + if hx {
            hx_sources(pairs@)
        } else {
            static_sources(pairs@)
        },
{
    let ghost start = sources@;
    let ghost all = pairs@;
    for pair in it: pairs
        invariant
            it.seq() == all,
            sources@ == start + if hx {
                hx_sources(all.take(it.index() as int))
            } else {
                static_sources(all.take(it.index() as int))
            },
    {
        let ghost done = all.take(it.index() as int);
        let (key, value) = pair;
        if hx {
            sources.push(AttributeSource::Hx(key, value));
        } else {
            sources.push(AttributeSource::Static(key, value));
        }
        proof {
            assert(all.take(it.index() + 1) =~= done.push(pair));
            assert(hx_sources(done.push(pair)) =~= hx_sources(done).push(
                AttributeSource::Hx(pair.0, pair.1),
            ));
            assert(static_sources(done.push(pair)) =~= static_sources(done).push(
                AttributeSource::Static(pair.0, pair.1),
            ));
        }
    }
    assert(all.take(all.len() as int) =~= all);
}

/// The texts that an annotation can set.
#[derive(Clone, Copy, Debug, PartialEq, Eq, Structural)]
pub enum Slot {
    Element,
    Default,
    Before,
    After,
}

/// How an annotation says that a field's value is taken.
#[derive(Clone, Copy, Debug, PartialEq, Eq, Structural)]
pub enum Mark {
    List,
    ListNest,
    Nest,
}

impl Attribute {
    /// The annotation concerns the attributes of the element, its content
    /// template or the markup beside its content.
    pub open spec fn is_html(&self) -> bool {
        match self {
            Attribute::Format(_) => true,
            Attribute::Attrs(_) => true,
            Attribute::Attr(_) => true,
            Attribute::Hx(_) => true,
            Attribute::Request(_, _) => true,
            Attribute::Urlencode => true,
            Attribute::Before(_) => true,
            Attribute::After(_) => true,
            _ => false,
        }
    }

    /// The attributes that the annotation declares, in order.
    pub open spec fn sources(&self, encode: bool) -> Seq<AttributeSource> {
        match self {
            Attribute::Attrs(pairs) => static_sources(pairs@),
            Attribute::Attr(d) => seq![AttributeSource::Dynamic(*d)],
            Attribute::Hx(pairs) => hx_sources(pairs@),
            Attribute::Request(method, params) => seq![
                AttributeSource::Request(HtmxRequest { method: *method, params: *params, encode }),
            ],
            _ => Seq::empty(),
        }
    }

    /// The text that the annotation sets for a slot.
    pub open spec fn text(&self, slot: Slot) -> Option<String> {
        match (self, slot) {
            (Attribute::Element(s), Slot::Element) => Some(*s),
            (Attribute::Default(s), Slot::Default) => Some(*s),
            (Attribute::Before(s), Slot::Before) => Some(*s),
            (Attribute::After(s), Slot::After) => Some(*s),
            _ => None,
        }
    }

    /// How the annotation says that the field's value is taken.
    pub open spec fn mark(&self) -> Option<Mark> {
        match self {
            Attribute::List => Some(Mark::List),
            Attribute::ListNest => Some(Mark::ListNest),
            Attribute::Nest => Some(Mark::Nest),
            _ => None,
        }
    }
}

/// One of the annotations asks for percent-encoding.
pub open spec fn has_urlencode(attrs: Seq<Attribute>) -> bool {
    exists|i: int| 0 <= i < attrs.len() && attrs[i] is Urlencode
}

/// The attributes that the first `k` annotations declare, in order.
pub open spec fn sources_of(attrs: Seq<Attribute>, encode: bool, k: nat) -> Seq<AttributeSource>
    decreases k,
{
    if k == 0 || k > attrs.len() {
        Seq::empty()
    } else {
        sources_of(attrs, encode, (k - 1) as nat) + attrs[k - 1].sources(encode)
    }
}

/// The number of content templates among the first `k` annotations.
pub open spec fn formats(attrs: Seq<Attribute>, k: nat) -> nat
    decreases k,
{
    if k == 0 || k > attrs.len() {
        0
    } else if attrs[k - 1] is Format {
        formats(attrs, (k - 1) as nat) + 1
    } else {
        formats(attrs, (k - 1) as nat)
    }
}

/// The last content template among the first `k` annotations.
pub open spec fn last_format(attrs: Seq<Attribute>, k: nat) -> Option<FormatParams>
    decreases k,
{
    if k == 0 || k > attrs.len() {
        None
    } else {
        match attrs[k - 1] {
            Attribute::Format(f) => Some(f),
            _ => last_format(attrs, (k - 1) as nat),
        }
    }
}

/// The last map expression among the first `k` annotations.
pub open spec fn last_map(attrs: Seq<Attribute>, k: nat) -> Option<MapExpr>
    decreases k,
{
    if k == 0 || k > attrs.len() {
        None
    } else {
        match attrs[k - 1] {
            Attribute::Mapped(m) => Some(m),
            _ => last_map(attrs, (k - 1) as nat),
        }
    }
}

/// The text that the last of the first `k` annotations to set a slot gives it.
pub open spec fn last_text(attrs: Seq<Attribute>, slot: Slot, k: nat) -> Option<String>
    decreases k,
{
    if k == 0 || k > attrs.len() {
        None
    } else {
        match attrs[k - 1].text(slot) {
            Some(s) => Some(s),
            None => last_text(attrs, slot, (k - 1) as nat),
        }
    }
}

/// The first mark among the first `k` annotations.
pub open spec fn first_mark(attrs: Seq<Attribute>, k: nat) -> Option<Mark>
    decreases k,
{
    if k == 0 || k > attrs.len() {
        None
    } else {
        match first_mark(attrs, (k - 1) as nat) {
            Some(m) => Some(m),
            None => attrs[k - 1].mark(),
        }
    }
}

/// Those of the first `k` annotations that do not concern the element's
/// attributes, in order.
pub open spec fn rest_of(attrs: Seq<Attribute>, k: nat) -> Seq<Attribute>
    decreases k,
{
    if k == 0 || k > attrs.len() {
        Seq::empty()
    } else if attrs[k - 1].is_html() {
        rest_of(attrs, (k - 1) as nat)
    } else {
        rest_of(attrs, (k - 1) as nat).push(attrs[k - 1])
    }
}

/// The attribute set is the one that the annotations declare: their
/// attributes in order, each request path percent-encoded where one of the
/// annotations asks for it, the last content template, and the last markup
/// given for either side of the content.
pub open spec fn html_declared(attrs: Seq<Attribute>, html: HtmlAttributes) -> bool {
    &&& html.sources@ == sources_of(attrs, has_urlencode(attrs), attrs.len())
    &&& html.format_str == last_format(attrs, attrs.len())
    &&& html.before == last_text(attrs, Slot::Before, attrs.len())
    &&& html.after == last_text(attrs, Slot::After, attrs.len())
}

/// Says whether one of the annotations asks for percent-encoding.
pub fn asks_urlencode(attrs: &Vec<Attribute>) -> (found: bool)
    ensures
        found == has_urlencode(attrs@),
{
    let mut i: usize = 0;
    while i < attrs.len()
        invariant
            i <= attrs.len(),
            forall|j: int| 0 <= j < i ==> !(attrs@[j] is Urlencode),
        decreases attrs.len() - i,
    {
        if let Attribute::Urlencode = &attrs[i] {
            return true;
        }
        i = i + 1;
    }
    false
}

/// Collects what the annotations say of an element's attributes, of its
/// content template and of the markup beside its content, and hands back the
/// other annotations in order. A second content template is refused.
pub fn collect_html_attrs(attrs: Vec<Attribute>) -> (r: Result<
    (HtmlAttributes, Vec<Attribute>),
    SchemaError,
>)
    ensures
        match r {
            Ok((html, rest)) => {
                &&& formats(attrs@, attrs@.len()) <= 1
                &&& html_declared(attrs@, html)
                &&& rest@ == rest_of(attrs@, attrs@.len())
            },
            Err(e) => e == SchemaError::DuplicateFormat && formats(attrs@, attrs@.len()) >= 2,
        },
{
    let encode = asks_urlencode(&attrs);
    let mut html = HtmlAttributes {
        sources: Vec::new(),
        format_str: None,
        before: None,
        after: None,
    };
    let mut rest: Vec<Attribute> = Vec::new();
    let ghost all = attrs@;
    proof {
        assert(html.sources@ =~= sources_of(all, encode, 0));
        assert(rest@ =~= rest_of(all, 0));
    }
    for attr in it: attrs
        invariant
            it.seq() == all,
            encode == has_urlencode(all),
            formats(all, it.index() as nat) <= 1,
            html.format_str is Some <==> formats(all, it.index() as nat) == 1,
            html.sources@ == sources_of(all, encode, it.index() as nat),
            html.format_str == last_format(all, it.index() as nat),
            html.before == last_text(all, Slot::Before, it.index() as nat),
            html.after == last_text(all, Slot::After, it.index() as nat),
            rest@ == rest_of(all, it.index() as nat),
    {
        let ghost k = it.index() as nat;
        let ghost before = html.sources@;
        assert(all[k as int] == attr);
        match attr {
            Attribute::Format(f) => {
                if html.format_str.is_some() {
                    proof {
                        lemma_formats_grow(all, k + 1, all.len());
                    }
                    return Err(SchemaError::DuplicateFormat);
                }
                html.format_str = Some(f);
                assert(html.sources@ =~= before + attr.sources(encode));
            },
            Attribute::Attrs(pairs) => {
                push_pairs(&mut html.sources, pairs, false);
            },
            Attribute::Attr(d) => {
                html.sources.push(AttributeSource::Dynamic(d));
                assert(html.sources@ =~= before + attr.sources(encode));
            },
            Attribute::Hx(pairs) => {
                push_pairs(&mut html.sources, pairs, true);
            },
            Attribute::Request(method, params) => {
                html.sources.push(AttributeSource::Request(HtmxRequest { method, params, encode }));
                assert(html.sources@ =~= before + attr.sources(encode));
            },
            Attribute::Urlencode => {
                assert(html.sources@ =~= before + attr.sources(encode));
            },
            Attribute::Before(s) => {
                html.before = Some(s);
                assert(html.sources@ =~= before + attr.sources(encode));
            },
            Attribute::After(s) => {
                html.after = Some(s);
                assert(html.sources@ =~= before + attr.sources(encode));
            },
            other => {
                rest.push(other);
                assert(html.sources@ =~= before + attr.sources(encode));
            },
        }
    }
    Ok((html, rest))
}

/// The count of content templates does not shrink as more annotations are
/// taken in.
pub proof fn lemma_formats_grow(attrs: Seq<Attribute>, k: nat, n: nat)
    requires
        k <= n <= attrs.len(),
    ensures
        formats(attrs, k) <= formats(attrs, n),
    decreases n,
{
    if n > k {
        lemma_formats_grow(attrs, k, (n - 1) as nat);
    }
}

/// What is read off the first `k` annotations depends on those alone.
pub proof fn lemma_prefix_only(a: Seq<Attribute>, b: Seq<Attribute>, k: nat)
    requires
        k <= a.len(),
        k <= b.len(),
        forall|i: int| 0 <= i < k ==> a[i] == b[i],
    ensures
        last_text(a, Slot::Element, k) == last_text(b, Slot::Element, k),
        last_text(a, Slot::Default, k) == last_text(b, Slot::Default, k),
        last_map(a, k) == last_map(b, k),
        first_mark(a, k) == first_mark(b, k),
    decreases k,
{
    if k > 0 {
        lemma_prefix_only(a, b, (k - 1) as nat);
    }
}

/// Setting aside the annotations that concern the element's attributes
/// changes nothing for the tag, the default, the map expression and the mark.
pub proof fn lemma_rest_keeps(attrs: Seq<Attribute>, k: nat)
    requires
        k <= attrs.len(),
    ensures
        ({
            let rest = rest_of(attrs, k);
            &&& last_text(rest, Slot::Element, rest.len()) == last_text(attrs, Slot::Element, k)
            &&& last_text(rest, Slot::Default, rest.len()) == last_text(attrs, Slot::Default, k)
            &&& last_map(rest, rest.len()) == last_map(attrs, k)
            &&& first_mark(rest, rest.len()) == first_mark(attrs, k)
        }),
    decreases k,
{
    if k > 0 {
        lemma_rest_keeps(attrs, (k - 1) as nat);
        let shorter = rest_of(attrs, (k - 1) as nat);
        let rest = rest_of(attrs, k);
        if !attrs[k - 1].is_html() {
            assert(rest[rest.len() - 1] == attrs[k - 1]);
            lemma_prefix_only(rest, shorter, shorter.len());
        }
    }
}

/// The element of a field is the one that the field's annotations declare:
/// its attribute set, the last tag, the last default and the last map
/// expression given.
pub open spec fn field_declared(
    field_name: String,
    attrs: Seq<Attribute>,
    optional: bool,
    element: HtmxFieldElement,
) -> bool {
    &&& element.field_name == field_name
    &&& element.optional == optional
    &&& html_declared(attrs, element.attrs)
    &&& element.html_element == last_text(attrs, Slot::Element, attrs.len())
    &&& element.default == last_text(attrs, Slot::Default, attrs.len())
    &&& element.map == last_map(attrs, attrs.len())
}

/// Collects the element of a field from the field's annotations, with the
/// first mark among them. A second content template is refused.
pub fn collect_htmx_field_el(field_name: String, attrs: Vec<Attribute>, optional: bool) -> (r:
    Result<(HtmxFieldElement, Option<Mark>), SchemaError>)
    ensures
        match r {
            Ok((element, mark)) => {
                &&& formats(attrs@, attrs@.len()) <= 1
                &&& field_declared(field_name, attrs@, optional, element)
                &&& mark == first_mark(attrs@, attrs@.len())
            },
            Err(e) => e == SchemaError::DuplicateFormat && formats(attrs@, attrs@.len()) >= 2,
        },
{
    let (el_attrs, rest) = match collect_html_attrs(attrs) {
        Ok(parts) => parts,
        Err(e) => {
            return Err(e);
        },
    };
    let mut element = HtmxFieldElement {
        field_name,
        html_element: None,
        attrs: el_attrs,
        optional,
        default: None,
        map: None,
    };
    let mut mark: Option<Mark> = None;
    let ghost others = rest@;
    proof {
        lemma_rest_keeps(attrs@, attrs@.len());
    }
    for attr in it: rest
        invariant
            it.seq() == others,
            element.field_name == field_name,
            element.optional == optional,
            element.attrs == el_attrs,
            element.html_element == last_text(others, Slot::Element, it.index() as nat),
            element.default == last_text(others, Slot::Default, it.index() as nat),
            element.map == last_map(others, it.index() as nat),
            mark == first_mark(others, it.index() as nat),
    {
        assert(others[it.index() as int] == attr);
        match attr {
            Attribute::Element(s) => {
                element.html_element = Some(s);
            },
            Attribute::Default(s) => {
                element.default = Some(s);
            },
            Attribute::Mapped(m) => {
                element.map = Some(m);
            },
            Attribute::List => {
                if mark.is_none() {
                    mark = Some(Mark::List);
                }
            },
            Attribute::ListNest => {
                if mark.is_none() {
                    mark = Some(Mark::ListNest);
                }
            },
            Attribute::Nest => {
                if mark.is_none() {
                    mark = Some(Mark::Nest);
                }
            },
            _ => {},
        }
    }
    Ok((element, mark))
}

impl HtmxStructElement {
    /// The element is the one that the annotations of a record type declare:
    /// its attribute set and the last tag given.
    pub open spec fn declared(&self, attrs: Seq<Attribute>) -> bool {
        &&& html_declared(attrs, self.attrs)
        &&& self.html_element == last_text(attrs, Slot::Element, attrs.len())
    }

    /// Collects the element that wraps a record from the annotations of the
    /// record type. A second content template is refused.
    pub fn collect_from(attrs: Vec<Attribute>) -> (r: Result<HtmxStructElement, SchemaError>)
        ensures
            match r {
                Ok(element) => formats(attrs@, attrs@.len()) <= 1 && element.declared(attrs@),
                Err(e) => e == SchemaError::DuplicateFormat && formats(attrs@, attrs@.len()) >= 2,
            },
    {
        let (el_attrs, rest) = match collect_html_attrs(attrs) {
            Ok(parts) => parts,
            Err(e) => {
                return Err(e);
            },
        };
        let mut element = HtmxStructElement { html_element: None, attrs: el_attrs };
        let ghost others = rest@;
        proof {
            lemma_rest_keeps(attrs@, attrs@.len());
        }
        for attr in it: rest
            invariant
                it.seq() == others,
                element.attrs == el_attrs,
                element.html_element == last_text(others, Slot::Element, it.index() as nat),
        {
            assert(others[it.index() as int] == attr);
            if let Attribute::Element(s) = attr {
                element.html_element = Some(s);
            }
        }
        Ok(element)
    }
}

/// A field as it is declared.
#[derive(Debug)]
pub struct FieldDecl {
    /// The name of the field.
    pub ident: String,
    /// Whether the field's value may be absent.
    pub optional: bool,
    /// The annotations of the field, in order.
    pub attrs: Vec<Attribute>,
    /// The declaration of the record type that the field holds, where it
    /// holds records.
    pub nested: Option<StructDecl>,
}

/// A record type as it is declared.
#[derive(Debug)]
pub struct StructDecl {
    /// The annotations of the type, in order.
    pub attrs: Vec<Attribute>,
    /// The fields, in declared order.
    pub fields: Vec<FieldDecl>,
}

impl FieldDecl {
    /// What keeps the field from being collected: a second content template,
    /// or a mark that asks for records where no declaration of their type is
    /// given, or what keeps that declaration from being collected.
    pub open spec fn defect(&self) -> Option<SchemaError>
        decreases self, 0nat, 0nat,
    {
        if formats(self.attrs@, self.attrs@.len()) >= 2 {
            Some(SchemaError::DuplicateFormat)
        } else {
            match first_mark(self.attrs@, self.attrs@.len()) {
                Some(Mark::ListNest) | Some(Mark::Nest) => match self.nested {
                    Some(inner) => inner.defect(),
                    None => Some(SchemaError::MissingNested),
                },
                _ => None,
            }
        }
    }

    /// The field of a schema is the one that this declaration amounts to:
    /// its element is the one that the annotations declare, and its kind
    /// follows the first mark, with the schema that the nested declaration
    /// amounts to. A field without a mark is rendered as a scalar; one
    /// without any annotation is not rendered.
    pub open spec fn declares(&self, field: HtmxField) -> bool
        decreases self, 0nat, 0nat,
    {
        &&& field_declared(self.ident, self.attrs@, self.optional, field.element)
        &&& match first_mark(self.attrs@, self.attrs@.len()) {
            None => if self.attrs@.len() == 0 {
                field.kind is Data
            } else {
                field.kind is Plain
            },
            Some(Mark::List) => field.kind is List,
            Some(Mark::ListNest) => match (self.nested, field.kind) {
                (Some(inner), FieldKind::NestedList(schema)) => inner.declares(schema),
                _ => false,
            },
            Some(Mark::Nest) => match (self.nested, field.kind) {
                (Some(inner), FieldKind::Nest(schema)) => inner.declares(schema),
                _ => false,
            },
        }
    }

    /// Collects the field of a schema from the declaration.
    pub fn collect(self) -> (r: Result<HtmxField, SchemaError>)
        ensures
            match r {
                Ok(field) => self.defect() is None && self.declares(field),
                Err(e) => self.defect() == Some(e),
            },
        decreases self, 0nat, 0nat,
    {
        let FieldDecl { ident, optional, attrs, nested } = self;
        let bare = attrs.len() == 0;
        let (element, mark) = match collect_htmx_field_el(ident, attrs, optional) {
            Ok(parts) => parts,
            Err(e) => {
                return Err(e);
            },
        };
        let kind = match mark {
            None => if bare {
                FieldKind::Data
            } else {
                FieldKind::Plain
            },
            Some(Mark::List) => FieldKind::List,
            Some(Mark::ListNest) => match nested {
                Some(inner) => match HtmxStruct::collect_from(inner) {
                    Ok(schema) => FieldKind::NestedList(schema),
                    Err(e) => {
                        return Err(e);
                    },
                },
                None => {
                    return Err(SchemaError::MissingNested);
                },
            },
            Some(Mark::Nest) => match nested {
                Some(inner) => match HtmxStruct::collect_from(inner) {
                    Ok(schema) => FieldKind::Nest(schema),
                    Err(e) => {
                        return Err(e);
                    },
                },
                None => {
                    return Err(SchemaError::MissingNested);
                },
            },
        };
        Ok(HtmxField { element, kind })
    }
}

impl StructDecl {
    /// What keeps the first `k` fields from being collected, in declared
    /// order.
    pub open spec fn fields_defect(&self, k: nat) -> Option<SchemaError>
        decreases self, 0nat, k,
    {
        if k == 0 || k > self.fields@.len() {
            None
        } else {
            or_else(self.fields_defect((k - 1) as nat), self.fields@[k - 1].defect())
        }
    }

    /// What keeps the declaration from being collected: a second content
    /// template on the type, or the first field that cannot be collected.
    pub open spec fn defect(&self) -> Option<SchemaError>
        decreases self, 1nat, 0nat,
    {
        if formats(self.attrs@, self.attrs@.len()) >= 2 {
            Some(SchemaError::DuplicateFormat)
        } else {
            self.fields_defect(self.fields@.len())
        }
    }

    /// The schema is the one that this declaration amounts to: its own
    /// element is the one that the type's annotations declare, and its fields
    /// are those that the field declarations amount to, in order.
    pub open spec fn declares(&self, schema: HtmxStruct) -> bool
        decreases self, 1nat, 0nat,
    {
        &&& match schema.self_element {
            Some(element) => element.declared(self.attrs@),
            None => false,
        }
        &&& schema.fields@.len() == self.fields@.len()
        &&& forall|i: int|
            0 <= i < self.fields@.len() ==> (#[trigger] self.fields@[i]).declares(schema.fields@[i])
    }

    /// Every schema that the declaration amounts to is sound.
    pub open spec fn declares_sound(&self) -> bool {
        forall|schema: HtmxStruct| #[trigger] self.declares(schema) ==> schema.wf()
    }

    /// Every schema that the declaration amounts to has the given first
    /// defect.
    pub open spec fn declares_defect(&self, e: SchemaError) -> bool {
        forall|schema: HtmxStruct| #[trigger] self.declares(schema) ==> schema.defect() == Some(e)
    }

    /// A finding among the first fields stays the first finding.
    pub proof fn lemma_fields_defect_stays(&self, k: nat, n: nat)
        requires
            k <= n <= self.fields@.len(),
            self.fields_defect(k) is Some,
        ensures
            self.fields_defect(n) == self.fields_defect(k),
        decreases n,
    {
        if n > k {
            self.lemma_fields_defect_stays(k, (n - 1) as nat);
        }
    }
}

impl HtmxStruct {
    /// Collects the schema that a declaration amounts to: the element of the
    /// record type from its annotations, then each field in declared order,
    /// with the schemas of the record types nested in it. Nothing is judged
    /// here but whether the schema can be written down.
    #[verifier::loop_isolation(false)]
    pub fn collect_from(decl: StructDecl) -> (r: Result<HtmxStruct, SchemaError>)
        ensures
            match r {
                Ok(schema) => decl.defect() is None && decl.declares(schema),
                Err(e) => decl.defect() == Some(e),
            },
        decreases decl, 1nat, 0nat,
    {
        let StructDecl { attrs, fields } = decl;
        let self_element = match HtmxStructElement::collect_from(attrs) {
            Ok(element) => element,
            Err(e) => {
                return Err(e);
            },
        };
        let mut collected: Vec<HtmxField> = Vec::new();
        let ghost all = fields@;
        for field in it: fields
            invariant
                it.seq() == all,
                all == decl.fields@,
                collected@.len() == it.index(),
                decl.fields_defect(it.index() as nat) is None,
                forall|i: int|
                    0 <= i < it.index() ==> (#[trigger] all[i]).declares(collected@[i]),
        {
            let ghost k = it.index() as nat;
            assert(all[k as int] == field);
            match field.collect() {
                Ok(part) => {
                    collected.push(part);
                },
                Err(e) => {
                    proof {
                        assert(decl.fields_defect(k + 1) == Some(e));
                        decl.lemma_fields_defect_stays(k + 1, all.len());
                    }
                    return Err(e);
                },
            }
        }
        Ok(HtmxStruct { self_element: Some(self_element), fields: collected })
    }
}

} // verus!
