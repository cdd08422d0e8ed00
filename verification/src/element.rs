//! Elements: a tag, its attributes and what it holds.
use crate::attrs::{kind_text, AttrKind, AttributeSource, HtmlAttributes};
use crate::expr::MapExpr;
use crate::record::{FieldValue, Record};
use crate::template::views;
use crate::value::Value;
use vstd::prelude::*;
use vstd::string::StringExecFns;

verus! {

/// The text of a string that may be absent: nothing where it is.
pub open spec fn opt_text(s: Option<String>) -> Seq<char> {
    match s {
        Some(t) => t@,
        None => Seq::empty(),
    }
}

/// The opening of an element: the tag with its attributes, then the markup
/// that precedes the element's content. Nothing where there is no tag.
pub open spec fn open_text(tag: Option<String>, attrs: HtmlAttributes, record: &Record) -> Seq<
    char,
> {
    match tag {
        Some(t) => seq!['<'] + t@ + attrs.text(record) + seq!['>'] + opt_text(attrs.before),
        None => Seq::empty(),
    }
}

/// The closing of an element: the markup that follows the element's content,
/// then the closing tag. Nothing where there is no tag.
pub open spec fn close_text(tag: Option<String>, attrs: HtmlAttributes) -> Seq<char> {
    match tag {
        Some(t) => opt_text(attrs.after) + seq!['<', '/'] + t@ + seq!['>'],
        None => Seq::empty(),
    }
}

fn write_opt(out: &mut String, s: &Option<String>)
    ensures
        final(out)@ == old(out)@ + opt_text(*s),
{
    let ghost start = out@;
    match s {
        Some(t) => {
            out.append(t.as_str());
        },
        None => {
            assert(out@ =~= start + opt_text(*s));
        },
    }
}

fn write_open(out: &mut String, tag: &Option<String>, attrs: &HtmlAttributes, record: &Record)
    requires
        tag is Some ==> attrs.wf() && attrs.resolvable(record),
    ensures
        final(out)@ == old(out)@ + open_text(*tag, *attrs, record),
{
    let ghost start = out@;
    match tag {
        Some(t) => {
            proof {
                reveal_strlit("<");
                reveal_strlit(">");
            }
            let attributes = attrs.render(record);
            out.append("<");
            out.append(t.as_str());
            out.append(attributes.as_str());
            out.append(">");
            write_opt(out, &attrs.before);
            assert(out@ =~= start + open_text(*tag, *attrs, record));
        },
        None => {
            assert(out@ =~= start + open_text(*tag, *attrs, record));
        },
    }
}

fn write_close(out: &mut String, tag: &Option<String>, attrs: &HtmlAttributes)
    ensures
        final(out)@ == old(out)@ + close_text(*tag, *attrs),
{
    let ghost start = out@;
    match tag {
        Some(t) => {
            proof {
                reveal_strlit("</");
                reveal_strlit(">");
            }
            write_opt(out, &attrs.after);
            out.append("</");
            out.append(t.as_str());
            out.append(">");
            assert(out@ =~= start + close_text(*tag, *attrs));
        },
        None => {
            assert(out@ =~= start + close_text(*tag, *attrs));
        },
    }
}

/// The element that wraps a record.
#[derive(Debug)]
pub struct HtmxStructElement {
    /// The tag; `None` for no wrapping element.
    pub html_element: Option<String>,
    pub attrs: HtmlAttributes,
}

impl HtmxStructElement {
    /// Where the element is written, its attributes can be computed from the
    /// record.
    pub open spec fn renderable(&self, record: &Record) -> bool {
        self.html_element is Some ==> self.attrs.resolvable(record)
    }

    /// The opening of the element for a record.
    pub open spec fn open_text(&self, record: &Record) -> Seq<char> {
        open_text(self.html_element, self.attrs, record)
    }

    /// The closing of the element.
    pub open spec fn close_text(&self) -> Seq<char> {
        close_text(self.html_element, self.attrs)
    }

    /// Says whether the element can be written for the record.
    pub fn is_renderable(&self, record: &Record) -> (ok: bool)
        ensures
            ok == self.renderable(record),
    {
        self.html_element.is_none() || self.attrs.is_resolvable(record)
    }

    /// Writes the opening of the element for a record.
    pub fn open(&self, record: &Record) -> (out: String)
        requires
            self.wf(),
            self.renderable(record),
        ensures
            out@ == self.open_text(record),
    {
        let mut out = String::new();
        write_open(&mut out, &self.html_element, &self.attrs, record);
        assert(out@ =~= self.open_text(record));
        out
    }

    /// Writes the closing of the element.
    pub fn close(&self) -> (out: String)
        ensures
            out@ == self.close_text(),
    {
        let mut out = String::new();
        write_close(&mut out, &self.html_element, &self.attrs);
        assert(out@ =~= self.close_text());
        out
    }
}

/// The element of one field, with what decides its content.
#[derive(Debug)]
pub struct HtmxFieldElement {
    /// The name of the field.
    pub field_name: String,
    /// The tag; `None` for no wrapping element: the content is then written
    /// directly.
    pub html_element: Option<String>,
    pub attrs: HtmlAttributes,
    /// Whether the field's value may be absent.
    pub optional: bool,
    /// The text that stands for an absent value.
    pub default: Option<String>,
    /// The expression that the value is passed through.
    pub map: Option<MapExpr>,
}

impl HtmxFieldElement {
    /// The attributes, where the element has a tag to carry them, and the
    /// arguments of the content template can be computed from the record.
    pub open spec fn renderable(&self, record: &Record) -> bool {
        &&& self.html_element is Some ==> self.attrs.resolvable(record)
        &&& match self.attrs.format_str {
            Some(f) => f.resolvable(record),
            None => true,
        }
    }

    /// The opening of the element for a record.
    pub open spec fn open_text(&self, record: &Record) -> Seq<char> {
        open_text(self.html_element, self.attrs, record)
    }

    /// The closing of the element.
    pub open spec fn close_text(&self) -> Seq<char> {
        close_text(self.html_element, self.attrs)
    }

    /// The text that a present value contributes: that of the value, passed
    /// through the map expression where there is one. `None` where the
    /// expression is not defined on the value.
    pub open spec fn subject(&self, v: Value) -> Option<Seq<char>> {
        match self.map {
            Some(m) => match m.apply(v) {
                Some(w) => Some(w.text()),
                None => None,
            },
            None => Some(v.text()),
        }
    }

    /// The content of the element for a subject text: the content template
    /// filled with the subject and the fields it names, or the subject itself
    /// where there is no template.
    pub open spec fn content_text(&self, subject: Seq<char>, record: &Record) -> Seq<char> {
        match self.attrs.format_str {
            Some(f) => f.text(seq![subject], record, false),
            None => subject,
        }
    }

    /// The whole element for a subject text: opening, content, closing.
    /// Without a tag this is the content alone.
    pub open spec fn element_text(&self, subject: Seq<char>, record: &Record) -> Seq<char> {
        self.open_text(record) + self.content_text(subject, record) + self.close_text()
    }

    /// The element for a present value.
    pub open spec fn item_text(&self, v: Value, record: &Record) -> Seq<char> {
        self.element_text(self.subject(v).unwrap(), record)
    }

    /// The elements for the first `k` items of a list, one after the other.
    pub open spec fn items_text(&self, items: Seq<Value>, record: &Record, k: nat) -> Seq<char>
        decreases k,
    {
        if k == 0 || k > items.len() {
            Seq::empty()
        } else {
            self.items_text(items, record, (k - 1) as nat) + self.item_text(items[k - 1], record)
        }
    }

    /// What a scalar field contributes. As a list: one element for each item,
    /// in order. Else: the element for the value; for an absent value the
    /// element for the default, or nothing where there is no default. A
    /// field without a tag contributes the content alone.
    pub open spec fn tokens_text(&self, list: bool, value: FieldValue, record: &Record) -> Seq<
        char,
    > {
        if list {
            match value {
                FieldValue::List(items) => self.items_text(items@, record, items@.len()),
                _ => Seq::empty(),
            }
        } else {
            match value {
                FieldValue::Scalar(v) => self.item_text(v, record),
                FieldValue::Optional(Some(v)) => self.item_text(v, record),
                FieldValue::Optional(None) => match self.default {
                    Some(d) => self.element_text(d@, record),
                    None => Seq::empty(),
                },
                _ => Seq::empty(),
            }
        }
    }

    /// The value is of the shape that the field declares, and the map
    /// expression is defined on it.
    pub open spec fn accepts(&self, list: bool, value: FieldValue) -> bool {
        if list {
            match value {
                FieldValue::List(items) => forall|i: int|
                    0 <= i < items@.len() ==> self.subject(#[trigger] items@[i]) is Some,
                _ => false,
            }
        } else if self.optional {
            match value {
                FieldValue::Optional(Some(v)) => self.subject(v) is Some,
                FieldValue::Optional(None) => true,
                _ => false,
            }
        } else {
            match value {
                FieldValue::Scalar(v) => self.subject(v) is Some,
                _ => false,
            }
        }
    }

    /// Says whether the element can be written for the record.
    pub fn is_renderable(&self, record: &Record) -> (ok: bool)
        ensures
            ok == self.renderable(record),
    {
        if self.html_element.is_some() && !self.attrs.is_resolvable(record) {
            return false;
        }
        match &self.attrs.format_str {
            Some(f) => f.is_resolvable(record),
            None => true,
        }
    }

    /// Says whether the value is of the shape that the field declares, with
    /// the map expression defined on it.
    #[verifier::loop_isolation(false)]
    pub fn does_accept(&self, list: bool, value: &FieldValue) -> (ok: bool)
        ensures
            ok == self.accepts(list, *value),
    {
        if list {
            match value {
                FieldValue::List(items) => {
                    let mut i: usize = 0;
                    while i < items.len()
                        invariant
                            i <= items.len(),
                            forall|j: int|
                                0 <= j < i ==> self.subject(#[trigger] items@[j]) is Some,
                        decreases items.len() - i,
                    {
                        if self.subject_of(&items[i]).is_none() {
                            return false;
                        }
                        i = i + 1;
                    }
                    true
                },
                _ => false,
            }
        } else if self.optional {
            match value {
                FieldValue::Optional(Some(v)) => self.subject_of(v).is_some(),
                FieldValue::Optional(None) => true,
                _ => false,
            }
        } else {
            match value {
                FieldValue::Scalar(v) => self.subject_of(v).is_some(),
                _ => false,
            }
        }
    }

    /// Writes the opening of the element for a record.
    pub fn open(&self, record: &Record) -> (out: String)
        requires
            self.attrs.wf(),
            self.html_element is Some ==> self.attrs.resolvable(record),
        ensures
            out@ == self.open_text(record),
    {
        let mut out = String::new();
        write_open(&mut out, &self.html_element, &self.attrs, record);
        assert(out@ =~= self.open_text(record));
        out
    }

    /// Writes the closing of the element.
    pub fn close(&self) -> (out: String)
        ensures
            out@ == self.close_text(),
    {
        let mut out = String::new();
        write_close(&mut out, &self.html_element, &self.attrs);
        assert(out@ =~= self.close_text());
        out
    }

    /// Writes the text that a present value contributes.
    pub fn subject_of(&self, v: &Value) -> (out: Option<String>)
        ensures
            match out {
                Some(t) => self.subject(*v) == Some(t@),
                None => self.subject(*v) is None,
            },
    {
        match &self.map {
            Some(m) => match m.expr.evaluate(v) {
                Some(w) => Some(w.to_text()),
                None => None,
            },
            None => Some(v.to_text()),
        }
    }

    /// Appends the whole element for a subject text to `out`.
    fn write_element(&self, out: &mut String, subject: String, record: &Record)
        requires
            self.wf(),
            self.renderable(record),
        ensures
            final(out)@ == old(out)@ + self.element_text(subject@, record),
    {
        let ghost start = out@;
        write_open(out, &self.html_element, &self.attrs, record);
        match &self.attrs.format_str {
            Some(f) => {
                let mut lead: Vec<String> = Vec::new();
                lead.push(subject);
                assert(views(lead@) =~= seq![subject@]);
                let content = f.format(lead, record, false);
                out.append(content.as_str());
            },
            None => {
                out.append(subject.as_str());
            },
        }
        write_close(out, &self.html_element, &self.attrs);
        assert(out@ =~= start + self.element_text(subject@, record));
    }

    /// Appends the element for a present value to `out`.
    fn write_item(&self, out: &mut String, v: &Value, record: &Record)
        requires
            self.wf(),
            self.renderable(record),
            self.subject(*v) is Some,
        ensures
            final(out)@ == old(out)@ + self.item_text(*v, record),
    {
        let subject = match self.subject_of(v) {
            Some(t) => t,
            None => String::new(),
        };
        self.write_element(out, subject, record);
    }

    /// Renders a scalar field: as a list, one element for each item; else the
    /// element for the value, for its default where it is absent, or nothing
    /// where it is absent and has no default.
    pub fn to_tokens(&self, list: bool, value: &FieldValue, record: &Record) -> (out: String)
        requires
            self.wf(),
            self.renderable(record),
            self.accepts(list, *value),
        ensures
            out@ == self.tokens_text(list, *value, record),
    {
        let mut out = String::new();
        match value {
            FieldValue::List(items) => {
                let mut i: usize = 0;
                while i < items.len()
                    invariant
                        list,
                        i <= items.len(),
                        self.wf(),
                        self.renderable(record),
                        self.accepts(list, FieldValue::List(*items)),
                        out@ == self.items_text(items@, record, i as nat),
                    decreases items.len() - i,
                {
                    assert(self.subject(items@[i as int]) is Some);
                    self.write_item(&mut out, &items[i], record);
                    i = i + 1;
                }
            },
            FieldValue::Scalar(v) => {
                self.write_item(&mut out, v, record);
                assert(out@ =~= self.item_text(*v, record));
            },
            FieldValue::Optional(Some(v)) => {
                self.write_item(&mut out, v, record);
                assert(out@ =~= self.item_text(*v, record));
            },
            FieldValue::Optional(None) => {
                match &self.default {
                    Some(d) => {
                        self.write_element(&mut out, d.clone(), record);
                        assert(out@ =~= self.element_text(d@, record));
                    },
                    None => {},
                }
            },
            _ => {},
        }
        out
    }
}

/// The elements of a list depend on the first `k` items alone.
pub proof fn lemma_items_prefix(
    element: HtmxFieldElement,
    a: Seq<Value>,
    b: Seq<Value>,
    record: &Record,
    k: nat,
)
    requires
        k <= a.len(),
        k <= b.len(),
        forall|i: int| 0 <= i < k ==> a[i] == b[i],
    ensures
        element.items_text(a, record, k) == element.items_text(b, record, k),
    decreases k,
{
    if k > 0 {
        lemma_items_prefix(element, a, b, record, (k - 1) as nat);
    }
}

/// A list of scalars is rendered item by item, in order and with nothing
/// between the items: the elements for one list followed by another are the
/// elements for the first, then those for the second.
pub proof fn lemma_items_concat(
    element: HtmxFieldElement,
    a: Seq<Value>,
    b: Seq<Value>,
    record: &Record,
)
    ensures
        element.items_text(a + b, record, a.len() + b.len()) == element.items_text(
            a,
            record,
            a.len(),
        ) + element.items_text(b, record, b.len()),
    decreases b.len(),
{
    if b.len() == 0 {
        assert(a + b =~= a);
        assert(element.items_text(a, record, a.len()) + Seq::<char>::empty()
            =~= element.items_text(a, record, a.len()));
    } else {
        let shorter = b.drop_last();
        lemma_items_concat(element, a, shorter, record);
        lemma_items_prefix(element, a + b, a + shorter, record, a.len() + shorter.len());
        lemma_items_prefix(element, b, shorter, record, shorter.len());
        assert((a + b)[a.len() + b.len() - 1] == b[b.len() - 1]);
        assert(element.items_text(a + b, record, a.len() + b.len()) =~= element.items_text(
            a,
            record,
            a.len(),
        ) + element.items_text(b, record, b.len()));
    }
}

/// A list of one item is rendered as that item's element, an empty list as
/// nothing.
pub proof fn lemma_items_small(element: HtmxFieldElement, v: Value, record: &Record)
    ensures
        element.items_text(Seq::empty(), record, 0) == Seq::<char>::empty(),
        element.items_text(seq![v], record, 1) == element.item_text(v, record),
{
    assert(element.items_text(seq![v], record, 0) == Seq::<char>::empty());
    assert(Seq::<char>::empty() + element.item_text(v, record) =~= element.item_text(v, record));
}

impl HtmxFieldElement {
    /// The element reads no field of the record: its attributes are literal,
    /// and its content template, where it has one, names no field.
    pub open spec fn reads_no_field(&self) -> bool {
        &&& forall|i: int|
            0 <= i < self.attrs.sources@.len() ==> {
                let source = #[trigger] self.attrs.sources@[i];
                source is Static || source is Hx
            }
        &&& match self.attrs.format_str {
            Some(f) => f.args@.len() == 0,
            None => true,
        }
    }
}

/// Literal attributes are written alike for every record.
pub proof fn lemma_literal_attrs(
    sources: Seq<AttributeSource>,
    kind: AttrKind,
    one: &Record,
    other: &Record,
    k: nat,
)
    requires
        forall|i: int|
            0 <= i < sources.len() ==> {
                let source = #[trigger] sources[i];
                source is Static || source is Hx
            },
    ensures
        kind_text(sources, kind, one, k) == kind_text(sources, kind, other, k),
    decreases k,
{
    if 0 < k <= sources.len() {
        lemma_literal_attrs(sources, kind, one, other, (k - 1) as nat);
        let source = sources[k - 1];
        assert(source is Static || source is Hx);
    }
}

/// An element that reads no field of the record renders the items of a list
/// alike in every record.
pub proof fn lemma_items_of_any_record(
    element: HtmxFieldElement,
    items: Seq<Value>,
    one: &Record,
    other: &Record,
    k: nat,
)
    requires
        element.reads_no_field(),
    ensures
        element.items_text(items, one, k) == element.items_text(items, other, k),
    decreases k,
{
    if 0 < k <= items.len() {
        lemma_items_of_any_record(element, items, one, other, (k - 1) as nat);
        let sources = element.attrs.sources@;
        lemma_literal_attrs(sources, AttrKind::Dynamic, one, other, sources.len());
        lemma_literal_attrs(sources, AttrKind::Static, one, other, sources.len());
        lemma_literal_attrs(sources, AttrKind::Hx, one, other, sources.len());
        lemma_literal_attrs(sources, AttrKind::Request, one, other, sources.len());
        match element.attrs.format_str {
            Some(f) => {
                assert(f.arg_texts(one, false) =~= f.arg_texts(other, false));
            },
            None => {},
        }
    }
}

} // verus!
