//! Schemas: how the records of one type are rendered.
use crate::element::{
    lemma_items_concat, lemma_items_of_any_record, HtmxFieldElement, HtmxStructElement,
};
use crate::record::{FieldValue, Record};
use crate::value::Value;
use vstd::prelude::*;
use vstd::string::StringExecFns;

verus! {

/// How a field's value is taken.
#[derive(Debug)]
pub enum FieldKind {
    /// A value that is not rendered: the field is there to be named by
    /// others.
    Data,
    /// A scalar, rendered by the field's element. Without a tag the content
    /// is written directly.
    Plain,
    /// A sequence of scalars, each rendered by the field's element.
    List,
    /// A sequence of records, each rendered by the given schema, all of them
    /// inside the field's element.
    NestedList(HtmxStruct),
    /// A record rendered by the given schema, inside the field's element.
    Nest(HtmxStruct),
}

/// One field of a schema.
#[derive(Debug)]
pub struct HtmxField {
    pub element: HtmxFieldElement,
    pub kind: FieldKind,
}

/// The schema of a record type: the element that wraps a record, and the
/// fields in declared order.
#[derive(Debug)]
pub struct HtmxStruct {
    pub self_element: Option<HtmxStructElement>,
    pub fields: Vec<HtmxField>,
}

impl HtmxField {
    /// What the field contributes to the markup of `record`, given the value
    /// that it holds there.
    pub open spec fn field_text(&self, value: FieldValue, record: &Record) -> Seq<char>
        decreases self, 0nat, 0nat,
    {
        match self.kind {
            FieldKind::Data => Seq::empty(),
            FieldKind::Plain => self.element.tokens_text(false, value, record),
            FieldKind::List => self.element.tokens_text(true, value, record),
            FieldKind::NestedList(schema) => match value {
                FieldValue::NestedList(items) => self.element.open_text(record)
                    + schema.records_text(items@, items@.len()) + self.element.close_text(),
                _ => Seq::empty(),
            },
            FieldKind::Nest(schema) => match value {
                FieldValue::Nested(inner) => self.element.open_text(record) + schema.markup(
                    &inner,
                ) + self.element.close_text(),
                FieldValue::OptionalNested(Some(inner)) => self.element.open_text(record)
                    + schema.markup(&inner) + self.element.close_text(),
                _ => Seq::empty(),
            },
        }
    }

    /// The value is of the shape that the field declares, and everything the
    /// field's rendering reads from the record is there.
    pub open spec fn admits(&self, value: FieldValue, record: &Record) -> bool
        decreases self, 0nat, 0nat,
    {
        match self.kind {
            FieldKind::Data => true,
            FieldKind::Plain => {
                &&& self.element.renderable(record)
                &&& self.element.accepts(false, value)
            },
            FieldKind::List => {
                &&& self.element.renderable(record)
                &&& self.element.accepts(true, value)
            },
            FieldKind::NestedList(schema) => {
                &&& self.element.html_element is Some ==> self.element.attrs.resolvable(record)
                &&& match value {
                    FieldValue::NestedList(items) => forall|i: int|
                        0 <= i < items@.len() ==> schema.admits(#[trigger] &items@[i]),
                    _ => false,
                }
            },
            FieldKind::Nest(schema) => {
                &&& self.element.html_element is Some ==> self.element.attrs.resolvable(record)
                &&& if self.element.optional {
                    match value {
                        FieldValue::OptionalNested(Some(inner)) => schema.admits(&inner),
                        FieldValue::OptionalNested(None) => true,
                        _ => false,
                    }
                } else {
                    match value {
                        FieldValue::Nested(inner) => schema.admits(&inner),
                        _ => false,
                    }
                }
            },
        }
    }
}

impl HtmxField {
    /// Says whether the field admits the value that it holds in `record`.
    #[verifier::loop_isolation(false)]
    pub fn fits(&self, value: &FieldValue, record: &Record) -> (ok: bool)
        ensures
            ok == self.admits(*value, record),
        decreases self, 0nat, 0nat,
    {
        match &self.kind {
            FieldKind::Data => true,
            FieldKind::Plain => {
                self.element.is_renderable(record) && self.element.does_accept(false, value)
            },
            FieldKind::List => {
                self.element.is_renderable(record) && self.element.does_accept(true, value)
            },
            FieldKind::NestedList(schema) => {
                if self.element.html_element.is_some() && !self.element.attrs.is_resolvable(
                    record,
                ) {
                    return false;
                }
                match value {
                    FieldValue::NestedList(items) => {
                        let mut i: usize = 0;
                        while i < items.len()
                            invariant
                                i <= items.len(),
                                forall|j: int|
                                    0 <= j < i ==> schema.admits(#[trigger] &items@[j]),
                            decreases items.len() - i,
                        {
                            if !schema.fits(&items[i]) {
                                return false;
                            }
                            i = i + 1;
                        }
                        true
                    },
                    _ => false,
                }
            },
            FieldKind::Nest(schema) => {
                if self.element.html_element.is_some() && !self.element.attrs.is_resolvable(
                    record,
                ) {
                    return false;
                }
                if self.element.optional {
                    match value {
                        FieldValue::OptionalNested(Some(inner)) => schema.fits(inner),
                        FieldValue::OptionalNested(None) => true,
                        _ => false,
                    }
                } else {
                    match value {
                        FieldValue::Nested(inner) => schema.fits(inner),
                        _ => false,
                    }
                }
            },
        }
    }

    /// Renders the field for the value that it holds in `record`.
    #[verifier::loop_isolation(false)]
    pub fn to_htmx(&self, value: &FieldValue, record: &Record) -> (out: String)
        requires
            self.wf(),
            self.admits(*value, record),
        ensures
            out@ == self.field_text(*value, record),
        decreases self, 0nat, 0nat,
    {
        match &self.kind {
            FieldKind::Data => String::new(),
            FieldKind::Plain => self.element.to_tokens(false, value, record),
            FieldKind::List => self.element.to_tokens(true, value, record),
            FieldKind::NestedList(schema) => {
                match value {
                    FieldValue::NestedList(items) => {
                        let mut out = self.element.open(record);
                        let mut i: usize = 0;
                        assert(out@ =~= self.element.open_text(record) + schema.records_text(
                            items@,
                            0,
                        ));
                        while i < items.len()
                            invariant
                                i <= items.len(),
                                out@ == self.element.open_text(record) + schema.records_text(
                                    items@,
                                    i as nat,
                                ),
                            decreases items.len() - i,
                        {
                            let inner = schema.to_htmx(&items[i]);
                            out.append(inner.as_str());
                            i = i + 1;
                            assert(out@ =~= self.element.open_text(record) + schema.records_text(
                                items@,
                                i as nat,
                            ));
                        }
                        let close = self.element.close();
                        out.append(close.as_str());
                        out
                    },
                    _ => String::new(),
                }
            },
            FieldKind::Nest(schema) => {
                let inner = match value {
                    FieldValue::Nested(inner) => inner,
                    FieldValue::OptionalNested(Some(inner)) => inner,
                    _ => {
                        return String::new();
                    },
                };
                let mut out = self.element.open(record);
                let nested = schema.to_htmx(inner);
                out.append(nested.as_str());
                let close = self.element.close();
                out.append(close.as_str());
                out
            },
        }
    }
}

impl HtmxStruct {
    /// Says whether the record is of the type that the schema declares.
    pub fn fits(&self, record: &Record) -> (ok: bool)
        ensures
            ok == self.admits(record),
        decreases self, 1nat, 0nat,
    {
        if record.fields.len() != self.fields.len() {
            return false;
        }
        if let Some(el) = &self.self_element {
            if !el.is_renderable(record) {
                return false;
            }
        }
        let mut i: usize = 0;
        while i < self.fields.len()
            invariant
                i <= self.fields.len(),
                record.fields@.len() == self.fields@.len(),
                forall|j: int|
                    0 <= j < i ==> {
                        &&& (#[trigger] self.fields@[j]).element.field_name@
                            == record.fields@[j].name@
                        &&& self.fields@[j].admits(record.fields@[j].value, record)
                    },
            decreases self.fields.len() - i,
        {
            if self.fields[i].element.field_name != record.fields[i].name {
                return false;
            }
            if !self.fields[i].fits(&record.fields[i].value, record) {
                return false;
            }
            i = i + 1;
        }
        true
    }

    /// Renders a record: the opening of its own element, each field in
    /// declared order, the closing of its own element. Nothing is put
    /// between the parts.
    pub fn to_htmx(&self, record: &Record) -> (html: String)
        requires
            self.wf(),
            self.admits(record),
        ensures
            html@ == self.markup(record),
        decreases self, 1nat, 0nat,
    {
        let mut html = match &self.self_element {
            Some(el) => el.open(record),
            None => String::new(),
        };
        let mut i: usize = 0;
        assert(html@ =~= self.open_text(record) + self.fields_text(record, 0));
        while i < self.fields.len()
            invariant
                i <= self.fields.len(),
                self.wf(),
                self.admits(record),
                html@ == self.open_text(record) + self.fields_text(record, i as nat),
            decreases self.fields.len() - i,
        {
            let part = self.fields[i].to_htmx(&record.fields[i].value, record);
            html.append(part.as_str());
            i = i + 1;
            assert(html@ =~= self.open_text(record) + self.fields_text(record, i as nat));
        }
        if let Some(el) = &self.self_element {
            let close = el.close();
            html.append(close.as_str());
        }
        assert(html@ =~= self.markup(record));
        html
    }

    /// The opening of the element that wraps a record.
    pub open spec fn open_text(&self, record: &Record) -> Seq<char> {
        match self.self_element {
            Some(el) => el.open_text(record),
            None => Seq::empty(),
        }
    }

    /// The closing of the element that wraps a record.
    pub open spec fn close_text(&self) -> Seq<char> {
        match self.self_element {
            Some(el) => el.close_text(),
            None => Seq::empty(),
        }
    }

    /// The markup of the first `k` fields of a record, in declared order.
    pub open spec fn fields_text(&self, record: &Record, k: nat) -> Seq<char>
        decreases self, 0nat, k,
    {
        if k == 0 || k > self.fields@.len() || k > record.fields@.len() {
            Seq::empty()
        } else {
            self.fields_text(record, (k - 1) as nat) + self.fields@[k - 1].field_text(
                record.fields@[k - 1].value,
                record,
            )
        }
    }

    /// The markup of a record: the opening of its own element, its fields in
    /// declared order, the closing of its own element, with nothing between.
    pub open spec fn markup(&self, record: &Record) -> Seq<char>
        decreases self, 1nat, 0nat,
    {
        self.open_text(record) + self.fields_text(record, self.fields@.len())
            + self.close_text()
    }

    /// The markup of the first `k` of a sequence of records, one after the
    /// other.
    pub open spec fn records_text(&self, items: Seq<Record>, k: nat) -> Seq<char>
        decreases self, 2nat, k,
    {
        if k == 0 || k > items.len() {
            Seq::empty()
        } else {
            self.records_text(items, (k - 1) as nat) + self.markup(&items[k - 1])
        }
    }

    /// The record is of the type that the schema declares: it has the
    /// schema's fields, by name and in order, and each holds a value that its
    /// field admits.
    pub open spec fn admits(&self, record: &Record) -> bool
        decreases self, 1nat, 0nat,
    {
        &&& record.fields@.len() == self.fields@.len()
        &&& match self.self_element {
            Some(el) => el.renderable(record),
            None => true,
        }
        &&& forall|i: int|
            0 <= i < self.fields@.len() ==> {
                &&& (#[trigger] self.fields@[i]).element.field_name@ == record.fields@[i].name@
                &&& self.fields@[i].admits(record.fields@[i].value, record)
            }
    }
}

/// A schema without an element of its own and without fields renders every
/// record as the empty text.
pub proof fn lemma_empty_schema(schema: HtmxStruct, record: Record)
    requires
        schema.self_element is None,
        schema.fields@.len() == 0,
    ensures
        schema.markup(&record) == Seq::<char>::empty(),
{
    assert(schema.markup(&record) =~= Seq::<char>::empty());
}

/// An absent value without a default leaves nothing in the output: neither
/// tags nor content. An absent record leaves nothing either, whatever wraps
/// it.
pub proof fn lemma_absent_is_omitted(field: HtmxField, record: Record)
    ensures
        field.kind is Plain && field.element.default is None ==> field.field_text(
            FieldValue::Optional(None),
            &record,
        ) == Seq::<char>::empty(),
        field.kind is Nest ==> field.field_text(FieldValue::OptionalNested(None), &record)
            == Seq::<char>::empty(),
{
}

/// An absent value with a default is rendered as the field's element around
/// the content for the default: the content template filled with the default
/// in place of the value, or the default itself where there is no template.
pub proof fn lemma_absent_takes_default(field: HtmxField, record: Record)
    requires
        field.kind is Plain,
        field.element.default is Some,
    ensures
        field.field_text(FieldValue::Optional(None), &record) == field.element.open_text(&record)
            + field.element.content_text(field.element.default->0@, &record)
            + field.element.close_text(),
        field.element.content_text(field.element.default->0@, &record) == match field
            .element
            .attrs
            .format_str {
            Some(f) => f.text(seq![field.element.default->0@], &record, false),
            None => field.element.default->0@,
        },
{
}

/// The markup of a sequence of records depends on the first `k` alone.
pub proof fn lemma_records_prefix(schema: HtmxStruct, a: Seq<Record>, b: Seq<Record>, k: nat)
    requires
        k <= a.len(),
        k <= b.len(),
        forall|i: int| 0 <= i < k ==> a[i] == b[i],
    ensures
        schema.records_text(a, k) == schema.records_text(b, k),
    decreases k,
{
    if k > 0 {
        lemma_records_prefix(schema, a, b, (k - 1) as nat);
    }
}

/// Records are rendered one after the other, in order and with nothing
/// between them.
pub proof fn lemma_records_concat(schema: HtmxStruct, a: Seq<Record>, b: Seq<Record>)
    ensures
        schema.records_text(a + b, a.len() + b.len()) == schema.records_text(a, a.len())
            + schema.records_text(b, b.len()),
    decreases b.len(),
{
    if b.len() == 0 {
        assert(a + b =~= a);
        assert(schema.records_text(a, a.len()) + Seq::<char>::empty() =~= schema.records_text(
            a,
            a.len(),
        ));
    } else {
        let shorter = b.drop_last();
        lemma_records_concat(schema, a, shorter);
        lemma_records_prefix(schema, a + b, a + shorter, a.len() + shorter.len());
        lemma_records_prefix(schema, b, shorter, shorter.len());
        assert((a + b)[a.len() + b.len() - 1] == b[b.len() - 1]);
        assert(schema.records_text(a + b, a.len() + b.len()) =~= schema.records_text(a, a.len())
            + schema.records_text(b, b.len()));
    }
}

/// A list of records is rendered as one opening of the field's element, the
/// markup of each record in order, and one closing, however many records
/// there are; with none, the opening is followed at once by the closing.
pub proof fn lemma_nested_list_wrapped(field: HtmxField, items: Vec<Record>, record: Record)
    requires
        field.kind is NestedList,
    ensures
        field.field_text(FieldValue::NestedList(items), &record) == field.element.open_text(
            &record,
        ) + field.kind->NestedList_0.records_text(items@, items@.len())
            + field.element.close_text(),
        items@.len() == 0 ==> field.field_text(FieldValue::NestedList(items), &record)
            == field.element.open_text(&record) + field.element.close_text(),
{
    if items@.len() == 0 {
        assert(field.element.open_text(&record) + Seq::<char>::empty()
            =~= field.element.open_text(&record));
    }
}

/// A list of scalars is rendered as the elements for its items, in order,
/// with nothing around or between them.
pub proof fn lemma_list_is_its_items(field: HtmxField, items: Vec<Value>, record: Record)
    requires
        field.kind is List,
    ensures
        field.field_text(FieldValue::List(items), &record) == field.element.items_text(
            items@,
            &record,
            items@.len(),
        ),
{
}

/// Where every field but the one at `j` contributes nothing, the first `k`
/// fields contribute what the field at `j` does, once it is among them.
pub proof fn lemma_only_field(schema: HtmxStruct, j: int, record: &Record, k: nat)
    requires
        0 <= j < schema.fields@.len(),
        record.fields@.len() == schema.fields@.len(),
        k <= schema.fields@.len(),
        forall|i: int|
            0 <= i < schema.fields@.len() && i != j ==> (#[trigger] schema.fields@[i]).field_text(
                record.fields@[i].value,
                record,
            ) == Seq::<char>::empty(),
    ensures
        schema.fields_text(record, k) == if k <= j {
            Seq::<char>::empty()
        } else {
            schema.fields@[j].field_text(record.fields@[j].value, record)
        },
    decreases k,
{
    if k > 0 {
        lemma_only_field(schema, j, record, (k - 1) as nat);
        let last = schema.fields@[k - 1].field_text(record.fields@[k - 1].value, record);
        if k - 1 == j {
            assert(Seq::<char>::empty() + last =~= last);
        } else {
            assert(schema.fields_text(record, (k - 1) as nat) + Seq::<char>::empty()
                =~= schema.fields_text(record, (k - 1) as nat));
        }
    }
}

/// A list of scalars is rendered item by item, whatever record holds it:
/// where the element of the list reads no field of the record, nothing else
/// of the records is rendered, and one record holds the items of a first
/// followed by those of a second, its markup is the markup of the first
/// followed by that of the second.
pub proof fn lemma_list_concat_records(schema: HtmxStruct, j: int, a: Record, b: Record, c: Record)
    requires
        schema.self_element is None,
        0 <= j < schema.fields@.len(),
        schema.fields@[j].kind is List,
        schema.fields@[j].element.reads_no_field(),
        a.fields@.len() == schema.fields@.len(),
        b.fields@.len() == schema.fields@.len(),
        c.fields@.len() == schema.fields@.len(),
        a.fields@[j].value is List,
        b.fields@[j].value is List,
        c.fields@[j].value is List,
        c.fields@[j].value->List_0@ == a.fields@[j].value->List_0@ + b.fields@[j].value->List_0@,
        forall|i: int|
            0 <= i < schema.fields@.len() && i != j ==> {
                &&& (#[trigger] schema.fields@[i]).field_text(a.fields@[i].value, &a)
                    == Seq::<char>::empty()
                &&& schema.fields@[i].field_text(b.fields@[i].value, &b) == Seq::<char>::empty()
                &&& schema.fields@[i].field_text(c.fields@[i].value, &c) == Seq::<char>::empty()
            },
    ensures
        schema.markup(&c) == schema.markup(&a) + schema.markup(&b),
{
    let n = schema.fields@.len();
    let element = schema.fields@[j].element;
    let first = a.fields@[j].value->List_0@;
    let second = b.fields@[j].value->List_0@;
    lemma_only_field(schema, j, &a, n);
    lemma_only_field(schema, j, &b, n);
    lemma_only_field(schema, j, &c, n);
    lemma_items_concat(element, first, second, &c);
    lemma_items_of_any_record(element, first, &c, &a, first.len());
    lemma_items_of_any_record(element, second, &c, &b, second.len());
    assert(schema.markup(&c) =~= schema.markup(&a) + schema.markup(&b));
}

} // verus!
