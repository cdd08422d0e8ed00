//! Schemas that say the same.
//!
//! Two schemas are alike where they differ at most in how their sequences
//! are stored. What is wrong with a schema, the records it admits and the
//! markup it gives them depend only on what it says.
use crate::attrs::HtmlAttributes;
use crate::derive::{FieldDecl, StructDecl};
use crate::element::{HtmxFieldElement, HtmxStructElement};
use crate::record::{FieldValue, Record};
use crate::schema::{FieldKind, HtmxField, HtmxStruct};
use crate::value::Value;
use vstd::prelude::*;

verus! {

impl HtmlAttributes {
    /// Both declare the same attributes in the same order, the same content
    /// template and the same markup beside the content.
    pub open spec fn alike(&self, other: HtmlAttributes) -> bool {
        &&& self.sources@ == other.sources@
        &&& self.format_str == other.format_str
        &&& self.before == other.before
        &&& self.after == other.after
    }
}

impl HtmxStructElement {
    /// Both have the same tag and like attributes.
    pub open spec fn alike(&self, other: HtmxStructElement) -> bool {
        &&& self.html_element == other.html_element
        &&& self.attrs.alike(other.attrs)
    }
}

impl HtmxFieldElement {
    /// Both are for a field of the same name, with the same tag, like
    /// attributes and the same modifiers.
    pub open spec fn alike(&self, other: HtmxFieldElement) -> bool {
        &&& self.field_name == other.field_name
        &&& self.html_element == other.html_element
        &&& self.attrs.alike(other.attrs)
        &&& self.optional == other.optional
        &&& self.default == other.default
        &&& self.map == other.map
    }
}

impl HtmxField {
    /// Both have like elements and the same kind, with like schemas nested.
    pub open spec fn alike(&self, other: HtmxField) -> bool
        decreases self, 0nat,
    {
        &&& self.element.alike(other.element)
        &&& match (self.kind, other.kind) {
            (FieldKind::Data, FieldKind::Data) => true,
            (FieldKind::Plain, FieldKind::Plain) => true,
            (FieldKind::List, FieldKind::List) => true,
            (FieldKind::NestedList(a), FieldKind::NestedList(b)) => a.alike(b),
            (FieldKind::Nest(a), FieldKind::Nest(b)) => a.alike(b),
            _ => false,
        }
    }
}

impl HtmxStruct {
    /// Both have like elements of their own and like fields, in order.
    pub open spec fn alike(&self, other: HtmxStruct) -> bool
        decreases self, 1nat,
    {
        &&& match (self.self_element, other.self_element) {
            (Some(a), Some(b)) => a.alike(b),
            (None, None) => true,
            _ => false,
        }
        &&& self.fields@.len() == other.fields@.len()
        &&& forall|i: int|
            0 <= i < self.fields@.len() ==> (#[trigger] self.fields@[i]).alike(other.fields@[i])
    }
}

/// Like attributes have the same first defect.
pub proof fn lemma_attrs_defect_alike(a: HtmlAttributes, b: HtmlAttributes, k: nat)
    requires
        a.alike(b),
    ensures
        a.defect_upto(k) == b.defect_upto(k),
    decreases k,
{
    if k > 0 {
        lemma_attrs_defect_alike(a, b, (k - 1) as nat);
        assert(a.has_request(k - 1) == b.has_request(k - 1));
    }
}

/// Like elements render the items of a list alike.
pub proof fn lemma_items_alike(
    a: HtmxFieldElement,
    b: HtmxFieldElement,
    items: Seq<Value>,
    record: &Record,
    k: nat,
)
    requires
        a.alike(b),
    ensures
        a.items_text(items, record, k) == b.items_text(items, record, k),
    decreases k,
{
    if k > 0 {
        lemma_items_alike(a, b, items, record, (k - 1) as nat);
    }
}

/// Like elements of fields are sound together, have the same first defect,
/// can be written for the same records, accept the same values and render
/// them alike.
pub proof fn lemma_elements_alike(
    a: HtmxFieldElement,
    b: HtmxFieldElement,
    list: bool,
    value: FieldValue,
    record: &Record,
)
    requires
        a.alike(b),
    ensures
        a.wf() == b.wf(),
        a.defect() == b.defect(),
        a.renderable(record) == b.renderable(record),
        a.attrs.resolvable(record) == b.attrs.resolvable(record),
        a.accepts(list, value) == b.accepts(list, value),
        a.open_text(record) == b.open_text(record),
        a.close_text() == b.close_text(),
        a.tokens_text(list, value, record) == b.tokens_text(list, value, record),
{
    lemma_attrs_defect_alike(a.attrs, b.attrs, a.attrs.sources@.len());
    match value {
        FieldValue::List(items) => {
            lemma_items_alike(a, b, items@, record, items@.len());
        },
        _ => {},
    }
}

/// Like fields are sound together and have the same first defect.
pub proof fn lemma_field_defect_alike(a: HtmxField, b: HtmxField)
    requires
        a.alike(b),
    ensures
        a.wf() == b.wf(),
        a.defect() == b.defect(),
    decreases a, 0nat, 0nat,
{
    lemma_elements_alike(a.element, b.element, false, FieldValue::Optional(None), &arbitrary());
    match (a.kind, b.kind) {
        (FieldKind::NestedList(x), FieldKind::NestedList(y)) => {
            lemma_defect_alike(x, y);
        },
        (FieldKind::Nest(x), FieldKind::Nest(y)) => {
            lemma_defect_alike(x, y);
        },
        _ => {},
    }
}

/// Like schemas have the same first defect among their first `k` fields.
pub proof fn lemma_fields_defect_alike(a: HtmxStruct, b: HtmxStruct, k: nat)
    requires
        a.alike(b),
    ensures
        a.fields_defect(k) == b.fields_defect(k),
    decreases a, 0nat, k,
{
    if 0 < k <= a.fields@.len() {
        lemma_fields_defect_alike(a, b, (k - 1) as nat);
        lemma_field_defect_alike(a.fields@[k - 1], b.fields@[k - 1]);
    }
}

/// What is wrong with a schema depends only on what it says: like schemas
/// are sound together and have the same first defect.
pub proof fn lemma_defect_alike(a: HtmxStruct, b: HtmxStruct)
    requires
        a.alike(b),
    ensures
        a.wf() == b.wf(),
        a.defect() == b.defect(),
    decreases a, 1nat, 0nat,
{
    match (a.self_element, b.self_element) {
        (Some(x), Some(y)) => {
            lemma_attrs_defect_alike(x.attrs, y.attrs, x.attrs.sources@.len());
        },
        _ => {},
    }
    lemma_fields_defect_alike(a, b, a.fields@.len());
    assert forall|i: int| 0 <= i < a.fields@.len() implies (#[trigger] a.fields@[i]).wf()
        == b.fields@[i].wf() by {
        lemma_field_defect_alike(a.fields@[i], b.fields@[i]);
    }
    if a.wf() {
        assert forall|i: int| 0 <= i < b.fields@.len() implies (#[trigger] b.fields@[i]).wf() by {
            assert(a.fields@[i].wf());
        }
    }
    if b.wf() {
        assert forall|i: int| 0 <= i < a.fields@.len() implies (#[trigger] a.fields@[i]).wf() by {
            assert(b.fields@[i].wf());
        }
    }
}

/// Like fields admit the same values and render them alike.
pub proof fn lemma_field_markup_alike(
    a: HtmxField,
    b: HtmxField,
    value: FieldValue,
    record: &Record,
)
    requires
        a.alike(b),
    ensures
        a.admits(value, record) == b.admits(value, record),
        a.field_text(value, record) == b.field_text(value, record),
    decreases a, 0nat, 0nat,
{
    lemma_elements_alike(a.element, b.element, false, value, record);
    lemma_elements_alike(a.element, b.element, true, value, record);
    match (a.kind, b.kind) {
        (FieldKind::NestedList(x), FieldKind::NestedList(y)) => {
            match value {
                FieldValue::NestedList(items) => {
                    lemma_records_alike(x, y, items@, items@.len());
                    assert forall|i: int| 0 <= i < items@.len() implies x.admits(
                        #[trigger] &items@[i],
                    ) == y.admits(&items@[i]) by {
                        lemma_markup_alike(x, y, &items@[i]);
                    }
                },
                _ => {},
            }
        },
        (FieldKind::Nest(x), FieldKind::Nest(y)) => {
            match value {
                FieldValue::Nested(inner) => {
                    lemma_markup_alike(x, y, &inner);
                },
                FieldValue::OptionalNested(Some(inner)) => {
                    lemma_markup_alike(x, y, &inner);
                },
                _ => {},
            }
        },
        _ => {},
    }
}

/// Like schemas render the first `k` fields of a record alike.
pub proof fn lemma_fields_markup_alike(a: HtmxStruct, b: HtmxStruct, record: &Record, k: nat)
    requires
        a.alike(b),
    ensures
        a.fields_text(record, k) == b.fields_text(record, k),
    decreases a, 0nat, k,
{
    if 0 < k <= a.fields@.len() && k <= record.fields@.len() {
        lemma_fields_markup_alike(a, b, record, (k - 1) as nat);
        lemma_field_markup_alike(
            a.fields@[k - 1],
            b.fields@[k - 1],
            record.fields@[k - 1].value,
            record,
        );
    }
}

/// Like schemas render a sequence of records alike.
pub proof fn lemma_records_alike(a: HtmxStruct, b: HtmxStruct, items: Seq<Record>, k: nat)
    requires
        a.alike(b),
    ensures
        a.records_text(items, k) == b.records_text(items, k),
    decreases a, 2nat, k,
{
    if 0 < k <= items.len() {
        lemma_records_alike(a, b, items, (k - 1) as nat);
        lemma_markup_alike(a, b, &items[k - 1]);
    }
}

/// The records that a schema admits and the markup that it gives them depend
/// only on what the schema says: like schemas admit the same records and
/// render them alike.
pub proof fn lemma_markup_alike(a: HtmxStruct, b: HtmxStruct, record: &Record)
    requires
        a.alike(b),
    ensures
        a.admits(record) == b.admits(record),
        a.markup(record) == b.markup(record),
    decreases a, 1nat, 0nat,
{
    lemma_fields_markup_alike(a, b, record, a.fields@.len());
    if record.fields@.len() == a.fields@.len() {
        assert forall|i: int| 0 <= i < a.fields@.len() implies (#[trigger] a.fields@[i]).admits(
            record.fields@[i].value,
            record,
        ) == b.fields@[i].admits(record.fields@[i].value, record) by {
            lemma_field_markup_alike(a.fields@[i], b.fields@[i], record.fields@[i].value, record);
        }
        if a.admits(record) {
            assert forall|i: int| 0 <= i < b.fields@.len() implies {
                &&& (#[trigger] b.fields@[i]).element.field_name@ == record.fields@[i].name@
                &&& b.fields@[i].admits(record.fields@[i].value, record)
            } by {
                assert(a.fields@[i].alike(b.fields@[i]));
            }
        }
        if b.admits(record) {
            assert forall|i: int| 0 <= i < a.fields@.len() implies {
                &&& (#[trigger] a.fields@[i]).element.field_name@ == record.fields@[i].name@
                &&& a.fields@[i].admits(record.fields@[i].value, record)
            } by {
                assert(a.fields@[i].alike(b.fields@[i]));
                assert(b.fields@[i].admits(record.fields@[i].value, record));
            }
        }
    }
}

/// The fields that one declaration amounts to are alike.
pub proof fn lemma_declared_field_alike(decl: FieldDecl, a: HtmxField, b: HtmxField)
    requires
        decl.declares(a),
        decl.declares(b),
    ensures
        a.alike(b),
    decreases decl, 0nat,
{
    match (decl.nested, a.kind, b.kind) {
        (Some(inner), FieldKind::NestedList(x), FieldKind::NestedList(y)) => {
            lemma_declared_alike(inner, x, y);
        },
        (Some(inner), FieldKind::Nest(x), FieldKind::Nest(y)) => {
            lemma_declared_alike(inner, x, y);
        },
        _ => {},
    }
}

/// A declaration amounts to one schema: any two that it amounts to are
/// alike, and so have the same first defect, admit the same records and
/// render them alike.
pub proof fn lemma_declared_alike(decl: StructDecl, a: HtmxStruct, b: HtmxStruct)
    requires
        decl.declares(a),
        decl.declares(b),
    ensures
        a.alike(b),
    decreases decl, 1nat,
{
    assert forall|i: int| 0 <= i < a.fields@.len() implies (#[trigger] a.fields@[i]).alike(
        b.fields@[i],
    ) by {
        assert(decl.fields@[i].declares(a.fields@[i]));
        lemma_declared_field_alike(decl.fields@[i], a.fields@[i], b.fields@[i]);
    }
}

} // verus!
