//! Validation of a declared schema.
//!
//! A schema is checked once, before anything is rendered with it. The check
//! goes through the schema in declared order and stops at the first defect.
use crate::attrs::{AttributeSource, HtmlAttributes};
use crate::element::{HtmxFieldElement, HtmxStructElement};
use crate::schema::{FieldKind, HtmxField, HtmxStruct};
use vstd::prelude::*;

verus! {

/// What can be wrong with a declared schema.
#[derive(Clone, Copy, Debug, PartialEq, Eq, Structural)]
pub enum SchemaError {
    /// An element declares more than one request binding.
    DuplicateRequest,
    /// A request binding asks for percent-encoding and has no argument.
    EncodeWithoutArgs,
    /// A template is malformed, or the number of its placeholders differs
    /// from the number of its arguments.
    FormatArity,
    /// A field declares both a map expression and a default.
    MapWithDefault,
    /// A field that is not optional declares a default.
    DefaultOnRequired,
    /// A map expression uses a variable other than the one it binds.
    UnboundVariable,
    /// A list of scalars has no element to render its items with.
    ListWithoutElement,
    /// An element is given more than one content template.
    DuplicateFormat,
    /// A field is marked as holding records, and no declaration of their
    /// type is given.
    MissingNested,
    /// An annotation that takes arguments is written without a list of them.
    ExpectedList,
    /// The arguments of an annotation are not one string literal.
    ExpectedStr,
    /// The arguments of an annotation are not a template followed by field
    /// names.
    ExpectedFormat,
    /// The arguments of an annotation are not pairs of string literals.
    ExpectedKeyValues,
    /// The arguments of an annotation are not pairs of a name and a string
    /// literal.
    ExpectedNameValues,
    /// The arguments of an annotation are not a key and a format expression.
    ExpectedDynAttr,
    /// The arguments of an annotation are not a map expression.
    ExpectedExpr,
    /// An annotation is read as a request binding, and its name is that of no
    /// method.
    UnknownMethod,
    /// A list annotation has arguments other than `nest`.
    InvalidList,
    /// The declaration is not that of a record type.
    NotAStruct,
    /// A field has no name.
    UnnamedField,
}

/// The first of two findings, in order.
pub open spec fn or_else(first: Option<SchemaError>, second: Option<SchemaError>) -> Option<
    SchemaError,
> {
    match first {
        Some(e) => Some(e),
        None => second,
    }
}

impl AttributeSource {
    /// The attribute is sound by itself: the template of a computed value or
    /// of a request path matches its arguments, and a request that asks for
    /// percent-encoding has an argument to encode.
    pub open spec fn wf(&self) -> bool {
        match self {
            AttributeSource::Dynamic(d) => d.params.arity_ok(0),
            AttributeSource::Request(r) => r.params.arity_ok(0) && (r.encode
                ==> r.params.args@.len() > 0),
            _ => true,
        }
    }

    /// What is wrong with the attribute, given whether a request binding was
    /// declared before it.
    pub open spec fn defect(&self, seen_request: bool) -> Option<SchemaError> {
        match self {
            AttributeSource::Dynamic(d) => if d.params.arity_ok(0) {
                None
            } else {
                Some(SchemaError::FormatArity)
            },
            AttributeSource::Request(r) => if seen_request {
                Some(SchemaError::DuplicateRequest)
            } else if r.encode && r.params.args@.len() == 0 {
                Some(SchemaError::EncodeWithoutArgs)
            } else if !r.params.arity_ok(0) {
                Some(SchemaError::FormatArity)
            } else {
                None
            },
            _ => None,
        }
    }

    /// Checks the attribute, given whether a request binding was declared
    /// before it.
    pub fn validate(&self, seen_request: bool) -> (r: Result<(), SchemaError>)
        ensures
            r is Ok <==> self.wf() && !(seen_request && self is Request),
            match r {
                Ok(_) => self.defect(seen_request) is None,
                Err(e) => self.defect(seen_request) == Some(e),
            },
    {
        match self {
            AttributeSource::Dynamic(d) => {
                if d.params.check_arity(0) {
                    Ok(())
                } else {
                    Err(SchemaError::FormatArity)
                }
            },
            AttributeSource::Request(r) => {
                if seen_request {
                    Err(SchemaError::DuplicateRequest)
                } else if r.encode && r.params.args.len() == 0 {
                    Err(SchemaError::EncodeWithoutArgs)
                } else if !r.params.check_arity(0) {
                    Err(SchemaError::FormatArity)
                } else {
                    Ok(())
                }
            },
            _ => Ok(()),
        }
    }
}

impl HtmlAttributes {
    /// At most one request binding is declared, and every attribute is sound.
    /// The content template is not judged here: what it must match depends on
    /// what the element renders.
    pub open spec fn wf(&self) -> bool {
        &&& forall|i: int, j: int|
            0 <= i < self.sources@.len() && 0 <= j < self.sources@.len()
                && self.sources@[i] is Request && self.sources@[j] is Request ==> i == j
        &&& forall|i: int| 0 <= i < self.sources@.len() ==> (#[trigger] self.sources@[i]).wf()
    }

    /// A request binding is among the first `k` attributes.
    pub open spec fn has_request(&self, k: int) -> bool {
        exists|j: int| 0 <= j < k && j < self.sources@.len() && self.sources@[j] is Request
    }

    /// The first defect among the first `k` attributes, in declared order.
    pub open spec fn defect_upto(&self, k: nat) -> Option<SchemaError>
        decreases k,
    {
        if k == 0 || k > self.sources@.len() {
            None
        } else {
            or_else(
                self.defect_upto((k - 1) as nat),
                self.sources@[k - 1].defect(self.has_request(k - 1)),
            )
        }
    }

    /// The first defect of the attributes, in declared order.
    pub open spec fn defect(&self) -> Option<SchemaError> {
        self.defect_upto(self.sources@.len())
    }

    /// A defect found among the first attributes stays the first defect.
    pub proof fn lemma_defect_stays(&self, k: nat, n: nat)
        requires
            k <= n <= self.sources@.len(),
            self.defect_upto(k) is Some,
        ensures
            self.defect_upto(n) == self.defect_upto(k),
        decreases n,
    {
        if n > k {
            self.lemma_defect_stays(k, (n - 1) as nat);
        }
    }

    /// Checks the attributes in declared order.
    pub fn validate(&self) -> (r: Result<(), SchemaError>)
        ensures
            r is Ok <==> self.wf(),
            match r {
                Ok(_) => self.defect() is None,
                Err(e) => self.defect() == Some(e),
            },
    {
        let mut seen = false;
        let mut i: usize = 0;
        while i < self.sources.len()
            invariant
                i <= self.sources.len(),
                seen == self.has_request(i as int),
                self.defect_upto(i as nat) is None,
                forall|a: int, b: int|
                    0 <= a < i && 0 <= b < i && self.sources@[a] is Request
                        && self.sources@[b] is Request ==> a == b,
                forall|a: int| 0 <= a < i ==> (#[trigger] self.sources@[a]).wf(),
            decreases self.sources.len() - i,
        {
            let source = &self.sources[i];
            match source.validate(seen) {
                Ok(_) => {},
                Err(e) => {
                    proof {
                        assert(self.defect_upto((i + 1) as nat) == Some(e));
                        self.lemma_defect_stays((i + 1) as nat, self.sources@.len());
                        if seen && source is Request {
                            let j = choose|j: int|
                                0 <= j < i && j < self.sources@.len()
                                    && self.sources@[j] is Request;
                            assert(j != i);
                        }
                    }
                    return Err(e);
                },
            }
            let ghost before = seen;
            if let AttributeSource::Request(_) = source {
                seen = true;
            }
            proof {
                if self.sources@[i as int] is Request {
                    assert(!before);
                    assert(self.has_request(i + 1));
                } else {
                    if self.has_request(i + 1) {
                        let j = choose|j: int|
                            0 <= j < i + 1 && j < self.sources@.len()
                                && self.sources@[j] is Request;
                        assert(j < i);
                    }
                }
            }
            i = i + 1;
        }
        Ok(())
    }
}

impl HtmxStructElement {
    /// The element's attributes are sound.
    pub open spec fn wf(&self) -> bool {
        self.attrs.wf()
    }

    /// The first defect of the element.
    pub open spec fn defect(&self) -> Option<SchemaError> {
        self.attrs.defect()
    }

    /// Checks the element.
    pub fn validate(&self) -> (r: Result<(), SchemaError>)
        ensures
            r is Ok <==> self.wf(),
            match r {
                Ok(_) => self.defect() is None,
                Err(e) => self.defect() == Some(e),
            },
    {
        self.attrs.validate()
    }
}

impl HtmxFieldElement {
    /// The field's modifiers agree with each other, and its attributes and
    /// its content template are sound: a map expression and a default exclude
    /// each other, a default needs an optional field, a map expression uses
    /// only its own variable, and the content template has one placeholder
    /// for the field's text and one for each field it names.
    pub open spec fn wf(&self) -> bool {
        &&& !(self.map is Some && self.default is Some)
        &&& self.default is Some ==> self.optional
        &&& match self.map {
            Some(m) => m.wf(),
            None => true,
        }
        &&& self.attrs.wf()
        &&& match self.attrs.format_str {
            Some(f) => f.arity_ok(1),
            None => true,
        }
    }

    /// The first defect of the field's element: of its modifiers, then of its
    /// attributes, then of its content template.
    pub open spec fn defect(&self) -> Option<SchemaError> {
        if self.map is Some && self.default is Some {
            Some(SchemaError::MapWithDefault)
        } else if self.default is Some && !self.optional {
            Some(SchemaError::DefaultOnRequired)
        } else if self.map is Some && !self.map->0.wf() {
            Some(SchemaError::UnboundVariable)
        } else if self.attrs.defect() is Some {
            self.attrs.defect()
        } else if self.attrs.format_str is Some && !self.attrs.format_str->0.arity_ok(1) {
            Some(SchemaError::FormatArity)
        } else {
            None
        }
    }

    /// Checks the field's element.
    pub fn validate(&self) -> (r: Result<(), SchemaError>)
        ensures
            r is Ok <==> self.wf(),
            match r {
                Ok(_) => self.defect() is None,
                Err(e) => self.defect() == Some(e),
            },
    {
        if self.map.is_some() && self.default.is_some() {
            return Err(SchemaError::MapWithDefault);
        }
        if self.default.is_some() && !self.optional {
            return Err(SchemaError::DefaultOnRequired);
        }
        if let Some(m) = &self.map {
            if !m.expr.is_closed_over(&m.var) {
                return Err(SchemaError::UnboundVariable);
            }
        }
        match self.attrs.validate() {
            Ok(_) => {},
            Err(e) => {
                return Err(e);
            },
        }
        if let Some(f) = &self.attrs.format_str {
            if !f.check_arity(1) {
                return Err(SchemaError::FormatArity);
            }
        }
        Ok(())
    }
}

impl HtmxField {
    /// The field's element is sound, a list of scalars has an element, and a
    /// nested schema is sound.
    pub open spec fn wf(&self) -> bool
        decreases self, 0nat, 0nat,
    {
        &&& self.element.wf()
        &&& match self.kind {
            FieldKind::Data => true,
            FieldKind::Plain => true,
            FieldKind::List => self.element.html_element is Some,
            FieldKind::NestedList(schema) => schema.wf(),
            FieldKind::Nest(schema) => schema.wf(),
        }
    }

    /// The first defect of the field: of its element, then of its kind.
    pub open spec fn defect(&self) -> Option<SchemaError>
        decreases self, 0nat, 0nat,
    {
        or_else(
            self.element.defect(),
            match self.kind {
                FieldKind::Data => None,
                FieldKind::Plain => None,
                FieldKind::List => if self.element.html_element is Some {
                    None
                } else {
                    Some(SchemaError::ListWithoutElement)
                },
                FieldKind::NestedList(schema) => schema.defect(),
                FieldKind::Nest(schema) => schema.defect(),
            },
        )
    }

    /// Checks the field.
    pub fn validate(&self) -> (r: Result<(), SchemaError>)
        ensures
            r is Ok <==> self.wf(),
            match r {
                Ok(_) => self.defect() is None,
                Err(e) => self.defect() == Some(e),
            },
        decreases self, 0nat, 0nat,
    {
        match self.element.validate() {
            Ok(_) => {},
            Err(e) => {
                return Err(e);
            },
        }
        match &self.kind {
            FieldKind::Data => Ok(()),
            FieldKind::Plain => Ok(()),
            FieldKind::List => {
                if self.element.html_element.is_some() {
                    Ok(())
                } else {
                    Err(SchemaError::ListWithoutElement)
                }
            },
            FieldKind::NestedList(schema) => schema.validate(),
            FieldKind::Nest(schema) => schema.validate(),
        }
    }
}

impl HtmxStruct {
    /// The schema is sound: its own element and every field are.
    pub open spec fn wf(&self) -> bool
        decreases self, 1nat, 0nat,
    {
        &&& match self.self_element {
            Some(el) => el.wf(),
            None => true,
        }
        &&& forall|i: int| 0 <= i < self.fields@.len() ==> (#[trigger] self.fields@[i]).wf()
    }

    /// The first defect among the first `k` fields, in declared order.
    pub open spec fn fields_defect(&self, k: nat) -> Option<SchemaError>
        decreases self, 0nat, k,
    {
        if k == 0 || k > self.fields@.len() {
            None
        } else {
            or_else(self.fields_defect((k - 1) as nat), self.fields@[k - 1].defect())
        }
    }

    /// The first defect of the schema: of its own element, then of its fields
    /// in declared order, each with the schemas nested in it.
    pub open spec fn defect(&self) -> Option<SchemaError>
        decreases self, 1nat, 0nat,
    {
        or_else(
            match self.self_element {
                Some(el) => el.defect(),
                None => None,
            },
            self.fields_defect(self.fields@.len()),
        )
    }

    /// A defect found among the first fields stays the first defect.
    pub proof fn lemma_fields_defect_stays(&self, k: nat, n: nat)
        requires
            k <= n <= self.fields@.len(),
            self.fields_defect(k) is Some,
        ensures
            self.fields_defect(n) == self.fields_defect(k),
        decreases n,
    {
        if n > k {
            self.lemma_fields_defect_stays(k, (n - 1) as nat);
        }
    }

    /// Checks the schema: `Ok` exactly where it is sound, else its first
    /// defect.
    pub fn validate(&self) -> (r: Result<(), SchemaError>)
        ensures
            r is Ok <==> self.wf(),
            match r {
                Ok(_) => self.defect() is None,
                Err(e) => self.defect() == Some(e),
            },
        decreases self, 1nat, 0nat,
    {
        if let Some(el) = &self.self_element {
            match el.validate() {
                Ok(_) => {},
                Err(e) => {
                    return Err(e);
                },
            }
        }
        let mut i: usize = 0;
        while i < self.fields.len()
            invariant
                i <= self.fields.len(),
                match self.self_element {
                    Some(el) => el.wf() && el.defect() is None,
                    None => true,
                },
                self.fields_defect(i as nat) is None,
                forall|a: int| 0 <= a < i ==> (#[trigger] self.fields@[a]).wf(),
            decreases self.fields.len() - i,
        {
            match self.fields[i].validate() {
                Ok(_) => {},
                Err(e) => {
                    proof {
                        assert(self.fields_defect((i + 1) as nat) == Some(e));
                        self.lemma_fields_defect_stays((i + 1) as nat, self.fields@.len());
                        assert(!self.fields@[i as int].wf());
                    }
                    return Err(e);
                },
            }
            i = i + 1;
        }
        Ok(())
    }
}

/// No defect is found among the first `k` attributes exactly where each of
/// them is sound and at most one of them is a request binding.
pub proof fn lemma_attrs_defect_upto(attrs: HtmlAttributes, k: nat)
    requires
        k <= attrs.sources@.len(),
    ensures
        attrs.defect_upto(k) is None <==> {
            &&& forall|i: int, j: int|
                0 <= i < k && 0 <= j < k && attrs.sources@[i] is Request
                    && attrs.sources@[j] is Request ==> i == j
            &&& forall|i: int| 0 <= i < k ==> (#[trigger] attrs.sources@[i]).wf()
        },
    decreases k,
{
    if k > 0 {
        lemma_attrs_defect_upto(attrs, (k - 1) as nat);
        let last = attrs.sources@[k - 1];
        if attrs.defect_upto((k - 1) as nat) is None {
            if attrs.has_request(k - 1) && last is Request {
                let j = choose|j: int|
                    0 <= j < k - 1 && j < attrs.sources@.len() && attrs.sources@[j] is Request;
                assert(j != k - 1);
            }
            if !attrs.has_request(k - 1) {
                assert forall|i: int, j: int|
                    0 <= i < k && 0 <= j < k && attrs.sources@[i] is Request
                        && attrs.sources@[j] is Request implies i == j by {
                    if i < k - 1 {
                        assert(attrs.has_request(k - 1));
                    }
                    if j < k - 1 {
                        assert(attrs.has_request(k - 1));
                    }
                }
            }
        }
    }
}

/// A field is sound exactly where it has no defect.
pub proof fn lemma_field_sound(field: HtmxField)
    ensures
        field.wf() <==> field.defect() is None,
    decreases field, 0nat, 0nat,
{
    lemma_attrs_defect_upto(field.element.attrs, field.element.attrs.sources@.len());
    match field.kind {
        FieldKind::NestedList(schema) => {
            lemma_sound(schema);
        },
        FieldKind::Nest(schema) => {
            lemma_sound(schema);
        },
        _ => {},
    }
}

/// No defect is found among the first `k` fields exactly where each of them
/// is sound.
pub proof fn lemma_fields_sound(schema: HtmxStruct, k: nat)
    requires
        k <= schema.fields@.len(),
    ensures
        schema.fields_defect(k) is None <==> forall|i: int|
            0 <= i < k ==> (#[trigger] schema.fields@[i]).wf(),
    decreases schema, 0nat, k,
{
    if k > 0 {
        lemma_fields_sound(schema, (k - 1) as nat);
        lemma_field_sound(schema.fields@[k - 1]);
    }
}

/// A schema is sound exactly where it has no defect.
pub proof fn lemma_sound(schema: HtmxStruct)
    ensures
        schema.wf() <==> schema.defect() is None,
    decreases schema, 1nat, 0nat,
{
    match schema.self_element {
        Some(el) => {
            lemma_attrs_defect_upto(el.attrs, el.attrs.sources@.len());
        },
        None => {},
    }
    lemma_fields_sound(schema, schema.fields@.len());
}

} // verus!
