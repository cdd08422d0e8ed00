//! Sound schemas and the records bound to them.
use crate::alike::{lemma_declared_alike, lemma_defect_alike};
use crate::derive::StructDecl;
use crate::record::Record;
use crate::response::{body_of, headers_of, html_response, no_headers, status_of};
use crate::schema::HtmxStruct;
use crate::validate::{lemma_sound, SchemaError};
use vstd::prelude::*;

verus! {

/// Something that renders itself as a markup fragment.
pub trait HtmxElement {
    /// The markup of the value.
    spec fn markup(&self) -> Seq<char>;

    /// Renders the value.
    fn to_htmx(&self) -> (html: String)
        ensures
            html@ == self.markup(),
    ;

    /// Renders the value into a response: status 200, the content type
    /// `text/html`, and the markup as the body.
    fn to_htmx_response(&self) -> (response: http::Response<String>)
        ensures
            status_of(response) == 200,
            headers_of(response) == no_headers().insert("content-type"@, seq!["text/html"@]),
            body_of(response) == self.markup(),
    {
        let htmx = self.to_htmx();
        html_response(htmx)
    }
}

/// A schema that was checked: nothing is wrong with it.
#[derive(Debug)]
pub struct Schema {
    root: HtmxStruct,
}

impl View for Schema {
    type V = HtmxStruct;

    closed spec fn view(&self) -> HtmxStruct {
        self.root
    }
}

impl Schema {
    #[verifier::type_invariant]
    spec fn sound(&self) -> bool {
        self.root.wf()
    }

    /// Checks a schema: `Ok` with the schema exactly where it is sound, else
    /// its first defect.
    pub fn new(root: HtmxStruct) -> (r: Result<Schema, SchemaError>)
        ensures
            match r {
                Ok(schema) => schema@ == root && root.wf(),
                Err(e) => !root.wf() && root.defect() == Some(e),
            },
    {
        match root.validate() {
            Ok(_) => Ok(Schema { root }),
            Err(e) => Err(e),
        }
    }

    /// The schema itself, which is sound.
    pub fn root(&self) -> (root: &HtmxStruct)
        ensures
            *root == self@,
            root.wf(),
    {
        proof {
            use_type_invariant(self);
        }
        &self.root
    }

    /// Renders a record: `Some` with its markup exactly where the record is of
    /// the schema's type.
    pub fn render(&self, record: &Record) -> (out: Option<String>)
        ensures
            match out {
                Some(html) => self@.admits(record) && html@ == self@.markup(record),
                None => !self@.admits(record),
            },
    {
        proof {
            use_type_invariant(self);
        }
        if self.root.fits(record) {
            Some(self.root.to_htmx(record))
        } else {
            None
        }
    }

    /// Binds a record to the schema: `Some` exactly where the record is of the
    /// schema's type.
    pub fn bind<'a>(&'a self, record: Record) -> (out: Option<Element<'a>>)
        ensures
            match out {
                Some(element) => self@.admits(&record) && element.schema() == self@
                    && element.record() == record,
                None => !self@.admits(&record),
            },
    {
        if self.root.fits(&record) {
            Some(Element { schema: self, record })
        } else {
            None
        }
    }
}

/// A record together with the schema of its type.
#[derive(Debug)]
pub struct Element<'a> {
    schema: &'a Schema,
    record: Record,
}

impl<'a> Element<'a> {
    #[verifier::type_invariant]
    spec fn fitting(&self) -> bool {
        self.schema@.admits(&self.record)
    }

    /// The schema of the record's type.
    pub closed spec fn schema(&self) -> HtmxStruct {
        self.schema@
    }

    /// The record.
    pub closed spec fn record(&self) -> Record {
        self.record
    }
}

impl<'a> HtmxElement for Element<'a> {
    open spec fn markup(&self) -> Seq<char> {
        self.schema().markup(&self.record())
    }

    fn to_htmx(&self) -> (html: String) {
        proof {
            use_type_invariant(self);
        }
        self.schema.root().to_htmx(&self.record)
    }
}

/// Derives the schema of a record type from its declaration: collects what
/// the annotations declare, then checks the result.
///
/// The schema comes back exactly where the declaration can be collected and
/// what it amounts to is sound. Else the error is what keeps the declaration
/// from being collected or, where nothing does, the first defect of what it
/// amounts to.
pub fn derive_element(input: StructDecl) -> (r: Result<Schema, SchemaError>)
    ensures
        r is Ok <==> input.defect() is None && input.declares_sound(),
        match r {
            Ok(schema) => input.declares(schema@) && schema@.wf(),
            Err(e) => input.defect() == Some(e) || (input.defect() is None
                && input.declares_defect(e)),
        },
{
    let declared = match HtmxStruct::collect_from(input) {
        Ok(declared) => declared,
        Err(e) => {
            return Err(e);
        },
    };
    proof {
        lemma_sound(declared);
        assert forall|other: HtmxStruct| #[trigger] input.declares(other) implies other.wf()
            == declared.wf() && other.defect() == declared.defect() by {
            lemma_declared_alike(input, other, declared);
            lemma_defect_alike(other, declared);
        }
    }
    Schema::new(declared)
}

} // verus!
