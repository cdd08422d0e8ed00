//! Records: the values that are rendered.
use crate::value::Value;
use vstd::prelude::*;

verus! {

/// What a field of a record holds.
#[derive(Debug)]
pub enum FieldValue {
    /// One scalar.
    Scalar(Value),
    /// A scalar that may be absent.
    Optional(Option<Value>),
    /// A sequence of scalars.
    List(Vec<Value>),
    /// A record of its own.
    Nested(Record),
    /// A record that may be absent.
    OptionalNested(Option<Record>),
    /// A sequence of records.
    NestedList(Vec<Record>),
}

/// A named field of a record.
#[derive(Debug)]
pub struct Field {
    pub name: String,
    pub value: FieldValue,
}

/// A record: its fields in declared order.
#[derive(Debug)]
pub struct Record {
    pub fields: Vec<Field>,
}

/// The index of the first field with the given name.
pub open spec fn position(fields: Seq<Field>, name: Seq<char>) -> Option<int>
    decreases fields.len(),
{
    if fields.len() == 0 {
        None
    } else if fields[0].name@ == name {
        Some(0)
    } else {
        match position(fields.skip(1), name) {
            Some(i) => Some(i + 1),
            None => None,
        }
    }
}

/// A position that was found lies in the sequence, holds the name, and no
/// earlier field holds it; where none was found, no field holds the name.
pub proof fn lemma_position(fields: Seq<Field>, name: Seq<char>)
    ensures
        match position(fields, name) {
            Some(i) => 0 <= i < fields.len() && fields[i].name@ == name && forall|j: int|
                0 <= j < i ==> fields[j].name@ != name,
            None => forall|j: int| 0 <= j < fields.len() ==> fields[j].name@ != name,
        },
    decreases fields.len(),
{
    if fields.len() > 0 && fields[0].name@ != name {
        let rest = fields.skip(1);
        lemma_position(rest, name);
        match position(rest, name) {
            Some(i) => {
                assert(rest[i] == fields[i + 1]);
                assert forall|j: int| 0 <= j < i + 1 implies fields[j].name@ != name by {
                    if j > 0 {
                        assert(rest[j - 1] == fields[j]);
                    }
                }
            },
            None => {
                assert forall|j: int| 0 <= j < fields.len() implies fields[j].name@ != name by {
                    if j > 0 {
                        assert(rest[j - 1] == fields[j]);
                    }
                }
            },
        }
    }
}

impl Record {
    /// What the first field of the given name holds.
    pub open spec fn lookup(&self, name: Seq<char>) -> Option<FieldValue> {
        match position(self.fields@, name) {
            Some(i) => Some(self.fields@[i].value),
            None => None,
        }
    }

    /// The text of the scalar that the first field of the given name holds;
    /// `None` where there is no such field or it holds no scalar.
    pub open spec fn scalar_text(&self, name: Seq<char>) -> Option<Seq<char>> {
        match self.lookup(name) {
            Some(FieldValue::Scalar(v)) => Some(v.text()),
            _ => None,
        }
    }

    /// Finds the first field of the given name.
    pub fn get(&self, name: &String) -> (found: Option<&FieldValue>)
        ensures
            match found {
                Some(v) => self.lookup(name@) == Some(*v),
                None => self.lookup(name@) is None,
            },
    {
        let mut i: usize = 0;
        while i < self.fields.len()
            invariant
                i <= self.fields.len(),
                forall|j: int| 0 <= j < i ==> self.fields@[j].name@ != name@,
            decreases self.fields.len() - i,
        {
            if self.fields[i].name == *name {
                proof {
                    lemma_position(self.fields@, name@);
                }
                return Some(&self.fields[i].value);
            }
            i = i + 1;
        }
        proof {
            lemma_position(self.fields@, name@);
        }
        None
    }

    /// Writes the scalar that the first field of the given name holds.
    pub fn text_of(&self, name: &String) -> (text: Option<String>)
        ensures
            match text {
                Some(t) => self.scalar_text(name@) == Some(t@),
                None => self.scalar_text(name@) is None,
            },
    {
        match self.get(name) {
            Some(FieldValue::Scalar(v)) => Some(v.to_text()),
            _ => None,
        }
    }
}

} // verus!
