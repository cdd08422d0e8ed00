//! Format expressions: a template and the fields that fill it.
use crate::encode::{escaped_text, lemma_text_round_trip, percent_encode, unescaped_text};
use crate::record::Record;
use crate::template::{count_holes, fill, fill_text, holes, views};
use vstd::prelude::*;

verus! {

/// A template with the names of the fields whose text fills its
/// placeholders, in order.
#[derive(Debug)]
pub struct FormatParams {
    /// The template.
    pub fmt: String,
    /// The record's fields that are substituted, by name.
    pub args: Vec<String>,
}

impl FormatParams {
    /// The template has exactly one placeholder for each argument, `lead` of
    /// which are supplied by the caller before the named fields.
    pub open spec fn arity_ok(&self, lead: nat) -> bool {
        holes(self.fmt@) == Some(lead + self.args@.len())
    }

    /// Every argument names a field of the record that holds a scalar.
    pub open spec fn resolvable(&self, record: &Record) -> bool {
        forall|i: int|
            0 <= i < self.args.len() ==> record.scalar_text(#[trigger] self.args@[i]@) is Some
    }

    /// The text substituted for the argument at `i`: the field's canonical
    /// text, percent-encoded where `encode` is set.
    pub open spec fn arg_text(&self, record: &Record, encode: bool, i: int) -> Seq<char> {
        let plain = record.scalar_text(self.args@[i]@).unwrap();
        if encode {
            escaped_text(plain)
        } else {
            plain
        }
    }

    /// The texts substituted for the arguments, in order.
    pub open spec fn arg_texts(&self, record: &Record, encode: bool) -> Seq<Seq<char>> {
        Seq::new(self.args.len() as nat, |i: int| self.arg_text(record, encode, i))
    }

    /// The text of the expression: the template filled with `lead`, then with
    /// the arguments' texts.
    pub open spec fn text(&self, lead: Seq<Seq<char>>, record: &Record, encode: bool) -> Seq<
        char,
    > {
        fill(self.fmt@, lead + self.arg_texts(record, encode))
    }

    /// Says whether the template's placeholders match the arguments.
    pub fn check_arity(&self, lead: usize) -> (ok: bool)
        ensures
            ok == self.arity_ok(lead as nat),
    {
        match count_holes(self.fmt.as_str()) {
            Some(k) => k >= lead && k - lead == self.args.len(),
            None => false,
        }
    }

    /// Says whether every argument names a scalar field of the record.
    pub fn is_resolvable(&self, record: &Record) -> (ok: bool)
        ensures
            ok == self.resolvable(record),
    {
        let mut i: usize = 0;
        while i < self.args.len()
            invariant
                i <= self.args.len(),
                forall|j: int|
                    0 <= j < i ==> record.scalar_text(#[trigger] self.args@[j]@) is Some,
            decreases self.args.len() - i,
        {
            if record.text_of(&self.args[i]).is_none() {
                return false;
            }
            i = i + 1;
        }
        true
    }

    /// Evaluates the expression against a record: fills the template with
    /// `lead`, then with the text of each named field. The template has one
    /// placeholder for each of them.
    pub fn format(&self, lead: Vec<String>, record: &Record, encode: bool) -> (out: String)
        requires
            self.arity_ok(lead@.len()),
            self.resolvable(record),
        ensures
            out@ == self.text(views(lead@), record, encode),
    {
        let mut texts = lead;
        let mut i: usize = 0;
        assert(views(texts@) =~= views(lead@) + self.arg_texts(record, encode).take(0));
        while i < self.args.len()
            invariant
                i <= self.args.len(),
                self.resolvable(record),
                views(texts@) == views(lead@) + self.arg_texts(record, encode).take(i as int),
            decreases self.args.len() - i,
        {
            let ghost before = texts@;
            let plain = match record.text_of(&self.args[i]) {
                Some(t) => t,
                None => String::new(),
            };
            let text = if encode {
                percent_encode(plain.as_str())
            } else {
                plain
            };
            assert(text@ == self.arg_text(record, encode, i as int));
            texts.push(text);
            assert(views(texts@) =~= views(before).push(text@));
            assert(self.arg_texts(record, encode).take(i + 1) =~= self.arg_texts(
                record,
                encode,
            ).take(i as int).push(text@));
            assert(views(texts@) =~= views(lead@) + self.arg_texts(record, encode).take(i + 1));
            i = i + 1;
        }
        assert(self.arg_texts(record, encode).take(i as int) =~= self.arg_texts(record, encode));
        fill_text(self.fmt.as_str(), &texts)
    }
}

/// What is substituted for an argument under percent-encoding stands for
/// the argument's own text: decoding gives back what would be substituted
/// without encoding.
pub proof fn lemma_encoded_arg_round_trip(params: FormatParams, record: &Record, i: int)
    requires
        0 <= i < params.args@.len(),
    ensures
        unescaped_text(params.arg_text(record, true, i)) == params.arg_text(record, false, i),
{
    lemma_text_round_trip(params.arg_text(record, false, i));
}

} // verus!
