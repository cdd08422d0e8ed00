//! The attributes of an element and their composition.
use crate::format::FormatParams;
use crate::record::Record;
use vstd::prelude::*;
use vstd::string::StringExecFns;

verus! {

/// The method of a request binding.
#[derive(Clone, Copy, Debug, PartialEq, Eq, Structural)]
pub enum HtmxMethod {
    Get,
    Post,
    Put,
    Delete,
    Patch,
}

impl HtmxMethod {
    /// The name of the attribute that carries a request of this method.
    pub open spec fn attribute(&self) -> Seq<char> {
        match self {
            HtmxMethod::Get => seq!['h', 'x', '-', 'g', 'e', 't'],
            HtmxMethod::Post => seq!['h', 'x', '-', 'p', 'o', 's', 't'],
            HtmxMethod::Put => seq!['h', 'x', '-', 'p', 'u', 't'],
            HtmxMethod::Delete => seq!['h', 'x', '-', 'd', 'e', 'l', 'e', 't', 'e'],
            HtmxMethod::Patch => seq!['h', 'x', '-', 'p', 'a', 't', 'c', 'h'],
        }
    }

    /// The name of the attribute that carries a request of this method.
    pub fn attribute_name(&self) -> (name: &'static str)
        ensures
            name@ == self.attribute(),
    {
        proof {
            reveal_strlit("hx-get");
            reveal_strlit("hx-post");
            reveal_strlit("hx-put");
            reveal_strlit("hx-delete");
            reveal_strlit("hx-patch");
        }
        let name = match self {
            HtmxMethod::Get => "hx-get",
            HtmxMethod::Post => "hx-post",
            HtmxMethod::Put => "hx-put",
            HtmxMethod::Delete => "hx-delete",
            HtmxMethod::Patch => "hx-patch",
        };
        assert(name@ =~= self.attribute());
        name
    }
}

/// A request binding: a method and the path it goes to.
#[derive(Debug)]
pub struct HtmxRequest {
    pub method: HtmxMethod,
    /// The path, a template over fields of the record.
    pub params: FormatParams,
    /// Whether each substituted argument is percent-encoded.
    pub encode: bool,
}

/// An attribute whose value is computed from the record.
#[derive(Debug)]
pub struct DynamicAttr {
    pub key: String,
    pub params: FormatParams,
}

/// One declared attribute of an element.
#[derive(Debug)]
pub enum AttributeSource {
    /// A literal key and value.
    Static(String, String),
    /// A key and a value computed on each render.
    Dynamic(DynamicAttr),
    /// A literal key and value in the `hx-` namespace; the key is given in
    /// full, with the prefix.
    Hx(String, String),
    /// The request binding.
    Request(HtmxRequest),
}

/// The four kinds of attribute, in the order in which they are written.
#[derive(Clone, Copy, Debug, PartialEq, Eq, Structural)]
pub enum AttrKind {
    Dynamic,
    Static,
    Hx,
    Request,
}

/// One attribute as it is written: a space, the key, and the value in double
/// quotes.
pub open spec fn attr_text(key: Seq<char>, value: Seq<char>) -> Seq<char> {
    seq![' '] + key + seq!['=', '"'] + value + seq!['"']
}

fn write_attr(out: &mut String, key: &str, value: &str)
    ensures
        final(out)@ == old(out)@ + attr_text(key@, value@),
{
    proof {
        reveal_strlit(" ");
        reveal_strlit("=\"");
        reveal_strlit("\"");
    }
    let ghost start = out@;
    out.append(" ");
    out.append(key);
    out.append("=\"");
    out.append(value);
    out.append("\"");
    assert(out@ =~= start + attr_text(key@, value@));
}

impl AttributeSource {
    /// The kind of the attribute.
    pub open spec fn kind(&self) -> AttrKind {
        match self {
            AttributeSource::Static(_, _) => AttrKind::Static,
            AttributeSource::Dynamic(_) => AttrKind::Dynamic,
            AttributeSource::Hx(_, _) => AttrKind::Hx,
            AttributeSource::Request(_) => AttrKind::Request,
        }
    }

    /// Every field that the attribute's value names is a scalar of the record.
    pub open spec fn resolvable(&self, record: &Record) -> bool {
        match self {
            AttributeSource::Dynamic(d) => d.params.resolvable(record),
            AttributeSource::Request(r) => r.params.resolvable(record),
            _ => true,
        }
    }

    /// The attribute as it is written for a record.
    pub open spec fn text(&self, record: &Record) -> Seq<char> {
        match self {
            AttributeSource::Static(key, value) => attr_text(key@, value@),
            AttributeSource::Dynamic(d) => attr_text(
                d.key@,
                d.params.text(Seq::empty(), record, false),
            ),
            AttributeSource::Hx(key, value) => attr_text(key@, value@),
            AttributeSource::Request(r) => attr_text(
                r.method.attribute(),
                r.params.text(Seq::empty(), record, r.encode),
            ),
        }
    }

    /// Says whether every field that the attribute's value names is a scalar
    /// of the record.
    pub fn is_resolvable(&self, record: &Record) -> (ok: bool)
        ensures
            ok == self.resolvable(record),
    {
        match self {
            AttributeSource::Dynamic(d) => d.params.is_resolvable(record),
            AttributeSource::Request(r) => r.params.is_resolvable(record),
            _ => true,
        }
    }

    /// Says of which kind the attribute is.
    pub fn kind_of(&self) -> (kind: AttrKind)
        ensures
            kind == self.kind(),
    {
        match self {
            AttributeSource::Static(_, _) => AttrKind::Static,
            AttributeSource::Dynamic(_) => AttrKind::Dynamic,
            AttributeSource::Hx(_, _) => AttrKind::Hx,
            AttributeSource::Request(_) => AttrKind::Request,
        }
    }

    /// Appends the attribute, as it is written for a record, to `out`.
    pub fn write(&self, out: &mut String, record: &Record)
        requires
            self.wf(),
            self.resolvable(record),
        ensures
            final(out)@ == old(out)@ + self.text(record),
    {
        match self {
            AttributeSource::Static(key, value) => {
                write_attr(out, key.as_str(), value.as_str());
            },
            AttributeSource::Dynamic(d) => {
                let value = d.params.format(Vec::new(), record, false);
                assert(crate::template::views(Seq::<String>::empty()) =~= Seq::empty());
                assert(Seq::<Seq<char>>::empty() + d.params.arg_texts(record, false)
                    =~= d.params.arg_texts(record, false));
                write_attr(out, d.key.as_str(), value.as_str());
            },
            AttributeSource::Hx(key, value) => {
                write_attr(out, key.as_str(), value.as_str());
            },
            AttributeSource::Request(r) => {
                let value = r.params.format(Vec::new(), record, r.encode);
                assert(crate::template::views(Seq::<String>::empty()) =~= Seq::empty());
                write_attr(out, r.method.attribute_name(), value.as_str());
            },
        }
    }
}

/// The attributes of one kind among the first `k` of a sequence, as they are
/// written for a record, in order.
pub open spec fn kind_text(
    sources: Seq<AttributeSource>,
    kind: AttrKind,
    record: &Record,
    k: nat,
) -> Seq<char>
    decreases k,
{
    if k == 0 || k > sources.len() {
        Seq::empty()
    } else {
        let before = kind_text(sources, kind, record, (k - 1) as nat);
        if sources[k - 1].kind() == kind {
            before + sources[k - 1].text(record)
        } else {
            before
        }
    }
}

/// A sequence of attributes as it stands in an opening tag: the computed
/// attributes first, then the literal ones, then those of the `hx-`
/// namespace, then the request binding, each kind in the order of the
/// sequence.
pub open spec fn attrs_text(sources: Seq<AttributeSource>, record: &Record) -> Seq<char> {
    kind_text(sources, AttrKind::Dynamic, record, sources.len()) + kind_text(
        sources,
        AttrKind::Static,
        record,
        sources.len(),
    ) + kind_text(sources, AttrKind::Hx, record, sources.len()) + kind_text(
        sources,
        AttrKind::Request,
        record,
        sources.len(),
    )
}

/// The attributes of an element, as declared, with what the element holds
/// besides its content.
#[derive(Debug)]
pub struct HtmlAttributes {
    /// The attributes, in declared order.
    pub sources: Vec<AttributeSource>,
    /// The template of the content. Its first placeholder takes the text of
    /// the value that is rendered, the others the fields it names.
    pub format_str: Option<FormatParams>,
    /// Markup written right after the opening tag.
    pub before: Option<String>,
    /// Markup written right before the closing tag.
    pub after: Option<String>,
}

/// The attributes of an element as they are written for one record, one text
/// for each kind.
#[derive(Debug)]
pub struct AttributeTokens {
    /// The literal attributes.
    pub static_attrs: String,
    /// The computed attributes.
    pub dyn_attrs: String,
    /// The attributes of the `hx-` namespace.
    pub hx_attrs: String,
    /// The request binding; empty where the element has none.
    pub request: String,
}

impl HtmlAttributes {
    /// Every field that an attribute's value names is a scalar of the record.
    pub open spec fn resolvable(&self, record: &Record) -> bool {
        forall|i: int|
            0 <= i < self.sources@.len() ==> (#[trigger] self.sources@[i]).resolvable(record)
    }

    /// All attributes of one kind, as they are written for a record, in
    /// declared order.
    pub open spec fn bag_text(&self, kind: AttrKind, record: &Record) -> Seq<char> {
        kind_text(self.sources@, kind, record, self.sources@.len())
    }

    /// The attributes as they stand in an opening tag: the computed ones
    /// first, then the literal ones, then those of the `hx-` namespace, then
    /// the request binding, each kind in declared order.
    pub open spec fn text(&self, record: &Record) -> Seq<char> {
        attrs_text(self.sources@, record)
    }

    /// Says whether every field that an attribute's value names is a scalar
    /// of the record.
    pub fn is_resolvable(&self, record: &Record) -> (ok: bool)
        ensures
            ok == self.resolvable(record),
    {
        let mut i: usize = 0;
        while i < self.sources.len()
            invariant
                i <= self.sources.len(),
                forall|j: int| 0 <= j < i ==> (#[trigger] self.sources@[j]).resolvable(record),
            decreases self.sources.len() - i,
        {
            if !self.sources[i].is_resolvable(record) {
                return false;
            }
            i = i + 1;
        }
        true
    }

    /// Writes the attributes of one kind for a record.
    pub fn write_kind(&self, kind: AttrKind, record: &Record) -> (out: String)
        requires
            self.wf(),
            self.resolvable(record),
        ensures
            out@ == self.bag_text(kind, record),
    {
        let mut out = String::new();
        let mut i: usize = 0;
        while i < self.sources.len()
            invariant
                i <= self.sources.len(),
                self.wf(),
                self.resolvable(record),
                out@ == kind_text(self.sources@, kind, record, i as nat),
            decreases self.sources.len() - i,
        {
            let source = &self.sources[i];
            if source.kind_of() == kind {
                source.write(&mut out, record);
            }
            i = i + 1;
        }
        out
    }

    /// Composes the attributes for a record: one text for each kind, each
    /// holding the attributes of that kind in declared order.
    pub fn attr_tokens(&self, record: &Record) -> (tokens: AttributeTokens)
        requires
            self.wf(),
            self.resolvable(record),
        ensures
            tokens.static_attrs@ == self.bag_text(AttrKind::Static, record),
            tokens.dyn_attrs@ == self.bag_text(AttrKind::Dynamic, record),
            tokens.hx_attrs@ == self.bag_text(AttrKind::Hx, record),
            tokens.request@ == self.bag_text(AttrKind::Request, record),
    {
        let dyn_attrs = self.write_kind(AttrKind::Dynamic, record);
        let static_attrs = self.write_kind(AttrKind::Static, record);
        let hx_attrs = self.write_kind(AttrKind::Hx, record);
        let request = self.write_kind(AttrKind::Request, record);
        AttributeTokens { static_attrs, dyn_attrs, hx_attrs, request }
    }

    /// Writes the attributes for a record as they stand in an opening tag.
    pub fn render(&self, record: &Record) -> (out: String)
        requires
            self.wf(),
            self.resolvable(record),
        ensures
            out@ == self.text(record),
    {
        let tokens = self.attr_tokens(record);
        let mut out = tokens.dyn_attrs;
        out.append(tokens.static_attrs.as_str());
        out.append(tokens.hx_attrs.as_str());
        out.append(tokens.request.as_str());
        out
    }
}

/// The attributes of one kind among the first `k` depend on the first `k`
/// alone.
pub proof fn lemma_kind_text_prefix(
    a: Seq<AttributeSource>,
    b: Seq<AttributeSource>,
    kind: AttrKind,
    record: &Record,
    k: nat,
)
    requires
        k <= a.len(),
        k <= b.len(),
        forall|i: int| 0 <= i < k ==> a[i] == b[i],
    ensures
        kind_text(a, kind, record, k) == kind_text(b, kind, record, k),
    decreases k,
{
    if k > 0 {
        lemma_kind_text_prefix(a, b, kind, record, (k - 1) as nat);
    }
}

/// The order in which attributes of different kinds are declared does not
/// show: two neighbours of different kinds can change places, and the
/// attributes of every kind are written as before.
pub proof fn lemma_kind_text_swap(
    sources: Seq<AttributeSource>,
    i: int,
    kind: AttrKind,
    record: &Record,
    k: nat,
)
    requires
        0 <= i,
        i + 1 < sources.len(),
        sources[i].kind() != sources[i + 1].kind(),
        i + 2 <= k <= sources.len(),
    ensures
        kind_text(sources.update(i, sources[i + 1]).update(i + 1, sources[i]), kind, record, k)
            == kind_text(sources, kind, record, k),
    decreases k,
{
    let swapped = sources.update(i, sources[i + 1]).update(i + 1, sources[i]);
    if k == i + 2 {
        lemma_kind_text_prefix(swapped, sources, kind, record, i as nat);
        let base = kind_text(sources, kind, record, i as nat);
        assert(kind_text(sources, kind, record, (i + 1) as nat) == if sources[i].kind() == kind {
            base + sources[i].text(record)
        } else {
            base
        });
        assert(kind_text(swapped, kind, record, (i + 1) as nat) == if swapped[i].kind() == kind {
            base + swapped[i].text(record)
        } else {
            base
        });
    } else {
        lemma_kind_text_swap(sources, i, kind, record, (k - 1) as nat);
    }
}

/// The attributes of an element are written in a fixed order of kinds,
/// however they were declared: where two neighbours of different kinds change
/// places in the declaration, the text stays the same.
pub proof fn lemma_attribute_order(sources: Seq<AttributeSource>, i: int, record: &Record)
    requires
        0 <= i,
        i + 1 < sources.len(),
        sources[i].kind() != sources[i + 1].kind(),
    ensures
        attrs_text(sources.update(i, sources[i + 1]).update(i + 1, sources[i]), record)
            == attrs_text(sources, record),
{
    lemma_kind_text_swap(sources, i, AttrKind::Dynamic, record, sources.len());
    lemma_kind_text_swap(sources, i, AttrKind::Static, record, sources.len());
    lemma_kind_text_swap(sources, i, AttrKind::Hx, record, sources.len());
    lemma_kind_text_swap(sources, i, AttrKind::Request, record, sources.len());
}

} // verus!
