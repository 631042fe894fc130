//! Text elements: `text`, `tspan`, `tref`, and the character data in them.

use vstd::prelude::*;
use crate::attributes::{Attribute, PropertyBag};
use crate::error::{NodeError, NodeErrorText, NodeResult, ValueErrorText};
use crate::length::{invalid_length_message, parse_length, parsed_length};
use crate::node::{
    acquired, child_cascade, links_wf, tables_wf, CascadedValues, CascadedView, Element,
    ElementView, NodeId, NodeView, Tree,
};
use crate::properties::{
    direction_of, text_anchor_of, unicode_bidi_of, writing_mode_of, xml_space_of, ComputedValues,
    Direction, Property, TextAnchor, UnicodeBidi, WritingMode, XmlSpace, PROPERTY_COUNT,
};
use crate::space::{normalized, xml_space_normalize, NormalizeDefault, XmlSpaceNormalize};
use crate::strings::{
    chars_of, find_char, index_of_char, split_whitespace, str_eq, string_of, texts, words,
};

verus! {

/// The normalized form of the text of a `Chars`, kept until the text
/// changes.
enum Normalized {
    /// Nothing is kept: the text changed since, or was never normalized.
    Stale,
    /// What normalizing the text in `mode` gives.
    Fresh { mode: XmlSpaceNormalize, text: String },
}

/// Character data, verbatim as it stands in the document.
///
/// A `text` or `tspan` element holds its character data in children of this
/// kind, as many of them as there are runs of characters between its child
/// elements. How the white space of a run is rendered depends on `xml:space`
/// and on the neighbours of the run; the normalized form is computed when it
/// is first asked for, and kept until more text is appended.
pub struct Chars {
    string: String,
    space_normalized: Normalized,
}

impl View for Chars {
    type V = Seq<char>;

    /// The text as it stands in the document.
    closed spec fn view(&self) -> Seq<char> {
        self.string@
    }
}

impl Default for Chars {
    fn default() -> (r: Chars)
        ensures
            r@ == Seq::<char>::empty(),
            r.spec_space_normalized() is None,
    {
        Chars { string: String::new(), space_normalized: Normalized::Stale }
    }
}

impl Chars {
    #[verifier::type_invariant]
    spec fn well_formed(self) -> bool {
        match self.space_normalized {
            Normalized::Stale => true,
            Normalized::Fresh { mode, text } => text@ == normalized(mode, self.string@),
        }
    }

    /// The mode and the text of the normalized form that is kept, if one is.
    pub closed spec fn spec_space_normalized(&self) -> Option<(XmlSpaceNormalize, Seq<char>)> {
        match self.space_normalized {
            Normalized::Stale => None,
            Normalized::Fresh { mode, text } => Some((mode, text@)),
        }
    }

    /// Character data that starts out as `initial_text`.
    pub fn new(initial_text: &str) -> (r: Chars)
        ensures
            r@ == initial_text@,
            r.spec_space_normalized() is None,
    {
        Chars { string: initial_text.to_owned(), space_normalized: Normalized::Stale }
    }

    /// Whether there are no characters.
    pub fn is_empty(&self) -> (r: bool)
        ensures
            r == (self@.len() == 0),
    {
        self.string.as_str().is_empty()
    }

    /// Adds `s` at the end of the text. A normalized form that was kept is
    /// dropped.
    pub fn append(&mut self, s: &str)
        ensures
            final(self)@ == old(self)@ + s@,
            final(self).spec_space_normalized() is None,
    {
        let mut string = self.string.clone();
        string.append(s);
        *self = Chars { string, space_normalized: Normalized::Stale };
    }

    /// The text as it stands in the document.
    pub fn get_string(&self) -> (r: String)
        ensures
            r@ == self@,
    {
        self.string.clone()
    }

    /// The normalized form that is kept, if one is.
    pub fn space_normalized(&self) -> (r: Option<String>)
        ensures
            match r {
                Some(text) => self.spec_space_normalized() matches Some((_, t)) && t == text@,
                None => self.spec_space_normalized() is None,
            },
    {
        match &self.space_normalized {
            Normalized::Stale => None,
            Normalized::Fresh { mode: _, text } => Some(text.clone()),
        }
    }

    /// Normalizes the text in `mode`, unless the form for that mode is
    /// already kept, and keeps the result.
    pub fn ensure_normalized_string(&mut self, mode: XmlSpaceNormalize)
        ensures
            final(self)@ == old(self)@,
            final(self).spec_space_normalized() == Some((mode, normalized(mode, old(self)@))),
    {
        proof {
            use_type_invariant(&*self);
        }
        let fresh = match &self.space_normalized {
            Normalized::Stale => false,
            Normalized::Fresh { mode: kept, text: _ } => *kept == mode,
        };
        if !fresh {
            let text = xml_space_normalize(mode, self.string.as_str());
            *self = Chars {
                string: self.string.clone(),
                space_normalized: Normalized::Fresh { mode, text },
            };
        }
    }

    /// The text as normalizing in `mode` gives it. The form that is kept is
    /// used where it is for that mode.
    pub fn normalized_string(&self, mode: XmlSpaceNormalize) -> (r: String)
        ensures
            r@ == normalized(mode, self@),
    {
        proof {
            use_type_invariant(self);
        }
        match &self.space_normalized {
            Normalized::Fresh { mode: kept, text } if *kept == mode => text.clone(),
            _ => xml_space_normalize(mode, self.string.as_str()),
        }
    }
}

/// What reading the value of the attribute `attr` as a length gives.
pub open spec fn length_of(attr: Attribute, value: Seq<char>) -> Result<i64, NodeErrorText> {
    match parsed_length(value) {
        Some(v) => Ok(v as i64),
        None => Err(
            NodeErrorText { attr, err: ValueErrorText::Parse(invalid_length_message()) },
        ),
    }
}

/// Reads the value of the attribute `attr` as a length.
fn read_length(attr: Attribute, value: &str) -> (r: Result<i64, NodeError>)
    ensures
        match r {
            Ok(v) => length_of(attr, value@) == Ok::<i64, NodeErrorText>(v),
            Err(e) => length_of(attr, value@) == Err::<i64, NodeErrorText>(e@),
        },
{
    match parse_length(value) {
        Ok(v) => Ok(v),
        Err(e) => Err(NodeError::attribute_error(attr, e)),
    }
}

/// The error of a result, if it has one, with its messages as sequences of
/// characters.
pub open spec fn error_of(r: NodeResult) -> Option<NodeErrorText> {
    match r {
        Ok(_) => None,
        Err(e) => Some(e@),
    }
}

/// A `text` element: where its first chunk starts, and by how much its
/// spans are moved. The lengths are in units of user space.
#[derive(Clone, Copy, Debug, PartialEq, Eq, Structural)]
pub struct Text {
    pub x: i64,
    pub y: i64,
    pub dx: i64,
    pub dy: i64,
}

impl Default for Text {
    fn default() -> (r: Text)
        ensures
            r == (Text { x: 0, y: 0, dx: 0, dy: 0 }),
    {
        Text { x: 0, y: 0, dx: 0, dy: 0 }
    }
}

impl Text {
    /// This element with the length `v` for the attribute `attr`.
    pub open spec fn with(self, attr: Attribute, v: i64) -> Text {
        match attr {
            Attribute::X => Text { x: v, ..self },
            Attribute::Y => Text { y: v, ..self },
            Attribute::Dx => Text { dx: v, ..self },
            Attribute::Dy => Text { dy: v, ..self },
            _ => self,
        }
    }

    /// This element after the attributes of `bag` from place `i` on, up to
    /// the first of `x`, `y`, `dx` and `dy` whose value is no length; and the
    /// error in that one.
    pub open spec fn attributes_set_from(
        self,
        bag: Seq<(Attribute, Seq<char>)>,
        i: int,
    ) -> (Text, Option<NodeErrorText>)
        decreases bag.len() - i,
    {
        if 0 <= i < bag.len() {
            let attr = bag[i].0;
            if attr == Attribute::X || attr == Attribute::Y || attr == Attribute::Dx || attr
                == Attribute::Dy {
                match length_of(attr, bag[i].1) {
                    Ok(v) => self.with(attr, v).attributes_set_from(bag, i + 1),
                    Err(e) => (self, Some(e)),
                }
            } else {
                self.attributes_set_from(bag, i + 1)
            }
        } else {
            (self, None)
        }
    }

    /// Reads the attributes `x`, `y`, `dx` and `dy`, in the order in which
    /// they are written, and stops at the first whose value is no length.
    pub fn set_attributes(&mut self, attrs: &PropertyBag) -> (r: NodeResult)
        ensures
            *final(self) == old(self).attributes_set_from(attrs@, 0).0,
            error_of(r) == old(self).attributes_set_from(attrs@, 0).1,
    {
        let mut i: usize = 0;
        while i < attrs.len()
            invariant
                i <= attrs@.len(),
                self.attributes_set_from(attrs@, i as int) == old(self).attributes_set_from(
                    attrs@,
                    0,
                ),
            decreases attrs@.len() - i,
        {
            let attr = attrs.attribute(i);
            match attr {
                Attribute::X => match read_length(attr, attrs.value(i)) {
                    Ok(v) => {
                        self.x = v;
                    },
                    Err(e) => {
                        return Err(e);
                    },
                },
                Attribute::Y => match read_length(attr, attrs.value(i)) {
                    Ok(v) => {
                        self.y = v;
                    },
                    Err(e) => {
                        return Err(e);
                    },
                },
                Attribute::Dx => match read_length(attr, attrs.value(i)) {
                    Ok(v) => {
                        self.dx = v;
                    },
                    Err(e) => {
                        return Err(e);
                    },
                },
                Attribute::Dy => match read_length(attr, attrs.value(i)) {
                    Ok(v) => {
                        self.dy = v;
                    },
                    Err(e) => {
                        return Err(e);
                    },
                },
                _ => {},
            }
            i = i + 1;
        }
        Ok(())
    }
}

/// A `tspan` element: where a new chunk starts, if the element asks for
/// one, and by how much its spans are moved. The lengths are in units of
/// user space.
#[derive(Clone, Copy, Debug, PartialEq, Eq, Structural)]
pub struct TSpan {
    pub x: Option<i64>,
    pub y: Option<i64>,
    pub dx: i64,
    pub dy: i64,
}

impl Default for TSpan {
    fn default() -> (r: TSpan)
        ensures
            r == (TSpan { x: None, y: None, dx: 0, dy: 0 }),
    {
        TSpan { x: None, y: None, dx: 0, dy: 0 }
    }
}

impl TSpan {
    /// This element with the length `v` for the attribute `attr`.
    pub open spec fn with(self, attr: Attribute, v: i64) -> TSpan {
        match attr {
            Attribute::X => TSpan { x: Some(v), ..self },
            Attribute::Y => TSpan { y: Some(v), ..self },
            Attribute::Dx => TSpan { dx: v, ..self },
            Attribute::Dy => TSpan { dy: v, ..self },
            _ => self,
        }
    }

    /// This element after the attributes of `bag` from place `i` on, up to
    /// the first of `x`, `y`, `dx` and `dy` whose value is no length; and the
    /// error in that one.
    pub open spec fn attributes_set_from(
        self,
        bag: Seq<(Attribute, Seq<char>)>,
        i: int,
    ) -> (TSpan, Option<NodeErrorText>)
        decreases bag.len() - i,
    {
        if 0 <= i < bag.len() {
            let attr = bag[i].0;
            if attr == Attribute::X || attr == Attribute::Y || attr == Attribute::Dx || attr
                == Attribute::Dy {
                match length_of(attr, bag[i].1) {
                    Ok(v) => self.with(attr, v).attributes_set_from(bag, i + 1),
                    Err(e) => (self, Some(e)),
                }
            } else {
                self.attributes_set_from(bag, i + 1)
            }
        } else {
            (self, None)
        }
    }

    /// Reads the attributes `x`, `y`, `dx` and `dy`, in the order in which
    /// they are written, and stops at the first whose value is no length.
    pub fn set_attributes(&mut self, attrs: &PropertyBag) -> (r: NodeResult)
        ensures
            *final(self) == old(self).attributes_set_from(attrs@, 0).0,
            error_of(r) == old(self).attributes_set_from(attrs@, 0).1,
    {
        let mut i: usize = 0;
        while i < attrs.len()
            invariant
                i <= attrs@.len(),
                self.attributes_set_from(attrs@, i as int) == old(self).attributes_set_from(
                    attrs@,
                    0,
                ),
            decreases attrs@.len() - i,
        {
            let attr = attrs.attribute(i);
            match attr {
                Attribute::X => match read_length(attr, attrs.value(i)) {
                    Ok(v) => {
                        self.x = Some(v);
                    },
                    Err(e) => {
                        return Err(e);
                    },
                },
                Attribute::Y => match read_length(attr, attrs.value(i)) {
                    Ok(v) => {
                        self.y = Some(v);
                    },
                    Err(e) => {
                        return Err(e);
                    },
                },
                Attribute::Dx => match read_length(attr, attrs.value(i)) {
                    Ok(v) => {
                        self.dx = v;
                    },
                    Err(e) => {
                        return Err(e);
                    },
                },
                Attribute::Dy => match read_length(attr, attrs.value(i)) {
                    Ok(v) => {
                        self.dy = v;
                    },
                    Err(e) => {
                        return Err(e);
                    },
                },
                _ => {},
            }
            i = i + 1;
        }
        Ok(())
    }
}

/// The identifier that a reference names: what follows the `#` that the
/// reference starts with, if that is not empty and holds no other `#`.
pub open spec fn fragment_of(href: Seq<char>) -> Option<Seq<char>> {
    if href.len() > 1 && href[0] == '#' && find_char(href, '#', 1) == href.len() {
        Some(href.skip(1))
    } else {
        None
    }
}

/// The index of the first `xlink:href` attribute at or after place `i`, or
/// the number of attributes if there is none.
pub open spec fn find_href(bag: Seq<(Attribute, Seq<char>)>, i: int) -> int
    decreases bag.len() - i,
{
    if 0 <= i < bag.len() && bag[i].0 != Attribute::XlinkHref {
        find_href(bag, i + 1)
    } else {
        i
    }
}

/// The element that the first `xlink:href` attribute of `bag` refers to, if
/// there is such an attribute and it names an identifier.
pub open spec fn link_of(bag: Seq<(Attribute, Seq<char>)>) -> Option<Seq<char>> {
    let k = find_href(bag, 0);
    if 0 <= k < bag.len() {
        fragment_of(bag[k].1)
    } else {
        None
    }
}

/// A `tref` element: the identifier of the element whose character data it
/// stands for.
pub struct TRef {
    link: Option<String>,
}

impl View for TRef {
    type V = Option<Seq<char>>;

    /// The identifier of the element that is referred to.
    closed spec fn view(&self) -> Option<Seq<char>> {
        match self.link {
            Some(s) => Some(s@),
            None => None,
        }
    }
}

impl Default for TRef {
    fn default() -> (r: TRef)
        ensures
            r@ is None,
    {
        TRef { link: None }
    }
}

impl TRef {
    /// Reads the attribute `xlink:href`: its first occurrence decides. A
    /// value that names no identifier leaves the element without a link, and
    /// is no error.
    pub fn set_attributes(&mut self, attrs: &PropertyBag) -> (r: NodeResult)
        ensures
            final(self)@ == link_of(attrs@),
            r is Ok,
    {
        let mut i: usize = 0;
        while i < attrs.len()
            invariant
                i <= attrs@.len(),
                find_href(attrs@, i as int) == find_href(attrs@, 0),
            decreases attrs@.len() - i,
        {
            match attrs.attribute(i) {
                Attribute::XlinkHref => {
                    let v = chars_of(attrs.value(i));
                    if v.len() > 1 && v[0] == '#' && index_of_char(&v, '#', 1) == v.len() {
                        let id = string_of(&v, 1, v.len());
                        self.link = Some(id);
                    } else {
                        self.link = None;
                    }
                    return Ok(());
                },
                _ => {},
            }
            i = i + 1;
        }
        self.link = None;
        Ok(())
    }

    /// The identifier of the element that is referred to.
    pub fn link(&self) -> (r: Option<&str>)
        ensures
            match r {
                Some(s) => self@ == Some(s@),
                None => self@ is None,
            },
    {
        match &self.link {
            Some(s) => Some(s.as_str()),
            None => None,
        }
    }
}

/// A run of text that is set with one set of values.
pub struct Span {
    values: ComputedValues,
    text: String,
    dx: i128,
    dy: i128,
}

/// A `Span` as plain values.
pub struct SpanView {
    /// The values with which the text is set.
    pub values: Seq<Seq<char>>,
    /// The text, with its white space normalized.
    pub text: Seq<char>,
    /// By how much the span is moved along x, in units.
    pub dx: int,
    /// By how much the span is moved along y, in units.
    pub dy: int,
}

impl View for Span {
    type V = SpanView;

    closed spec fn view(&self) -> SpanView {
        SpanView { values: self.values@, text: self.text@, dx: self.dx as int, dy: self.dy as int }
    }
}

impl Span {
    fn new(text: String, values: ComputedValues, dx: i128, dy: i128) -> (r: Span)
        ensures
            r@ == (SpanView { values: values@, text: text@, dx: dx as int, dy: dy as int }),
    {
        Span { values, text, dx, dy }
    }

    /// The values with which the text is set.
    pub fn values(&self) -> (r: &ComputedValues)
        ensures
            r@ == self@.values,
    {
        &self.values
    }

    /// The text, with its white space normalized.
    pub fn text(&self) -> (r: &str)
        ensures
            r@ == self@.text,
    {
        self.text.as_str()
    }

    /// By how much the span is moved along x, in units.
    pub fn dx(&self) -> (r: i128)
        ensures
            r == self@.dx,
    {
        self.dx
    }

    /// By how much the span is moved along y, in units.
    pub fn dy(&self) -> (r: i128)
        ensures
            r == self@.dy,
    {
        self.dy
    }
}

/// A run of spans that is placed as a whole.
///
/// A chunk starts where an element gives an absolute position, with `x` or
/// `y`. A `text` element always starts one; a `tspan` element starts one
/// where it has one of the two attributes.
pub struct Chunk {
    values: ComputedValues,
    x: Option<i64>,
    y: Option<i64>,
    spans: Vec<Span>,
}

/// A `Chunk` as plain values.
pub struct ChunkView {
    /// The values of the element that started the chunk.
    pub values: Seq<Seq<char>>,
    /// Where the chunk starts along x, if that is given.
    pub x: Option<i64>,
    /// Where the chunk starts along y, if that is given.
    pub y: Option<i64>,
    /// The spans, in order.
    pub spans: Seq<SpanView>,
}

/// The views of the spans of `v`, in order.
pub open spec fn span_views(v: Seq<Span>) -> Seq<SpanView> {
    Seq::new(v.len(), |i: int| v[i]@)
}

impl View for Chunk {
    type V = ChunkView;

    closed spec fn view(&self) -> ChunkView {
        ChunkView { values: self.values@, x: self.x, y: self.y, spans: span_views(self.spans@) }
    }
}

/// The views of the chunks of `v`, in order.
pub open spec fn chunk_views(v: Seq<Chunk>) -> Seq<ChunkView> {
    Seq::new(v.len(), |i: int| v[i]@)
}

/// Every chunk and every span has one value for each property.
pub open spec fn chunks_wf(chunks: Seq<ChunkView>) -> bool {
    forall|i: int|
        0 <= i < chunks.len() ==> (#[trigger] chunks[i]).values.len() == PROPERTY_COUNT && forall|
            j: int,
        |
            0 <= j < chunks[i].spans.len() ==> (#[trigger] chunks[i].spans[j]).values.len()
                == PROPERTY_COUNT
}

impl Chunk {
    fn new(values: &ComputedValues, x: Option<i64>, y: Option<i64>) -> (r: Chunk)
        ensures
            r@ == (ChunkView { values: values@, x, y, spans: Seq::<SpanView>::empty() }),
    {
        let r = Chunk { values: values.duplicate(), x, y, spans: Vec::new() };
        assert(r@.spans =~= Seq::<SpanView>::empty());
        r
    }

    /// The values of the element that started the chunk.
    pub fn values(&self) -> (r: &ComputedValues)
        ensures
            r@ == self@.values,
    {
        &self.values
    }

    /// Where the chunk starts along x, if that is given.
    pub fn x(&self) -> (r: Option<i64>)
        ensures
            r == self@.x,
    {
        self.x
    }

    /// Where the chunk starts along y, if that is given.
    pub fn y(&self) -> (r: Option<i64>)
        ensures
            r == self@.y,
    {
        self.y
    }

    /// The spans, in order.
    pub fn spans(&self) -> (r: &Vec<Span>)
        ensures
            span_views(r@) == self@.spans,
    {
        &self.spans
    }
}

/// How the white space of character data is normalized: as `xml:space`
/// says, and, in the default mode, by whether the character data is the
/// first and whether it is the last of the `siblings` children of its
/// parent, of which it is the one at place `k`.
pub open spec fn spec_space_mode(values: Seq<Seq<char>>, k: int, siblings: int) -> XmlSpaceNormalize {
    match xml_space_of(values[Property::XmlSpace.spec_index()]) {
        XmlSpace::Default => XmlSpaceNormalize::Default(
            NormalizeDefault { has_element_before: k > 0, has_element_after: k + 1 < siblings },
        ),
        XmlSpace::Preserve => XmlSpaceNormalize::Preserve,
    }
}

/// How the white space of character data is normalized.
pub fn space_mode(values: &ComputedValues, k: usize, siblings: usize) -> (r: XmlSpaceNormalize)
    requires
        values.wf(),
        k < siblings,
    ensures
        r == spec_space_mode(values@, k as int, siblings as int),
{
    match values.xml_space() {
        XmlSpace::Default => XmlSpaceNormalize::Default(
            NormalizeDefault { has_element_before: k > 0, has_element_after: k + 1 < siblings },
        ),
        XmlSpace::Preserve => XmlSpaceNormalize::Preserve,
    }
}

/// The chunks `chunks` with `span` added to the last of them.
pub open spec fn span_added(chunks: Seq<ChunkView>, span: SpanView) -> Seq<ChunkView> {
    if chunks.len() > 0 {
        chunks.update(
            chunks.len() - 1,
            ChunkView { spans: chunks.last().spans.push(span), ..chunks.last() },
        )
    } else {
        chunks
    }
}

/// The chunks after character data with the text `text`: a span with the
/// normalized text is added to the last chunk, unless that text is empty.
pub open spec fn chars_chunks(
    chunks: Seq<ChunkView>,
    text: Seq<char>,
    mode: XmlSpaceNormalize,
    values: Seq<Seq<char>>,
    dx: int,
    dy: int,
) -> Seq<ChunkView> {
    if normalized(mode, text).len() == 0 {
        chunks
    } else {
        span_added(chunks, SpanView { values, text: normalized(mode, text), dx, dy })
    }
}

/// Whether an element with the values `values` generates anything.
pub open spec fn displayed(values: Seq<Seq<char>>) -> bool {
    values[Property::Display.spec_index()] != "none"@
}

/// The element that a reference to `id` from the node at place `from`
/// resolves to: the first element with that identifier, unless the reference
/// stands at or below it, which would make a cycle.
pub open spec fn reference_target(t: Seq<NodeView>, from: int, id: Seq<char>) -> Option<int> {
    match acquired(t, from, id) {
        Ok(k) => Some(k as int),
        Err(_) => None,
    }
}

/// The chunks after the character data at and below the children from place
/// `k` on of the node at place `node`, taken in document order, whatever the
/// elements among them are. Every span has the values `values` and is moved
/// by nothing.
pub open spec fn flattened(
    t: Seq<NodeView>,
    node: int,
    values: Seq<Seq<char>>,
    chunks: Seq<ChunkView>,
    k: int,
) -> Seq<ChunkView>
    decreases t.len() - node, t[node].children.len() - k,
{
    if 0 <= node < t.len() && 0 <= k < t[node].children.len() {
        let child = t[node].children[k] as int;
        let after = if node < child < t.len() {
            match t[child].element {
                ElementView::Chars(s) => chars_chunks(
                    chunks,
                    s,
                    spec_space_mode(values, k, t[node].children.len() as int),
                    values,
                    0,
                    0,
                ),
                _ => flattened(t, child, values, chunks, 0),
            }
        } else {
            chunks
        };
        flattened(t, node, values, after, k + 1)
    } else {
        chunks
    }
}

/// The chunks after the `tref` element at place `node`, which is drawn with
/// `cascaded` and refers to `link`: the character data at and below the
/// element that it refers to, flattened, and set with the values of the
/// `tref` itself. An element that is not displayed, has no link, or refers to
/// nothing adds nothing.
pub open spec fn tref_chunks(
    t: Seq<NodeView>,
    node: int,
    link: Option<Seq<char>>,
    cascaded: CascadedView,
    chunks: Seq<ChunkView>,
) -> Seq<ChunkView> {
    match link {
        Some(id) => if displayed(cascaded.values) {
            match reference_target(t, node, id) {
                Some(target) => flattened(t, target, cascaded.values, chunks, 0),
                None => chunks,
            }
        } else {
            chunks
        },
        None => chunks,
    }
}

/// The chunks after the children from place `k` on of the node at place
/// `node`, which is drawn with `cascaded` and whose spans are moved by `dx`
/// and `dy`.
///
/// Character data adds a span to the last chunk. A `tspan` element and a
/// `tref` element add what `tspan_chunks` and `tref_chunks` say; an element
/// of another kind adds nothing.
pub open spec fn children_chunks(
    t: Seq<NodeView>,
    node: int,
    cascaded: CascadedView,
    dx: int,
    dy: int,
    chunks: Seq<ChunkView>,
    k: int,
) -> Seq<ChunkView>
    decreases t.len() - node, 1int, t[node].children.len() - k,
{
    if 0 <= node < t.len() && 0 <= k < t[node].children.len() {
        let child = t[node].children[k] as int;
        let after = if node < child < t.len() {
            match t[child].element {
                ElementView::Chars(s) => chars_chunks(
                    chunks,
                    s,
                    spec_space_mode(cascaded.values, k, t[node].children.len() as int),
                    cascaded.values,
                    dx,
                    dy,
                ),
                ElementView::TSpan(tspan) => tspan_chunks(
                    t,
                    child,
                    tspan,
                    child_cascade(cascaded, t[child]),
                    dx,
                    dy,
                    chunks,
                ),
                ElementView::TRef(link) => tref_chunks(
                    t,
                    child,
                    link,
                    child_cascade(cascaded, t[child]),
                    chunks,
                ),
                _ => chunks,
            }
        } else {
            chunks
        };
        children_chunks(t, node, cascaded, dx, dy, after, k + 1)
    } else {
        chunks
    }
}

/// The chunks after the `tspan` element at place `node`, which is drawn with
/// `cascaded`. An element that is not displayed adds nothing. One with an `x`
/// or a `y` starts a new chunk. Its children are moved by what the element
/// itself is moved by, and by its own `dx` and `dy` on top.
pub open spec fn tspan_chunks(
    t: Seq<NodeView>,
    node: int,
    tspan: TSpan,
    cascaded: CascadedView,
    dx: int,
    dy: int,
    chunks: Seq<ChunkView>,
) -> Seq<ChunkView>
    decreases t.len() - node, 2int, 0int,
{
    if !displayed(cascaded.values) {
        chunks
    } else {
        let started = if tspan.x is Some || tspan.y is Some {
            chunks.push(
                ChunkView {
                    values: cascaded.values,
                    x: tspan.x,
                    y: tspan.y,
                    spans: Seq::<SpanView>::empty(),
                },
            )
        } else {
            chunks
        };
        children_chunks(t, node, cascaded, dx + tspan.dx, dy + tspan.dy, started, 0)
    }
}

/// The chunks of the `text` element at place `node`, which is drawn with
/// `cascaded` and starts at `x` and `y`: a first chunk that starts there, and
/// what the children of the element add.
pub open spec fn text_chunks(
    t: Seq<NodeView>,
    node: int,
    text: Text,
    cascaded: CascadedView,
    x: i64,
    y: i64,
) -> Seq<ChunkView> {
    children_chunks(
        t,
        node,
        cascaded,
        text.dx as int,
        text.dy as int,
        seq![
            ChunkView {
                values: cascaded.values,
                x: Some(x),
                y: Some(y),
                spans: Seq::<SpanView>::empty(),
            },
        ],
        0,
    )
}

/// The most that one element moves its spans by, along one axis.
pub open spec fn step_limit() -> int {
    0x8000_0000_0000_0000
}

/// What the spans below the node at place `node` are moved by is no more
/// than the elements from the `text` element down to that node can add up
/// to.
pub open spec fn moved_within(node: int, v: int) -> bool {
    -(node + 1) * step_limit() <= v <= (node + 1) * step_limit()
}

impl Chars {
    /// The span for this character data, unless its normalized text is
    /// empty.
    pub fn make_span(
        &self,
        mode: XmlSpaceNormalize,
        values: &ComputedValues,
        dx: i128,
        dy: i128,
    ) -> (r: Option<Span>)
        ensures
            match r {
                Some(span) => normalized(mode, self@).len() > 0 && span@ == (SpanView {
                    values: values@,
                    text: normalized(mode, self@),
                    dx: dx as int,
                    dy: dy as int,
                }),
                None => normalized(mode, self@).len() == 0,
            },
    {
        let text = self.normalized_string(mode);
        if text.as_str().unicode_len() == 0 {
            None
        } else {
            Some(Span::new(text, values.duplicate(), dx, dy))
        }
    }

    /// Adds the span for this character data to the last chunk, unless its
    /// normalized text is empty.
    pub fn to_chunks(
        &self,
        mode: XmlSpaceNormalize,
        values: &ComputedValues,
        chunks: &mut Vec<Chunk>,
        dx: i128,
        dy: i128,
    )
        requires
            old(chunks)@.len() > 0,
            values.wf(),
            chunks_wf(chunk_views(old(chunks)@)),
        ensures
            chunks_wf(chunk_views(final(chunks)@)),
            chunk_views(final(chunks)@) == chars_chunks(
                chunk_views(old(chunks)@),
                self@,
                mode,
                values@,
                dx as int,
                dy as int,
            ),
            final(chunks)@.len() == old(chunks)@.len(),
    {
        match self.make_span(mode, values, dx, dy) {
            Some(span) => {
                let num_chunks = chunks.len();
                let ghost before = chunk_views(chunks@);
                let ghost v = span@;
                chunks[num_chunks - 1].spans.push(span);
                proof {
                    assert(chunks@[num_chunks - 1]@.spans =~= before.last().spans.push(v));
                    assert(chunk_views(chunks@) =~= span_added(before, v));
                    let after = chunk_views(chunks@);
                    assert forall|i: int| 0 <= i < after.len() implies (#[trigger] after[i]).values.len()
                        == PROPERTY_COUNT && forall|j: int|
                        0 <= j < after[i].spans.len() ==> (#[trigger] after[i].spans[j]).values.len()
                            == PROPERTY_COUNT by {
                        assert(before[i].values.len() == PROPERTY_COUNT);
                        assert forall|j: int| 0 <= j < after[i].spans.len() implies (
                        #[trigger] after[i].spans[j]).values.len() == PROPERTY_COUNT by {
                            if j < before[i].spans.len() {
                                assert(after[i].spans[j] == before[i].spans[j]);
                            }
                        }
                    }
                }
            },
            None => {},
        }
    }
}

/// Adds to `chunks` the spans for the character data at and below the node
/// at place `node`, in document order, each with the values `values`.
fn extract_chars_children_to_chunks_recursively(
    chunks: &mut Vec<Chunk>,
    tree: &Tree,
    node: NodeId,
    values: &ComputedValues,
)
    requires
        tree.wf(),
        node < tree@.len(),
        values.wf(),
        old(chunks)@.len() > 0,
        chunks_wf(chunk_views(old(chunks)@)),
    ensures
        chunks_wf(chunk_views(final(chunks)@)),
        chunk_views(final(chunks)@) == flattened(
            tree@,
            node as int,
            values@,
            chunk_views(old(chunks)@),
            0,
        ),
        final(chunks)@.len() == old(chunks)@.len(),
    decreases tree@.len() - node,
{
    let children = tree.node(node).children();
    let n = children.len();
    let ghost t = tree@;
    assert(tables_wf(t[node as int]) && links_wf(t, node as int));
    let mut k: usize = 0;
    while k < n
        invariant
            k <= n,
            n == children@.len(),
            children@ == t[node as int].children,
            t == tree@,
            tree.wf(),
            node < t.len(),
            values.wf(),
            chunks@.len() == old(chunks)@.len(),
            chunks@.len() > 0,
            chunks_wf(chunk_views(chunks@)),
            flattened(t, node as int, values@, chunk_views(chunks@), k as int) == flattened(
                t,
                node as int,
                values@,
                chunk_views(old(chunks)@),
                0,
            ),
        decreases n - k,
    {
        let child = children[k];
        assert(links_wf(t, node as int));
        assert(child == t[node as int].children[k as int]);
        match tree.node(child).get_impl() {
            Element::Chars(chars) => {
                let mode = space_mode(values, k, n);
                chars.to_chunks(mode, values, chunks, 0, 0);
            },
            _ => {
                extract_chars_children_to_chunks_recursively(chunks, tree, child, values);
            },
        }
        k = k + 1;
    }
}

impl TRef {
    /// Adds to `chunks` what this element, which stands at place `node` and
    /// is drawn with `cascaded`, stands for.
    pub fn to_chunks(
        &self,
        tree: &Tree,
        node: NodeId,
        cascaded: &CascadedValues,
        chunks: &mut Vec<Chunk>,
    )
        requires
            tree.wf(),
            node < tree@.len(),
            cascaded.wf(),
            old(chunks)@.len() > 0,
            chunks_wf(chunk_views(old(chunks)@)),
        ensures
            chunks_wf(chunk_views(final(chunks)@)),
            chunk_views(final(chunks)@) == tref_chunks(
                tree@,
                node as int,
                self@,
                cascaded@,
                chunk_views(old(chunks)@),
            ),
            final(chunks)@.len() == old(chunks)@.len(),
    {
        let link = match self.link() {
            Some(link) => link,
            None => {
                return ;
            },
        };
        let values = cascaded.get();
        if !values.is_displayed() {
            return ;
        }
        match tree.acquire(node, link) {
            Ok(target) => {
                extract_chars_children_to_chunks_recursively(chunks, tree, target, values);
            },
            Err(_) => {
                // The reference does not resolve: nothing is added.
            },
        }
    }
}

/// Walks the children of the element at place `node`, which is a `text` or a
/// `tspan`, and adds their chunks and spans to `chunks`.
fn children_to_chunks(
    chunks: &mut Vec<Chunk>,
    tree: &Tree,
    node: NodeId,
    cascaded: &CascadedValues,
    dx: i128,
    dy: i128,
)
    requires
        tree.wf(),
        node < tree@.len(),
        cascaded.wf(),
        old(chunks)@.len() > 0,
        chunks_wf(chunk_views(old(chunks)@)),
        moved_within(node as int, dx as int),
        moved_within(node as int, dy as int),
    ensures
        chunks_wf(chunk_views(final(chunks)@)),
        chunk_views(final(chunks)@) == children_chunks(
            tree@,
            node as int,
            cascaded@,
            dx as int,
            dy as int,
            chunk_views(old(chunks)@),
            0,
        ),
        final(chunks)@.len() >= old(chunks)@.len(),
    decreases tree@.len() - node, 1int,
{
    let children = tree.node(node).children();
    let n = children.len();
    let ghost t = tree@;
    assert(tables_wf(t[node as int]) && links_wf(t, node as int));
    let mut k: usize = 0;
    while k < n
        invariant
            k <= n,
            n == children@.len(),
            children@ == t[node as int].children,
            t == tree@,
            tree.wf(),
            node < t.len(),
            cascaded.wf(),
            chunks@.len() >= old(chunks)@.len(),
            chunks@.len() > 0,
            chunks_wf(chunk_views(chunks@)),
            moved_within(node as int, dx as int),
            moved_within(node as int, dy as int),
            children_chunks(
                t,
                node as int,
                cascaded@,
                dx as int,
                dy as int,
                chunk_views(chunks@),
                k as int,
            ) == children_chunks(
                t,
                node as int,
                cascaded@,
                dx as int,
                dy as int,
                chunk_views(old(chunks)@),
                0,
            ),
        decreases n - k,
    {
        let child = children[k];
        assert(links_wf(t, node as int));
        assert(child == t[node as int].children[k as int]);
        assert(tables_wf(t[child as int]));
        match tree.node(child).get_impl() {
            Element::Chars(chars) => {
                let values = cascaded.get();
                let mode = space_mode(values, k, n);
                chars.to_chunks(mode, values, chunks, dx, dy);
            },
            Element::TSpan(tspan) => {
                let cascaded = cascaded.new(tree.node(child));
                tspan.to_chunks(tree, child, &cascaded, chunks, dx, dy);
            },
            Element::TRef(tref) => {
                let cascaded = cascaded.new(tree.node(child));
                tref.to_chunks(tree, child, &cascaded, chunks);
            },
            _ => {},
        }
        k = k + 1;
    }
}

impl TSpan {
    /// Adds to `chunks` the chunks and spans of this element, which stands at
    /// place `node`, is drawn with `cascaded`, and is moved by `dx` and `dy`.
    fn to_chunks(
        &self,
        tree: &Tree,
        node: NodeId,
        cascaded: &CascadedValues,
        chunks: &mut Vec<Chunk>,
        dx: i128,
        dy: i128,
    )
        requires
            tree.wf(),
            0 < node < tree@.len(),
            cascaded.wf(),
            old(chunks)@.len() > 0,
            chunks_wf(chunk_views(old(chunks)@)),
            moved_within(node as int - 1, dx as int),
            moved_within(node as int - 1, dy as int),
        ensures
            chunks_wf(chunk_views(final(chunks)@)),
            chunk_views(final(chunks)@) == tspan_chunks(
                tree@,
                node as int,
                *self,
                cascaded@,
                dx as int,
                dy as int,
                chunk_views(old(chunks)@),
            ),
            final(chunks)@.len() >= old(chunks)@.len(),
        decreases tree@.len() - node, 2int,
    {
        let values = cascaded.get();
        if !values.is_displayed() {
            return ;
        }
        let span_dx: i128 = dx + self.dx as i128;
        let span_dy: i128 = dy + self.dy as i128;
        if self.x.is_some() || self.y.is_some() {
            let ghost before = chunk_views(chunks@);
            let chunk = Chunk::new(values, self.x, self.y);
            let ghost v = chunk@;
            chunks.push(chunk);
            assert(chunk_views(chunks@) =~= before.push(v));
            assert(chunks_wf(before.push(v))) by {
                let after = before.push(v);
                assert forall|i: int| 0 <= i < after.len() implies (#[trigger] after[i]).values.len()
                    == PROPERTY_COUNT && forall|j: int|
                    0 <= j < after[i].spans.len() ==> (#[trigger] after[i].spans[j]).values.len()
                        == PROPERTY_COUNT by {
                    if i < before.len() {
                        assert(after[i] == before[i]);
                    }
                }
            }
        }
        children_to_chunks(chunks, tree, node, cascaded, span_dx, span_dy);
    }
}

impl Text {
    /// The chunks of this element, which stands at place `node`, is drawn
    /// with `cascaded`, and starts at `x` and `y`.
    pub fn make_chunks(
        &self,
        tree: &Tree,
        node: NodeId,
        cascaded: &CascadedValues,
        x: i64,
        y: i64,
    ) -> (r: Vec<Chunk>)
        requires
            tree.wf(),
            node < tree@.len(),
            cascaded.wf(),
        ensures
            chunks_wf(chunk_views(r@)),
            chunk_views(r@) == text_chunks(tree@, node as int, *self, cascaded@, x, y),
            r@.len() > 0,
    {
        let mut chunks: Vec<Chunk> = Vec::new();
        let values = cascaded.get();
        let chunk = Chunk::new(values, Some(x), Some(y));
        let ghost v = chunk@;
        chunks.push(chunk);
        assert(chunk_views(chunks@) =~= seq![v]);
        children_to_chunks(&mut chunks, tree, node, cascaded, self.dx as i128, self.dy as i128);
        chunks
    }
}

/// What the shaping backend reports of the shaped run for one span. The
/// lengths are in units.
#[derive(Clone, Copy, Debug, PartialEq, Eq, Structural)]
pub struct ShapedRun {
    /// The handle under which the backend keeps the shaped run.
    pub layout: u64,
    /// The width of the run.
    pub width: i64,
    /// The height of the run.
    pub height: i64,
    /// How far the baseline of the run lies below its top.
    pub baseline: i64,
    /// By how much `baseline-shift` moves the baseline.
    pub baseline_shift: i64,
}

/// A span that was measured.
pub struct MeasuredSpan {
    values: ComputedValues,
    layout: u64,
    layout_size: (i64, i64),
    advance: (i64, i64),
    dx: i128,
    dy: i128,
    baseline: i64,
    baseline_shift: i64,
}

/// A `MeasuredSpan` as plain values.
pub struct MeasuredSpanView {
    pub values: Seq<Seq<char>>,
    pub layout: u64,
    pub layout_size: (i64, i64),
    /// By how much the span moves the position of what follows it.
    pub advance: (i64, i64),
    pub dx: int,
    pub dy: int,
    pub baseline: i64,
    pub baseline_shift: i64,
}

impl View for MeasuredSpan {
    type V = MeasuredSpanView;

    closed spec fn view(&self) -> MeasuredSpanView {
        MeasuredSpanView {
            values: self.values@,
            layout: self.layout,
            layout_size: self.layout_size,
            advance: self.advance,
            dx: self.dx as int,
            dy: self.dy as int,
            baseline: self.baseline,
            baseline_shift: self.baseline_shift,
        }
    }
}

/// Whether text with the values `values` runs from top to bottom.
pub open spec fn is_vertical(values: Seq<Seq<char>>) -> bool {
    writing_mode_of(values[Property::WritingMode.spec_index()]).spec_is_vertical()
}

/// The span `span` with what the backend reports of its shaped run. The
/// width of the run is the advance of the span: along y where text runs from
/// top to bottom, along x otherwise.
pub open spec fn measured_span(span: SpanView, shaped: ShapedRun) -> MeasuredSpanView {
    MeasuredSpanView {
        values: span.values,
        layout: shaped.layout,
        layout_size: (shaped.width, shaped.height),
        advance: if is_vertical(span.values) {
            (0i64, shaped.width)
        } else {
            (shaped.width, 0i64)
        },
        dx: span.dx,
        dy: span.dy,
        baseline: shaped.baseline,
        baseline_shift: shaped.baseline_shift,
    }
}

impl MeasuredSpan {
    /// The span `span` with what the backend reports of its shaped run.
    pub fn from_span(span: &Span, shaped: &ShapedRun) -> (r: MeasuredSpan)
        requires
            span@.values.len() == PROPERTY_COUNT,
        ensures
            r@ == measured_span(span@, *shaped),
    {
        let values = span.values.duplicate();
        let w = shaped.width;
        let h = shaped.height;
        let advance = if values.writing_mode().is_vertical() {
            (0, w)
        } else {
            (w, 0)
        };
        MeasuredSpan {
            values,
            layout: shaped.layout,
            layout_size: (w, h),
            advance,
            dx: span.dx,
            dy: span.dy,
            baseline: shaped.baseline,
            baseline_shift: shaped.baseline_shift,
        }
    }
}

/// A chunk whose spans were measured.
pub struct MeasuredChunk {
    values: ComputedValues,
    x: Option<i64>,
    y: Option<i64>,
    advance: (i128, i128),
    spans: Vec<MeasuredSpan>,
}

/// A `MeasuredChunk` as plain values.
pub struct MeasuredChunkView {
    pub values: Seq<Seq<char>>,
    pub x: Option<i64>,
    pub y: Option<i64>,
    /// The sum of the advances of the spans.
    pub advance: (int, int),
    pub spans: Seq<MeasuredSpanView>,
}

/// The views of the measured spans of `v`, in order.
pub open spec fn measured_span_views(v: Seq<MeasuredSpan>) -> Seq<MeasuredSpanView> {
    Seq::new(v.len(), |i: int| v[i]@)
}

impl View for MeasuredChunk {
    type V = MeasuredChunkView;

    closed spec fn view(&self) -> MeasuredChunkView {
        MeasuredChunkView {
            values: self.values@,
            x: self.x,
            y: self.y,
            advance: (self.advance.0 as int, self.advance.1 as int),
            spans: measured_span_views(self.spans@),
        }
    }
}

/// The views of the measured chunks of `v`, in order.
pub open spec fn measured_chunk_views(v: Seq<MeasuredChunk>) -> Seq<MeasuredChunkView> {
    Seq::new(v.len(), |i: int| v[i]@)
}

/// The sum of the advances of the first `n` spans.
pub open spec fn total_advance(spans: Seq<MeasuredSpanView>, n: int) -> (int, int)
    decreases n,
{
    if n <= 0 || n > spans.len() {
        (0, 0)
    } else {
        (
            total_advance(spans, n - 1).0 + spans[n - 1].advance.0,
            total_advance(spans, n - 1).1 + spans[n - 1].advance.1,
        )
    }
}

/// The spans of `chunk`, each with what the backend reports of its shaped
/// run.
pub open spec fn measured_spans(chunk: ChunkView, shaped: Seq<ShapedRun>) -> Seq<MeasuredSpanView> {
    Seq::new(chunk.spans.len(), |i: int| measured_span(chunk.spans[i], shaped[i]))
}

/// The chunk `chunk` with its spans measured: the advance of the chunk is
/// the sum of the advances of its spans.
pub open spec fn measured_chunk(chunk: ChunkView, shaped: Seq<ShapedRun>) -> MeasuredChunkView {
    MeasuredChunkView {
        values: chunk.values,
        x: chunk.x,
        y: chunk.y,
        advance: total_advance(
            measured_spans(chunk, shaped),
            measured_spans(chunk, shaped).len() as int,
        ),
        spans: measured_spans(chunk, shaped),
    }
}

/// A measured chunk has one value for each property, as each of its spans
/// has, and its advance is the sum of the advances of its spans.
pub open spec fn measured_wf(m: MeasuredChunkView) -> bool {
    &&& m.values.len() == PROPERTY_COUNT
    &&& forall|j: int| 0 <= j < m.spans.len() ==> (#[trigger] m.spans[j]).values.len() == PROPERTY_COUNT
    &&& m.advance == total_advance(m.spans, m.spans.len() as int)
}

/// The sum of the advances of `n` spans lies within `n` times the range of
/// one advance.
pub proof fn lemma_total_advance_bounds(spans: Seq<MeasuredSpanView>, n: int)
    requires
        0 <= n <= spans.len(),
    ensures
        -n * step_limit() <= total_advance(spans, n).0 <= n * step_limit(),
        -n * step_limit() <= total_advance(spans, n).1 <= n * step_limit(),
    decreases n,
{
    if n > 0 {
        lemma_total_advance_bounds(spans, n - 1);
    }
}

impl MeasuredChunk {
    /// The chunk `chunk` with its spans measured, given what the backend
    /// reports of the shaped run for each span, in the order of the spans.
    pub fn from_chunk(chunk: &Chunk, shaped: &Vec<ShapedRun>) -> (r: MeasuredChunk)
        requires
            shaped@.len() == chunk@.spans.len(),
            chunk@.values.len() == PROPERTY_COUNT,
            forall|j: int|
                0 <= j < chunk@.spans.len() ==> (#[trigger] chunk@.spans[j]).values.len()
                    == PROPERTY_COUNT,
        ensures
            r@ == measured_chunk(chunk@, shaped@),
            measured_wf(r@),
    {
        let ghost all = measured_spans(chunk@, shaped@);
        let n = chunk.spans.len();
        let mut spans: Vec<MeasuredSpan> = Vec::new();
        let mut advance: (i128, i128) = (0, 0);
        let mut i: usize = 0;
        while i < n
            invariant
                i <= n,
                n == chunk.spans@.len(),
                n == shaped@.len(),
                all == measured_spans(chunk@, shaped@),
                all.len() == n,
                chunk@.spans == span_views(chunk.spans@),
                forall|j: int|
                    0 <= j < chunk@.spans.len() ==> (#[trigger] chunk@.spans[j]).values.len()
                        == PROPERTY_COUNT,
                spans@.len() == i,
                forall|j: int| 0 <= j < i ==> (#[trigger] spans@[j])@ == all[j],
                advance.0 == total_advance(all, i as int).0,
                advance.1 == total_advance(all, i as int).1,
            decreases n - i,
        {
            assert(chunk@.spans[i as int] == chunk.spans@[i as int]@);
            let m = MeasuredSpan::from_span(&chunk.spans[i], &shaped[i]);
            proof {
                lemma_total_advance_bounds(all, i as int);
                lemma_total_advance_bounds(all, i as int + 1);
                assert(m@ == all[i as int]);
            }
            advance = (advance.0 + m.advance.0 as i128, advance.1 + m.advance.1 as i128);
            spans.push(m);
            i = i + 1;
        }
        let r = MeasuredChunk {
            values: chunk.values.duplicate(),
            x: chunk.x,
            y: chunk.y,
            advance,
            spans,
        };
        assert(r@.spans =~= all);
        r
    }

    /// The values of the element that started the chunk.
    pub fn values(&self) -> (r: &ComputedValues)
        ensures
            r@ == self@.values,
    {
        &self.values
    }

    /// The sum of the advances of the spans.
    pub fn advance(&self) -> (r: (i128, i128))
        ensures
            r.0 == self@.advance.0,
            r.1 == self@.advance.1,
    {
        self.advance
    }
}

/// The chunks with their spans measured, given for each chunk what the
/// backend reports of the shaped run for each of its spans.
pub fn measure_chunks(chunks: &Vec<Chunk>, shaped: &Vec<Vec<ShapedRun>>) -> (r: Vec<MeasuredChunk>)
    requires
        chunks_wf(chunk_views(chunks@)),
        shaped@.len() == chunks@.len(),
        forall|c: int|
            0 <= c < chunks@.len() ==> (#[trigger] shaped@[c])@.len() == chunks@[c]@.spans.len(),
    ensures
        r@.len() == chunks@.len(),
        forall|c: int|
            0 <= c < chunks@.len() ==> (#[trigger] r@[c])@ == measured_chunk(
                chunks@[c]@,
                shaped@[c]@,
            ) && measured_wf(r@[c]@),
{
    let mut r: Vec<MeasuredChunk> = Vec::new();
    let mut c: usize = 0;
    while c < chunks.len()
        invariant
            c <= chunks@.len(),
            chunks_wf(chunk_views(chunks@)),
            shaped@.len() == chunks@.len(),
            forall|k: int|
                0 <= k < chunks@.len() ==> (#[trigger] shaped@[k])@.len() == chunks@[k]@.spans.len(),
            r@.len() == c,
            forall|k: int|
                0 <= k < c ==> (#[trigger] r@[k])@ == measured_chunk(chunks@[k]@, shaped@[k]@)
                    && measured_wf(r@[k]@),
        decreases chunks@.len() - c,
    {
        assert(chunk_views(chunks@)[c as int] == chunks@[c as int]@);
        r.push(MeasuredChunk::from_chunk(&chunks[c], &shaped[c]));
        c = c + 1;
    }
    r
}

/// Half of `a`, rounded towards zero.
pub open spec fn half(a: int) -> int {
    if a >= 0 {
        a / 2
    } else {
        -((-a) / 2)
    }
}

/// By how much the anchor of a chunk moves where the chunk starts: by
/// nothing for `start`, back by half the advance of the chunk for `middle`,
/// and back by all of it for `end`; along y where text runs from top to
/// bottom, and along x otherwise.
pub open spec fn anchor_shift(anchor: TextAnchor, writing_mode: WritingMode, advance: (int, int)) -> (
    int,
    int,
) {
    if writing_mode.spec_is_vertical() {
        match anchor {
            TextAnchor::Start => (0, 0),
            TextAnchor::Middle => (0, -half(advance.1)),
            TextAnchor::End => (0, -advance.1),
        }
    } else {
        match anchor {
            TextAnchor::Start => (0, 0),
            TextAnchor::Middle => (-half(advance.0), 0),
            TextAnchor::End => (-advance.0, 0),
        }
    }
}

/// By how much the anchor of a chunk moves where the chunk starts.
pub fn text_anchor_advance(anchor: TextAnchor, writing_mode: WritingMode, advance: (i128, i128)) -> (r:
    (i128, i128))
    requires
        advance.0 > i128::MIN,
        advance.1 > i128::MIN,
    ensures
        (r.0 as int, r.1 as int) == anchor_shift(
            anchor,
            writing_mode,
            (advance.0 as int, advance.1 as int),
        ),
{
    if writing_mode.is_vertical() {
        match anchor {
            TextAnchor::Start => (0, 0),
            TextAnchor::Middle => (0, -(advance.1 / 2)),
            TextAnchor::End => (0, -advance.1),
        }
    } else {
        match anchor {
            TextAnchor::Start => (0, 0),
            TextAnchor::Middle => (-(advance.0 / 2), 0),
            TextAnchor::End => (-advance.0, 0),
        }
    }
}

/// Whether `v` is a coordinate that can be kept.
pub open spec fn fits(v: int) -> bool {
    i64::MIN <= v <= i64::MAX
}

/// The sum of `small` and `big`, if it is a coordinate that can be kept.
fn narrow_sum(small: i128, big: i128) -> (r: Option<i64>)
    requires
        -0x4_0000_0000_0000_0000 <= small <= 0x4_0000_0000_0000_0000,
    ensures
        match r {
            Some(v) => v == small + big,
            None => !fits(small + big),
        },
{
    match small.checked_add(big) {
        Some(s) => {
            if s >= i64::MIN as i128 && s <= i64::MAX as i128 {
                Some(s as i64)
            } else {
                None
            }
        },
        None => None,
    }
}

/// A span that was placed.
pub struct PositionedSpan {
    layout: u64,
    values: ComputedValues,
    position: (i64, i64),
    rendered_position: (i64, i64),
    next_span_x: i64,
    next_span_y: i64,
}

/// A `PositionedSpan` as plain values.
pub struct PositionedSpanView {
    pub layout: u64,
    pub values: Seq<Seq<char>>,
    /// Where the span starts.
    pub position: (int, int),
    /// Where the shaped run is drawn.
    pub rendered_position: (int, int),
    /// Where what follows the span starts, along x.
    pub next_span_x: int,
    /// Where what follows the span starts, along y.
    pub next_span_y: int,
}

impl View for PositionedSpan {
    type V = PositionedSpanView;

    closed spec fn view(&self) -> PositionedSpanView {
        PositionedSpanView {
            layout: self.layout,
            values: self.values@,
            position: (self.position.0 as int, self.position.1 as int),
            rendered_position: (
                self.rendered_position.0 as int,
                self.rendered_position.1 as int,
            ),
            next_span_x: self.next_span_x as int,
            next_span_y: self.next_span_y as int,
        }
    }
}

/// The measured span `m`, placed where the running position is `x` and `y`.
///
/// The span is moved by its `dx` and `dy`. Where text runs from left to
/// right, the run is drawn with its baseline, moved by `baseline-shift`, at
/// the running position; where it runs from top to bottom it is moved
/// sideways by as much. What follows starts where the span starts, moved by
/// the advance of the span.
pub open spec fn positioned_span(m: MeasuredSpanView, x: int, y: int) -> PositionedSpanView {
    let offset = m.baseline + m.baseline_shift;
    PositionedSpanView {
        layout: m.layout,
        values: m.values,
        position: (x, y),
        rendered_position: if is_vertical(m.values) {
            (x + offset + m.dx, y + m.dy)
        } else {
            (x + m.dx, y - offset + m.dy)
        },
        next_span_x: x + m.advance.0 + m.dx,
        next_span_y: y + m.advance.1 + m.dy,
    }
}

/// Whether every coordinate of the placed span can be kept.
pub open spec fn span_fits(m: MeasuredSpanView, x: int, y: int) -> bool {
    let p = positioned_span(m, x, y);
    fits(p.rendered_position.0) && fits(p.rendered_position.1) && fits(p.next_span_x) && fits(
        p.next_span_y,
    )
}

impl PositionedSpan {
    /// The measured span, placed where the running position is `x` and `y`;
    /// nothing if a coordinate of it cannot be kept.
    pub fn from_measured(measured: &MeasuredSpan, x: i64, y: i64) -> (r: Option<PositionedSpan>)
        requires
            measured@.values.len() == PROPERTY_COUNT,
        ensures
            match r {
                Some(p) => span_fits(measured@, x as int, y as int) && p@ == positioned_span(
                    measured@,
                    x as int,
                    y as int,
                ),
                None => !span_fits(measured@, x as int, y as int),
            },
    {
        let values = measured.values.duplicate();
        let offset: i128 = measured.baseline as i128 + measured.baseline_shift as i128;
        let dx = measured.dx;
        let dy = measured.dy;
        let rendered = if values.writing_mode().is_vertical() {
            (narrow_sum(x as i128 + offset, dx), narrow_sum(y as i128, dy))
        } else {
            (narrow_sum(x as i128, dx), narrow_sum(y as i128 - offset, dy))
        };
        let next_x = narrow_sum(x as i128 + measured.advance.0 as i128, dx);
        let next_y = narrow_sum(y as i128 + measured.advance.1 as i128, dy);
        match (rendered.0, rendered.1, next_x, next_y) {
            (Some(render_x), Some(render_y), Some(next_span_x), Some(next_span_y)) => Some(
                PositionedSpan {
                    layout: measured.layout,
                    values,
                    position: (x, y),
                    rendered_position: (render_x, render_y),
                    next_span_x,
                    next_span_y,
                },
            ),
            _ => None,
        }
    }

    /// The handle of the shaped run.
    pub fn layout(&self) -> (r: u64)
        ensures
            r == self@.layout,
    {
        self.layout
    }

    /// The values with which the span is set.
    pub fn values(&self) -> (r: &ComputedValues)
        ensures
            r@ == self@.values,
    {
        &self.values
    }

    /// Where the span starts.
    pub fn position(&self) -> (r: (i64, i64))
        ensures
            r.0 == self@.position.0,
            r.1 == self@.position.1,
    {
        self.position
    }

    /// Where the shaped run is drawn.
    pub fn rendered_position(&self) -> (r: (i64, i64))
        ensures
            r.0 == self@.rendered_position.0,
            r.1 == self@.rendered_position.1,
    {
        self.rendered_position
    }

    /// Where what follows the span starts.
    pub fn next_position(&self) -> (r: (i64, i64))
        ensures
            r.0 == self@.next_span_x,
            r.1 == self@.next_span_y,
    {
        (self.next_span_x, self.next_span_y)
    }
}

/// A chunk whose spans were placed.
pub struct PositionedChunk {
    next_chunk_x: i64,
    next_chunk_y: i64,
    spans: Vec<PositionedSpan>,
}

/// A `PositionedChunk` as plain values.
pub struct PositionedChunkView {
    /// Where a chunk that follows starts along x, if it does not say.
    pub next_chunk_x: int,
    /// Where a chunk that follows starts along y, if it does not say.
    pub next_chunk_y: int,
    pub spans: Seq<PositionedSpanView>,
}

/// The views of the placed spans of `v`, in order.
pub open spec fn positioned_span_views(v: Seq<PositionedSpan>) -> Seq<PositionedSpanView> {
    Seq::new(v.len(), |i: int| v[i]@)
}

impl View for PositionedChunk {
    type V = PositionedChunkView;

    closed spec fn view(&self) -> PositionedChunkView {
        PositionedChunkView {
            next_chunk_x: self.next_chunk_x as int,
            next_chunk_y: self.next_chunk_y as int,
            spans: positioned_span_views(self.spans@),
        }
    }
}

/// The views of the placed chunks of `v`, in order.
pub open spec fn positioned_chunk_views(v: Seq<PositionedChunk>) -> Seq<PositionedChunkView> {
    Seq::new(v.len(), |i: int| v[i]@)
}

/// Where the span at place `k` starts, if the first span starts at `x` and
/// `y`: each span starts where the span before it ends.
pub open spec fn span_start(spans: Seq<MeasuredSpanView>, x: int, y: int, k: int) -> (int, int)
    decreases k,
{
    if k <= 0 || k > spans.len() {
        (x, y)
    } else {
        let before = span_start(spans, x, y, k - 1);
        let p = positioned_span(spans[k - 1], before.0, before.1);
        (p.next_span_x, p.next_span_y)
    }
}

/// Where the first span of the measured chunk `m` starts, if the chunk is
/// anchored at `x` and `y`.
pub open spec fn chunk_start(m: MeasuredChunkView, x: int, y: int) -> (int, int) {
    let shift = anchor_shift(
        text_anchor_of(m.values[Property::TextAnchor.spec_index()]),
        writing_mode_of(m.values[Property::WritingMode.spec_index()]),
        m.advance,
    );
    (x + shift.0, y + shift.1)
}

/// The measured chunk `m`, placed with its anchor at `x` and `y`. The anchor
/// is moved as `text-anchor` asks, and the spans follow one another from
/// there. A chunk that follows and gives no position starts where the last
/// span ends.
pub open spec fn positioned_chunk(m: MeasuredChunkView, x: int, y: int) -> PositionedChunkView {
    let start = chunk_start(m, x, y);
    PositionedChunkView {
        next_chunk_x: span_start(m.spans, start.0, start.1, m.spans.len() as int).0,
        next_chunk_y: span_start(m.spans, start.0, start.1, m.spans.len() as int).1,
        spans: Seq::new(
            m.spans.len(),
            |k: int|
                positioned_span(
                    m.spans[k],
                    span_start(m.spans, start.0, start.1, k).0,
                    span_start(m.spans, start.0, start.1, k).1,
                ),
        ),
    }
}

/// Whether every coordinate of the placed chunk can be kept.
pub open spec fn chunk_fits(m: MeasuredChunkView, x: int, y: int) -> bool {
    let start = chunk_start(m, x, y);
    &&& fits(start.0)
    &&& fits(start.1)
    &&& forall|k: int|
        0 <= k < m.spans.len() ==> span_fits(
            #[trigger] m.spans[k],
            span_start(m.spans, start.0, start.1, k).0,
            span_start(m.spans, start.0, start.1, k).1,
        )
}

/// Every span of a placed chunk has one value for each property.
pub open spec fn positioned_wf(p: PositionedChunkView) -> bool {
    forall|k: int| 0 <= k < p.spans.len() ==> (#[trigger] p.spans[k]).values.len() == PROPERTY_COUNT
}

impl PositionedChunk {
    /// The measured chunk, placed with its anchor at `x` and `y`; nothing if
    /// a coordinate of it cannot be kept.
    pub fn from_measured(measured: &MeasuredChunk, x: i64, y: i64) -> (r: Option<PositionedChunk>)
        requires
            measured_wf(measured@),
        ensures
            match r {
                Some(p) => chunk_fits(measured@, x as int, y as int) && p@ == positioned_chunk(
                    measured@,
                    x as int,
                    y as int,
                ) && positioned_wf(p@),
                None => !chunk_fits(measured@, x as int, y as int),
            },
    {
        let ghost m = measured@;
        let ghost start = chunk_start(m, x as int, y as int);
        let n = measured.spans.len();
        proof {
            lemma_total_advance_bounds(m.spans, n as int);
        }
        // Move the anchor as `text-anchor` asks.
        let adjusted_advance = text_anchor_advance(
            measured.values.text_anchor(),
            measured.values.writing_mode(),
            measured.advance,
        );
        let mut cx = match narrow_sum(x as i128, adjusted_advance.0) {
            Some(v) => v,
            None => {
                return None;
            },
        };
        let mut cy = match narrow_sum(y as i128, adjusted_advance.1) {
            Some(v) => v,
            None => {
                return None;
            },
        };
        // Place each span.
        let mut positioned: Vec<PositionedSpan> = Vec::new();
        let mut k: usize = 0;
        while k < n
            invariant
                k <= n,
                n == measured.spans@.len(),
                m == measured@,
                m.spans == measured_span_views(measured.spans@),
                measured_wf(m),
                start == chunk_start(m, x as int, y as int),
                fits(start.0),
                fits(start.1),
                cx == span_start(m.spans, start.0, start.1, k as int).0,
                cy == span_start(m.spans, start.0, start.1, k as int).1,
                positioned@.len() == k,
                forall|j: int|
                    0 <= j < k ==> span_fits(
                        #[trigger] m.spans[j],
                        span_start(m.spans, start.0, start.1, j).0,
                        span_start(m.spans, start.0, start.1, j).1,
                    ) && positioned@[j]@ == positioned_span(
                        m.spans[j],
                        span_start(m.spans, start.0, start.1, j).0,
                        span_start(m.spans, start.0, start.1, j).1,
                    ),
            decreases n - k,
        {
            assert(m.spans[k as int] == measured.spans@[k as int]@);
            match PositionedSpan::from_measured(&measured.spans[k], cx, cy) {
                Some(positioned_span) => {
                    cx = positioned_span.next_span_x;
                    cy = positioned_span.next_span_y;
                    positioned.push(positioned_span);
                },
                None => {
                    return None;
                },
            }
            k = k + 1;
        }
        let r = PositionedChunk { next_chunk_x: cx, next_chunk_y: cy, spans: positioned };
        assert(r@.spans =~= positioned_chunk(m, x as int, y as int).spans);
        assert forall|j: int| 0 <= j < r@.spans.len() implies (#[trigger] r@.spans[j]).values.len()
            == PROPERTY_COUNT by {
            assert(r@.spans[j].values == m.spans[j].values);
        }
        Some(r)
    }
}

/// Where a measured chunk is anchored if the running position is `run`:
/// where it says, and where it does not say, at the running position.
pub open spec fn anchor_of(m: MeasuredChunkView, run: (int, int)) -> (int, int) {
    (
        match m.x {
            Some(v) => v as int,
            None => run.0,
        },
        match m.y {
            Some(v) => v as int,
            None => run.1,
        },
    )
}

/// The running position behind the first `c` chunks: where the last span of
/// the chunk at place `c - 1` ends, or `x` and `y` if there is no chunk
/// before.
pub open spec fn running_position(chunks: Seq<MeasuredChunkView>, x: int, y: int, c: int) -> (
    int,
    int,
)
    decreases c,
{
    if c <= 0 || c > chunks.len() {
        (x, y)
    } else {
        let anchor = anchor_of(chunks[c - 1], running_position(chunks, x, y, c - 1));
        (
            positioned_chunk(chunks[c - 1], anchor.0, anchor.1).next_chunk_x,
            positioned_chunk(chunks[c - 1], anchor.0, anchor.1).next_chunk_y,
        )
    }
}

/// Where the chunk at place `c` is anchored.
pub open spec fn chunk_anchor(chunks: Seq<MeasuredChunkView>, x: int, y: int, c: int) -> (int, int) {
    anchor_of(chunks[c], running_position(chunks, x, y, c))
}

/// The chunk at place `c`, placed.
pub open spec fn placed_chunk(chunks: Seq<MeasuredChunkView>, x: int, y: int, c: int) -> PositionedChunkView {
    positioned_chunk(
        chunks[c],
        chunk_anchor(chunks, x, y, c).0,
        chunk_anchor(chunks, x, y, c).1,
    )
}

/// Whether every coordinate of the chunk at place `c`, placed, can be kept.
pub open spec fn placed_chunk_fits(chunks: Seq<MeasuredChunkView>, x: int, y: int, c: int) -> bool {
    chunk_fits(chunks[c], chunk_anchor(chunks, x, y, c).0, chunk_anchor(chunks, x, y, c).1)
}

/// The measured chunks, placed one after the other, for a `text` element
/// that starts at `x` and `y`.
pub open spec fn positioned_chunks(chunks: Seq<MeasuredChunkView>, x: int, y: int) -> Seq<
    PositionedChunkView,
> {
    Seq::new(chunks.len(), |c: int| placed_chunk(chunks, x, y, c))
}

/// Whether every coordinate of the placed chunks can be kept.
pub open spec fn chunks_fit(chunks: Seq<MeasuredChunkView>, x: int, y: int) -> bool {
    forall|c: int| 0 <= c < chunks.len() ==> #[trigger] placed_chunk_fits(chunks, x, y, c)
}

impl PositionedChunk {
    /// The measured chunk, placed where it says, or at the running position
    /// `x` and `y` where it does not say; nothing if a coordinate of it
    /// cannot be kept.
    pub fn following(measured: &MeasuredChunk, x: i64, y: i64) -> (r: Option<PositionedChunk>)
        requires
            measured_wf(measured@),
        ensures
            match r {
                Some(p) => chunk_fits(
                    measured@,
                    anchor_of(measured@, (x as int, y as int)).0,
                    anchor_of(measured@, (x as int, y as int)).1,
                ) && p@ == positioned_chunk(
                    measured@,
                    anchor_of(measured@, (x as int, y as int)).0,
                    anchor_of(measured@, (x as int, y as int)).1,
                ) && positioned_wf(p@),
                None => !chunk_fits(
                    measured@,
                    anchor_of(measured@, (x as int, y as int)).0,
                    anchor_of(measured@, (x as int, y as int)).1,
                ),
            },
    {
        let chunk_x = match measured.x {
            Some(v) => v,
            None => x,
        };
        let chunk_y = match measured.y {
            Some(v) => v,
            None => y,
        };
        PositionedChunk::from_measured(measured, chunk_x, chunk_y)
    }
}

/// Places the measured chunks one after the other, for a `text` element that
/// starts at `x` and `y`; nothing if a coordinate cannot be kept.
pub fn position_chunks(measured: &Vec<MeasuredChunk>, x: i64, y: i64) -> (r: Option<
    Vec<PositionedChunk>,
>)
    requires
        forall|c: int| 0 <= c < measured@.len() ==> measured_wf((#[trigger] measured@[c])@),
    ensures
        match r {
            Some(p) => chunks_fit(measured_chunk_views(measured@), x as int, y as int)
                && positioned_chunk_views(p@) == positioned_chunks(
                measured_chunk_views(measured@),
                x as int,
                y as int,
            ) && forall|c: int| 0 <= c < p@.len() ==> positioned_wf((#[trigger] p@[c])@),
            None => !chunks_fit(measured_chunk_views(measured@), x as int, y as int),
        },
{
    let ghost all = measured_chunk_views(measured@);
    let mut placed: Vec<PositionedChunk> = Vec::new();
    let mut cx = x;
    let mut cy = y;
    let mut c: usize = 0;
    while c < measured.len()
        invariant
            c <= measured@.len(),
            all == measured_chunk_views(measured@),
            forall|k: int| 0 <= k < measured@.len() ==> measured_wf((#[trigger] measured@[k])@),
            (cx as int, cy as int) == running_position(all, x as int, y as int, c as int),
            placed@.len() == c,
            forall|k: int| 0 <= k < c ==> #[trigger] placed_chunk_fits(all, x as int, y as int, k),
            forall|k: int|
                0 <= k < c ==> (#[trigger] placed@[k])@ == placed_chunk(all, x as int, y as int, k),
            forall|k: int| 0 <= k < c ==> positioned_wf((#[trigger] placed@[k])@),
        decreases measured@.len() - c,
    {
        assert(all[c as int] == measured@[c as int]@);
        match PositionedChunk::following(&measured[c], cx, cy) {
            Some(positioned) => {
                assert(placed_chunk_fits(all, x as int, y as int, c as int));
                assert(positioned@ == placed_chunk(all, x as int, y as int, c as int));
                cx = positioned.next_chunk_x;
                cy = positioned.next_chunk_y;
                placed.push(positioned);
            },
            None => {
                assert(!placed_chunk_fits(all, x as int, y as int, c as int));
                return None;
            },
        }
        c = c + 1;
    }
    assert(positioned_chunk_views(placed@) =~= positioned_chunks(all, x as int, y as int));
    Some(placed)
}

/// What the drawing backend is asked to draw for one span.
pub struct TextSpan {
    /// The handle of the shaped run.
    pub layout: u64,
    /// Whether the span is to be seen.
    pub is_visible: bool,
    /// Where the run is drawn, along x.
    pub x: i64,
    /// Where the run is drawn, along y.
    pub y: i64,
    /// The value of `stroke`, for the backend to resolve.
    pub stroke: String,
    /// The value of `stroke-width`.
    pub stroke_width: String,
    /// The value of `fill`, for the backend to resolve.
    pub fill: String,
    /// The value of `color`, which a paint may refer to.
    pub color: String,
    /// The value of `text-rendering`.
    pub text_rendering: String,
}

/// A `TextSpan` as plain values.
pub struct TextSpanView {
    pub layout: u64,
    pub is_visible: bool,
    pub x: int,
    pub y: int,
    pub stroke: Seq<char>,
    pub stroke_width: Seq<char>,
    pub fill: Seq<char>,
    pub color: Seq<char>,
    pub text_rendering: Seq<char>,
}

impl View for TextSpan {
    type V = TextSpanView;

    open spec fn view(&self) -> TextSpanView {
        TextSpanView {
            layout: self.layout,
            is_visible: self.is_visible,
            x: self.x as int,
            y: self.y as int,
            stroke: self.stroke@,
            stroke_width: self.stroke_width@,
            fill: self.fill@,
            color: self.color@,
            text_rendering: self.text_rendering@,
        }
    }
}

/// What the drawing backend is asked to draw for the placed span `p`.
pub open spec fn draw_request(p: PositionedSpanView) -> TextSpanView {
    TextSpanView {
        layout: p.layout,
        is_visible: p.values[Property::Visibility.spec_index()] == "visible"@,
        x: p.rendered_position.0,
        y: p.rendered_position.1,
        stroke: p.values[Property::Stroke.spec_index()],
        stroke_width: p.values[Property::StrokeWidth.spec_index()],
        fill: p.values[Property::Fill.spec_index()],
        color: p.values[Property::Color.spec_index()],
        text_rendering: p.values[Property::TextRendering.spec_index()],
    }
}

impl PositionedSpan {
    /// What the drawing backend is asked to draw for this span.
    pub fn draw(&self) -> (r: TextSpan)
        requires
            self@.values.len() == PROPERTY_COUNT,
        ensures
            r@ == draw_request(self@),
    {
        TextSpan {
            layout: self.layout,
            is_visible: self.values.is_visible(),
            x: self.rendered_position.0,
            y: self.rendered_position.1,
            stroke: self.values.get(Property::Stroke).to_owned(),
            stroke_width: self.values.get(Property::StrokeWidth).to_owned(),
            fill: self.values.get(Property::Fill).to_owned(),
            color: self.values.get(Property::Color).to_owned(),
            text_rendering: self.values.get(Property::TextRendering).to_owned(),
        }
    }
}

impl PositionedChunk {
    /// The placed spans, in order.
    pub fn spans(&self) -> (r: &Vec<PositionedSpan>)
        ensures
            positioned_span_views(r@) == self@.spans,
    {
        &self.spans
    }

    /// Where a chunk that follows starts, if it does not say.
    pub fn next_position(&self) -> (r: (i64, i64))
        ensures
            r.0 == self@.next_chunk_x,
            r.1 == self@.next_chunk_y,
    {
        (self.next_chunk_x, self.next_chunk_y)
    }
}

/// What is asked to be drawn for the spans of the first `c` chunks, in
/// order.
pub open spec fn draw_requests(chunks: Seq<PositionedChunkView>, c: int) -> Seq<TextSpanView>
    decreases c,
{
    if c <= 0 || c > chunks.len() {
        Seq::<TextSpanView>::empty()
    } else {
        draw_requests(chunks, c - 1) + Seq::new(
            chunks[c - 1].spans.len(),
            |k: int| draw_request(chunks[c - 1].spans[k]),
        )
    }
}

/// The views of the requests of `v`, in order.
pub open spec fn request_views(v: Seq<TextSpan>) -> Seq<TextSpanView> {
    Seq::new(v.len(), |i: int| v[i]@)
}

/// One request for each placed span, in the order of the chunks and of the
/// spans in each chunk.
pub fn text_spans(chunks: &Vec<PositionedChunk>) -> (r: Vec<TextSpan>)
    requires
        forall|c: int| 0 <= c < chunks@.len() ==> positioned_wf((#[trigger] chunks@[c])@),
    ensures
        request_views(r@) == draw_requests(
            positioned_chunk_views(chunks@),
            chunks@.len() as int,
        ),
{
    let ghost all = positioned_chunk_views(chunks@);
    let mut r: Vec<TextSpan> = Vec::new();
    let mut c: usize = 0;
    while c < chunks.len()
        invariant
            c <= chunks@.len(),
            all == positioned_chunk_views(chunks@),
            forall|i: int| 0 <= i < chunks@.len() ==> positioned_wf((#[trigger] chunks@[i])@),
            request_views(r@) == draw_requests(all, c as int),
        decreases chunks@.len() - c,
    {
        let spans = chunks[c].spans();
        assert(all[c as int] == chunks@[c as int]@);
        let ghost done = request_views(r@);
        let ghost these = Seq::new(
            all[c as int].spans.len(),
            |k: int| draw_request(all[c as int].spans[k]),
        );
        let mut k: usize = 0;
        while k < spans.len()
            invariant
                k <= spans@.len(),
                c < chunks@.len(),
                positioned_span_views(spans@) == chunks@[c as int]@.spans,
                all[c as int] == chunks@[c as int]@,
                positioned_wf(chunks@[c as int]@),
                these == Seq::new(
                    all[c as int].spans.len(),
                    |k: int| draw_request(all[c as int].spans[k]),
                ),
                request_views(r@) == done + these.take(k as int),
            decreases spans@.len() - k,
        {
            assert(positioned_span_views(spans@)[k as int] == spans@[k as int]@);
            let ghost before = request_views(r@);
            let request = spans[k].draw();
            let ghost v = request@;
            r.push(request);
            assert(request_views(r@) =~= before.push(v));
            assert(these.take(k as int + 1) =~= these.take(k as int).push(v));
            k = k + 1;
        }
        assert(these.take(spans@.len() as int) =~= these);
        c = c + 1;
    }
    r
}

/// Every span that flattening adds stands in the last chunk, has the values
/// that were given, and is moved by nothing: the number of chunks stays the
/// same, the chunks before the last stay as they are, and the last chunk
/// keeps its spans and gets the new ones behind them.
pub proof fn lemma_flattened_is_flat(
    t: Seq<NodeView>,
    node: int,
    values: Seq<Seq<char>>,
    chunks: Seq<ChunkView>,
    k: int,
)
    requires
        chunks.len() > 0,
        0 <= k,
    ensures
        ({
            let r = flattened(t, node, values, chunks, k);
            &&& r.len() == chunks.len()
            &&& forall|i: int| 0 <= i < chunks.len() - 1 ==> r[i] == chunks[i]
            &&& r.last().values == chunks.last().values
            &&& r.last().x == chunks.last().x
            &&& r.last().y == chunks.last().y
            &&& r.last().spans.len() >= chunks.last().spans.len()
            &&& forall|j: int|
                0 <= j < chunks.last().spans.len() ==> r.last().spans[j] == chunks.last().spans[j]
            &&& forall|j: int|
                chunks.last().spans.len() <= j < r.last().spans.len() ==> (
                #[trigger] r.last().spans[j]).values == values && r.last().spans[j].dx == 0
                    && r.last().spans[j].dy == 0
        }),
    decreases t.len() - node, t[node].children.len() - k,
{
    if 0 <= node < t.len() && k < t[node].children.len() {
        let child = t[node].children[k] as int;
        let after = if node < child < t.len() {
            match t[child].element {
                ElementView::Chars(s) => chars_chunks(
                    chunks,
                    s,
                    spec_space_mode(values, k, t[node].children.len() as int),
                    values,
                    0,
                    0,
                ),
                _ => flattened(t, child, values, chunks, 0),
            }
        } else {
            chunks
        };
        if node < child < t.len() {
            match t[child].element {
                ElementView::Chars(s) => {},
                _ => {
                    lemma_flattened_is_flat(t, child, values, chunks, 0);
                },
            }
        }
        lemma_flattened_is_flat(t, node, values, after, k + 1);
    }
}

/// A `tref` element adds no chunk, and every span that it adds has the
/// values with which the `tref` itself is drawn, whatever the element that it
/// refers to holds and declares.
pub proof fn lemma_tref_spans_have_its_values(
    t: Seq<NodeView>,
    node: int,
    link: Option<Seq<char>>,
    cascaded: CascadedView,
    chunks: Seq<ChunkView>,
)
    requires
        chunks.len() > 0,
    ensures
        ({
            let r = tref_chunks(t, node, link, cascaded, chunks);
            &&& r.len() == chunks.len()
            &&& forall|i: int| 0 <= i < chunks.len() - 1 ==> r[i] == chunks[i]
            &&& r.last().spans.len() >= chunks.last().spans.len()
            &&& forall|j: int|
                0 <= j < chunks.last().spans.len() ==> r.last().spans[j] == chunks.last().spans[j]
            &&& forall|j: int|
                chunks.last().spans.len() <= j < r.last().spans.len() ==> (
                #[trigger] r.last().spans[j]).values == cascaded.values
        }),
{
    match link {
        Some(id) => {
            if displayed(cascaded.values) {
                match reference_target(t, node, id) {
                    Some(target) => {
                        lemma_flattened_is_flat(t, target, cascaded.values, chunks, 0);
                    },
                    None => {},
                }
            }
        },
        None => {},
    }
}

/// Towards where the tops of the glyphs of a run point.
#[derive(Clone, Copy, Debug, PartialEq, Eq, Structural)]
pub enum Gravity {
    /// Glyphs stand upright.
    South,
    /// Glyphs are turned a quarter to the right, for text that runs from top
    /// to bottom.
    East,
}

/// To which side the lines of a run are aligned.
#[derive(Clone, Copy, Debug, PartialEq, Eq, Structural)]
pub enum Alignment {
    Left,
    Right,
}

/// What the shaping backend is told about a run besides its text and its
/// font.
#[derive(Clone, Copy, Debug, PartialEq, Eq, Structural)]
pub struct LayoutSettings {
    pub base_gravity: Gravity,
    pub base_dir: Direction,
    pub alignment: Alignment,
    pub underline: bool,
    pub strike: bool,
    pub small_caps: bool,
}

/// The direction that goes with a writing mode.
pub open spec fn spec_direction_of_mode(m: WritingMode) -> Direction {
    match m {
        WritingMode::LrTb | WritingMode::Lr | WritingMode::Tb | WritingMode::TbRl => Direction::Ltr,
        WritingMode::RlTb | WritingMode::Rl => Direction::Rtl,
    }
}

/// The base direction of a run. `direction` decides where `unicode-bidi`
/// asks for an embedding or an override, and where it is not the usual one;
/// otherwise the writing mode decides.
pub open spec fn spec_base_direction(
    unicode_bidi: UnicodeBidi,
    direction: Direction,
    writing_mode: WritingMode,
) -> Direction {
    if unicode_bidi == UnicodeBidi::Override || unicode_bidi == UnicodeBidi::Embed {
        direction
    } else if direction != Direction::Ltr {
        direction
    } else {
        spec_direction_of_mode(writing_mode)
    }
}

/// Whether `word` is one of the words of `s`.
pub open spec fn has_word(s: Seq<char>, word: Seq<char>) -> bool {
    exists|i: int|
        0 <= i < split_whitespace(s).len() && (#[trigger] split_whitespace(s)[i]) == word
}

/// What the shaping backend is told about a run that is set with `values`.
pub open spec fn spec_layout_settings(values: Seq<Seq<char>>) -> LayoutSettings {
    let writing_mode = writing_mode_of(values[Property::WritingMode.spec_index()]);
    let direction = direction_of(values[Property::Direction.spec_index()]);
    LayoutSettings {
        base_gravity: if writing_mode.spec_is_vertical() {
            Gravity::East
        } else {
            Gravity::South
        },
        base_dir: spec_base_direction(
            unicode_bidi_of(values[Property::UnicodeBidi.spec_index()]),
            direction,
            writing_mode,
        ),
        alignment: match direction {
            Direction::Ltr => Alignment::Left,
            Direction::Rtl => Alignment::Right,
        },
        underline: has_word(values[Property::TextDecoration.spec_index()], "underline"@),
        strike: has_word(values[Property::TextDecoration.spec_index()], "line-through"@),
        small_caps: values[Property::FontVariant.spec_index()] == "small-caps"@,
    }
}

/// The direction that goes with a writing mode.
pub fn direction_of_mode(m: WritingMode) -> (r: Direction)
    ensures
        r == spec_direction_of_mode(m),
{
    match m {
        WritingMode::LrTb | WritingMode::Lr | WritingMode::Tb | WritingMode::TbRl => Direction::Ltr,
        WritingMode::RlTb | WritingMode::Rl => Direction::Rtl,
    }
}

/// The base direction of a run.
pub fn base_direction(unicode_bidi: UnicodeBidi, direction: Direction, writing_mode: WritingMode) -> (r:
    Direction)
    ensures
        r == spec_base_direction(unicode_bidi, direction, writing_mode),
{
    match (unicode_bidi, direction) {
        (UnicodeBidi::Override, _) | (UnicodeBidi::Embed, _) => direction,
        (_, Direction::Rtl) => direction,
        (_, _) => direction_of_mode(writing_mode),
    }
}

/// Whether `word` is one of the words of `s`.
fn contains_word(s: &str, word: &str) -> (r: bool)
    ensures
        r == has_word(s@, word@),
{
    let all = words(s);
    let mut i: usize = 0;
    while i < all.len()
        invariant
            i <= all@.len(),
            texts(all@) == split_whitespace(s@),
            forall|k: int| 0 <= k < i ==> (#[trigger] split_whitespace(s@)[k]) != word@,
        decreases all@.len() - i,
    {
        assert(texts(all@)[i as int] == all@[i as int]@);
        if str_eq(all[i].as_str(), word) {
            return true;
        }
        i = i + 1;
    }
    false
}

/// What the shaping backend is told about a run that is set with `values`.
pub fn layout_settings(values: &ComputedValues) -> (r: LayoutSettings)
    requires
        values.wf(),
    ensures
        r == spec_layout_settings(values@),
{
    let writing_mode = values.writing_mode();
    let direction = values.direction();
    LayoutSettings {
        base_gravity: if writing_mode.is_vertical() {
            Gravity::East
        } else {
            Gravity::South
        },
        base_dir: base_direction(values.unicode_bidi(), direction, writing_mode),
        alignment: match direction {
            Direction::Ltr => Alignment::Left,
            Direction::Rtl => Alignment::Right,
        },
        underline: contains_word(values.get(Property::TextDecoration), "underline"),
        strike: contains_word(values.get(Property::TextDecoration), "line-through"),
        small_caps: str_eq(values.get(Property::FontVariant), "small-caps"),
    }
}

impl Text {
    /// What the drawing backend is asked to draw for this element, given its
    /// chunks with their spans measured: the chunks are placed one after the
    /// other, starting where the element starts, and there is one request for
    /// each span. Nothing if a coordinate cannot be kept.
    pub fn draw(&self, measured: &Vec<MeasuredChunk>) -> (r: Option<Vec<TextSpan>>)
        requires
            forall|c: int| 0 <= c < measured@.len() ==> measured_wf((#[trigger] measured@[c])@),
        ensures
            match r {
                Some(requests) => chunks_fit(
                    measured_chunk_views(measured@),
                    self.x as int,
                    self.y as int,
                ) && request_views(requests@) == draw_requests(
                    positioned_chunks(measured_chunk_views(measured@), self.x as int, self.y as int),
                    measured@.len() as int,
                ),
                None => !chunks_fit(measured_chunk_views(measured@), self.x as int, self.y as int),
            },
    {
        match position_chunks(measured, self.x, self.y) {
            Some(positioned) => {
                Some(text_spans(&positioned))
            },
            None => None,
        }
    }
}

} // verus!
