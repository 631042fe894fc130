//! The document tree: its nodes, how the attributes and style rules of an
//! element are taken in, and how the cascade computes the values of the
//! style properties top-down.
//!
//! The nodes of a tree stand in one arena and are named by their place in
//! it. A node is added behind those that are there, so that the place of a
//! parent is always lower than the places of its children.

use vstd::prelude::*;
use locale_config::Locale;
use crate::attributes::{Attribute, PropertyBag};
use crate::cond::{
    all_words_listed, checks_of, language_tokens, locale_error, locale_language_tags,
    system_language_outcome, RequiredExtensions, RequiredFeatures, SystemLanguage,
    IMPLEMENTED_EXTENSIONS, IMPLEMENTED_FEATURES,
};
use crate::css::{
    applied, declared_all, declaration_texts, error_text, inline_styled, presented, CssRules,
    RuleText, Style,
};
use crate::error::{
    node_result_text, NodeError, NodeErrorText, NodeResult, ReferenceError, ValueErrorKind,
    ValueErrorText,
};
use crate::properties::{
    initial_values, merged, ComputedValues, ImportantStyles, Property, SpecifiedValue,
    SpecifiedValueText, SpecifiedValues, PROPERTY_COUNT,
};
use crate::strings::{split_whitespace, texts, words};
use crate::text::{link_of, Chars, TRef, TSpan, Text};

verus! {

/// The place of a node in the arena of its tree.
pub type NodeId = usize;

/// The kind of a node of the document tree.
#[derive(Debug, Copy, Clone, Eq, PartialEq, Structural)]
pub enum NodeType {
    Chars,
    Circle,
    ClipPath,
    ComponentTransferFunctionA,
    ComponentTransferFunctionB,
    ComponentTransferFunctionG,
    ComponentTransferFunctionR,
    Defs,
    DistantLight,
    Ellipse,
    Filter,
    Group,
    Image,
    Line,
    LinearGradient,
    Link,
    Marker,
    Mask,
    Path,
    Pattern,
    PointLight,
    Polygon,
    Polyline,
    RadialGradient,
    Rect,
    SpotLight,
    Stop,
    Style,
    Svg,
    Switch,
    Symbol,
    Text,
    TRef,
    TSpan,
    Use,
    // Filter primitives
    FilterPrimitiveBlend,
    FilterPrimitiveColorMatrix,
    FilterPrimitiveComponentTransfer,
    FilterPrimitiveComposite,
    FilterPrimitiveConvolveMatrix,
    FilterPrimitiveDiffuseLighting,
    FilterPrimitiveDisplacementMap,
    FilterPrimitiveFlood,
    FilterPrimitiveGaussianBlur,
    FilterPrimitiveImage,
    FilterPrimitiveMerge,
    FilterPrimitiveMergeNode,
    FilterPrimitiveMorphology,
    FilterPrimitiveOffset,
    FilterPrimitiveSpecularLighting,
    FilterPrimitiveTile,
    FilterPrimitiveTurbulence,
}

impl NodeType {
    /// The name under which an element of this kind stands in a document;
    /// character data has none, and gets one that no element has.
    pub open spec fn spec_element_name(self) -> Seq<char> {
        match self {
            NodeType::Chars => "rsvg-chars"@,
            NodeType::Circle => "circle"@,
            NodeType::ClipPath => "clipPath"@,
            NodeType::ComponentTransferFunctionA => "feFuncA"@,
            NodeType::ComponentTransferFunctionB => "feFuncB"@,
            NodeType::ComponentTransferFunctionG => "feFuncG"@,
            NodeType::ComponentTransferFunctionR => "feFuncR"@,
            NodeType::Defs => "defs"@,
            NodeType::DistantLight => "feDistantLight"@,
            NodeType::Ellipse => "ellipse"@,
            NodeType::Filter => "filter"@,
            NodeType::Group => "g"@,
            NodeType::Image => "image"@,
            NodeType::Line => "line"@,
            NodeType::LinearGradient => "linearGradient"@,
            NodeType::Link => "a"@,
            NodeType::Marker => "marker"@,
            NodeType::Mask => "mask"@,
            NodeType::Path => "path"@,
            NodeType::Pattern => "pattern"@,
            NodeType::PointLight => "fePointight"@,
            NodeType::Polygon => "polygon"@,
            NodeType::Polyline => "polyline"@,
            NodeType::RadialGradient => "radialGradient"@,
            NodeType::Rect => "rect"@,
            NodeType::SpotLight => "feSpotLight"@,
            NodeType::Stop => "stop"@,
            NodeType::Style => "style"@,
            NodeType::Svg => "svg"@,
            NodeType::Switch => "switch"@,
            NodeType::Symbol => "symbol"@,
            NodeType::Text => "text"@,
            NodeType::TRef => "tref"@,
            NodeType::TSpan => "tspan"@,
            NodeType::Use => "use"@,
            NodeType::FilterPrimitiveBlend => "feBlend"@,
            NodeType::FilterPrimitiveColorMatrix => "feColorMatrix"@,
            NodeType::FilterPrimitiveComponentTransfer => "feComponentTransfer"@,
            NodeType::FilterPrimitiveComposite => "feComposite"@,
            NodeType::FilterPrimitiveConvolveMatrix => "feConvolveMatrix"@,
            NodeType::FilterPrimitiveDiffuseLighting => "feDiffuseLighting"@,
            NodeType::FilterPrimitiveDisplacementMap => "feDisplacementMap"@,
            NodeType::FilterPrimitiveFlood => "feFlood"@,
            NodeType::FilterPrimitiveGaussianBlur => "feGaussianBlur"@,
            NodeType::FilterPrimitiveImage => "feImage"@,
            NodeType::FilterPrimitiveMerge => "feMerge"@,
            NodeType::FilterPrimitiveMergeNode => "feMergeNode"@,
            NodeType::FilterPrimitiveMorphology => "feMorphology"@,
            NodeType::FilterPrimitiveOffset => "feOffset"@,
            NodeType::FilterPrimitiveSpecularLighting => "feSpecularLighting"@,
            NodeType::FilterPrimitiveTile => "feTile"@,
            NodeType::FilterPrimitiveTurbulence => "feTurbulence"@,
        }
    }

    /// The name of the kind itself.
    pub open spec fn spec_kind_name(self) -> Seq<char> {
        match self {
            NodeType::Chars => "Chars"@,
            NodeType::Circle => "Circle"@,
            NodeType::ClipPath => "ClipPath"@,
            NodeType::ComponentTransferFunctionA => "ComponentTransferFunctionA"@,
            NodeType::ComponentTransferFunctionB => "ComponentTransferFunctionB"@,
            NodeType::ComponentTransferFunctionG => "ComponentTransferFunctionG"@,
            NodeType::ComponentTransferFunctionR => "ComponentTransferFunctionR"@,
            NodeType::Defs => "Defs"@,
            NodeType::DistantLight => "DistantLight"@,
            NodeType::Ellipse => "Ellipse"@,
            NodeType::Filter => "Filter"@,
            NodeType::Group => "Group"@,
            NodeType::Image => "Image"@,
            NodeType::Line => "Line"@,
            NodeType::LinearGradient => "LinearGradient"@,
            NodeType::Link => "Link"@,
            NodeType::Marker => "Marker"@,
            NodeType::Mask => "Mask"@,
            NodeType::Path => "Path"@,
            NodeType::Pattern => "Pattern"@,
            NodeType::PointLight => "PointLight"@,
            NodeType::Polygon => "Polygon"@,
            NodeType::Polyline => "Polyline"@,
            NodeType::RadialGradient => "RadialGradient"@,
            NodeType::Rect => "Rect"@,
            NodeType::SpotLight => "SpotLight"@,
            NodeType::Stop => "Stop"@,
            NodeType::Style => "Style"@,
            NodeType::Svg => "Svg"@,
            NodeType::Switch => "Switch"@,
            NodeType::Symbol => "Symbol"@,
            NodeType::Text => "Text"@,
            NodeType::TRef => "TRef"@,
            NodeType::TSpan => "TSpan"@,
            NodeType::Use => "Use"@,
            NodeType::FilterPrimitiveBlend => "FilterPrimitiveBlend"@,
            NodeType::FilterPrimitiveColorMatrix => "FilterPrimitiveColorMatrix"@,
            NodeType::FilterPrimitiveComponentTransfer => "FilterPrimitiveComponentTransfer"@,
            NodeType::FilterPrimitiveComposite => "FilterPrimitiveComposite"@,
            NodeType::FilterPrimitiveConvolveMatrix => "FilterPrimitiveConvolveMatrix"@,
            NodeType::FilterPrimitiveDiffuseLighting => "FilterPrimitiveDiffuseLighting"@,
            NodeType::FilterPrimitiveDisplacementMap => "FilterPrimitiveDisplacementMap"@,
            NodeType::FilterPrimitiveFlood => "FilterPrimitiveFlood"@,
            NodeType::FilterPrimitiveGaussianBlur => "FilterPrimitiveGaussianBlur"@,
            NodeType::FilterPrimitiveImage => "FilterPrimitiveImage"@,
            NodeType::FilterPrimitiveMerge => "FilterPrimitiveMerge"@,
            NodeType::FilterPrimitiveMergeNode => "FilterPrimitiveMergeNode"@,
            NodeType::FilterPrimitiveMorphology => "FilterPrimitiveMorphology"@,
            NodeType::FilterPrimitiveOffset => "FilterPrimitiveOffset"@,
            NodeType::FilterPrimitiveSpecularLighting => "FilterPrimitiveSpecularLighting"@,
            NodeType::FilterPrimitiveTile => "FilterPrimitiveTile"@,
            NodeType::FilterPrimitiveTurbulence => "FilterPrimitiveTurbulence"@,
        }
    }

    /// The name under which an element of this kind stands in a document.
    pub fn element_name(&self) -> (r: &'static str)
        ensures
            r@ == self.spec_element_name(),
    {
        match self {
            NodeType::Chars => "rsvg-chars",
            NodeType::Circle => "circle",
            NodeType::ClipPath => "clipPath",
            NodeType::ComponentTransferFunctionA => "feFuncA",
            NodeType::ComponentTransferFunctionB => "feFuncB",
            NodeType::ComponentTransferFunctionG => "feFuncG",
            NodeType::ComponentTransferFunctionR => "feFuncR",
            NodeType::Defs => "defs",
            NodeType::DistantLight => "feDistantLight",
            NodeType::Ellipse => "ellipse",
            NodeType::Filter => "filter",
            NodeType::Group => "g",
            NodeType::Image => "image",
            NodeType::Line => "line",
            NodeType::LinearGradient => "linearGradient",
            NodeType::Link => "a",
            NodeType::Marker => "marker",
            NodeType::Mask => "mask",
            NodeType::Path => "path",
            NodeType::Pattern => "pattern",
            NodeType::PointLight => "fePointight",
            NodeType::Polygon => "polygon",
            NodeType::Polyline => "polyline",
            NodeType::RadialGradient => "radialGradient",
            NodeType::Rect => "rect",
            NodeType::SpotLight => "feSpotLight",
            NodeType::Stop => "stop",
            NodeType::Style => "style",
            NodeType::Svg => "svg",
            NodeType::Switch => "switch",
            NodeType::Symbol => "symbol",
            NodeType::Text => "text",
            NodeType::TRef => "tref",
            NodeType::TSpan => "tspan",
            NodeType::Use => "use",
            NodeType::FilterPrimitiveBlend => "feBlend",
            NodeType::FilterPrimitiveColorMatrix => "feColorMatrix",
            NodeType::FilterPrimitiveComponentTransfer => "feComponentTransfer",
            NodeType::FilterPrimitiveComposite => "feComposite",
            NodeType::FilterPrimitiveConvolveMatrix => "feConvolveMatrix",
            NodeType::FilterPrimitiveDiffuseLighting => "feDiffuseLighting",
            NodeType::FilterPrimitiveDisplacementMap => "feDisplacementMap",
            NodeType::FilterPrimitiveFlood => "feFlood",
            NodeType::FilterPrimitiveGaussianBlur => "feGaussianBlur",
            NodeType::FilterPrimitiveImage => "feImage",
            NodeType::FilterPrimitiveMerge => "feMerge",
            NodeType::FilterPrimitiveMergeNode => "feMergeNode",
            NodeType::FilterPrimitiveMorphology => "feMorphology",
            NodeType::FilterPrimitiveOffset => "feOffset",
            NodeType::FilterPrimitiveSpecularLighting => "feSpecularLighting",
            NodeType::FilterPrimitiveTile => "feTile",
            NodeType::FilterPrimitiveTurbulence => "feTurbulence",
        }
    }

    /// The name of the kind itself.
    pub fn kind_name(&self) -> (r: &'static str)
        ensures
            r@ == self.spec_kind_name(),
    {
        match self {
            NodeType::Chars => "Chars",
            NodeType::Circle => "Circle",
            NodeType::ClipPath => "ClipPath",
            NodeType::ComponentTransferFunctionA => "ComponentTransferFunctionA",
            NodeType::ComponentTransferFunctionB => "ComponentTransferFunctionB",
            NodeType::ComponentTransferFunctionG => "ComponentTransferFunctionG",
            NodeType::ComponentTransferFunctionR => "ComponentTransferFunctionR",
            NodeType::Defs => "Defs",
            NodeType::DistantLight => "DistantLight",
            NodeType::Ellipse => "Ellipse",
            NodeType::Filter => "Filter",
            NodeType::Group => "Group",
            NodeType::Image => "Image",
            NodeType::Line => "Line",
            NodeType::LinearGradient => "LinearGradient",
            NodeType::Link => "Link",
            NodeType::Marker => "Marker",
            NodeType::Mask => "Mask",
            NodeType::Path => "Path",
            NodeType::Pattern => "Pattern",
            NodeType::PointLight => "PointLight",
            NodeType::Polygon => "Polygon",
            NodeType::Polyline => "Polyline",
            NodeType::RadialGradient => "RadialGradient",
            NodeType::Rect => "Rect",
            NodeType::SpotLight => "SpotLight",
            NodeType::Stop => "Stop",
            NodeType::Style => "Style",
            NodeType::Svg => "Svg",
            NodeType::Switch => "Switch",
            NodeType::Symbol => "Symbol",
            NodeType::Text => "Text",
            NodeType::TRef => "TRef",
            NodeType::TSpan => "TSpan",
            NodeType::Use => "Use",
            NodeType::FilterPrimitiveBlend => "FilterPrimitiveBlend",
            NodeType::FilterPrimitiveColorMatrix => "FilterPrimitiveColorMatrix",
            NodeType::FilterPrimitiveComponentTransfer => "FilterPrimitiveComponentTransfer",
            NodeType::FilterPrimitiveComposite => "FilterPrimitiveComposite",
            NodeType::FilterPrimitiveConvolveMatrix => "FilterPrimitiveConvolveMatrix",
            NodeType::FilterPrimitiveDiffuseLighting => "FilterPrimitiveDiffuseLighting",
            NodeType::FilterPrimitiveDisplacementMap => "FilterPrimitiveDisplacementMap",
            NodeType::FilterPrimitiveFlood => "FilterPrimitiveFlood",
            NodeType::FilterPrimitiveGaussianBlur => "FilterPrimitiveGaussianBlur",
            NodeType::FilterPrimitiveImage => "FilterPrimitiveImage",
            NodeType::FilterPrimitiveMerge => "FilterPrimitiveMerge",
            NodeType::FilterPrimitiveMergeNode => "FilterPrimitiveMergeNode",
            NodeType::FilterPrimitiveMorphology => "FilterPrimitiveMorphology",
            NodeType::FilterPrimitiveOffset => "FilterPrimitiveOffset",
            NodeType::FilterPrimitiveSpecularLighting => "FilterPrimitiveSpecularLighting",
            NodeType::FilterPrimitiveTile => "FilterPrimitiveTile",
            NodeType::FilterPrimitiveTurbulence => "FilterPrimitiveTurbulence",
        }
    }
}
/// The six coefficients of an affine transform. Each is kept as the bit
/// pattern of a double precision number, which is how the drawing backend
/// takes them; the tree only carries them.
#[derive(Clone, Copy, Debug, PartialEq, Eq, Structural)]
pub struct Matrix {
    pub xx: u64,
    pub yx: u64,
    pub xy: u64,
    pub yy: u64,
    pub x0: u64,
    pub y0: u64,
}

/// The bit pattern of the number one.
pub const ONE_BITS: u64 = 0x3FF0_0000_0000_0000;

impl Matrix {
    /// The transform that leaves every point where it is.
    pub open spec fn spec_identity() -> Matrix {
        Matrix { xx: ONE_BITS, yx: 0, xy: 0, yy: ONE_BITS, x0: 0, y0: 0 }
    }

    /// The transform that leaves every point where it is.
    pub fn identity() -> (r: Matrix)
        ensures
            r == Matrix::spec_identity(),
    {
        Matrix { xx: ONE_BITS, yx: 0, xy: 0, yy: ONE_BITS, x0: 0, y0: 0 }
    }
}

/// What a node holds besides what every node holds, by its kind.
pub enum Element {
    Chars(Chars),
    Text(Text),
    TRef(TRef),
    TSpan(TSpan),
    /// An element of a kind whose own attributes are read outside the tree,
    /// with what reading them gave. It is looked at only if the steps before
    /// it went well.
    Other(NodeResult),
}

/// An `Element` with its texts as sequences of characters.
pub enum ElementView {
    Chars(Seq<char>),
    Text(Text),
    TRef(Option<Seq<char>>),
    TSpan(TSpan),
    Other(Result<(), NodeErrorText>),
}

impl View for Element {
    type V = ElementView;

    open spec fn view(&self) -> ElementView {
        match *self {
            Element::Chars(c) => ElementView::Chars(c@),
            Element::Text(t) => ElementView::Text(t),
            Element::TRef(t) => ElementView::TRef(t@),
            Element::TSpan(t) => ElementView::TSpan(t),
            Element::Other(r) => ElementView::Other(node_result_text(r)),
        }
    }
}

/// An element after it has read its own attributes from `bag`, and the
/// error that it met.
pub open spec fn element_atts_set(e: ElementView, bag: Seq<(Attribute, Seq<char>)>) -> (
    ElementView,
    Option<NodeErrorText>,
) {
    match e {
        ElementView::Chars(_) => (e, None),
        ElementView::Text(t) => (
            ElementView::Text(t.attributes_set_from(bag, 0).0),
            t.attributes_set_from(bag, 0).1,
        ),
        ElementView::TRef(_) => (ElementView::TRef(link_of(bag)), None),
        ElementView::TSpan(t) => (
            ElementView::TSpan(t.attributes_set_from(bag, 0).0),
            t.attributes_set_from(bag, 0).1,
        ),
        ElementView::Other(r) => (
            e,
            match r {
                Ok(_) => None,
                Err(err) => Some(err),
            },
        ),
    }
}

impl Element {
    /// Reads the attributes that are the element's own.
    pub fn set_atts(&mut self, pbag: &PropertyBag) -> (r: NodeResult)
        ensures
            final(self)@ == element_atts_set(old(self)@, pbag@).0,
            error_text(r) == element_atts_set(old(self)@, pbag@).1,
    {
        match self {
            Element::Chars(_) => Ok(()),
            Element::Text(t) => t.set_attributes(pbag),
            Element::TRef(t) => t.set_attributes(pbag),
            Element::TSpan(t) => t.set_attributes(pbag),
            Element::Other(r) => match r {
                Ok(_) => Ok(()),
                Err(e) => Err(e.duplicate()),
            },
        }
    }
}

/// What a node holds, whatever its kind.
pub struct NodeData {
    node_type: NodeType,
    id: Option<String>,
    class: Option<String>,
    specified_values: SpecifiedValues,
    important_styles: ImportantStyles,
    result: NodeResult,
    transform: Matrix,
    values: ComputedValues,
    cond: bool,
    node_impl: Element,
    style_attr: String,
}

/// A node of the document tree.
pub struct Node {
    parent: Option<NodeId>,
    children: Vec<NodeId>,
    data: NodeData,
}

/// A node, with its texts as sequences of characters.
pub struct NodeView {
    /// The kind of the node.
    pub node_type: NodeType,
    /// The value of the attribute `id`.
    pub id: Option<Seq<char>>,
    /// The value of the attribute `class`.
    pub class: Option<Seq<char>>,
    /// What the element declares for each property.
    pub specified: Seq<SpecifiedValueText>,
    /// The properties that a declaration marked `!important` has claimed.
    pub important: Seq<bool>,
    /// Whether the element is in error, and why.
    pub result: Result<(), NodeErrorText>,
    /// The transform of the element.
    pub transform: Matrix,
    /// The values of the properties that the last cascade computed.
    pub values: Seq<Seq<char>>,
    /// Whether conditional processing lets the element be rendered.
    pub cond: bool,
    /// What the node holds by its kind.
    pub element: ElementView,
    /// The text of the `style` attribute, until it has been applied.
    pub style_attr: Seq<char>,
    /// The parent of the node.
    pub parent: Option<NodeId>,
    /// The children of the node, in order.
    pub children: Seq<NodeId>,
}

/// The views of an optional string and of an optional text agree.
pub open spec fn optional_text(o: Option<String>) -> Option<Seq<char>> {
    match o {
        Some(s) => Some(s@),
        None => None,
    }
}

impl View for Node {
    type V = NodeView;

    closed spec fn view(&self) -> NodeView {
        NodeView {
            node_type: self.data.node_type,
            id: optional_text(self.data.id),
            class: optional_text(self.data.class),
            specified: self.data.specified_values@,
            important: self.data.important_styles@,
            result: node_result_text(self.data.result),
            transform: self.data.transform,
            values: self.data.values@,
            cond: self.data.cond,
            element: self.data.node_impl@,
            style_attr: self.data.style_attr@,
            parent: self.parent,
            children: self.children@,
        }
    }
}

/// The node that is made for an element of kind `node_type`: nothing is
/// declared, no property is claimed, the values are the initial ones, the
/// transform is the identity, and the node is in order and can be rendered.
pub open spec fn new_node(
    node_type: NodeType,
    parent: Option<NodeId>,
    id: Option<Seq<char>>,
    class: Option<Seq<char>>,
    element: ElementView,
) -> NodeView {
    NodeView {
        node_type,
        id,
        class,
        specified: Seq::new(PROPERTY_COUNT as nat, |i: int| SpecifiedValueText::Unspecified),
        important: Seq::new(PROPERTY_COUNT as nat, |i: int| false),
        result: Ok(()),
        transform: Matrix::spec_identity(),
        values: initial_values(),
        cond: true,
        element,
        style_attr: Seq::<char>::empty(),
        parent,
        children: Seq::<NodeId>::empty(),
    }
}

/// The tables of a node have one entry for each property.
pub open spec fn tables_wf(n: NodeView) -> bool {
    &&& n.specified.len() == PROPERTY_COUNT
    &&& n.important.len() == PROPERTY_COUNT
    &&& n.values.len() == PROPERTY_COUNT
}

/// The node at place `i` of `t` stands behind its parent and before its
/// children, which know it as their parent and stand in the order of their
/// places.
pub open spec fn links_wf(t: Seq<NodeView>, i: int) -> bool {
    &&& t[i].parent matches Some(p) ==> p < i && t[p as int].children.contains(i as usize)
    &&& forall|k: int|
        0 <= k < t[i].children.len() ==> i < (#[trigger] t[i].children[k]) < t.len()
            && t[t[i].children[k] as int].parent == Some(i as usize)
    &&& forall|j: int, k: int|
        0 <= j < k < t[i].children.len() ==> t[i].children[j] < t[i].children[k]
}

/// The nodes of `t` make up a forest.
pub open spec fn tree_wf(t: Seq<NodeView>) -> bool {
    forall|i: int| 0 <= i < t.len() ==> tables_wf(#[trigger] t[i]) && links_wf(t, i)
}

/// `t` with the node `n` added behind its nodes, and made the last child of
/// its parent.
pub open spec fn node_added(t: Seq<NodeView>, n: NodeView) -> Seq<NodeView> {
    match n.parent {
        Some(p) => t.update(
            p as int,
            NodeView { children: t[p as int].children.push(t.len() as usize), ..t[p as int] },
        ).push(n),
        None => t.push(n),
    }
}

/// A document tree.
pub struct Tree {
    nodes: Vec<Node>,
}

impl View for Tree {
    type V = Seq<NodeView>;

    /// The nodes, each at its place.
    closed spec fn view(&self) -> Seq<NodeView> {
        Seq::new(self.nodes@.len(), |i: int| self.nodes@[i]@)
    }
}

impl Tree {
    /// The nodes make up a forest.
    pub open spec fn wf(&self) -> bool {
        tree_wf(self@)
    }

    /// A tree without nodes.
    pub fn new() -> (r: Tree)
        ensures
            r.wf(),
            r@.len() == 0,
    {
        Tree { nodes: Vec::new() }
    }

    /// The number of nodes.
    pub fn len(&self) -> (r: usize)
        ensures
            r == self@.len(),
    {
        self.nodes.len()
    }

    /// The node at place `id`.
    pub fn node(&self, id: NodeId) -> (r: &Node)
        requires
            id < self@.len(),
        ensures
            r@ == self@[id as int],
    {
        &self.nodes[id]
    }
}

/// A copy of an optional text.
fn owned_text(o: Option<&str>) -> (r: Option<String>)
    ensures
        match o {
            Some(s) => r matches Some(t) && t@ == s@,
            None => r is None,
        },
{
    match o {
        Some(s) => Some(s.to_owned()),
        None => None,
    }
}

/// The view of an optional borrowed text.
pub open spec fn borrowed_text(o: Option<&str>) -> Option<Seq<char>> {
    match o {
        Some(s) => Some(s@),
        None => None,
    }
}

impl Node {
    /// Makes a node that is not yet part of a tree.
    pub fn new(
        node_type: NodeType,
        parent: Option<NodeId>,
        id: Option<&str>,
        class: Option<&str>,
        node_impl: Element,
    ) -> (r: Node)
        ensures
            r@ == new_node(node_type, parent, borrowed_text(id), borrowed_text(class), node_impl@),
    {
        let specified_values = SpecifiedValues::default();
        let important_styles = ImportantStyles::new();
        let values = ComputedValues::default();
        let data = NodeData {
            node_type,
            id: owned_text(id),
            class: owned_text(class),
            specified_values,
            important_styles,
            result: Ok(()),
            transform: Matrix::identity(),
            values,
            cond: true,
            node_impl,
            style_attr: String::new(),
        };
        let r = Node { parent, children: Vec::new(), data };
        proof {
            let n = new_node(
                node_type,
                parent,
                borrowed_text(id),
                borrowed_text(class),
                node_impl@,
            );
            assert(r@.specified =~= n.specified);
            assert(r@.important =~= n.important);
            assert(r@.children =~= n.children);
        }
        r
    }

    /// The kind of the node.
    pub fn get_type(&self) -> (r: NodeType)
        ensures
            r == self@.node_type,
    {
        self.data.node_type
    }

    /// The value of the attribute `id`.
    pub fn get_id(&self) -> (r: Option<&str>)
        ensures
            borrowed_text(r) == self@.id,
    {
        match &self.data.id {
            Some(s) => Some(s.as_str()),
            None => None,
        }
    }

    /// The value of the attribute `class`.
    pub fn get_class(&self) -> (r: Option<&str>)
        ensures
            borrowed_text(r) == self@.class,
    {
        match &self.data.class {
            Some(s) => Some(s.as_str()),
            None => None,
        }
    }

    /// The transform of the element.
    pub fn get_transform(&self) -> (r: Matrix)
        ensures
            r == self@.transform,
    {
        self.data.transform
    }

    /// Whether conditional processing lets the element be rendered.
    pub fn get_cond(&self) -> (r: bool)
        ensures
            r == self@.cond,
    {
        self.data.cond
    }

    /// Whether the element is in error.
    pub fn is_in_error(&self) -> (r: bool)
        ensures
            r == self@.result is Err,
    {
        self.data.result.is_err()
    }

    /// What the node holds by its kind.
    pub fn get_impl(&self) -> (r: &Element)
        ensures
            r@ == self@.element,
    {
        &self.data.node_impl
    }

    /// The parent of the node.
    pub fn parent(&self) -> (r: Option<NodeId>)
        ensures
            r == self@.parent,
    {
        self.parent
    }

    /// The children of the node, in order.
    pub fn children(&self) -> (r: &Vec<NodeId>)
        ensures
            r@ == self@.children,
    {
        &self.children
    }

    /// What the element declares for each property.
    pub fn specified_values(&self) -> (r: &SpecifiedValues)
        ensures
            r@ == self@.specified,
    {
        &self.data.specified_values
    }

    /// The values of the properties that the last cascade computed.
    pub fn values(&self) -> (r: &ComputedValues)
        ensures
            r@ == self@.values,
    {
        &self.data.values
    }

    /// Whether what overflows the element is to be seen.
    pub fn is_overflow(&self) -> (r: bool)
        requires
            tables_wf(self@),
        ensures
            r == (self@.specified[Property::Overflow.spec_index()] matches SpecifiedValueText::Specified(
                v,
            ) && (v == "auto"@ || v == "visible"@)),
    {
        self.data.specified_values.is_overflow()
    }
}

/// Makes a node and adds it to `tree`, as the last child of `parent` if it
/// has one. The place of the node is handed back.
pub fn node_new(
    tree: &mut Tree,
    node_type: NodeType,
    parent: Option<NodeId>,
    id: Option<&str>,
    class: Option<&str>,
    node_impl: Element,
) -> (r: NodeId)
    requires
        old(tree).wf(),
        parent matches Some(p) ==> p < old(tree)@.len(),
    ensures
        final(tree).wf(),
        r == old(tree)@.len(),
        final(tree)@ == node_added(
            old(tree)@,
            new_node(node_type, parent, borrowed_text(id), borrowed_text(class), node_impl@),
        ),
{
    let ghost n = new_node(node_type, parent, borrowed_text(id), borrowed_text(class), node_impl@);
    let place = tree.nodes.len();
    let node = Node::new(node_type, parent, id, class, node_impl);
    match parent {
        Some(p) => {
            tree.nodes[p].children.push(place);
        },
        None => {},
    }
    tree.nodes.push(node);
    proof {
        let t0 = old(tree)@;
        let t1 = tree@;
        assert(t1 =~= node_added(t0, n));
        assert forall|i: int| 0 <= i < t1.len() implies tables_wf(#[trigger] t1[i]) && links_wf(
            t1,
            i,
        ) by {
            if i < t0.len() {
                assert(tables_wf(t0[i]) && links_wf(t0, i));
                if parent == Some(i as usize) {
                    assert forall|k: int| 0 <= k < t1[i].children.len() implies i < (
                    #[trigger] t1[i].children[k]) < t1.len() && t1[t1[i].children[k] as int].parent
                        == Some(i as usize) by {
                        if k < t0[i].children.len() {
                            assert(t1[i].children[k] == t0[i].children[k]);
                        }
                    }
                    assert forall|j: int, k: int|
                        0 <= j < k < t1[i].children.len() implies t1[i].children[j]
                        < t1[i].children[k] by {
                        assert(t1[i].children[j] == t0[i].children[j]);
                        if k < t0[i].children.len() {
                            assert(t1[i].children[k] == t0[i].children[k]);
                        }
                    }
                } else {
                    assert(t1[i].children == t0[i].children);
                }
                match t0[i].parent {
                    Some(q) => {
                        let w = choose|w: int|
                            0 <= w < t0[q as int].children.len() && t0[q as int].children[w]
                                == i as usize;
                        assert(t1[q as int].children[w] == i as usize);
                    },
                    None => {},
                }
            } else {
                match parent {
                    Some(p) => {
                        assert(t1[p as int].children[t0[p as int].children.len() as int]
                            == place);
                    },
                    None => {},
                }
            }
        }
    }
    place
}

/// Putting another node with the same links and with full tables in the
/// place of a node leaves a forest a forest.
pub proof fn lemma_update_keeps_forest(t: Seq<NodeView>, i: int, n: NodeView)
    requires
        tree_wf(t),
        0 <= i < t.len(),
        tables_wf(n),
        n.parent == t[i].parent,
        n.children == t[i].children,
    ensures
        tree_wf(t.update(i, n)),
{
    let u = t.update(i, n);
    assert forall|k: int| 0 <= k < u.len() implies tables_wf(#[trigger] u[k]) && links_wf(u, k) by {
        assert(tables_wf(t[k]) && links_wf(t, k));
        assert(u[k].parent == t[k].parent);
        assert(u[k].children == t[k].children);
        match t[k].parent {
            Some(p) => {
                assert(u[p as int].children == t[p as int].children);
            },
            None => {},
        }
        assert forall|j: int| 0 <= j < u[k].children.len() implies k < (
        #[trigger] u[k].children[j]) < u.len() && u[u[k].children[j] as int].parent == Some(
            k as usize,
        ) by {
            let c = t[k].children[j];
            assert(u[c as int].parent == t[c as int].parent);
        }
    }
}

/// The text of the `style` attributes among the first `n` attributes of
/// `bag`, one behind the other.
pub open spec fn style_text(bag: Seq<(Attribute, Seq<char>)>, n: int) -> Seq<char>
    decreases n,
{
    if n <= 0 || n > bag.len() {
        Seq::<char>::empty()
    } else if bag[n - 1].0 == Attribute::Style {
        style_text(bag, n - 1) + bag[n - 1].1
    } else {
        style_text(bag, n - 1)
    }
}

/// The place of the last `transform` attribute among the first `n`
/// attributes of `bag`.
pub open spec fn last_transform(bag: Seq<(Attribute, Seq<char>)>, n: int) -> Option<int>
    decreases n,
{
    if n <= 0 || n > bag.len() {
        None
    } else if bag[n - 1].0 == Attribute::Transform {
        Some(n - 1)
    } else {
        last_transform(bag, n - 1)
    }
}

/// What evaluating one conditional processing attribute gave.
pub struct ConditionOutcome {
    /// The attribute.
    pub attr: Attribute,
    /// Its verdict, or the error in its value.
    pub verdict: Result<bool, ValueErrorKind>,
}

/// A `ConditionOutcome` with its messages as sequences of characters.
pub struct ConditionOutcomeText {
    pub attr: Attribute,
    pub verdict: Result<bool, ValueErrorText>,
}

impl View for ConditionOutcome {
    type V = ConditionOutcomeText;

    open spec fn view(&self) -> ConditionOutcomeText {
        ConditionOutcomeText {
            attr: self.attr,
            verdict: match self.verdict {
                Ok(b) => Ok(b),
                Err(e) => Err(e@),
            },
        }
    }
}

/// The views of the outcomes of `v`, in order.
pub open spec fn outcome_texts(v: Seq<ConditionOutcome>) -> Seq<ConditionOutcomeText> {
    Seq::new(v.len(), |i: int| v[i]@)
}

/// The verdict of conditional processing after the outcomes from place `i`
/// on, and the first error among them. Outcomes are looked at as long as the
/// verdict is true: once it is false it stays false, and what follows is not
/// looked at, be it an error.
pub open spec fn conditions_folded(cond: bool, outcomes: Seq<ConditionOutcomeText>, i: int) -> (
    bool,
    Option<NodeErrorText>,
)
    decreases outcomes.len() - i,
{
    if 0 <= i < outcomes.len() && cond {
        match outcomes[i].verdict {
            Ok(b) => conditions_folded(b, outcomes, i + 1),
            Err(err) => (cond, Some(NodeErrorText { attr: outcomes[i].attr, err })),
        }
    } else {
        (cond, None)
    }
}

/// Once the verdict of conditional processing is false, without an error,
/// no attribute that follows changes it or brings an error.
pub proof fn lemma_false_verdict_is_final(
    cond: bool,
    outcomes: Seq<ConditionOutcomeText>,
    later: Seq<ConditionOutcomeText>,
    i: int,
)
    requires
        0 <= i <= outcomes.len(),
        conditions_folded(cond, outcomes, i) == (false, None::<NodeErrorText>),
    ensures
        conditions_folded(cond, outcomes + later, i) == (false, None::<NodeErrorText>),
    decreases outcomes.len() - i,
{
    let all = outcomes + later;
    if i < outcomes.len() && cond {
        assert(all[i] == outcomes[i]);
        match outcomes[i].verdict {
            Ok(b) => {
                lemma_false_verdict_is_final(b, outcomes, later, i + 1);
            },
            Err(_) => {},
        }
    } else if cond {
        assert(false);
    } else {
    }
}

/// The outcome of the attribute `attr` with the value `value`, if it is one
/// of conditional processing, for a user with the locale `locale`.
pub open spec fn condition_outcome(attr: Attribute, value: Seq<char>, locale: Locale) -> Option<
    ConditionOutcomeText,
> {
    match attr {
        Attribute::RequiredExtensions => Some(
            ConditionOutcomeText {
                attr,
                verdict: Ok(all_words_listed(IMPLEMENTED_EXTENSIONS@, value)),
            },
        ),
        Attribute::RequiredFeatures => Some(
            ConditionOutcomeText {
                attr,
                verdict: Ok(all_words_listed(IMPLEMENTED_FEATURES@, value)),
            },
        ),
        Attribute::SystemLanguage => Some(
            ConditionOutcomeText {
                attr,
                verdict: system_language_outcome(
                    checks_of(language_tokens(value), locale_language_tags(locale)),
                    locale_error(locale_language_tags(locale)),
                ),
            },
        ),
        _ => None,
    }
}

/// The outcomes of the conditional processing attributes among the first
/// `n` attributes of `bag`, in order.
pub open spec fn condition_outcomes(bag: Seq<(Attribute, Seq<char>)>, locale: Locale, n: int) -> Seq<
    ConditionOutcomeText,
>
    decreases n,
{
    if n <= 0 || n > bag.len() {
        Seq::<ConditionOutcomeText>::empty()
    } else {
        match condition_outcome(bag[n - 1].0, bag[n - 1].1, locale) {
            Some(o) => condition_outcomes(bag, locale, n - 1).push(o),
            None => condition_outcomes(bag, locale, n - 1),
        }
    }
}

/// What parsing a transform gave, with its messages as sequences of
/// characters.
pub open spec fn transform_text(r: Result<Matrix, ValueErrorKind>) -> Result<Matrix, ValueErrorText> {
    match r {
        Ok(m) => Ok(m),
        Err(e) => Err(e@),
    }
}

/// A node that has put by the text of its `style` attributes.
pub open spec fn style_saved(n: NodeView, bag: Seq<(Attribute, Seq<char>)>) -> NodeView {
    NodeView { style_attr: n.style_attr + style_text(bag, bag.len() as int), ..n }
}

/// A node after the first step of reading its attributes, and the error of
/// the step: where `bag` has a `transform` attribute, `transform` is what
/// parsing the last of them gave; a matrix becomes the transform of the node.
pub open spec fn transform_set(
    n: NodeView,
    bag: Seq<(Attribute, Seq<char>)>,
    transform: Result<Matrix, ValueErrorText>,
) -> (NodeView, Option<NodeErrorText>) {
    match last_transform(bag, bag.len() as int) {
        Some(_) => match transform {
            Ok(m) => (NodeView { transform: m, ..n }, None),
            Err(err) => (n, Some(NodeErrorText { attr: Attribute::Transform, err })),
        },
        None => (n, None),
    }
}

/// A node after the second step of reading its attributes, and the error of
/// the step: the verdict of conditional processing.
pub open spec fn conditions_set(n: NodeView, conditions: Seq<ConditionOutcomeText>) -> (
    NodeView,
    Option<NodeErrorText>,
) {
    (
        NodeView { cond: conditions_folded(n.cond, conditions, 0).0, ..n },
        conditions_folded(n.cond, conditions, 0).1,
    )
}

/// A node after the third step of reading its attributes, and the error of
/// the step: the element reads the attributes that are its own.
pub open spec fn element_set(n: NodeView, bag: Seq<(Attribute, Seq<char>)>) -> (
    NodeView,
    Option<NodeErrorText>,
) {
    (NodeView { element: element_atts_set(n.element, bag).0, ..n }, element_atts_set(n.element, bag).1)
}

/// A node after the fourth step of reading its attributes: the presentation
/// attributes. An error in one of them ends the step and is not kept.
pub open spec fn presentation_set(n: NodeView, bag: Seq<(Attribute, Seq<char>)>) -> NodeView {
    NodeView { specified: presented(n.specified, bag).0, ..n }
}

/// A node that is in error because of `e`.
pub open spec fn in_error(n: NodeView, e: NodeErrorText) -> NodeView {
    NodeView { result: Err(e), ..n }
}

/// A node after it has read its attributes. The text of the `style`
/// attribute is put by; then four steps follow in a fixed order, and the
/// first error ends them and puts the node in error.
pub open spec fn atts_set(
    n: NodeView,
    bag: Seq<(Attribute, Seq<char>)>,
    conditions: Seq<ConditionOutcomeText>,
    transform: Result<Matrix, ValueErrorText>,
) -> NodeView {
    let (n1, e1) = transform_set(style_saved(n, bag), bag, transform);
    match e1 {
        Some(e) => in_error(n1, e),
        None => {
            let (n2, e2) = conditions_set(n1, conditions);
            match e2 {
                Some(e) => in_error(n2, e),
                None => {
                    let (n3, e3) = element_set(n2, bag);
                    match e3 {
                        Some(e) => in_error(n3, e),
                        None => presentation_set(n3, bag),
                    }
                },
            }
        },
    }
}

impl Node {
    /// The place in `pbag` of the `transform` attribute that counts: the
    /// last one.
    pub fn transform_attribute(pbag: &PropertyBag) -> (r: Option<usize>)
        ensures
            match r {
                Some(i) => last_transform(pbag@, pbag@.len() as int) == Some(i as int) && i
                    < pbag@.len(),
                None => last_transform(pbag@, pbag@.len() as int) is None,
            },
    {
        let mut i: usize = pbag.len();
        while i > 0
            invariant
                i <= pbag@.len(),
                last_transform(pbag@, i as int) == last_transform(pbag@, pbag@.len() as int),
            decreases i,
        {
            if pbag.attribute(i - 1) == Attribute::Transform {
                return Some(i - 1);
            }
            i = i - 1;
        }
        None
    }

    /// Evaluates the conditional processing attributes of `pbag`, each by
    /// itself, for a user with the locale `locale`.
    pub fn condition_outcomes(pbag: &PropertyBag, locale: &Locale) -> (r: Vec<ConditionOutcome>)
        ensures
            outcome_texts(r@) == condition_outcomes(pbag@, *locale, pbag@.len() as int),
    {
        let mut r: Vec<ConditionOutcome> = Vec::new();
        let mut i: usize = 0;
        while i < pbag.len()
            invariant
                i <= pbag@.len(),
                outcome_texts(r@) == condition_outcomes(pbag@, *locale, i as int),
            decreases pbag@.len() - i,
        {
            let attr = pbag.attribute(i);
            let ghost before = outcome_texts(r@);
            match attr {
                Attribute::RequiredExtensions => {
                    let verdict = match RequiredExtensions::from_attribute(pbag.value(i)) {
                        Ok(v) => Ok(v.eval()),
                        Err(e) => Err(e),
                    };
                    r.push(ConditionOutcome { attr, verdict });
                    assert(outcome_texts(r@) =~= before.push(r@[r@.len() - 1]@));
                },
                Attribute::RequiredFeatures => {
                    let verdict = match RequiredFeatures::from_attribute(pbag.value(i)) {
                        Ok(v) => Ok(v.eval()),
                        Err(e) => Err(e),
                    };
                    r.push(ConditionOutcome { attr, verdict });
                    assert(outcome_texts(r@) =~= before.push(r@[r@.len() - 1]@));
                },
                Attribute::SystemLanguage => {
                    let verdict = match SystemLanguage::from_attribute(pbag.value(i), locale) {
                        Ok(v) => Ok(v.eval()),
                        Err(e) => Err(e),
                    };
                    r.push(ConditionOutcome { attr, verdict });
                    assert(outcome_texts(r@) =~= before.push(r@[r@.len() - 1]@));
                },
                _ => {},
            }
            i = i + 1;
        }
        r
    }

    /// Puts by the text of the `style` attributes, to be applied when the
    /// style rules are.
    fn save_style_attribute(&mut self, pbag: &PropertyBag)
        ensures
            final(self)@ == style_saved(old(self)@, pbag@),
    {
        let mut i: usize = 0;
        while i < pbag.len()
            invariant
                i <= pbag@.len(),
                self@ == (NodeView {
                    style_attr: old(self)@.style_attr + style_text(pbag@, i as int),
                    ..old(self)@
                }),
            decreases pbag@.len() - i,
        {
            match pbag.attribute(i) {
                Attribute::Style => {
                    self.data.style_attr.append(pbag.value(i));
                    assert(self@.style_attr =~= old(self)@.style_attr + style_text(
                        pbag@,
                        i as int + 1,
                    ));
                },
                _ => {},
            }
            i = i + 1;
        }
    }

    /// The first step: the transform.
    fn set_transform_attribute(
        &mut self,
        pbag: &PropertyBag,
        transform: &Result<Matrix, ValueErrorKind>,
    ) -> (r: NodeResult)
        ensures
            final(self)@ == transform_set(old(self)@, pbag@, transform_text(*transform)).0,
            error_text(r) == transform_set(old(self)@, pbag@, transform_text(*transform)).1,
    {
        match Node::transform_attribute(pbag) {
            Some(_) => match transform {
                Ok(m) => {
                    self.data.transform = *m;
                    Ok(())
                },
                Err(e) => Err(NodeError::attribute_error(Attribute::Transform, e.duplicate())),
            },
            None => Ok(()),
        }
    }

    /// The second step: conditional processing.
    fn parse_conditional_processing_attributes(&mut self, conditions: &Vec<ConditionOutcome>) -> (r:
        NodeResult)
        ensures
            final(self)@ == conditions_set(old(self)@, outcome_texts(conditions@)).0,
            error_text(r) == conditions_set(old(self)@, outcome_texts(conditions@)).1,
    {
        let ghost all = outcome_texts(conditions@);
        let mut i: usize = 0;
        while i < conditions.len() && self.data.cond
            invariant
                i <= conditions@.len(),
                all == outcome_texts(conditions@),
                self@ == (NodeView { cond: self@.cond, ..old(self)@ }),
                conditions_folded(self@.cond, all, i as int) == conditions_folded(
                    old(self)@.cond,
                    all,
                    0,
                ),
            decreases conditions@.len() - i,
        {
            assert(all[i as int] == conditions@[i as int]@);
            match &conditions[i].verdict {
                Ok(b) => {
                    self.data.cond = *b;
                },
                Err(e) => {
                    return Err(NodeError::attribute_error(conditions[i].attr, e.duplicate()));
                },
            }
            i = i + 1;
        }
        Ok(())
    }

    /// The fourth step: the presentation attributes.
    fn set_presentation_attributes(&mut self, pbag: &PropertyBag) -> (r: NodeResult)
        requires
            tables_wf(old(self)@),
        ensures
            final(self)@ == presentation_set(old(self)@, pbag@),
            tables_wf(final(self)@),
            r is Ok,
    {
        // An error here is not kept: documents with values that are not
        // accepted are common, and are still to be rendered.
        let _ = self.data.specified_values.parse_presentation_attributes(pbag);
        Ok(())
    }

    /// Puts the node in error because of `error`.
    fn fail(&mut self, error: NodeError)
        ensures
            final(self)@ == in_error(old(self)@, error@),
    {
        self.data.result = Err(error);
    }

    /// Reads the attributes of the node, given the outcomes of its
    /// conditional processing attributes.
    fn read_atts(
        &mut self,
        pbag: &PropertyBag,
        conditions: &Vec<ConditionOutcome>,
        transform: &Result<Matrix, ValueErrorKind>,
    )
        requires
            tables_wf(old(self)@),
        ensures
            final(self)@ == atts_set(
                old(self)@,
                pbag@,
                outcome_texts(conditions@),
                transform_text(*transform),
            ),
            tables_wf(final(self)@),
            final(self)@.parent == old(self)@.parent,
            final(self)@.children == old(self)@.children,
    {
        self.save_style_attribute(pbag);
        match self.set_transform_attribute(pbag, transform) {
            Err(e) => {
                self.fail(e);
                return ;
            },
            Ok(_) => {},
        }
        match self.parse_conditional_processing_attributes(conditions) {
            Err(e) => {
                self.fail(e);
                return ;
            },
            Ok(_) => {},
        }
        match self.data.node_impl.set_atts(pbag) {
            Err(e) => {
                self.fail(e);
                return ;
            },
            Ok(_) => {},
        }
        let _ = self.set_presentation_attributes(pbag);
    }

    /// Reads the attributes of the node at place `node`, given the outcome of
    /// each of its conditional processing attributes, in order, and what
    /// parsing the `transform` attribute that counts gave.
    ///
    /// The text of the `style` attribute is put by. Then come, in this order,
    /// the transform, conditional processing, the attributes that are the
    /// element's own, and the presentation attributes. The first error ends
    /// the steps and puts the node in error; no other node is touched.
    pub fn set_atts_with(
        tree: &mut Tree,
        node: NodeId,
        pbag: &PropertyBag,
        conditions: &Vec<ConditionOutcome>,
        transform: &Result<Matrix, ValueErrorKind>,
    )
        requires
            old(tree).wf(),
            node < old(tree)@.len(),
        ensures
            final(tree).wf(),
            final(tree)@ == old(tree)@.update(
                node as int,
                atts_set(
                    old(tree)@[node as int],
                    pbag@,
                    outcome_texts(conditions@),
                    transform_text(*transform),
                ),
            ),
    {
        tree.nodes[node].read_atts(pbag, conditions, transform);
        proof {
            let n = atts_set(
                old(tree)@[node as int],
                pbag@,
                outcome_texts(conditions@),
                transform_text(*transform),
            );
            assert(tree@ =~= old(tree)@.update(node as int, n));
            lemma_update_keeps_forest(old(tree)@, node as int, n);
        }
    }

    /// Reads the attributes of the node at place `node`, for a user with the
    /// locale `locale`. `transform` is what parsing the `transform` attribute
    /// that counts gave; it is not looked at where there is no such
    /// attribute.
    pub fn set_atts(
        tree: &mut Tree,
        node: NodeId,
        pbag: &PropertyBag,
        locale: &Locale,
        transform: &Result<Matrix, ValueErrorKind>,
    )
        requires
            old(tree).wf(),
            node < old(tree)@.len(),
        ensures
            final(tree).wf(),
            final(tree)@ == old(tree)@.update(
                node as int,
                atts_set(
                    old(tree)@[node as int],
                    pbag@,
                    condition_outcomes(pbag@, *locale, pbag@.len() as int),
                    transform_text(*transform),
                ),
            ),
    {
        let conditions = Node::condition_outcomes(pbag, locale);
        Node::set_atts_with(tree, node, pbag, &conditions, transform);
    }

    /// Puts the node at place `node` in error because of `error`.
    pub fn set_error(tree: &mut Tree, node: NodeId, error: NodeError)
        requires
            old(tree).wf(),
            node < old(tree)@.len(),
        ensures
            final(tree).wf(),
            final(tree)@ == old(tree)@.update(
                node as int,
                in_error(old(tree)@[node as int], error@),
            ),
    {
        tree.nodes[node].fail(error);
        proof {
            let n = in_error(old(tree)@[node as int], error@);
            assert(tree@ =~= old(tree)@.update(node as int, n));
            lemma_update_keeps_forest(old(tree)@, node as int, n);
        }
    }
}

/// What a node declares, with the properties that are claimed.
pub open spec fn node_style(n: NodeView) -> Style {
    Style { specified: n.specified, important: n.important }
}

/// The node `n` with `style` for what it declares.
pub open spec fn with_style(n: NodeView, style: Style) -> NodeView {
    NodeView { specified: style.specified, important: style.important, ..n }
}

/// `style` after the rule for one class of an element that has no
/// identifier to go by: the rule for the element's name with the class, or
/// else the rule for the class alone.
pub open spec fn class_styled_plain(
    style: Style,
    rules: Seq<RuleText>,
    name: Seq<char>,
    cls: Seq<char>,
) -> Style {
    let with_name = applied(style, rules, name + "."@ + cls);
    if with_name.1 {
        with_name.0
    } else {
        applied(style, rules, "."@ + cls).0
    }
}

/// `style` after the rule for one class of an element. The selectors
/// `name.class#id`, `.class#id` and `name.class` are tried in this order,
/// the first two only for an element with an identifier, and the first for
/// which there is a rule is applied. Only if there is none is the rule for
/// `.class` applied.
pub open spec fn class_styled(
    style: Style,
    rules: Seq<RuleText>,
    name: Seq<char>,
    cls: Seq<char>,
    id: Option<Seq<char>>,
) -> Style {
    match id {
        Some(id) => {
            let full = applied(style, rules, name + "."@ + cls + "#"@ + id);
            if full.1 {
                full.0
            } else {
                let with_id = applied(style, rules, "."@ + cls + "#"@ + id);
                if with_id.1 {
                    with_id.0
                } else {
                    class_styled_plain(style, rules, name, cls)
                }
            }
        },
        None => class_styled_plain(style, rules, name, cls),
    }
}

/// `style` after the rules for the first `n` of the classes `classes`, in
/// order.
pub open spec fn classes_styled(
    style: Style,
    rules: Seq<RuleText>,
    name: Seq<char>,
    classes: Seq<Seq<char>>,
    id: Option<Seq<char>>,
    n: int,
) -> Style
    decreases n,
{
    if n <= 0 || n > classes.len() {
        style
    } else {
        class_styled(classes_styled(style, rules, name, classes, id, n - 1), rules, name, classes[n - 1], id)
    }
}

/// `style` after the style rules that select an element with the name
/// `name`, the classes `class` and the identifier `id`. The rules are applied
/// in this order: the rule for `*`; the rule for the name; for each class, in
/// the order in which the attribute lists them, the rule that `class_styled`
/// picks; and, for an element with an identifier, the rule for `#id` and then
/// the rule for `name#id`.
pub open spec fn css_styled(
    style: Style,
    rules: Seq<RuleText>,
    name: Seq<char>,
    class: Option<Seq<char>>,
    id: Option<Seq<char>>,
) -> Style {
    let s1 = applied(style, rules, "*"@).0;
    let s2 = applied(s1, rules, name).0;
    let s3 = match class {
        Some(c) => classes_styled(
            s2,
            rules,
            name,
            split_whitespace(c),
            id,
            split_whitespace(c).len() as int,
        ),
        None => s2,
    };
    match id {
        Some(id) => applied(applied(s3, rules, "#"@ + id).0, rules, name + "#"@ + id).0,
        None => s3,
    }
}

/// A node after the style rules of `rules` that select it.
pub open spec fn css_styles_set(n: NodeView, rules: Seq<RuleText>) -> NodeView {
    with_style(
        n,
        css_styled(node_style(n), rules, n.node_type.spec_element_name(), n.class, n.id),
    )
}

/// A node after the declarations of its `style` attribute, which come last
/// and so are the strongest among the declarations that are not important.
/// The text that was put by is used up; an error in it puts the node in
/// error.
pub open spec fn style_attribute_set(n: NodeView) -> NodeView {
    if n.style_attr.len() > 0 {
        let (s, e) = inline_styled(node_style(n), n.style_attr);
        let m = NodeView {
            specified: s.specified,
            important: s.important,
            style_attr: Seq::<char>::empty(),
            ..n
        };
        match e {
            Some(e) => in_error(m, e),
            None => m,
        }
    } else {
        n
    }
}

/// A node after the style rules that select it and the declarations of its
/// `style` attribute.
pub open spec fn style_set(n: NodeView, rules: Seq<RuleText>) -> NodeView {
    style_attribute_set(css_styles_set(n, rules))
}

/// Whether the node at place `d` is the node at place `a`, or stands below
/// it.
pub open spec fn is_descendant(t: Seq<NodeView>, d: int, a: int) -> bool
    decreases d,
{
    d == a || (0 <= d < t.len() && (t[d].parent matches Some(p) && p < d && is_descendant(
        t,
        p as int,
        a,
    )))
}

/// A node stands at or behind the place of each node that it stands below.
pub proof fn lemma_descendant_stands_behind(t: Seq<NodeView>, d: int, a: int)
    requires
        is_descendant(t, d, a),
    ensures
        a <= d,
    decreases d,
{
    if d != a {
        lemma_descendant_stands_behind(t, t[d].parent->0 as int, a);
    }
}

/// The tree `t` in which each node that stands before place `d`, and at or
/// below the node at place `root`, is replaced by what `f` makes of its place.
pub open spec fn changed_below(
    t: Seq<NodeView>,
    root: int,
    d: int,
    f: spec_fn(int) -> NodeView,
) -> Seq<NodeView> {
    Seq::new(
        t.len(),
        |k: int|
            if k < d && is_descendant(t, k, root) {
                f(k)
            } else {
                t[k]
            },
    )
}

/// Going one place further replaces the node at that place, if it stands at
/// or below the node at place `root`, and nothing else.
pub proof fn lemma_changed_below_step(
    t: Seq<NodeView>,
    root: int,
    d: int,
    f: spec_fn(int) -> NodeView,
)
    requires
        0 <= d < t.len(),
    ensures
        changed_below(t, root, d + 1, f) == if is_descendant(t, d, root) {
            changed_below(t, root, d, f).update(d, f(d))
        } else {
            changed_below(t, root, d, f)
        },
        changed_below(t, root, d, f)[d] == t[d],
        changed_below(t, root, 0, f) == t,
        forall|k: int| 0 <= k < d && is_descendant(t, k, root) ==> changed_below(t, root, d, f)[k] == f(k),
{
    if is_descendant(t, d, root) {
        assert(changed_below(t, root, d + 1, f) =~= changed_below(t, root, d, f).update(d, f(d)));
    } else {
        assert(changed_below(t, root, d + 1, f) =~= changed_below(t, root, d, f));
    }
    assert(changed_below(t, root, 0, f) =~= t);
}

/// Whether a node stands at or below the node at place `root` is known from
/// its parent, which stands before it.
pub proof fn lemma_descendant_by_parent(t: Seq<NodeView>, d: int, root: int)
    requires
        tree_wf(t),
        0 <= d < t.len(),
        0 <= root < t.len(),
    ensures
        is_descendant(t, d, root) == (d == root || (t[d].parent matches Some(p) && p >= root
            && is_descendant(t, p as int, root))),
        t[d].parent matches Some(p) ==> p < d,
{
    assert(tables_wf(t[d]) && links_wf(t, d));
    match t[d].parent {
        Some(p) => {
            if is_descendant(t, p as int, root) {
                lemma_descendant_stands_behind(t, p as int, root);
            }
        },
        None => {},
    }
}

/// What applying the style rules and the `style` attribute makes of the node
/// at a place of `t`.
pub open spec fn style_change(t: Seq<NodeView>, rules: Seq<RuleText>) -> spec_fn(int) -> NodeView {
    |k: int| style_set(t[k], rules)
}

/// The tree after the style rules and `style` attributes were applied to the
/// node at place `node` and to every node below it.
pub open spec fn styles_set(t: Seq<NodeView>, node: int, rules: Seq<RuleText>) -> Seq<NodeView> {
    Seq::new(
        t.len(),
        |d: int|
            if is_descendant(t, d, node) {
                style_set(t[d], rules)
            } else {
                t[d]
            },
    )
}

/// Applies the declarations of the rule for `selector`, if there is one, to
/// `values`, and says whether there is one.
pub fn try_apply_by_selector(
    css_rules: &CssRules,
    selector: &str,
    values: &mut SpecifiedValues,
    important_styles: &mut ImportantStyles,
) -> (r: bool)
    requires
        old(values).wf(),
        old(important_styles).wf(),
    ensures
        final(values).wf(),
        final(important_styles).wf(),
        final(values)@ == applied(
            Style { specified: old(values)@, important: old(important_styles)@ },
            css_rules@,
            selector@,
        ).0.specified,
        final(important_styles)@ == applied(
            Style { specified: old(values)@, important: old(important_styles)@ },
            css_rules@,
            selector@,
        ).0.important,
        r == applied(
            Style { specified: old(values)@, important: old(important_styles)@ },
            css_rules@,
            selector@,
        ).1,
{
    let ghost start = Style { specified: values@, important: important_styles@ };
    match css_rules.lookup(selector) {
        Some(decl_list) => {
            let ghost ds = declaration_texts(decl_list@);
            let mut i: usize = 0;
            assert(ds.take(0) =~= Seq::empty());
            while i < decl_list.len()
                invariant
                    i <= decl_list@.len(),
                    ds == declaration_texts(decl_list@),
                    values.wf(),
                    important_styles.wf(),
                    (Style { specified: values@, important: important_styles@ }) == declared_all(
                        start,
                        ds.take(i as int),
                    ),
                decreases decl_list@.len() - i,
            {
                proof {
                    assert(ds.take(i as int + 1).drop_last() =~= ds.take(i as int));
                    assert(ds.take(i as int + 1).last() == decl_list@[i as int]@);
                }
                values.set_property_from_declaration(&decl_list[i], important_styles);
                i = i + 1;
            }
            assert(ds.take(decl_list@.len() as int) =~= ds);
            true
        },
        None => false,
    }
}

/// The text of `a` with the text of `b` behind it.
fn joined(a: &str, b: &str) -> (r: String)
    ensures
        r@ == a@ + b@,
{
    let mut r = a.to_owned();
    r.append(b);
    r
}

impl Node {
    /// Applies the rule that `class_styled` picks for the class `cls`.
    fn set_class_styles(&mut self, css_rules: &CssRules, cls: &str)
        requires
            tables_wf(old(self)@),
        ensures
            tables_wf(final(self)@),
            final(self)@ == with_style(
                old(self)@,
                class_styled(
                    node_style(old(self)@),
                    css_rules@,
                    old(self)@.node_type.spec_element_name(),
                    cls@,
                    old(self)@.id,
                ),
            ),
    {
        let element_name = self.data.node_type.element_name();
        let mut found = false;
        match &self.data.id {
            Some(id) => {
                // name.class#id
                let mut target = joined(element_name, ".");
                target.append(cls);
                target.append("#");
                target.append(id.as_str());
                found =
                try_apply_by_selector(
                    css_rules,
                    target.as_str(),
                    &mut self.data.specified_values,
                    &mut self.data.important_styles,
                );
                if !found {
                    // .class#id
                    let mut target = joined(".", cls);
                    target.append("#");
                    target.append(id.as_str());
                    found =
                    try_apply_by_selector(
                        css_rules,
                        target.as_str(),
                        &mut self.data.specified_values,
                        &mut self.data.important_styles,
                    );
                }
            },
            None => {},
        }
        if !found {
            // name.class
            let mut target = joined(element_name, ".");
            target.append(cls);
            found =
            try_apply_by_selector(
                css_rules,
                target.as_str(),
                &mut self.data.specified_values,
                &mut self.data.important_styles,
            );
        }
        if !found {
            // Nothing more specific was found: the rule for the class alone.
            let target = joined(".", cls);
            try_apply_by_selector(
                css_rules,
                target.as_str(),
                &mut self.data.specified_values,
                &mut self.data.important_styles,
            );
        }
    }

    /// Applies the style rules that select the node. This is a very limited
    /// selection engine: it knows the selectors `*`, `name`, `.class`,
    /// `name.class`, `.class#id`, `name.class#id`, `#id` and `name#id`.
    fn set_css_styles(&mut self, css_rules: &CssRules)
        requires
            tables_wf(old(self)@),
        ensures
            tables_wf(final(self)@),
            final(self)@ == css_styles_set(old(self)@, css_rules@),
    {
        let element_name = self.data.node_type.element_name();
        // *
        try_apply_by_selector(
            css_rules,
            "*",
            &mut self.data.specified_values,
            &mut self.data.important_styles,
        );
        // name
        try_apply_by_selector(
            css_rules,
            element_name,
            &mut self.data.specified_values,
            &mut self.data.important_styles,
        );
        let classes = match &self.data.class {
            Some(klazz) => words(klazz.as_str()),
            None => Vec::new(),
        };
        let ghost s2 = node_style(self@);
        let ghost all = texts(classes@);
        let mut i: usize = 0;
        while i < classes.len()
            invariant
                i <= classes@.len(),
                all == texts(classes@),
                tables_wf(self@),
                self@ == with_style(
                    old(self)@,
                    classes_styled(
                        s2,
                        css_rules@,
                        old(self)@.node_type.spec_element_name(),
                        all,
                        old(self)@.id,
                        i as int,
                    ),
                ),
            decreases classes@.len() - i,
        {
            assert(all[i as int] == classes@[i as int]@);
            self.set_class_styles(css_rules, classes[i].as_str());
            i = i + 1;
        }
        match &self.data.id {
            Some(id) => {
                // #id
                let target = joined("#", id.as_str());
                try_apply_by_selector(
                    css_rules,
                    target.as_str(),
                    &mut self.data.specified_values,
                    &mut self.data.important_styles,
                );
                // name#id
                let mut target = joined(element_name, "#");
                target.append(id.as_str());
                try_apply_by_selector(
                    css_rules,
                    target.as_str(),
                    &mut self.data.specified_values,
                    &mut self.data.important_styles,
                );
            },
            None => {},
        }
    }

    /// Applies the declarations of the `style` attribute that was put by.
    fn set_style_attribute(&mut self)
        requires
            tables_wf(old(self)@),
        ensures
            tables_wf(final(self)@),
            final(self)@ == style_attribute_set(old(self)@),
    {
        if self.data.style_attr.as_str().unicode_len() > 0 {
            let r = self.data.specified_values.parse_style_declarations(
                self.data.style_attr.as_str(),
                &mut self.data.important_styles,
            );
            self.data.style_attr = String::new();
            match r {
                Err(e) => {
                    self.fail(e);
                },
                Ok(_) => {},
            }
        }
    }

    /// Applies the style rules that select the node, and then the
    /// declarations of its `style` attribute.
    fn set_style(&mut self, css_rules: &CssRules)
        requires
            tables_wf(old(self)@),
        ensures
            tables_wf(final(self)@),
            final(self)@ == style_set(old(self)@, css_rules@),
            final(self)@.parent == old(self)@.parent,
            final(self)@.children == old(self)@.children,
    {
        self.set_css_styles(css_rules);
        self.set_style_attribute();
    }

    /// Applies the style rules and the `style` attribute to the node at place
    /// `node` and to every node below it.
    pub fn set_styles_recursively(tree: &mut Tree, node: NodeId, css_rules: &CssRules)
        requires
            old(tree).wf(),
            node < old(tree)@.len(),
        ensures
            final(tree).wf(),
            final(tree)@ == styles_set(old(tree)@, node as int, css_rules@),
    {
        let ghost t0 = tree@;
        let ghost f = style_change(t0, css_rules@);
        let n = tree.len();
        let mut below: Vec<bool> = Vec::new();
        let mut d: usize = 0;
        proof {
            if n > 0 {
                lemma_changed_below_step(t0, node as int, 0, f);
            }
        }
        while d < n
            invariant
                d <= n,
                n == t0.len(),
                node < n,
                tree_wf(t0),
                tree.wf(),
                f == style_change(t0, css_rules@),
                below@.len() == d,
                forall|k: int| 0 <= k < d ==> below@[k] == is_descendant(t0, k, node as int),
                tree@ == changed_below(t0, node as int, d as int, f),
            decreases n - d,
        {
            proof {
                lemma_changed_below_step(t0, node as int, d as int, f);
                lemma_descendant_by_parent(t0, d as int, node as int);
            }
            let is_below = d == node || match tree.parent_of(d) {
                Some(p) => p >= node && below[p],
                None => false,
            };
            if is_below {
                tree.set_style_at(d, css_rules);
            }
            below.push(is_below);
            d = d + 1;
        }
        assert(changed_below(t0, node as int, n as int, f) =~= styles_set(
            t0,
            node as int,
            css_rules@,
        ));
    }
}

impl Tree {
    /// The parent of the node at place `d`.
    fn parent_of(&self, d: NodeId) -> (r: Option<NodeId>)
        requires
            d < self@.len(),
        ensures
            r == self@[d as int].parent,
    {
        self.nodes[d].parent
    }

    /// Applies the style rules and the `style` attribute to the node at place
    /// `d`.
    fn set_style_at(&mut self, d: NodeId, css_rules: &CssRules)
        requires
            old(self).wf(),
            d < old(self)@.len(),
        ensures
            final(self).wf(),
            final(self)@ == old(self)@.update(d as int, style_set(old(self)@[d as int], css_rules@)),
    {
        assert(tables_wf(self@[d as int]));
        self.nodes[d].set_style(css_rules);
        proof {
            let m = style_set(old(self)@[d as int], css_rules@);
            assert(self@ =~= old(self)@.update(d as int, m));
            lemma_update_keeps_forest(old(self)@, d as int, m);
        }
    }

    /// Gives the node at place `d` what it declares, merged with `inherited`,
    /// for its values.
    fn set_values_at(&mut self, d: NodeId, inherited: ComputedValues)
        requires
            old(self).wf(),
            d < old(self)@.len(),
            inherited.wf(),
        ensures
            final(self).wf(),
            final(self)@ == old(self)@.update(
                d as int,
                NodeView {
                    values: merged(inherited@, old(self)@[d as int].specified),
                    ..old(self)@[d as int]
                },
            ),
    {
        assert(tables_wf(self@[d as int]));
        let mut v = inherited;
        self.nodes[d].data.specified_values.to_computed_values(&mut v);
        self.nodes[d].data.values = v;
        proof {
            let m = NodeView {
                values: merged(inherited@, old(self)@[d as int].specified),
                ..old(self)@[d as int]
            };
            assert(self@ =~= old(self)@.update(d as int, m));
            lemma_update_keeps_forest(old(self)@, d as int, m);
        }
    }

    /// A copy of the values of the node at place `d`.
    fn values_of(&self, d: NodeId) -> (r: ComputedValues)
        requires
            self.wf(),
            d < self@.len(),
        ensures
            r.wf(),
            r@ == self@[d as int].values,
    {
        assert(tables_wf(self@[d as int]));
        self.nodes[d].data.values.duplicate()
    }
}

/// The values that the cascade which starts at the node at place `root`,
/// with the values `inherited` for its parent, computes for the node at place
/// `d`, which is `root` or stands below it: what the node declares, merged
/// with the values of its parent.
pub open spec fn cascaded_values(
    t: Seq<NodeView>,
    root: int,
    inherited: Seq<Seq<char>>,
    d: int,
) -> Seq<Seq<char>>
    decreases d,
{
    if d == root {
        merged(inherited, t[d].specified)
    } else if 0 <= d < t.len() && (t[d].parent matches Some(p) && p < d) {
        merged(cascaded_values(t, root, inherited, t[d].parent->0 as int), t[d].specified)
    } else {
        t[d].values
    }
}

/// What the cascade makes of the node at a place of `t`.
pub open spec fn cascade_change(
    t: Seq<NodeView>,
    root: int,
    inherited: Seq<Seq<char>>,
) -> spec_fn(int) -> NodeView {
    |k: int| NodeView { values: cascaded_values(t, root, inherited, k), ..t[k] }
}

/// The tree after the cascade that starts at the node at place `root`, with
/// the values `inherited` for its parent: the node and every node below it
/// have the values that the cascade computes for them, and nothing else has
/// changed.
pub open spec fn cascaded(t: Seq<NodeView>, root: int, inherited: Seq<Seq<char>>) -> Seq<NodeView> {
    Seq::new(
        t.len(),
        |d: int|
            if is_descendant(t, d, root) {
                NodeView { values: cascaded_values(t, root, inherited, d), ..t[d] }
            } else {
                t[d]
            },
    )
}

/// Two trees have the same nodes in the same places, with the same links,
/// and each node declares the same in both.
pub open spec fn same_declarations(t: Seq<NodeView>, u: Seq<NodeView>) -> bool {
    &&& t.len() == u.len()
    &&& forall|k: int|
        0 <= k < t.len() ==> (#[trigger] t[k]).parent == u[k].parent && t[k].specified
            == u[k].specified
}

/// Which nodes stand below a node depends on the links alone.
pub proof fn lemma_descendants_depend_on_links(
    t: Seq<NodeView>,
    u: Seq<NodeView>,
    d: int,
    a: int,
)
    requires
        same_declarations(t, u),
    ensures
        is_descendant(t, d, a) == is_descendant(u, d, a),
    decreases d,
{
    if d != a && 0 <= d < t.len() {
        assert(t[d].parent == u[d].parent);
        match t[d].parent {
            Some(p) => {
                if p < d {
                    lemma_descendants_depend_on_links(t, u, p as int, a);
                }
            },
            None => {},
        }
    }
}

/// The values that the cascade computes for a node depend on the values that
/// it starts with, on the links, and on what the nodes declare; not on the
/// values that the nodes had before, nor on whether a node is in error.
pub proof fn lemma_cascade_depends_on_declarations(
    t: Seq<NodeView>,
    u: Seq<NodeView>,
    root: int,
    inherited: Seq<Seq<char>>,
    d: int,
)
    requires
        same_declarations(t, u),
        0 <= root < t.len(),
        is_descendant(t, d, root),
    ensures
        cascaded_values(t, root, inherited, d) == cascaded_values(u, root, inherited, d),
    decreases d,
{
    assert(t[root].specified == u[root].specified);
    if d != root {
        assert(t[d].parent == u[d].parent);
        assert(t[d].specified == u[d].specified);
        lemma_cascade_depends_on_declarations(t, u, root, inherited, t[d].parent->0 as int);
    }
}

/// The cascade is a function of the values that it starts with and of what
/// the nodes declare: running it again on the tree that it left gives the
/// same tree.
pub proof fn lemma_cascade_is_idempotent(t: Seq<NodeView>, root: int, inherited: Seq<Seq<char>>)
    requires
        0 <= root < t.len(),
    ensures
        cascaded(cascaded(t, root, inherited), root, inherited) == cascaded(t, root, inherited),
{
    let u = cascaded(t, root, inherited);
    let v = cascaded(u, root, inherited);
    assert(same_declarations(t, u));
    assert forall|d: int| 0 <= d < t.len() implies v[d] == u[d] by {
        lemma_descendants_depend_on_links(t, u, d, root);
        if is_descendant(t, d, root) {
            lemma_cascade_depends_on_declarations(t, u, root, inherited, d);
        }
    }
    assert(v =~= u);
}

/// After a cascade, the values of every node below the node at which it
/// started are what the node declares, merged with the values of its parent.
pub proof fn lemma_cascade_merges_with_parent(
    t: Seq<NodeView>,
    root: int,
    inherited: Seq<Seq<char>>,
    d: int,
)
    requires
        0 <= root < t.len(),
        0 <= d < t.len(),
        d != root,
        is_descendant(t, d, root),
    ensures
        t[d].parent matches Some(p) && cascaded(t, root, inherited)[d].values == merged(
            cascaded(t, root, inherited)[p as int].values,
            t[d].specified,
        ),
{
}

/// A node that is in error is cascaded like any other: putting a node in
/// error before the cascade or after it gives the same tree, so that the
/// nodes below a node in error get the values that they would have got
/// without the error.
pub proof fn lemma_cascade_passes_through_errors(
    t: Seq<NodeView>,
    root: int,
    inherited: Seq<Seq<char>>,
    k: int,
    e: NodeErrorText,
)
    requires
        0 <= root < t.len(),
        0 <= k < t.len(),
    ensures
        cascaded(t.update(k, in_error(t[k], e)), root, inherited) == cascaded(
            t,
            root,
            inherited,
        ).update(k, in_error(cascaded(t, root, inherited)[k], e)),
{
    let u = t.update(k, in_error(t[k], e));
    let a = cascaded(u, root, inherited);
    let b = cascaded(t, root, inherited).update(k, in_error(cascaded(t, root, inherited)[k], e));
    assert(same_declarations(t, u));
    assert forall|d: int| 0 <= d < t.len() implies a[d] == b[d] by {
        lemma_descendants_depend_on_links(t, u, d, root);
        if is_descendant(t, d, root) {
            lemma_cascade_depends_on_declarations(t, u, root, inherited, d);
        }
    }
    assert(a =~= b);
}

/// The values with which an element is drawn: those that the last cascade
/// left in its node, or values that were computed for this drawing, starting
/// from values given in place of those of some ancestor.
///
/// An element that stands for another, as `use` does, draws that other
/// element with its own values in place of those of the other's parent. The
/// nodes below then take their values from what was computed for this
/// drawing, not from their nodes.
pub struct CascadedValues {
    inner: CascadedInner,
}

enum CascadedInner {
    FromNode(ComputedValues),
    FromValues(ComputedValues),
}

/// A `CascadedValues` as plain values.
pub struct CascadedView {
    /// Whether the values were computed for this drawing.
    pub from_values: bool,
    /// The values.
    pub values: Seq<Seq<char>>,
}

impl View for CascadedValues {
    type V = CascadedView;

    closed spec fn view(&self) -> CascadedView {
        match self.inner {
            CascadedInner::FromNode(v) => CascadedView { from_values: false, values: v@ },
            CascadedInner::FromValues(v) => CascadedView { from_values: true, values: v@ },
        }
    }
}

/// The values with which the node `n` is drawn below an element that is
/// drawn with `parent`.
pub open spec fn child_cascade(parent: CascadedView, n: NodeView) -> CascadedView {
    if parent.from_values {
        CascadedView { from_values: true, values: merged(parent.values, n.specified) }
    } else {
        CascadedView { from_values: false, values: n.values }
    }
}

impl CascadedValues {
    /// There is one value for each property.
    pub open spec fn wf(&self) -> bool {
        self@.values.len() == PROPERTY_COUNT
    }

    /// The values with which `node` is drawn below an element that is drawn
    /// with these values.
    pub fn new(&self, node: &Node) -> (r: CascadedValues)
        requires
            self.wf(),
            tables_wf(node@),
        ensures
            r.wf(),
            r@ == child_cascade(self@, node@),
    {
        match &self.inner {
            CascadedInner::FromNode(_) => CascadedValues {
                inner: CascadedInner::FromNode(node.data.values.duplicate()),
            },
            CascadedInner::FromValues(v) => CascadedValues::new_from_values(node, v),
        }
    }

    /// The values that the last cascade left in `node`.
    pub fn new_from_node(node: &Node) -> (r: CascadedValues)
        requires
            tables_wf(node@),
        ensures
            r.wf(),
            r@ == (CascadedView { from_values: false, values: node@.values }),
    {
        CascadedValues { inner: CascadedInner::FromNode(node.data.values.duplicate()) }
    }

    /// The values with which `node` is drawn where `values` stand in place of
    /// the values of its parent.
    pub fn new_from_values(node: &Node, values: &ComputedValues) -> (r: CascadedValues)
        requires
            values.wf(),
            tables_wf(node@),
        ensures
            r.wf(),
            r@ == (CascadedView {
                from_values: true,
                values: merged(values@, node@.specified),
            }),
    {
        let mut v = values.duplicate();
        node.data.specified_values.to_computed_values(&mut v);
        CascadedValues { inner: CascadedInner::FromValues(v) }
    }

    /// The values.
    pub fn get(&self) -> (r: &ComputedValues)
        ensures
            r@ == self@.values,
    {
        match &self.inner {
            CascadedInner::FromNode(v) => v,
            CascadedInner::FromValues(v) => v,
        }
    }
}

impl Node {
    /// The values that the last cascade left in the node.
    pub fn get_cascaded_values(&self) -> (r: CascadedValues)
        requires
            tables_wf(self@),
        ensures
            r.wf(),
            r@ == (CascadedView { from_values: false, values: self@.values }),
    {
        CascadedValues::new_from_node(self)
    }

    /// Computes the values of the node at place `node` and of every node
    /// below it, top-down: each node gets what it declares, merged with the
    /// values of its parent, and `values` stand for the values of the parent
    /// of `node`. No other node is touched.
    pub fn cascade(tree: &mut Tree, node: NodeId, values: &ComputedValues)
        requires
            old(tree).wf(),
            node < old(tree)@.len(),
            values.wf(),
        ensures
            final(tree).wf(),
            final(tree)@ == cascaded(old(tree)@, node as int, values@),
    {
        let ghost t0 = tree@;
        let ghost inherited = values@;
        let ghost f = cascade_change(t0, node as int, inherited);
        let n = tree.len();
        let mut below: Vec<bool> = Vec::new();
        let mut d: usize = 0;
        proof {
            if n > 0 {
                lemma_changed_below_step(t0, node as int, 0, f);
            }
        }
        while d < n
            invariant
                d <= n,
                n == t0.len(),
                node < n,
                tree_wf(t0),
                tree.wf(),
                values.wf(),
                inherited == values@,
                f == cascade_change(t0, node as int, inherited),
                below@.len() == d,
                forall|k: int| 0 <= k < d ==> below@[k] == is_descendant(t0, k, node as int),
                tree@ == changed_below(t0, node as int, d as int, f),
            decreases n - d,
        {
            proof {
                lemma_changed_below_step(t0, node as int, d as int, f);
                lemma_descendant_by_parent(t0, d as int, node as int);
            }
            let parent = tree.parent_of(d);
            let is_below = d == node || match parent {
                Some(p) => p >= node && below[p],
                None => false,
            };
            if is_below {
                let v = if d == node {
                    values.duplicate()
                } else {
                    match parent {
                        Some(p) => tree.values_of(p),
                        None => values.duplicate(),
                    }
                };
                tree.set_values_at(d, v);
            }
            below.push(is_below);
            d = d + 1;
        }
        assert(changed_below(t0, node as int, n as int, f) =~= cascaded(
            t0,
            node as int,
            inherited,
        ));
    }
}

/// What the drawing backend is to do for a node.
#[derive(Clone, Copy, Debug, PartialEq, Eq, Structural)]
pub enum DrawAction {
    /// Nothing: the element is in error.
    Skip,
    /// Draw the element, with its transform on top of the current one.
    Draw(Matrix),
}

/// The place of the first node at or after `i` whose identifier is `id`, or
/// the number of nodes if there is none.
pub open spec fn find_id(t: Seq<NodeView>, id: Seq<char>, i: int) -> int
    decreases t.len() - i,
{
    if 0 <= i < t.len() && t[i].id != Some(id) {
        find_id(t, id, i + 1)
    } else {
        i
    }
}

/// The last child of the node at place `node`, if it is character data.
pub open spec fn last_chars_child(t: Seq<NodeView>, node: int) -> Option<NodeId> {
    let children = t[node].children;
    if children.len() > 0 && t[children.last() as int].node_type == NodeType::Chars {
        Some(children.last())
    } else {
        None
    }
}

/// The tree after `text` was added to the character data of the node at
/// place `node`; the tree as it is, if that node is no character data.
pub open spec fn chars_appended(t: Seq<NodeView>, node: int, text: Seq<char>) -> Seq<NodeView> {
    match t[node].element {
        ElementView::Chars(s) => t.update(
            node,
            NodeView { element: ElementView::Chars(s + text), ..t[node] },
        ),
        _ => t,
    }
}

/// The behaviour that is particular to a kind of element.
pub trait NodeTrait {
    /// Reads the attributes that are the element's own.
    fn set_atts(&mut self, pbag: &PropertyBag) -> NodeResult;

    /// Declares what an element of this kind declares where the document
    /// declares nothing, if that is not what any element declares.
    fn set_overridden_properties(&self, values: &mut SpecifiedValues)
        requires
            old(values).wf(),
        ensures
            final(values).wf(),
    ;
}

impl NodeTrait for Chars {
    /// Character data has no attributes: it stays as it is, with the
    /// normalized form that it keeps, and there is no error.
    fn set_atts(&mut self, pbag: &PropertyBag) -> (r: NodeResult)
        ensures
            r is Ok,
            final(self)@ == old(self)@,
            final(self).spec_space_normalized() == old(self).spec_space_normalized(),
    {
        Ok(())
    }

    fn set_overridden_properties(&self, values: &mut SpecifiedValues)
        ensures
            final(values)@ == old(values)@,
    {
    }
}

impl NodeTrait for Text {
    /// Reads the attributes `x`, `y`, `dx` and `dy`, in the order in which
    /// they are written, up to the first whose value is no length, which is
    /// the error.
    fn set_atts(&mut self, pbag: &PropertyBag) -> (r: NodeResult)
        ensures
            *final(self) == old(self).attributes_set_from(pbag@, 0).0,
            error_text(r) == old(self).attributes_set_from(pbag@, 0).1,
    {
        self.set_attributes(pbag)
    }

    fn set_overridden_properties(&self, values: &mut SpecifiedValues)
        ensures
            final(values)@ == old(values)@,
    {
    }
}

impl NodeTrait for TRef {
    /// Reads the attribute `xlink:href`: the element refers to what the first
    /// of them names, or to nothing, and there is no error.
    fn set_atts(&mut self, pbag: &PropertyBag) -> (r: NodeResult)
        ensures
            r is Ok,
            final(self)@ == link_of(pbag@),
    {
        self.set_attributes(pbag)
    }

    fn set_overridden_properties(&self, values: &mut SpecifiedValues)
        ensures
            final(values)@ == old(values)@,
    {
    }
}

impl NodeTrait for TSpan {
    /// Reads the attributes `x`, `y`, `dx` and `dy`, in the order in which
    /// they are written, up to the first whose value is no length, which is
    /// the error.
    fn set_atts(&mut self, pbag: &PropertyBag) -> (r: NodeResult)
        ensures
            *final(self) == old(self).attributes_set_from(pbag@, 0).0,
            error_text(r) == old(self).attributes_set_from(pbag@, 0).1,
    {
        self.set_attributes(pbag)
    }

    fn set_overridden_properties(&self, values: &mut SpecifiedValues)
        ensures
            final(values)@ == old(values)@,
    {
    }
}

impl Tree {
    /// The place of the first node whose identifier is `id`, if there is
    /// one.
    pub fn lookup_id(&self, id: &str) -> (r: Option<NodeId>)
        ensures
            match r {
                Some(k) => k < self@.len() && find_id(self@, id@, 0) == k,
                None => find_id(self@, id@, 0) >= self@.len(),
            },
    {
        let mut i: usize = 0;
        while i < self.nodes.len()
            invariant
                i <= self.nodes@.len(),
                self@.len() == self.nodes@.len(),
                find_id(self@, id@, i as int) == find_id(self@, id@, 0),
            decreases self.nodes@.len() - i,
        {
            assert(self@[i as int] == self.nodes@[i as int]@);
            let found = match &self.nodes[i].data.id {
                Some(s) => crate::strings::str_eq(s.as_str(), id),
                None => false,
            };
            if found {
                return Some(i);
            }
            i = i + 1;
        }
        None
    }
}

impl Node {
    /// A name for the node that a person can make sense of: its kind and its
    /// identifier.
    pub fn get_human_readable_name(&self) -> (r: String)
        ensures
            r@ == self@.node_type.spec_kind_name() + " id="@ + match self@.id {
                Some(id) => id,
                None => "None"@,
            },
    {
        let mut r = joined(self.data.node_type.kind_name(), " id=");
        match &self.data.id {
            Some(id) => {
                r.append(id.as_str());
            },
            None => {
                r.append("None");
            },
        }
        r
    }

    /// What the drawing backend is to do for the node: an element that is in
    /// error is not drawn.
    pub fn draw(&self) -> (r: DrawAction)
        ensures
            r == if self@.result is Err {
                DrawAction::Skip
            } else {
                DrawAction::Draw(self@.transform)
            },
    {
        if !self.is_in_error() {
            DrawAction::Draw(self.get_transform())
        } else {
            DrawAction::Skip
        }
    }

    /// What the node holds by its kind.
    pub closed spec fn spec_impl(&self) -> &Element {
        &self.data.node_impl
    }

    /// Calls `f` on what the node holds by its kind.
    pub fn with_impl<F, U>(&self, f: F) -> (r: U) where F: FnOnce(&Element) -> U
        requires
            f.requires((self.spec_impl(),)),
        ensures
            f.ensures((self.spec_impl(),), r),
            self.spec_impl()@ == self@.element,
    {
        f(&self.data.node_impl)
    }

    /// The children of the node at place `node`, in order, each with the
    /// values with which it is drawn below an element that is drawn with
    /// `cascaded`. Every child is handed out, whether the node or the child
    /// is in error or not.
    pub fn draw_children(tree: &Tree, node: NodeId, cascaded: &CascadedValues) -> (r: Vec<
        (NodeId, CascadedValues),
    >)
        requires
            tree.wf(),
            node < tree@.len(),
            cascaded.wf(),
        ensures
            r@.len() == tree@[node as int].children.len(),
            forall|k: int|
                0 <= k < r@.len() ==> (#[trigger] r@[k]).0 == tree@[node as int].children[k]
                    && r@[k].1.wf() && r@[k].1@ == child_cascade(
                    cascaded@,
                    tree@[r@[k].0 as int],
                ),
    {
        let mut r: Vec<(NodeId, CascadedValues)> = Vec::new();
        let children = tree.node(node).children();
        assert(tables_wf(tree@[node as int]) && links_wf(tree@, node as int));
        let mut k: usize = 0;
        while k < children.len()
            invariant
                k <= children@.len(),
                children@ == tree@[node as int].children,
                tree.wf(),
                node < tree@.len(),
                cascaded.wf(),
                r@.len() == k,
                forall|j: int|
                    0 <= j < k ==> (#[trigger] r@[j]).0 == children@[j] && r@[j].1.wf() && r@[j].1@
                        == child_cascade(cascaded@, tree@[r@[j].0 as int]),
            decreases children@.len() - k,
        {
            let child = children[k];
            assert(links_wf(tree@, node as int));
            assert(child == tree@[node as int].children[k as int]);
            assert(tables_wf(tree@[child as int]));
            let values = cascaded.new(tree.node(child));
            r.push((child, values));
            k = k + 1;
        }
        r
    }

    /// Declares `overflow: hidden` for the node at place `node`.
    pub fn set_overflow_hidden(tree: &mut Tree, node: NodeId)
        requires
            old(tree).wf(),
            node < old(tree)@.len(),
        ensures
            final(tree).wf(),
            final(tree)@ == old(tree)@.update(
                node as int,
                NodeView {
                    specified: old(tree)@[node as int].specified.update(
                        Property::Overflow.spec_index(),
                        SpecifiedValueText::Specified("hidden"@),
                    ),
                    ..old(tree)@[node as int]
                },
            ),
    {
        assert(tables_wf(tree@[node as int]));
        tree.nodes[node].data.specified_values.set(
            Property::Overflow,
            SpecifiedValue::Specified("hidden".to_owned()),
        );
        proof {
            let m = NodeView {
                specified: old(tree)@[node as int].specified.update(
                    Property::Overflow.spec_index(),
                    SpecifiedValueText::Specified("hidden"@),
                ),
                ..old(tree)@[node as int]
            };
            assert(tree@ =~= old(tree)@.update(node as int, m));
            lemma_update_keeps_forest(old(tree)@, node as int, m);
        }
    }

    /// Lets the element at place `node` declare what an element of its kind
    /// declares where the document declares nothing. None of the kinds that
    /// the tree knows by itself declares anything, so that the tree stays as
    /// it is.
    pub fn set_overridden_properties(tree: &mut Tree, node: NodeId)
        requires
            old(tree).wf(),
            node < old(tree)@.len(),
        ensures
            final(tree).wf(),
            final(tree)@ == old(tree)@,
    {
        assert(tables_wf(tree@[node as int]));
        let ghost before = tree@;
        let data = &mut tree.nodes[node].data;
        match &data.node_impl {
            Element::Chars(c) => c.set_overridden_properties(&mut data.specified_values),
            Element::Text(t) => t.set_overridden_properties(&mut data.specified_values),
            Element::TRef(t) => t.set_overridden_properties(&mut data.specified_values),
            Element::TSpan(t) => t.set_overridden_properties(&mut data.specified_values),
            Element::Other(_) => {},
        }
        assert(tree@ =~= before);
    }

    /// The last child of the node at place `node`, if it is character data:
    /// text that follows is added to it, so that one run of characters is not
    /// split over two nodes.
    pub fn find_last_chars_child(tree: &Tree, node: NodeId) -> (r: Option<NodeId>)
        requires
            tree.wf(),
            node < tree@.len(),
        ensures
            r == last_chars_child(tree@, node as int),
            r matches Some(c) ==> c < tree@.len(),
    {
        let children = tree.node(node).children();
        assert(tables_wf(tree@[node as int]) && links_wf(tree@, node as int));
        if children.len() > 0 {
            let child = children[children.len() - 1];
            assert(child == tree@[node as int].children[children@.len() - 1]);
            match tree.node(child).get_type() {
                NodeType::Chars => Some(child),
                _ => None,
            }
        } else {
            None
        }
    }

    /// Adds `text` to the character data of the node at place `node`, and
    /// says whether the node is character data.
    pub fn append_chars(tree: &mut Tree, node: NodeId, text: &str) -> (r: bool)
        requires
            old(tree).wf(),
            node < old(tree)@.len(),
        ensures
            final(tree).wf(),
            final(tree)@ == chars_appended(old(tree)@, node as int, text@),
            r == old(tree)@[node as int].element is Chars,
    {
        let ghost before = tree@;
        assert(tables_wf(tree@[node as int]));
        let r = match &mut tree.nodes[node].data.node_impl {
            Element::Chars(c) => {
                c.append(text);
                true
            },
            _ => false,
        };
        proof {
            let m = chars_appended(before, node as int, text@)[node as int];
            assert(tree@ =~= before.update(node as int, m));
            lemma_update_keeps_forest(before, node as int, m);
            assert(before.update(node as int, m) =~= chars_appended(before, node as int, text@));
        }
        r
    }
}

/// An element that is in error stays in error: neither reading attributes
/// nor applying styles clears the error.
pub proof fn lemma_error_is_never_cleared(
    n: NodeView,
    bag: Seq<(Attribute, Seq<char>)>,
    conditions: Seq<ConditionOutcomeText>,
    transform: Result<Matrix, ValueErrorText>,
    rules: Seq<RuleText>,
)
    requires
        n.result is Err,
    ensures
        atts_set(n, bag, conditions, transform).result is Err,
        style_set(n, rules).result is Err,
{
}

/// An element whose `transform` attribute does not parse is put in error,
/// and declares and holds what it did before; only the text of its `style`
/// attribute is put by.
pub proof fn lemma_invalid_transform_puts_in_error(
    n: NodeView,
    bag: Seq<(Attribute, Seq<char>)>,
    conditions: Seq<ConditionOutcomeText>,
    e: ValueErrorText,
)
    requires
        last_transform(bag, bag.len() as int) is Some,
    ensures
        atts_set(n, bag, conditions, Err(e)) == in_error(
            style_saved(n, bag),
            NodeErrorText { attr: Attribute::Transform, err: e },
        ),
{
}

impl Tree {
    /// Whether the node at place `d` is the node at place `a`, or stands
    /// below it.
    pub fn is_below(&self, d: NodeId, a: NodeId) -> (r: bool)
        requires
            self.wf(),
            d < self@.len(),
        ensures
            r == is_descendant(self@, d as int, a as int),
    {
        let mut c: usize = d;
        loop
            invariant_except_break
                self.wf(),
                c < self@.len(),
                is_descendant(self@, c as int, a as int) == is_descendant(self@, d as int, a as int),
            ensures
                c < self@.len(),
                is_descendant(self@, c as int, a as int) == is_descendant(self@, d as int, a as int),
                c == a || self@[c as int].parent is None,
            decreases c,
        {
            if c == a {
                break ;
            }
            assert(tables_wf(self@[c as int]) && links_wf(self@, c as int));
            match self.parent_of(c) {
                Some(p) => {
                    c = p;
                },
                None => {
                    break ;
                },
            }
        }
        c == a
    }
}

/// What a reference to `id` from the node at place `from` resolves to: the
/// first element with that identifier. It is an error that there is none, or
/// that the reference stands at or below that element, which would make a
/// cycle.
pub open spec fn acquired(t: Seq<NodeView>, from: int, id: Seq<char>) -> Result<
    NodeId,
    ReferenceError,
> {
    let k = find_id(t, id, 0);
    if 0 <= k < t.len() {
        if is_descendant(t, from, k) {
            Err(ReferenceError::Circular)
        } else {
            Ok(k as usize)
        }
    } else {
        Err(ReferenceError::NotFound)
    }
}

impl Tree {
    /// Resolves a reference to `id` from the node at place `from`.
    pub fn acquire(&self, from: NodeId, id: &str) -> (r: Result<NodeId, ReferenceError>)
        requires
            self.wf(),
            from < self@.len(),
        ensures
            r == acquired(self@, from as int, id@),
            r matches Ok(k) ==> k < self@.len(),
    {
        match self.lookup_id(id) {
            Some(target) => {
                if self.is_below(from, target) {
                    Err(ReferenceError::Circular)
                } else {
                    Ok(target)
                }
            },
            None => Err(ReferenceError::NotFound),
        }
    }
}

} // verus!
