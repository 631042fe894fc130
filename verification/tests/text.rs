use locale_config::Locale;
use rsvg_text::attributes::{Attribute, PropertyBag};
use rsvg_text::bbox::{aggregate, BoundingBox, DrawOutcome, Rect};
use rsvg_text::error::{NodeError, ReferenceError, RenderingError, ValueErrorKind};
use rsvg_text::node::{node_new, Element, Matrix, Node, NodeId, NodeType, Tree};
use rsvg_text::properties::{
    ComputedValues, Direction, Property, TextAnchor, UnicodeBidi, WritingMode,
};
use rsvg_text::space::{NormalizeDefault, XmlSpaceNormalize};
use rsvg_text::text::{
    base_direction, layout_settings, measure_chunks, position_chunks, space_mode,
    text_anchor_advance, Alignment, Chars, Chunk, Gravity, MeasuredChunk, PositionedChunk,
    ShapedRun, TRef, TSpan, Text,
};

const UNIT: i64 = 1024;

fn bag(attributes: &[(&str, &str)]) -> PropertyBag {
    let mut bag = PropertyBag::new();
    for (name, value) in attributes {
        bag.push_named(name, value);
    }
    bag
}

fn set_atts(tree: &mut Tree, node: NodeId, attributes: &[(&str, &str)]) {
    let locale = Locale::new("en").unwrap();
    let transform: Result<Matrix, ValueErrorKind> = Ok(Matrix::identity());
    Node::set_atts(tree, node, &bag(attributes), &locale, &transform);
    assert!(!tree.node(node).is_in_error());
}

fn text(tree: &mut Tree, attributes: &[(&str, &str)]) -> NodeId {
    let node = node_new(tree, NodeType::Text, None, None, None, Element::Text(Text::default()));
    set_atts(tree, node, attributes);
    node
}

fn tspan(tree: &mut Tree, parent: NodeId, attributes: &[(&str, &str)]) -> NodeId {
    let node =
        node_new(tree, NodeType::TSpan, Some(parent), None, None, Element::TSpan(TSpan::default()));
    set_atts(tree, node, attributes);
    node
}

fn tref(tree: &mut Tree, parent: NodeId, attributes: &[(&str, &str)]) -> NodeId {
    let node =
        node_new(tree, NodeType::TRef, Some(parent), None, None, Element::TRef(TRef::default()));
    set_atts(tree, node, attributes);
    node
}

fn chars(tree: &mut Tree, parent: NodeId, content: &str) -> NodeId {
    node_new(tree, NodeType::Chars, Some(parent), None, None, Element::Chars(Chars::new(content)))
}

fn chunks_of(tree: &Tree, node: NodeId) -> Vec<Chunk> {
    let cascaded = tree.node(node).get_cascaded_values();
    match tree.node(node).get_impl() {
        Element::Text(t) => t.make_chunks(tree, node, &cascaded, t.x, t.y),
        _ => panic!("not a text element"),
    }
}

fn span_texts(chunk: &Chunk) -> Vec<String> {
    chunk.spans().iter().map(|span| String::from(span.text())).collect()
}

fn run(layout: u64, width: i64) -> ShapedRun {
    ShapedRun { layout, width, height: 20 * UNIT, baseline: 16 * UNIT, baseline_shift: 0 }
}

fn measured(chunks: &Vec<Chunk>, widths: &[&[i64]]) -> Vec<MeasuredChunk> {
    let mut handle = 0;
    let shaped: Vec<Vec<ShapedRun>> = widths
        .iter()
        .map(|chunk| {
            chunk
                .iter()
                .map(|width| {
                    handle += 1;
                    run(handle, *width)
                })
                .collect()
        })
        .collect();
    measure_chunks(chunks, &shaped)
}

#[test]
fn chars_default() {
    let c = Chars::default();
    assert!(c.is_empty());
    assert!(c.space_normalized().is_none());
}

#[test]
fn chars_new() {
    let example = "Test 123";
    let c = Chars::new(example);
    assert_eq!(c.get_string(), example);
    assert!(c.space_normalized().is_none());
}

#[test]
fn chars_keep_the_normalized_text_until_more_is_appended() {
    let mut c = Chars::new("  a  b ");
    assert!(!c.is_empty());
    let mode = XmlSpaceNormalize::Default(NormalizeDefault {
        has_element_before: false,
        has_element_after: false,
    });
    c.ensure_normalized_string(mode);
    assert_eq!(c.space_normalized(), Some(String::from("a b")));
    assert_eq!(c.normalized_string(mode), "a b");
    assert_eq!(c.normalized_string(XmlSpaceNormalize::Preserve), "  a  b ");
    assert_eq!(c.get_string(), "  a  b ");
    c.append(" c");
    assert_eq!(c.get_string(), "  a  b  c");
    assert!(c.space_normalized().is_none());
    c.ensure_normalized_string(XmlSpaceNormalize::Preserve);
    assert_eq!(c.space_normalized(), Some(String::from("  a  b  c")));
}

#[test]
fn chars_without_text_make_no_span() {
    let values = ComputedValues::default();
    let mode = space_mode(&values, 0, 1);
    assert_eq!(
        mode,
        XmlSpaceNormalize::Default(NormalizeDefault {
            has_element_before: false,
            has_element_after: false,
        })
    );
    assert!(Chars::new(" \n ").make_span(mode, &values, 0, 0).is_none());
    let span = Chars::new(" x ").make_span(mode, &values, 3, -4).unwrap();
    assert_eq!(span.text(), "x");
    assert_eq!((span.dx(), span.dy()), (3, -4));
}

#[test]
fn chunk_count() {
    // <text>A<tspan x="10">B</tspan>C</text>
    let mut tree = Tree::new();
    let t = text(&mut tree, &[]);
    chars(&mut tree, t, "A");
    let span = tspan(&mut tree, t, &[("x", "10")]);
    chars(&mut tree, span, "B");
    chars(&mut tree, t, "C");
    Node::cascade(&mut tree, t, &ComputedValues::default());

    let chunks = chunks_of(&tree, t);
    assert_eq!(chunks.len(), 2);
    assert_eq!(span_texts(&chunks[0]), ["A"]);
    assert_eq!((chunks[0].x(), chunks[0].y()), (Some(0), Some(0)));
    assert_eq!(span_texts(&chunks[1]), ["B", "C"]);
    assert_eq!((chunks[1].x(), chunks[1].y()), (Some(10 * UNIT), None));
}

#[test]
fn a_tspan_without_a_position_stays_in_the_chunk() {
    let mut tree = Tree::new();
    let t = text(&mut tree, &[("x", "5"), ("y", "7"), ("dx", "1")]);
    chars(&mut tree, t, "A ");
    let outer = tspan(&mut tree, t, &[("dx", "2"), ("dy", "3"), ("fill", "red")]);
    chars(&mut tree, outer, "B");
    let inner = tspan(&mut tree, outer, &[("dy", "0.5")]);
    chars(&mut tree, inner, "C");
    let hidden = tspan(&mut tree, t, &[("display", "none"), ("y", "100")]);
    chars(&mut tree, hidden, "not displayed");
    Node::cascade(&mut tree, t, &ComputedValues::default());

    let chunks = chunks_of(&tree, t);
    assert_eq!(chunks.len(), 1);
    assert_eq!((chunks[0].x(), chunks[0].y()), (Some(5 * UNIT), Some(7 * UNIT)));
    let spans = chunks[0].spans();
    assert_eq!(span_texts(&chunks[0]), ["A ", "B", "C"]);
    assert_eq!((spans[0].dx(), spans[0].dy()), (1024, 0));
    assert_eq!((spans[1].dx(), spans[1].dy()), (3 * 1024, 3 * 1024));
    assert_eq!((spans[2].dx(), spans[2].dy()), (3 * 1024, 3 * 1024 + 512));
    assert_eq!(spans[0].values().get(Property::Fill), "black");
    assert_eq!(spans[1].values().get(Property::Fill), "red");
    assert_eq!(spans[2].values().get(Property::Fill), "red");
}

#[test]
fn white_space_depends_on_the_neighbours() {
    let mut tree = Tree::new();
    let t = text(&mut tree, &[]);
    chars(&mut tree, t, "  first  ");
    let span = tspan(&mut tree, t, &[]);
    chars(&mut tree, span, "  only child  ");
    chars(&mut tree, t, "  last  ");
    let preserved = tspan(&mut tree, t, &[("xml:space", "preserve")]);
    chars(&mut tree, preserved, "  kept \n as it is  ");
    Node::cascade(&mut tree, t, &ComputedValues::default());
    let chunks = chunks_of(&tree, t);
    assert_eq!(
        span_texts(&chunks[0]),
        ["first ", "only child", " last ", "  kept \n as it is  "]
    );
}

#[test]
fn reference_flattening() {
    let mut tree = Tree::new();
    let defs = node_new(&mut tree, NodeType::Defs, None, None, None, Element::Other(Ok(())));
    let source =
        node_new(&mut tree, NodeType::Text, Some(defs), Some("source"), None, Element::Text(Text::default()));
    set_atts(&mut tree, source, &[("fill", "red"), ("x", "100")]);
    chars(&mut tree, source, "one ");
    let nested = tspan(&mut tree, source, &[("x", "50"), ("dy", "9"), ("fill", "blue")]);
    chars(&mut tree, nested, "two");
    let deeper = tspan(&mut tree, nested, &[("y", "3")]);
    chars(&mut tree, deeper, " three");
    chars(&mut tree, source, " four");

    let t = text(&mut tree, &[("fill", "green")]);
    chars(&mut tree, t, "before");
    let reference = tref(&mut tree, t, &[("xlink:href", "#source"), ("stroke", "yellow")]);
    chars(&mut tree, t, "after");
    Node::cascade(&mut tree, defs, &ComputedValues::default());
    Node::cascade(&mut tree, t, &ComputedValues::default());
    assert!(matches!(tree.node(reference).get_impl(), Element::TRef(r) if r.link() == Some("source")));

    let chunks = chunks_of(&tree, t);
    // The positions and the nesting of the source do not count: all is one chunk.
    assert_eq!(chunks.len(), 1);
    assert_eq!(
        span_texts(&chunks[0]),
        ["before", "one ", "two", "three", " four", "after"]
    );
    let spans = chunks[0].spans();
    for span in &spans[1..5] {
        // Every flattened span has the values of the reference itself.
        assert_eq!(span.values().get(Property::Fill), "green");
        assert_eq!(span.values().get(Property::Stroke), "yellow");
        assert_eq!((span.dx(), span.dy()), (0, 0));
    }
    assert_eq!(spans[0].values().get(Property::Stroke), "none");
    assert_eq!(spans[5].values().get(Property::Stroke), "none");
}

#[test]
fn a_reference_that_does_not_resolve_adds_nothing() {
    let mut tree = Tree::new();
    let t = node_new(&mut tree, NodeType::Text, None, Some("self"), None, Element::Text(Text::default()));
    chars(&mut tree, t, "A");
    let dangling = tref(&mut tree, t, &[("xlink:href", "#nowhere")]);
    let circular = tref(&mut tree, t, &[("xlink:href", "#self")]);
    let external = tref(&mut tree, t, &[("xlink:href", "other.svg#self")]);
    let no_link = tref(&mut tree, t, &[]);
    chars(&mut tree, t, "B");
    Node::cascade(&mut tree, t, &ComputedValues::default());
    assert_eq!(tree.acquire(dangling, "nowhere"), Err(ReferenceError::NotFound));
    assert_eq!(tree.acquire(circular, "self"), Err(ReferenceError::Circular));
    assert!(matches!(tree.node(external).get_impl(), Element::TRef(r) if r.link().is_none()));
    assert!(matches!(tree.node(no_link).get_impl(), Element::TRef(r) if r.link().is_none()));
    let chunks = chunks_of(&tree, t);
    assert_eq!(chunks.len(), 1);
    assert_eq!(span_texts(&chunks[0]), ["A", "B"]);
}

#[test]
fn a_reference_resolves_to_the_first_element_with_the_identifier() {
    let mut tree = Tree::new();
    let a = node_new(&mut tree, NodeType::Group, None, Some("a"), None, Element::Other(Ok(())));
    let t = text(&mut tree, &[]);
    let reference = tref(&mut tree, t, &[("xlink:href", "#a")]);
    assert_eq!(tree.acquire(reference, "a"), Ok(a));
}

#[test]
fn text_anchor_math() {
    let advance = (100 * UNIT as i128, 0);
    assert_eq!(text_anchor_advance(TextAnchor::Start, WritingMode::LrTb, advance), (0, 0));
    assert_eq!(
        text_anchor_advance(TextAnchor::Middle, WritingMode::LrTb, advance),
        (-50 * UNIT as i128, 0)
    );
    assert_eq!(
        text_anchor_advance(TextAnchor::End, WritingMode::LrTb, advance),
        (-100 * UNIT as i128, 0)
    );
    let advance = (0, 7);
    assert_eq!(text_anchor_advance(TextAnchor::Start, WritingMode::Tb, advance), (0, 0));
    assert_eq!(text_anchor_advance(TextAnchor::Middle, WritingMode::Tb, advance), (0, -3));
    assert_eq!(text_anchor_advance(TextAnchor::End, WritingMode::TbRl, advance), (0, -7));
    assert_eq!(text_anchor_advance(TextAnchor::Middle, WritingMode::Tb, (0, -7)), (0, 3));

    // A chunk with the advance (100, 0), anchored in the middle, that starts
    // at x = 50, is laid out from x = 0.
    let mut tree = Tree::new();
    let t = text(&mut tree, &[("x", "50"), ("text-anchor", "middle")]);
    chars(&mut tree, t, "wide");
    Node::cascade(&mut tree, t, &ComputedValues::default());
    let chunks = chunks_of(&tree, t);
    let measured = measured(&chunks, &[&[100 * UNIT]]);
    assert_eq!(measured[0].advance(), (100 * UNIT as i128, 0));
    let placed = PositionedChunk::from_measured(&measured[0], 50 * UNIT, 0).unwrap();
    assert_eq!(placed.spans()[0].position(), (0, 0));
    assert_eq!(placed.next_position(), (100 * UNIT, 0));
}

#[test]
fn spans_and_chunks_follow_one_another() {
    let mut tree = Tree::new();
    let t = text(&mut tree, &[("x", "10"), ("y", "20")]);
    chars(&mut tree, t, "A");
    let moved = tspan(&mut tree, t, &[("dx", "1"), ("dy", "2")]);
    chars(&mut tree, moved, "B");
    let new_line = tspan(&mut tree, t, &[("y", "40")]);
    chars(&mut tree, new_line, "C");
    Node::cascade(&mut tree, t, &ComputedValues::default());
    let chunks = chunks_of(&tree, t);
    assert_eq!(chunks.len(), 2);
    let measured = measured(&chunks, &[&[30 * UNIT, 5 * UNIT], &[7 * UNIT]]);
    assert_eq!(measured[0].advance(), (35 * UNIT as i128, 0));
    let placed = position_chunks(&measured, 10 * UNIT, 20 * UNIT).unwrap();
    assert_eq!(placed.len(), 2);

    let a = &placed[0].spans()[0];
    assert_eq!(a.layout(), 1);
    assert_eq!(a.position(), (10 * UNIT, 20 * UNIT));
    // The baseline of the run lies at the position: the run is drawn above it.
    assert_eq!(a.rendered_position(), (10 * UNIT, 4 * UNIT));
    assert_eq!(a.next_position(), (40 * UNIT, 20 * UNIT));
    let b = &placed[0].spans()[1];
    assert_eq!(b.position(), (40 * UNIT, 20 * UNIT));
    assert_eq!(b.rendered_position(), (41 * UNIT, 6 * UNIT));
    assert_eq!(b.next_position(), (46 * UNIT, 22 * UNIT));
    assert_eq!(placed[0].next_position(), (46 * UNIT, 22 * UNIT));
    // The second chunk gives y only: x runs on from where the first ended.
    let c = &placed[1].spans()[0];
    assert_eq!(c.position(), (46 * UNIT, 40 * UNIT));
    assert_eq!(c.next_position(), (53 * UNIT, 40 * UNIT));

    let requests = match tree.node(t).get_impl() {
        Element::Text(element) => element.draw(&measured).unwrap(),
        _ => panic!("not a text element"),
    };
    assert_eq!(requests.len(), 3);
    assert_eq!(
        requests.iter().map(|r| (r.layout, r.x, r.y)).collect::<Vec<_>>(),
        [(1, 10 * UNIT, 4 * UNIT), (2, 41 * UNIT, 6 * UNIT), (3, 46 * UNIT, 24 * UNIT)]
    );
    assert!(requests.iter().all(|r| r.is_visible && r.fill == "black" && r.stroke == "none"));
}

#[test]
fn vertical_text_advances_along_y() {
    let mut tree = Tree::new();
    let t = text(
        &mut tree,
        &[("y", "100"), ("writing-mode", "tb"), ("text-anchor", "end"), ("visibility", "hidden")],
    );
    chars(&mut tree, t, "A");
    Node::cascade(&mut tree, t, &ComputedValues::default());
    let chunks = chunks_of(&tree, t);
    let measured = measured(&chunks, &[&[30 * UNIT]]);
    assert_eq!(measured[0].advance(), (0, 30 * UNIT as i128));
    // The first chunk says where it starts: the running position is not used.
    let placed = position_chunks(&measured, 0, 0).unwrap();
    let a = &placed[0].spans()[0];
    assert_eq!(a.position(), (0, 70 * UNIT));
    assert_eq!(a.rendered_position(), (16 * UNIT, 70 * UNIT));
    assert_eq!(a.next_position(), (0, 100 * UNIT));
    assert!(!a.draw().is_visible);
}

#[test]
fn coordinates_that_cannot_be_kept_place_nothing() {
    let mut tree = Tree::new();
    let t = text(&mut tree, &[]);
    chars(&mut tree, t, "A");
    let far = tspan(&mut tree, t, &[]);
    chars(&mut tree, far, "B");
    Node::cascade(&mut tree, t, &ComputedValues::default());
    let chunks = chunks_of(&tree, t);
    let measured = measured(&chunks, &[&[i64::MAX - 1, 1]]);
    assert!(position_chunks(&measured, 0, 0).is_some());
    assert!(PositionedChunk::from_measured(&measured[0], 0, 0).is_some());
    assert!(PositionedChunk::from_measured(&measured[0], 1, 0).is_none());
    // The run is drawn above its baseline.
    assert!(PositionedChunk::from_measured(&measured[0], 0, i64::MIN).is_none());
}

#[test]
fn layout_settings_follow_the_values() {
    let values = ComputedValues::default();
    let settings = layout_settings(&values);
    assert_eq!(settings.base_gravity, Gravity::South);
    assert_eq!(settings.base_dir, Direction::Ltr);
    assert_eq!(settings.alignment, Alignment::Left);
    assert!(!settings.underline && !settings.strike && !settings.small_caps);

    let mut tree = Tree::new();
    let t = text(
        &mut tree,
        &[
            ("writing-mode", "tb-rl"),
            ("direction", "rtl"),
            ("text-decoration", "underline  line-through"),
            ("font-variant", "small-caps"),
        ],
    );
    Node::cascade(&mut tree, t, &ComputedValues::default());
    let settings = layout_settings(tree.node(t).values());
    assert_eq!(settings.base_gravity, Gravity::East);
    assert_eq!(settings.base_dir, Direction::Rtl);
    assert_eq!(settings.alignment, Alignment::Right);
    assert!(settings.underline && settings.strike && settings.small_caps);

    assert_eq!(base_direction(UnicodeBidi::Normal, Direction::Ltr, WritingMode::RlTb), Direction::Rtl);
    assert_eq!(base_direction(UnicodeBidi::Embed, Direction::Ltr, WritingMode::RlTb), Direction::Ltr);
    assert_eq!(base_direction(UnicodeBidi::Override, Direction::Rtl, WritingMode::LrTb), Direction::Rtl);
    assert_eq!(base_direction(UnicodeBidi::Normal, Direction::Rtl, WritingMode::LrTb), Direction::Rtl);
    assert_eq!(base_direction(UnicodeBidi::Normal, Direction::Ltr, WritingMode::Tb), Direction::Ltr);
}

#[test]
fn the_extent_of_an_element_holds_the_extents_of_its_spans() {
    let rect = |x0, y0, x1, y1| BoundingBox { rect: Some(Rect { x0, y0, x1, y1 }) };
    let mut bbox = BoundingBox::new();
    assert_eq!(bbox.rect, None);
    bbox.insert(&BoundingBox::new());
    assert_eq!(bbox.rect, None);
    bbox.insert(&rect(0, 10, 5, 20));
    assert_eq!(bbox, rect(0, 10, 5, 20));
    bbox.insert(&rect(-3, 12, 4, 25));
    assert_eq!(bbox, rect(-3, 10, 5, 25));
    bbox.insert(&BoundingBox::new());
    assert_eq!(bbox, rect(-3, 10, 5, 25));

    let outcomes = vec![
        DrawOutcome { result: Ok(rect(0, 0, 1, 1)) },
        DrawOutcome { result: Ok(BoundingBox::new()) },
        DrawOutcome { result: Ok(rect(5, -5, 6, 0)) },
    ];
    assert_eq!(aggregate(&outcomes), Ok(rect(0, -5, 6, 1)));
    assert_eq!(aggregate(&Vec::new()), Ok(BoundingBox::new()));
    let outcomes = vec![
        DrawOutcome { result: Ok(rect(0, 0, 1, 1)) },
        DrawOutcome { result: Err(RenderingError { message: String::from("first") }) },
        DrawOutcome { result: Err(RenderingError { message: String::from("second") }) },
    ];
    assert_eq!(aggregate(&outcomes), Err(RenderingError { message: String::from("first") }));
}

#[test]
fn position_attributes_stop_at_the_first_that_is_no_length() {
    let error = |attr| {
        Err(NodeError { attr, err: ValueErrorKind::Parse(String::from("expected a number")) })
    };
    let mut t = Text::default();
    assert_eq!(t.set_attributes(&bag(&[("x", "1"), ("fill", "red"), ("dy", "2"), ("y", " 3 ")])), Ok(()));
    assert_eq!(t, Text { x: UNIT, y: 3 * UNIT, dx: 0, dy: 2 * UNIT });
    assert_eq!(t.set_attributes(&bag(&[("dx", "4"), ("y", "five"), ("x", "6")])), error(Attribute::Y));
    assert_eq!(t, Text { x: UNIT, y: 3 * UNIT, dx: 4 * UNIT, dy: 2 * UNIT });

    let mut s = TSpan::default();
    assert_eq!(s, TSpan { x: None, y: None, dx: 0, dy: 0 });
    assert_eq!(s.set_attributes(&bag(&[("y", "-1"), ("dx", "1e3"), ("x", "6")])), error(Attribute::Dx));
    assert_eq!(s, TSpan { x: None, y: Some(-UNIT), dx: 0, dy: 0 });
    assert_eq!(s.set_attributes(&bag(&[("x", "0")])), Ok(()));
    assert_eq!(s.x, Some(0));

    // In the tree the error puts the node in error, and the presentation
    // attributes are not reached.
    let mut tree = Tree::new();
    let node = node_new(&mut tree, NodeType::Text, None, None, None, Element::Text(Text::default()));
    let locale = Locale::new("en").unwrap();
    let transform: Result<Matrix, ValueErrorKind> = Ok(Matrix::identity());
    Node::set_atts(&mut tree, node, &bag(&[("fill", "red"), ("x", "wide")]), &locale, &transform);
    assert!(tree.node(node).is_in_error());
    assert_eq!(
        *tree.node(node).specified_values().get(Property::Fill),
        rsvg_text::properties::SpecifiedValue::Unspecified
    );
}

#[test]
fn a_link_is_what_follows_the_number_sign() {
    let mut r = TRef::default();
    assert_eq!(r.link(), None);
    assert_eq!(r.set_attributes(&bag(&[("x", "1"), ("xlink:href", "#a"), ("xlink:href", "#b")])), Ok(()));
    assert_eq!(r.link(), Some("a"));
    for href in ["", "#", "a", "a#b", "#a#b", "##"] {
        assert_eq!(r.set_attributes(&bag(&[("xlink:href", href)])), Ok(()));
        assert_eq!(r.link(), None, "{:?}", href);
    }
    assert_eq!(r.set_attributes(&bag(&[("xlink:href", "#text 1")])), Ok(()));
    assert_eq!(r.link(), Some("text 1"));
    assert_eq!(r.set_attributes(&bag(&[])), Ok(()));
    assert_eq!(r.link(), None);
}
