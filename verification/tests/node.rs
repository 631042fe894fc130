use locale_config::Locale;
use rsvg_text::attributes::{Attribute, PropertyBag};
use rsvg_text::css::{CssRules, Declaration};
use rsvg_text::error::{NodeError, ValueErrorKind};
use rsvg_text::node::{
    node_new, CascadedValues, ConditionOutcome, DrawAction, Element, Matrix, Node, NodeId,
    NodeType, Tree,
};
use rsvg_text::properties::{ComputedValues, Property, SpecifiedValue};
use rsvg_text::text::{Chars, TRef, TSpan, Text};

fn bag(attributes: &[(&str, &str)]) -> PropertyBag {
    let mut bag = PropertyBag::new();
    for (name, value) in attributes {
        bag.push_named(name, value);
    }
    bag
}

fn declaration(property: Property, value: &str, important: bool) -> Declaration {
    Declaration { property, value: String::from(value), important }
}

fn specified(value: &str) -> SpecifiedValue {
    SpecifiedValue::Specified(String::from(value))
}

fn no_transform() -> Result<Matrix, ValueErrorKind> {
    Ok(Matrix::identity())
}

fn other(tree: &mut Tree, kind: NodeType, parent: Option<NodeId>, id: Option<&str>, class: Option<&str>) -> NodeId {
    node_new(tree, kind, parent, id, class, Element::Other(Ok(())))
}

#[test]
fn a_new_node_is_in_order() {
    let mut tree = Tree::new();
    let svg = other(&mut tree, NodeType::Svg, None, None, None);
    let rect = other(&mut tree, NodeType::Rect, Some(svg), Some("x"), Some("a b"));
    assert_eq!(tree.len(), 2);
    let node = tree.node(rect);
    assert_eq!(node.get_type(), NodeType::Rect);
    assert_eq!(node.get_id(), Some("x"));
    assert_eq!(node.get_class(), Some("a b"));
    assert_eq!(node.parent(), Some(svg));
    assert!(node.children().is_empty());
    assert_eq!(node.get_transform(), Matrix::identity());
    assert!(node.get_cond());
    assert!(!node.is_in_error());
    assert!(!node.is_overflow());
    assert_eq!(node.get_human_readable_name(), "Rect id=x");
    assert_eq!(tree.node(svg).get_human_readable_name(), "Svg id=None");
    assert_eq!(tree.node(svg).children(), &vec![rect]);
    assert_eq!(node.values().get(Property::Fill), "black");
    assert_eq!(node.draw(), DrawAction::Draw(Matrix::identity()));
}

#[test]
fn element_names() {
    assert_eq!(NodeType::Rect.element_name(), "rect");
    assert_eq!(NodeType::Chars.element_name(), "rsvg-chars");
    assert_eq!(NodeType::Link.element_name(), "a");
    assert_eq!(NodeType::FilterPrimitiveBlend.element_name(), "feBlend");
    assert_eq!(NodeType::TSpan.element_name(), "tspan");
}

#[test]
fn set_atts_reads_the_attributes_in_four_steps() {
    let mut tree = Tree::new();
    let text = node_new(&mut tree, NodeType::Text, None, None, None, Element::Text(Text::default()));
    let locale = Locale::new("de,en-US").unwrap();
    let matrix = Matrix { xx: 1, yx: 2, xy: 3, yy: 4, x0: 5, y0: 6 };
    Node::set_atts(
        &mut tree,
        text,
        &bag(&[
            ("transform", "matrix(...)"),
            ("systemLanguage", "de"),
            ("x", "10"),
            ("dy", "-2.5"),
            ("fill", "red"),
            ("text-anchor", "middle"),
            ("style", "stroke: blue"),
        ]),
        &locale,
        &Ok(matrix),
    );
    let node = tree.node(text);
    assert!(!node.is_in_error());
    assert!(node.get_cond());
    assert_eq!(node.get_transform(), matrix);
    assert_eq!(*node.specified_values().get(Property::Fill), specified("red"));
    assert_eq!(*node.specified_values().get(Property::TextAnchor), specified("middle"));
    // The style attribute is only put by.
    assert_eq!(*node.specified_values().get(Property::Stroke), SpecifiedValue::Unspecified);
    match node.get_impl() {
        Element::Text(t) => {
            assert_eq!(*t, Text { x: 10 * 1024, y: 0, dx: 0, dy: -2560 });
        }
        _ => panic!("not a text element"),
    }
}

#[test]
fn the_last_transform_attribute_counts() {
    let attributes = bag(&[("transform", "first"), ("fill", "red"), ("transform", "second")]);
    assert_eq!(Node::transform_attribute(&attributes), Some(2));
    assert_eq!(Node::transform_attribute(&bag(&[("fill", "red")])), None);
    assert_eq!(Node::transform_attribute(&bag(&[])), None);
}

#[test]
fn an_invalid_transform_puts_the_node_in_error_and_ends_the_steps() {
    let mut tree = Tree::new();
    let g = other(&mut tree, NodeType::Group, None, None, None);
    let rect = other(&mut tree, NodeType::Rect, Some(g), None, None);
    let circle = other(&mut tree, NodeType::Circle, Some(g), None, None);
    let locale = Locale::new("en").unwrap();
    Node::set_atts(
        &mut tree,
        g,
        &bag(&[("fill", "red"), ("transform", "rotate("), ("requiredFeatures", "nothing")]),
        &locale,
        &Err(ValueErrorKind::parse_error("unbalanced parenthesis")),
    );
    Node::set_atts(&mut tree, rect, &bag(&[("stroke", "blue")]), &locale, &no_transform());
    assert!(tree.node(g).is_in_error());
    assert_eq!(tree.node(g).draw(), DrawAction::Skip);
    // Conditional processing and the presentation attributes were not reached.
    assert!(tree.node(g).get_cond());
    assert_eq!(*tree.node(g).specified_values().get(Property::Fill), SpecifiedValue::Unspecified);
    // The other nodes are in order.
    assert!(!tree.node(rect).is_in_error());
    assert!(!tree.node(circle).is_in_error());

    // The node in error is cascaded like any other, and so are its children.
    let mut root_values = ComputedValues::default();
    let mut declares = rsvg_text::properties::SpecifiedValues::default();
    declares.set(Property::Fill, specified("green"));
    declares.to_computed_values(&mut root_values);
    Node::cascade(&mut tree, g, &root_values);
    assert_eq!(tree.node(g).values().get(Property::Fill), "green");
    assert_eq!(tree.node(rect).values().get(Property::Fill), "green");
    assert_eq!(tree.node(rect).values().get(Property::Stroke), "blue");
    assert_eq!(tree.node(circle).values().get(Property::Fill), "green");

    // Every child is handed out for drawing, and is drawn if it is in order.
    let cascaded = tree.node(g).get_cascaded_values();
    let children = Node::draw_children(&tree, g, &cascaded);
    assert_eq!(children.len(), 2);
    assert_eq!(children[0].0, rect);
    assert_eq!(children[1].0, circle);
    assert_eq!(children[0].1.get().get(Property::Stroke), "blue");
    assert_eq!(tree.node(rect).draw(), DrawAction::Draw(Matrix::identity()));
}

#[test]
fn a_transform_that_is_not_there_is_not_looked_at() {
    let mut tree = Tree::new();
    let g = other(&mut tree, NodeType::Group, None, None, None);
    let locale = Locale::new("en").unwrap();
    Node::set_atts(
        &mut tree,
        g,
        &bag(&[("fill", "red")]),
        &locale,
        &Err(ValueErrorKind::parse_error("nothing to parse")),
    );
    assert!(!tree.node(g).is_in_error());
    assert_eq!(*tree.node(g).specified_values().get(Property::Fill), specified("red"));
}

#[test]
fn a_false_verdict_is_final() {
    // Once requiredFeatures evaluates to false, what follows is not evaluated:
    // not even a systemLanguage attribute with an invalid value is an error.
    let mut tree = Tree::new();
    let g = other(&mut tree, NodeType::Group, None, None, None);
    let locale = Locale::new("de,en-US").unwrap();
    Node::set_atts(
        &mut tree,
        g,
        &bag(&[
            ("requiredFeatures", "http://www.w3.org/TR/SVG11/feature#NotExisting"),
            ("requiredExtensions", ""),
            ("systemLanguage", "12345"),
            ("systemLanguage", "de"),
        ]),
        &locale,
        &no_transform(),
    );
    assert!(!tree.node(g).get_cond());
    assert!(!tree.node(g).is_in_error());
}

#[test]
fn an_invalid_system_language_is_an_error_while_the_verdict_is_true() {
    let mut tree = Tree::new();
    let g = other(&mut tree, NodeType::Group, None, None, None);
    let locale = Locale::new("de,en-US").unwrap();
    Node::set_atts(
        &mut tree,
        g,
        &bag(&[
            ("requiredFeatures", "http://www.w3.org/TR/SVG11/feature#BasicText"),
            ("systemLanguage", "12345"),
            ("fill", "red"),
        ]),
        &locale,
        &no_transform(),
    );
    assert!(tree.node(g).is_in_error());
    assert!(tree.node(g).get_cond());
    assert_eq!(*tree.node(g).specified_values().get(Property::Fill), SpecifiedValue::Unspecified);
}

#[test]
fn conditions_are_folded_in_order() {
    let mut tree = Tree::new();
    let g = other(&mut tree, NodeType::Group, None, None, None);
    let outcomes = vec![
        ConditionOutcome { attr: Attribute::RequiredFeatures, verdict: Ok(true) },
        ConditionOutcome { attr: Attribute::SystemLanguage, verdict: Ok(false) },
        ConditionOutcome {
            attr: Attribute::SystemLanguage,
            verdict: Err(ValueErrorKind::parse_error("not reached")),
        },
        ConditionOutcome { attr: Attribute::RequiredExtensions, verdict: Ok(true) },
    ];
    Node::set_atts_with(&mut tree, g, &bag(&[]), &outcomes, &no_transform());
    assert!(!tree.node(g).get_cond());
    assert!(!tree.node(g).is_in_error());

    let h = other(&mut tree, NodeType::Group, None, None, None);
    let outcomes = vec![
        ConditionOutcome { attr: Attribute::RequiredFeatures, verdict: Ok(true) },
        ConditionOutcome {
            attr: Attribute::SystemLanguage,
            verdict: Err(ValueErrorKind::parse_error("reached")),
        },
        ConditionOutcome { attr: Attribute::RequiredExtensions, verdict: Ok(false) },
    ];
    Node::set_atts_with(&mut tree, h, &bag(&[]), &outcomes, &no_transform());
    assert!(tree.node(h).get_cond());
    assert!(tree.node(h).is_in_error());
}

#[test]
fn the_outcome_of_an_element_of_another_kind_is_the_third_step() {
    let mut tree = Tree::new();
    let error = NodeError {
        attr: Attribute::Other,
        err: ValueErrorKind::value_error("width must not be negative"),
    };
    let rect = node_new(&mut tree, NodeType::Rect, None, None, None, Element::Other(Err(error)));
    let locale = Locale::new("en").unwrap();
    Node::set_atts(&mut tree, rect, &bag(&[("fill", "red")]), &locale, &no_transform());
    assert!(tree.node(rect).is_in_error());
    // The presentation attributes come after the element's own.
    assert_eq!(*tree.node(rect).specified_values().get(Property::Fill), SpecifiedValue::Unspecified);
}

#[test]
fn an_error_in_a_presentation_attribute_is_not_kept() {
    let mut tree = Tree::new();
    let rect = other(&mut tree, NodeType::Rect, None, None, None);
    let locale = Locale::new("en").unwrap();
    Node::set_atts(
        &mut tree,
        rect,
        &bag(&[("fill", "red"), ("visibility", "maybe"), ("stroke", "blue")]),
        &locale,
        &no_transform(),
    );
    assert!(!tree.node(rect).is_in_error());
    assert_eq!(*tree.node(rect).specified_values().get(Property::Fill), specified("red"));
    assert_eq!(*tree.node(rect).specified_values().get(Property::Stroke), SpecifiedValue::Unspecified);
}

fn styled_rect(rules: &CssRules, style: &str) -> SpecifiedValue {
    let mut tree = Tree::new();
    let rect = other(&mut tree, NodeType::Rect, None, Some("x"), Some("a"));
    let locale = Locale::new("en").unwrap();
    Node::set_atts(&mut tree, rect, &bag(&[("fill", "attribute"), ("style", style)]), &locale, &no_transform());
    Node::set_styles_recursively(&mut tree, rect, rules);
    assert!(!tree.node(rect).is_in_error());
    tree.node(rect).specified_values().get(Property::Fill).duplicate()
}

#[test]
fn selector_precedence() {
    let mut rules = CssRules::new();
    rules.add_rule("*", vec![declaration(Property::Fill, "universal", false)]);
    rules.add_rule("rect", vec![declaration(Property::Fill, "name", false)]);
    rules.add_rule(".a", vec![declaration(Property::Fill, "class", false)]);
    rules.add_rule("#x", vec![declaration(Property::Fill, "id", false)]);
    assert_eq!(styled_rect(&rules, "fill:V"), specified("V"));
    assert_eq!(styled_rect(&rules, ""), specified("id"));

    for (important, expected) in [("*", "universal"), ("rect", "name"), (".a", "class"), ("#x", "id")] {
        let mut rules = CssRules::new();
        for (selector, value) in [("*", "universal"), ("rect", "name"), (".a", "class"), ("#x", "id")] {
            rules.add_rule(selector, vec![declaration(Property::Fill, value, selector == important)]);
        }
        assert_eq!(styled_rect(&rules, "fill:V"), specified(expected));
        // An important declaration in the style attribute comes later, and wins.
        assert_eq!(styled_rect(&rules, "fill:V !important"), specified("V"));
    }
}

#[test]
fn class_selectors_are_tried_from_the_most_specific() {
    let selectors = ["rect.a#x", ".a#x", "rect.a", ".a"];
    for first in 0..selectors.len() {
        let mut rules = CssRules::new();
        for selector in &selectors[first..] {
            rules.add_rule(selector, vec![declaration(Property::Stroke, selector, false)]);
        }
        let mut tree = Tree::new();
        let rect = other(&mut tree, NodeType::Rect, None, Some("x"), Some("a"));
        Node::set_styles_recursively(&mut tree, rect, &rules);
        assert_eq!(*tree.node(rect).specified_values().get(Property::Stroke), specified(selectors[first]));
    }
    // Without an identifier only the last two are tried.
    let mut rules = CssRules::new();
    for selector in selectors {
        rules.add_rule(selector, vec![declaration(Property::Stroke, selector, false)]);
    }
    let mut tree = Tree::new();
    let rect = other(&mut tree, NodeType::Rect, None, None, Some("b  a"));
    Node::set_styles_recursively(&mut tree, rect, &rules);
    assert_eq!(*tree.node(rect).specified_values().get(Property::Stroke), specified("rect.a"));
}

#[test]
fn id_selectors_come_after_class_selectors() {
    let mut rules = CssRules::new();
    rules.add_rule("rect#x", vec![declaration(Property::Fill, "rect#x", false)]);
    rules.add_rule("#x", vec![declaration(Property::Fill, "#x", false)]);
    rules.add_rule("rect.a#x", vec![declaration(Property::Fill, "rect.a#x", false)]);
    let mut tree = Tree::new();
    let rect = other(&mut tree, NodeType::Rect, None, Some("x"), Some("a"));
    Node::set_styles_recursively(&mut tree, rect, &rules);
    assert_eq!(*tree.node(rect).specified_values().get(Property::Fill), specified("rect#x"));
}

#[test]
fn styles_are_set_below_the_node_only() {
    let mut rules = CssRules::new();
    rules.add_rule("*", vec![declaration(Property::Fill, "red", false)]);
    let mut tree = Tree::new();
    let svg = other(&mut tree, NodeType::Svg, None, None, None);
    let g = other(&mut tree, NodeType::Group, Some(svg), None, None);
    let sibling = other(&mut tree, NodeType::Group, Some(svg), None, None);
    let rect = other(&mut tree, NodeType::Rect, Some(g), None, None);
    let deep = other(&mut tree, NodeType::Circle, Some(rect), None, None);
    let late = other(&mut tree, NodeType::Circle, Some(sibling), None, None);
    Node::set_styles_recursively(&mut tree, g, &rules);
    for node in [g, rect, deep] {
        assert_eq!(*tree.node(node).specified_values().get(Property::Fill), specified("red"));
    }
    for node in [svg, sibling, late] {
        assert_eq!(*tree.node(node).specified_values().get(Property::Fill), SpecifiedValue::Unspecified);
    }
}

#[test]
fn an_error_in_the_style_attribute_puts_the_node_in_error() {
    let mut tree = Tree::new();
    let rect = other(&mut tree, NodeType::Rect, None, None, None);
    let locale = Locale::new("en").unwrap();
    Node::set_atts(&mut tree, rect, &bag(&[("style", "fill: red; display: nothing")]), &locale, &no_transform());
    assert!(!tree.node(rect).is_in_error());
    Node::set_styles_recursively(&mut tree, rect, &CssRules::new());
    assert!(tree.node(rect).is_in_error());
    assert_eq!(*tree.node(rect).specified_values().get(Property::Fill), specified("red"));
}

fn values_of(tree: &Tree) -> Vec<Vec<String>> {
    let mut all = Vec::new();
    for node in 0..tree.len() {
        let mut values = Vec::new();
        for i in 0..rsvg_text::properties::PROPERTY_COUNT {
            values.push(String::from(tree.node(node).values().get(Property::from_index(i))));
        }
        all.push(values);
    }
    all
}

#[test]
fn cascade_is_a_pure_function() {
    let mut tree = Tree::new();
    let svg = other(&mut tree, NodeType::Svg, None, None, None);
    let g = other(&mut tree, NodeType::Group, Some(svg), None, None);
    let rect = other(&mut tree, NodeType::Rect, Some(g), None, None);
    let sibling = other(&mut tree, NodeType::Circle, Some(svg), None, None);
    let locale = Locale::new("en").unwrap();
    Node::set_atts(&mut tree, svg, &bag(&[("fill", "red"), ("display", "block")]), &locale, &no_transform());
    Node::set_atts(&mut tree, g, &bag(&[("stroke", "blue"), ("fill", "inherit")]), &locale, &no_transform());
    Node::set_atts(&mut tree, rect, &bag(&[("display", "inherit")]), &locale, &no_transform());
    Node::cascade(&mut tree, svg, &ComputedValues::default());
    let once = values_of(&tree);
    Node::cascade(&mut tree, svg, &ComputedValues::default());
    assert_eq!(values_of(&tree), once);

    assert_eq!(tree.node(svg).values().get(Property::Fill), "red");
    assert_eq!(tree.node(g).values().get(Property::Fill), "red");
    assert_eq!(tree.node(rect).values().get(Property::Fill), "red");
    assert_eq!(tree.node(rect).values().get(Property::Stroke), "blue");
    assert_eq!(tree.node(sibling).values().get(Property::Stroke), "none");
    // display is not inherited, unless an element asks for it.
    assert_eq!(tree.node(svg).values().get(Property::Display), "block");
    assert_eq!(tree.node(g).values().get(Property::Display), "inline");
    assert_eq!(tree.node(rect).values().get(Property::Display), "inline");
}

#[test]
fn cascade_of_a_subtree_leaves_the_rest_alone() {
    let mut tree = Tree::new();
    let svg = other(&mut tree, NodeType::Svg, None, None, None);
    let g = other(&mut tree, NodeType::Group, Some(svg), None, None);
    let sibling = other(&mut tree, NodeType::Circle, Some(svg), None, None);
    let rect = other(&mut tree, NodeType::Rect, Some(g), None, None);
    Node::cascade(&mut tree, svg, &ComputedValues::default());
    let mut start = ComputedValues::default();
    let mut declares = rsvg_text::properties::SpecifiedValues::default();
    declares.set(Property::Fill, specified("green"));
    declares.to_computed_values(&mut start);
    Node::cascade(&mut tree, g, &start);
    assert_eq!(tree.node(g).values().get(Property::Fill), "green");
    assert_eq!(tree.node(rect).values().get(Property::Fill), "green");
    assert_eq!(tree.node(svg).values().get(Property::Fill), "black");
    assert_eq!(tree.node(sibling).values().get(Property::Fill), "black");
}

#[test]
fn cascaded_values_for_an_instanced_subtree() {
    let mut tree = Tree::new();
    let g = other(&mut tree, NodeType::Group, None, None, None);
    let rect = other(&mut tree, NodeType::Rect, Some(g), None, None);
    let locale = Locale::new("en").unwrap();
    Node::set_atts(&mut tree, rect, &bag(&[("stroke", "blue")]), &locale, &no_transform());
    Node::cascade(&mut tree, g, &ComputedValues::default());

    let mut start = ComputedValues::default();
    let mut declares = rsvg_text::properties::SpecifiedValues::default();
    declares.set(Property::Fill, specified("green"));
    declares.to_computed_values(&mut start);
    let cascaded = CascadedValues::new_from_values(tree.node(g), &start);
    assert_eq!(cascaded.get().get(Property::Fill), "green");
    let below = cascaded.new(tree.node(rect));
    assert_eq!(below.get().get(Property::Fill), "green");
    assert_eq!(below.get().get(Property::Stroke), "blue");
    // The nodes themselves keep the values of the last cascade.
    assert_eq!(tree.node(rect).values().get(Property::Fill), "black");
    let from_node = tree.node(g).get_cascaded_values();
    assert_eq!(from_node.new(tree.node(rect)).get().get(Property::Fill), "black");
}

#[test]
fn set_error_and_overflow() {
    let mut tree = Tree::new();
    let svg = other(&mut tree, NodeType::Svg, None, None, None);
    Node::set_overflow_hidden(&mut tree, svg);
    assert_eq!(*tree.node(svg).specified_values().get(Property::Overflow), specified("hidden"));
    Node::set_overridden_properties(&mut tree, svg);
    assert_eq!(*tree.node(svg).specified_values().get(Property::Overflow), specified("hidden"));
    Node::set_error(
        &mut tree,
        svg,
        NodeError { attr: Attribute::Other, err: ValueErrorKind::value_error("found wanting") },
    );
    assert!(tree.node(svg).is_in_error());
}

#[test]
fn the_last_chars_child_takes_more_text() {
    let mut tree = Tree::new();
    let text = node_new(&mut tree, NodeType::Text, None, None, None, Element::Text(Text::default()));
    assert_eq!(Node::find_last_chars_child(&tree, text), None);
    let chars = node_new(&mut tree, NodeType::Chars, Some(text), None, None, Element::Chars(Chars::new("Foo")));
    assert_eq!(Node::find_last_chars_child(&tree, text), Some(chars));
    assert!(Node::append_chars(&mut tree, chars, " Bar"));
    let tspan = node_new(&mut tree, NodeType::TSpan, Some(text), None, None, Element::TSpan(TSpan::default()));
    assert_eq!(Node::find_last_chars_child(&tree, text), None);
    assert!(!Node::append_chars(&mut tree, tspan, "x"));
    let got = tree.node(chars).with_impl(|e| match e {
        Element::Chars(c) => c.get_string(),
        _ => String::new(),
    });
    assert_eq!(got, "Foo Bar");
}

#[test]
fn lookup_by_identifier() {
    let mut tree = Tree::new();
    let a = other(&mut tree, NodeType::Group, None, Some("a"), None);
    let b = other(&mut tree, NodeType::Group, Some(a), Some("b"), None);
    let again = other(&mut tree, NodeType::Group, Some(a), Some("b"), None);
    let tref = node_new(&mut tree, NodeType::TRef, Some(b), None, None, Element::TRef(TRef::default()));
    assert_eq!(tree.lookup_id("a"), Some(a));
    assert_eq!(tree.lookup_id("b"), Some(b));
    assert_eq!(tree.lookup_id("c"), None);
    assert!(tree.is_below(tref, a));
    assert!(tree.is_below(tref, b));
    assert!(tree.is_below(b, b));
    assert!(!tree.is_below(tref, again));
    assert!(!tree.is_below(a, b));
}
