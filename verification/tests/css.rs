use rsvg_text::attributes::{Attribute, PropertyBag};
use rsvg_text::css::{CssRules, Declaration};
use rsvg_text::error::{NodeError, ValueErrorKind};
use rsvg_text::node::try_apply_by_selector;
use rsvg_text::properties::{ImportantStyles, Property, SpecifiedValue, SpecifiedValues};

fn declaration(property: Property, value: &str, important: bool) -> Declaration {
    Declaration { property, value: String::from(value), important }
}

fn specified(value: &str) -> SpecifiedValue {
    SpecifiedValue::Specified(String::from(value))
}

#[test]
fn lookup_finds_the_first_rule_for_a_selector() {
    let mut rules = CssRules::new();
    assert!(rules.lookup("rect").is_none());
    rules.add_rule("rect", vec![declaration(Property::Fill, "red", false)]);
    rules.add_rule(".a", vec![]);
    rules.add_rule("rect", vec![declaration(Property::Fill, "blue", false)]);
    let found = rules.lookup("rect").unwrap();
    assert_eq!(found.len(), 1);
    assert_eq!(found[0].value, "red");
    assert_eq!(rules.lookup(".a").unwrap().len(), 0);
    assert!(rules.lookup("circle").is_none());
}

#[test]
fn a_later_declaration_wins() {
    let mut values = SpecifiedValues::default();
    let mut important = ImportantStyles::new();
    values.set_property_from_declaration(&declaration(Property::Fill, "red", false), &mut important);
    values.set_property_from_declaration(&declaration(Property::Fill, "blue", false), &mut important);
    assert_eq!(*values.get(Property::Fill), specified("blue"));
    assert!(!important.contains(Property::Fill));
}

#[test]
fn an_important_declaration_blocks_later_ones_that_are_not() {
    let mut values = SpecifiedValues::default();
    let mut important = ImportantStyles::new();
    values.set_property_from_declaration(&declaration(Property::Fill, "red", true), &mut important);
    assert!(important.contains(Property::Fill));
    values.set_property_from_declaration(&declaration(Property::Fill, "blue", false), &mut important);
    assert_eq!(*values.get(Property::Fill), specified("red"));
    // Another property is not blocked.
    values.set_property_from_declaration(&declaration(Property::Stroke, "blue", false), &mut important);
    assert_eq!(*values.get(Property::Stroke), specified("blue"));
    // A later important declaration still wins.
    values.set_property_from_declaration(&declaration(Property::Fill, "green", true), &mut important);
    assert_eq!(*values.get(Property::Fill), specified("green"));
}

#[test]
fn a_value_that_is_not_accepted_is_passed_over_in_a_rule() {
    let mut values = SpecifiedValues::default();
    let mut important = ImportantStyles::new();
    values.set_property_from_declaration(
        &declaration(Property::TextAnchor, "middle", false),
        &mut important,
    );
    values.set_property_from_declaration(
        &declaration(Property::TextAnchor, "somewhere", false),
        &mut important,
    );
    assert_eq!(*values.get(Property::TextAnchor), specified("middle"));
}

#[test]
fn try_apply_by_selector_says_whether_there_is_a_rule() {
    let mut rules = CssRules::new();
    rules.add_rule(
        "rect",
        vec![
            declaration(Property::Fill, "red", false),
            declaration(Property::Stroke, "black", true),
            declaration(Property::Fill, "blue", false),
        ],
    );
    let mut values = SpecifiedValues::default();
    let mut important = ImportantStyles::new();
    assert!(!try_apply_by_selector(&rules, "circle", &mut values, &mut important));
    assert_eq!(*values.get(Property::Fill), SpecifiedValue::Unspecified);
    assert!(try_apply_by_selector(&rules, "rect", &mut values, &mut important));
    assert_eq!(*values.get(Property::Fill), specified("blue"));
    assert_eq!(*values.get(Property::Stroke), specified("black"));
    assert!(important.contains(Property::Stroke));
    assert!(!important.contains(Property::Fill));
}

#[test]
fn style_declarations_are_split_at_semicolons_and_colons() {
    let mut values = SpecifiedValues::default();
    let mut important = ImportantStyles::new();
    let r = values.parse_style_declarations(
        " fill : red ;stroke:blue!important; ; bogus ; unknown-property: 1; text-anchor: end  !important ;:x;y:",
        &mut important,
    );
    assert_eq!(r, Ok(()));
    assert_eq!(*values.get(Property::Fill), specified("red"));
    assert_eq!(*values.get(Property::Stroke), specified("blue"));
    assert_eq!(*values.get(Property::TextAnchor), specified("end"));
    assert!(important.contains(Property::Stroke));
    assert!(important.contains(Property::TextAnchor));
    assert!(!important.contains(Property::Fill));
}

#[test]
fn style_declarations_stop_at_the_first_error() {
    let mut values = SpecifiedValues::default();
    let mut important = ImportantStyles::new();
    let r = values.parse_style_declarations(
        "fill: red; text-anchor: nowhere; stroke: blue",
        &mut important,
    );
    assert_eq!(
        r,
        Err(NodeError {
            attr: Attribute::Presentation(Property::TextAnchor),
            err: ValueErrorKind::Parse(String::from("unexpected value")),
        })
    );
    assert_eq!(*values.get(Property::Fill), specified("red"));
    assert_eq!(*values.get(Property::TextAnchor), SpecifiedValue::Unspecified);
    assert_eq!(*values.get(Property::Stroke), SpecifiedValue::Unspecified);
}

#[test]
fn presentation_attributes_stop_at_the_first_error() {
    let mut bag = PropertyBag::new();
    bag.push_named("fill", "red");
    bag.push_named("x", "not looked at here");
    bag.push_named("display", "nothing");
    bag.push_named("stroke", "blue");
    let mut values = SpecifiedValues::default();
    let r = values.parse_presentation_attributes(&bag);
    assert_eq!(
        r,
        Err(NodeError {
            attr: Attribute::Presentation(Property::Display),
            err: ValueErrorKind::Parse(String::from("unexpected value")),
        })
    );
    assert_eq!(*values.get(Property::Fill), specified("red"));
    assert_eq!(*values.get(Property::Stroke), SpecifiedValue::Unspecified);
}

#[test]
fn attribute_names() {
    assert_eq!(Attribute::from_name("transform"), Attribute::Transform);
    assert_eq!(Attribute::from_name("style"), Attribute::Style);
    assert_eq!(Attribute::from_name("systemLanguage"), Attribute::SystemLanguage);
    assert_eq!(Attribute::from_name("requiredFeatures"), Attribute::RequiredFeatures);
    assert_eq!(Attribute::from_name("requiredExtensions"), Attribute::RequiredExtensions);
    assert_eq!(Attribute::from_name("xlink:href"), Attribute::XlinkHref);
    assert_eq!(Attribute::from_name("x"), Attribute::X);
    assert_eq!(Attribute::from_name("dy"), Attribute::Dy);
    assert_eq!(Attribute::from_name("fill"), Attribute::Presentation(Property::Fill));
    assert_eq!(Attribute::from_name("width"), Attribute::Other);
}
