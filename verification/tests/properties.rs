use rsvg_text::error::ValueErrorKind;
use rsvg_text::properties::{
    parse_value, ComputedValues, Direction, Property, SpecifiedValue, SpecifiedValues, TextAnchor,
    UnicodeBidi, WritingMode, XmlSpace, PROPERTY_COUNT,
};

#[test]
fn every_property_is_found_by_its_name() {
    for i in 0..PROPERTY_COUNT {
        let p = Property::from_index(i);
        assert_eq!(p.index(), i);
        assert_eq!(Property::from_name(p.name()), Some(p));
    }
    assert_eq!(Property::from_name("text-anchor"), Some(Property::TextAnchor));
    assert_eq!(Property::from_name("xml:space"), Some(Property::XmlSpace));
    assert_eq!(Property::from_name("transform"), None);
    assert_eq!(Property::from_name(""), None);
}

#[test]
fn values_are_read_as_declared() {
    assert_eq!(
        parse_value(Property::TextAnchor, " middle "),
        Ok(SpecifiedValue::Specified(String::from("middle")))
    );
    assert_eq!(parse_value(Property::TextAnchor, "inherit"), Ok(SpecifiedValue::Inherit));
    assert_eq!(
        parse_value(Property::TextAnchor, "centre"),
        Err(ValueErrorKind::Parse(String::from("unexpected value")))
    );
    assert_eq!(
        parse_value(Property::Fill, "url(#gradient)"),
        Ok(SpecifiedValue::Specified(String::from("url(#gradient)")))
    );
    assert_eq!(
        parse_value(Property::Display, "none"),
        Ok(SpecifiedValue::Specified(String::from("none")))
    );
}

#[test]
fn initial_values() {
    let values = ComputedValues::default();
    assert_eq!(values.get(Property::Fill), "black");
    assert_eq!(values.get(Property::Stroke), "none");
    assert_eq!(values.text_anchor(), TextAnchor::Start);
    assert_eq!(values.writing_mode(), WritingMode::LrTb);
    assert_eq!(values.xml_space(), XmlSpace::Default);
    assert_eq!(values.direction(), Direction::Ltr);
    assert_eq!(values.unicode_bidi(), UnicodeBidi::Normal);
    assert!(values.is_displayed());
    assert!(values.is_visible());
    assert!(!WritingMode::LrTb.is_vertical());
    assert!(WritingMode::Tb.is_vertical());
    assert!(WritingMode::TbRl.is_vertical());
}

#[test]
fn merging_follows_the_inheritance_of_each_property() {
    let mut parent_declares = SpecifiedValues::default();
    parent_declares.set(Property::Fill, SpecifiedValue::Specified(String::from("red")));
    parent_declares.set(Property::Display, SpecifiedValue::Specified(String::from("none")));
    parent_declares.set(Property::Overflow, SpecifiedValue::Specified(String::from("hidden")));
    let mut parent = ComputedValues::default();
    parent_declares.to_computed_values(&mut parent);
    assert_eq!(parent.get(Property::Fill), "red");
    assert_eq!(parent.get(Property::Display), "none");
    assert_eq!(parent.get(Property::Overflow), "hidden");

    let mut child_declares = SpecifiedValues::default();
    child_declares.set(Property::Overflow, SpecifiedValue::Inherit);
    child_declares.set(Property::Stroke, SpecifiedValue::Specified(String::from("blue")));
    let mut child = parent.duplicate();
    child_declares.to_computed_values(&mut child);
    // fill is inherited: the parent's value flows down.
    assert_eq!(child.get(Property::Fill), "red");
    // display is not inherited: it goes back to its initial value.
    assert_eq!(child.get(Property::Display), "inline");
    // overflow is not inherited either, but `inherit` asks for the parent's value.
    assert_eq!(child.get(Property::Overflow), "hidden");
    assert_eq!(child.get(Property::Stroke), "blue");
}

#[test]
fn overflow_is_seen_when_declared_auto_or_visible() {
    let mut values = SpecifiedValues::default();
    assert!(!values.is_overflow());
    values.set(Property::Overflow, SpecifiedValue::Specified(String::from("auto")));
    assert!(values.is_overflow());
    values.set(Property::Overflow, SpecifiedValue::Specified(String::from("visible")));
    assert!(values.is_overflow());
    values.set(Property::Overflow, SpecifiedValue::Specified(String::from("hidden")));
    assert!(!values.is_overflow());
    values.set(Property::Overflow, SpecifiedValue::Inherit);
    assert!(!values.is_overflow());
}
