use locale_config::Locale;
use rsvg_text::cond::{
    LanguageTags, RangeReport, RequiredExtensions, RequiredFeatures, SystemLanguage, TagCheck,
};
use rsvg_text::error::ValueErrorKind;

#[test]
fn required_extensions() {
    assert_eq!(
        RequiredExtensions::from_attribute("http://test.org/NotExisting/1.0").unwrap(),
        RequiredExtensions(false)
    );
}

#[test]
fn required_features() {
    assert_eq!(
        RequiredFeatures::from_attribute("http://www.w3.org/TR/SVG11/feature#NotExisting")
            .unwrap(),
        RequiredFeatures(false)
    );

    assert_eq!(
        RequiredFeatures::from_attribute("http://www.w3.org/TR/SVG11/feature#BasicFilter")
            .unwrap(),
        RequiredFeatures(true)
    );

    assert_eq!(
        RequiredFeatures::from_attribute(
            "http://www.w3.org/TR/SVG11/feature#BasicFilter \
             http://www.w3.org/TR/SVG11/feature#NotExisting",
        )
        .unwrap(),
        RequiredFeatures(false)
    );

    assert_eq!(
        RequiredFeatures::from_attribute(
            "http://www.w3.org/TR/SVG11/feature#BasicFilter \
             http://www.w3.org/TR/SVG11/feature#BasicText",
        )
        .unwrap(),
        RequiredFeatures(true)
    );
}

#[test]
fn system_language() {
    let user_prefers = Locale::new("de,en-US").unwrap();

    assert!(SystemLanguage::from_attribute("", &user_prefers).is_err());

    assert!(SystemLanguage::from_attribute("12345", &user_prefers).is_err());

    assert_eq!(
        SystemLanguage::from_attribute("fr", &user_prefers).unwrap(),
        SystemLanguage(false)
    );

    assert_eq!(
        SystemLanguage::from_attribute("en", &user_prefers).unwrap(),
        SystemLanguage(false)
    );

    assert_eq!(
        SystemLanguage::from_attribute("de", &user_prefers).unwrap(),
        SystemLanguage(true)
    );

    assert_eq!(
        SystemLanguage::from_attribute("en-US", &user_prefers).unwrap(),
        SystemLanguage(true)
    );

    assert_eq!(
        SystemLanguage::from_attribute("en-GB", &user_prefers).unwrap(),
        SystemLanguage(false)
    );

    assert_eq!(
        SystemLanguage::from_attribute("DE", &user_prefers).unwrap(),
        SystemLanguage(true)
    );

    assert_eq!(
        SystemLanguage::from_attribute("de-LU", &user_prefers).unwrap(),
        SystemLanguage(true)
    );

    assert_eq!(
        SystemLanguage::from_attribute("fr, de", &user_prefers).unwrap(),
        SystemLanguage(true)
    );
}

#[test]
fn required_extensions_of_an_empty_value() {
    assert_eq!(RequiredExtensions::from_attribute("").unwrap(), RequiredExtensions(true));
    assert_eq!(RequiredExtensions::from_attribute(" \n ").unwrap(), RequiredExtensions(true));
    assert!(RequiredExtensions::from_attribute("").unwrap().eval());
    assert_eq!(RequiredFeatures::from_attribute("").unwrap(), RequiredFeatures(true));
    assert!(!RequiredFeatures::from_attribute("org.w3c.svg.static x").unwrap().eval());
    assert!(RequiredFeatures::from_attribute(" org.w3c.svg.static\t").unwrap().eval());
}

#[test]
fn system_language_of_the_properties() {
    let user_prefers = Locale::new("de,en-US").unwrap();
    assert_eq!(
        SystemLanguage::from_attribute("de-LU", &user_prefers),
        Ok(SystemLanguage(true))
    );
    assert_eq!(
        SystemLanguage::from_attribute("en-GB", &user_prefers),
        Ok(SystemLanguage(false))
    );
    assert_eq!(
        SystemLanguage::from_attribute("", &user_prefers),
        Err(ValueErrorKind::Parse(String::from(
            "invalid language tag: \"The given language subtag is invalid\""
        )))
    );
    assert_eq!(
        SystemLanguage::from_attribute("12345", &user_prefers),
        Err(ValueErrorKind::Parse(String::from(
            "invalid language tag: \"The given language subtag is invalid\""
        )))
    );
    assert!(SystemLanguage::from_attribute("de-LU", &user_prefers).unwrap().eval());
}

#[test]
fn system_language_fails_at_the_first_tag_that_is_none() {
    let user_prefers = Locale::new("de,en-US").unwrap();
    // A match does not make up for a tag that is none.
    assert!(SystemLanguage::from_attribute("de, 12345", &user_prefers).is_err());
    assert_eq!(
        SystemLanguage::from_attribute("de, a b", &user_prefers),
        Err(ValueErrorKind::Parse(String::from(
            "invalid language tag: \"The langtag contains a char not allowed\""
        )))
    );
    assert_eq!(
        SystemLanguage::from_attribute(" fr ,\ten-US ", &user_prefers),
        Ok(SystemLanguage(true))
    );
}

#[test]
fn a_locale_with_a_tag_that_is_no_range_is_an_error() {
    let private = Locale::new("de-x-private").unwrap();
    assert_eq!(
        SystemLanguage::from_attribute("de", &private),
        Err(ValueErrorKind::Value(String::from(
            "language tag \"de-x-private\" is not a language range"
        )))
    );
    // The tags of the attribute come first.
    assert!(matches!(
        SystemLanguage::from_attribute("12345", &private),
        Err(ValueErrorKind::Parse(_))
    ));
    assert!(LanguageTags::from_locale(&private).is_err());
}

#[test]
fn the_ranges_of_a_locale_for_messages() {
    let locale = Locale::new("de,messages=fr,numeric=it,en-US").unwrap();
    assert!(LanguageTags::from_locale(&locale).is_ok());
    // The range for messages comes first, and the one for numbers not at all.
    assert_eq!(SystemLanguage::from_attribute("fr", &locale), Ok(SystemLanguage(true)));
    assert_eq!(SystemLanguage::from_attribute("it", &locale), Ok(SystemLanguage(false)));
    assert_eq!(SystemLanguage::from_attribute("en-US", &locale), Ok(SystemLanguage(true)));
    // The invariant locale has no range to match with.
    let invariant = Locale::invariant();
    assert_eq!(SystemLanguage::from_attribute("de", &invariant), Ok(SystemLanguage(false)));
}

fn report(text: &str, error: Option<&str>, is_range: bool) -> RangeReport {
    RangeReport { text: String::from(text), error: error.map(String::from), is_range }
}

#[test]
fn accepted_ranges() {
    assert_eq!(LanguageTags::accepted(&vec![]), Ok(vec![]));
    assert_eq!(
        LanguageTags::accepted(&vec![
            report("de", None, true),
            report("", Some("not looked at"), false),
            report("en-US", None, true),
        ]),
        Ok(vec![String::from("de"), String::from("en-US")])
    );
    assert_eq!(
        LanguageTags::accepted(&vec![
            report("de", None, true),
            report("e_n", Some("forbidden"), false),
            report("en-x-a", None, false),
        ]),
        Err(String::from("invalid language tag \"e_n\" in locale: forbidden"))
    );
    assert_eq!(
        LanguageTags::accepted(&vec![report("en-x-a", None, false), report("e_n", Some("x"), false)]),
        Err(String::from("language tag \"en-x-a\" is not a language range"))
    );
}

fn check(error: Option<&str>, matches: bool) -> TagCheck {
    TagCheck { error: error.map(String::from), matches }
}

#[test]
fn system_language_from_checks() {
    let no_error: Option<String> = None;
    let locale_error = Some(String::from("bad locale"));
    assert_eq!(SystemLanguage::from_checks(&vec![], &no_error), Ok(SystemLanguage(false)));
    assert_eq!(SystemLanguage::from_checks(&vec![], &locale_error), Ok(SystemLanguage(false)));
    assert_eq!(
        SystemLanguage::from_checks(&vec![check(None, false), check(None, true)], &no_error),
        Ok(SystemLanguage(true))
    );
    assert_eq!(
        SystemLanguage::from_checks(&vec![check(None, false), check(None, false)], &no_error),
        Ok(SystemLanguage(false))
    );
    assert_eq!(
        SystemLanguage::from_checks(&vec![check(None, true), check(Some("why"), false)], &no_error),
        Err(ValueErrorKind::Parse(String::from("invalid language tag: \"why\"")))
    );
    assert_eq!(
        SystemLanguage::from_checks(&vec![check(None, false), check(Some("why"), false)], &locale_error),
        Err(ValueErrorKind::Value(String::from("bad locale")))
    );
    assert_eq!(
        SystemLanguage::from_checks(&vec![check(Some("why"), false), check(None, false)], &locale_error),
        Err(ValueErrorKind::Parse(String::from("invalid language tag: \"why\"")))
    );
}
