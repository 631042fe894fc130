use rsvg_text::space::{xml_space_normalize, NormalizeDefault, XmlSpaceNormalize};
use rsvg_text::strings::{pieces, trimmed, words};

fn default_mode(before: bool, after: bool) -> XmlSpaceNormalize {
    XmlSpaceNormalize::Default(NormalizeDefault {
        has_element_before: before,
        has_element_after: after,
    })
}

#[test]
fn default_mode_trims_edges_without_neighbours() {
    assert_eq!(
        xml_space_normalize(default_mode(false, false), "\n  WS example\n  indented lines\n  "),
        "WS example indented lines"
    );
}

#[test]
fn default_mode_keeps_one_space_next_to_an_element() {
    assert_eq!(
        xml_space_normalize(default_mode(true, true), "  between \t elements  "),
        " between elements "
    );
    assert_eq!(xml_space_normalize(default_mode(true, false), "  after  "), " after");
    assert_eq!(xml_space_normalize(default_mode(false, true), "  before  "), "before ");
}

#[test]
fn default_mode_removes_line_feeds_and_turns_tabs_into_spaces() {
    assert_eq!(
        xml_space_normalize(default_mode(false, false), "a\nb\tc\t\td"),
        "ab c d"
    );
}

#[test]
fn default_mode_is_idempotent() {
    for (before, after) in [(false, false), (false, true), (true, false), (true, true)] {
        let mode = default_mode(before, after);
        for text in ["", "  ", " a  b ", "\n\ta \n b\t", "\u{a0}x\u{a0}", "x", " \n "] {
            let once = xml_space_normalize(mode, text);
            let twice = xml_space_normalize(mode, &once);
            assert_eq!(once, twice);
        }
    }
}

#[test]
fn preserve_mode_never_alters_the_text() {
    for text in ["", "  ", " a  b ", "\n\ta \n b\t", "WS example\n  indented lines"] {
        assert_eq!(xml_space_normalize(XmlSpaceNormalize::Preserve, text), text);
    }
}

#[test]
fn words_are_what_split_whitespace_yields() {
    for text in ["", "   ", "a", " a  bc\td\n", "\u{3000}x\u{2003}y", "one two  three"] {
        let expected: Vec<String> = text.split_whitespace().map(String::from).collect();
        assert_eq!(words(text), expected);
    }
}

#[test]
fn pieces_are_what_split_yields() {
    for text in ["", ",", "a", "a,b", ",a,,b,", "fr, de"] {
        let expected: Vec<String> = text.split(',').map(String::from).collect();
        assert_eq!(pieces(text, ','), expected);
    }
}

#[test]
fn trimmed_is_what_trim_yields() {
    for text in ["", "   ", "a", "  a b \n", "\u{a0}x\u{2028}", "\tx"] {
        assert_eq!(trimmed(text), text.trim());
    }
}
