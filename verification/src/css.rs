//! Style rules and declarations, and how they change what an element
//! declares.
//!
//! A declaration marked `!important` claims its property: a later
//! declaration for the same property that is not so marked is passed over.

use vstd::prelude::*;
use crate::attributes::{Attribute, PropertyBag};
use crate::error::{NodeError, NodeErrorText, NodeResult, ValueErrorKind, ValueErrorText};
use crate::properties::{
    parsed_value, ImportantStyles, Property, SpecifiedValueText, SpecifiedValues,
};
use crate::strings::{
    chars_of, ends_with, find_char, has_suffix, index_of_char, pieces, split, str_eq, string_of,
    texts, trim, trimmed,
};

verus! {

/// One declaration of a style rule: a value for a property.
pub struct Declaration {
    pub property: Property,
    pub value: String,
    pub important: bool,
}

/// A `Declaration` with its value as a sequence of characters.
pub struct DeclarationText {
    pub property: Property,
    pub value: Seq<char>,
    pub important: bool,
}

impl View for Declaration {
    type V = DeclarationText;

    open spec fn view(&self) -> DeclarationText {
        DeclarationText { property: self.property, value: self.value@, important: self.important }
    }
}

/// The views of the declarations of `v`, in order.
pub open spec fn declaration_texts(v: Seq<Declaration>) -> Seq<DeclarationText> {
    Seq::new(v.len(), |i: int| v[i]@)
}

/// The declarations that are made for one selector.
pub struct Rule {
    pub selector: String,
    pub declarations: Vec<Declaration>,
}

/// A `Rule` with its texts as sequences of characters.
pub struct RuleText {
    pub selector: Seq<char>,
    pub declarations: Seq<DeclarationText>,
}

impl View for Rule {
    type V = RuleText;

    open spec fn view(&self) -> RuleText {
        RuleText { selector: self.selector@, declarations: declaration_texts(self.declarations@) }
    }
}

/// The index of the first rule at or after `i` whose selector is `selector`,
/// or the number of rules if there is none.
pub open spec fn find_rule(rules: Seq<RuleText>, selector: Seq<char>, i: int) -> int
    decreases rules.len() - i,
{
    if 0 <= i < rules.len() && rules[i].selector != selector {
        find_rule(rules, selector, i + 1)
    } else {
        i
    }
}

/// The declarations of the first rule for `selector`, if there is one.
pub open spec fn rule_for(rules: Seq<RuleText>, selector: Seq<char>) -> Option<
    Seq<DeclarationText>,
> {
    let k = find_rule(rules, selector, 0);
    if 0 <= k < rules.len() {
        Some(rules[k].declarations)
    } else {
        None
    }
}

/// A table of style rules, looked up by selector.
pub struct CssRules {
    rules: Vec<Rule>,
}

impl View for CssRules {
    type V = Seq<RuleText>;

    /// The rules, in the order in which they were added.
    closed spec fn view(&self) -> Seq<RuleText> {
        Seq::new(self.rules@.len(), |i: int| self.rules@[i]@)
    }
}

impl CssRules {
    /// A table without rules.
    pub fn new() -> (r: CssRules)
        ensures
            r@ == Seq::<RuleText>::empty(),
    {
        let r = CssRules { rules: Vec::new() };
        assert(r@ =~= Seq::<RuleText>::empty());
        r
    }

    /// Adds a rule behind those that the table holds.
    pub fn add_rule(&mut self, selector: &str, declarations: Vec<Declaration>)
        ensures
            final(self)@ == old(self)@.push(
                RuleText { selector: selector@, declarations: declaration_texts(declarations@) },
            ),
    {
        let ghost rule = RuleText {
            selector: selector@,
            declarations: declaration_texts(declarations@),
        };
        self.rules.push(Rule { selector: selector.to_owned(), declarations });
        assert(self@ =~= old(self)@.push(rule));
    }

    /// The declarations of the first rule for `selector`, if there is one.
    pub fn lookup(&self, selector: &str) -> (r: Option<&Vec<Declaration>>)
        ensures
            match r {
                Some(d) => rule_for(self@, selector@) == Some(declaration_texts(d@)),
                None => rule_for(self@, selector@) is None,
            },
    {
        let mut i: usize = 0;
        while i < self.rules.len()
            invariant
                i <= self.rules@.len(),
                self@.len() == self.rules@.len(),
                find_rule(self@, selector@, i as int) == find_rule(self@, selector@, 0),
            decreases self.rules@.len() - i,
        {
            assert(self@[i as int] == self.rules@[i as int]@);
            if str_eq(self.rules[i].selector.as_str(), selector) {
                return Some(&self.rules[i].declarations);
            }
            i = i + 1;
        }
        None
    }
}

/// What an element declares, with the properties that a declaration marked
/// `!important` has claimed.
pub struct Style {
    pub specified: Seq<SpecifiedValueText>,
    pub important: Seq<bool>,
}

/// A declaration for `p` is passed over where it is not marked `!important`
/// and one that was so marked has claimed `p`.
pub open spec fn is_blocked(style: Style, p: Property, important: bool) -> bool {
    !important && style.important[p.spec_index()]
}

/// `style` after a declaration for `p` has claimed the property, if it is
/// marked `!important`.
pub open spec fn claimed(style: Style, p: Property, important: bool) -> Style {
    if important {
        Style { specified: style.specified, important: style.important.update(p.spec_index(), true) }
    } else {
        style
    }
}

/// `style` after a declaration of `value` for `p`, and the error in the
/// value if the property does not accept it. A declaration that is not passed
/// over claims its property where it is marked `!important`, and then sets
/// the value, if the value is accepted.
pub open spec fn declared_value(style: Style, p: Property, value: Seq<char>, important: bool) -> (
    Style,
    Option<ValueErrorText>,
) {
    if is_blocked(style, p, important) {
        (style, None)
    } else {
        let c = claimed(style, p, important);
        match parsed_value(p, value) {
            Ok(v) => (
                Style { specified: c.specified.update(p.spec_index(), v), important: c.important },
                None,
            ),
            Err(e) => (c, Some(e)),
        }
    }
}

/// `style` after the declaration `d` of a style rule. A value that is not
/// accepted is passed over.
pub open spec fn declared(style: Style, d: DeclarationText) -> Style {
    declared_value(style, d.property, d.value, d.important).0
}

/// `style` after the declarations `ds` of a style rule, in order.
pub open spec fn declared_all(style: Style, ds: Seq<DeclarationText>) -> Style {
    ds.fold_left(style, |s: Style, d: DeclarationText| declared(s, d))
}

/// `style` after the rule for `selector`, if there is one, and whether there
/// is one.
pub open spec fn applied(style: Style, rules: Seq<RuleText>, selector: Seq<char>) -> (Style, bool) {
    match rule_for(rules, selector) {
        Some(ds) => (declared_all(style, ds), true),
        None => (style, false),
    }
}

/// A property that is claimed stays claimed: no declaration takes a property
/// out of the set of those that an important declaration has claimed.
pub proof fn lemma_claims_only_grow(
    style: Style,
    p: Property,
    value: Seq<char>,
    important: bool,
    q: Property,
)
    requires
        style.important.len() == crate::properties::PROPERTY_COUNT,
        style.important[q.spec_index()],
    ensures
        declared_value(style, p, value, important).0.important[q.spec_index()],
{
}

/// A declaration marked `!important` overrides every later declaration for
/// its property that is not so marked: after it, such a declaration changes
/// nothing, whatever its value and wherever it comes from.
pub proof fn lemma_important_overrides_later(
    style: Style,
    p: Property,
    value: Seq<char>,
    later: Seq<char>,
)
    requires
        style.important.len() == crate::properties::PROPERTY_COUNT,
    ensures
        declared_value(declared_value(style, p, value, true).0, p, later, false)
            == (declared_value(style, p, value, true).0, None::<ValueErrorText>),
{
}

/// Among declarations that are not important, and for a property that none
/// has claimed, the later one wins: after it the property has its value, if
/// the value is accepted.
pub proof fn lemma_later_declaration_wins(
    style: Style,
    p: Property,
    value: Seq<char>,
    later: Seq<char>,
)
    requires
        style.important.len() == crate::properties::PROPERTY_COUNT,
        style.specified.len() == crate::properties::PROPERTY_COUNT,
        !style.important[p.spec_index()],
        parsed_value(p, later) is Ok,
    ensures
        declared_value(
            declared_value(style, p, value, false).0,
            p,
            later,
            false,
        ).0.specified[p.spec_index()] == parsed_value(p, later)->Ok_0,
{
}

/// One declaration of a `style` attribute, as it is written.
pub struct StyleItem {
    pub name: Seq<char>,
    pub value: Seq<char>,
    pub important: bool,
}

/// The mark that a declaration ends with where it is important.
pub open spec fn important_mark() -> Seq<char> {
    "!important"@
}

/// The declaration that a piece of a `style` attribute makes: the name before
/// its first colon and the value behind it, each without the white space
/// around it. A value that ends with `!important` is marked, and is what
/// stands before the mark. A piece without a colon, without a name or without
/// a value makes no declaration.
pub open spec fn style_item(piece: Seq<char>) -> Option<StyleItem> {
    let c = find_char(piece, ':', 0);
    if 0 <= c < piece.len() {
        let name = trim(piece.take(c));
        let value = trim(piece.skip(c + 1));
        if name.len() > 0 && value.len() > 0 {
            if ends_with(value, important_mark()) {
                Some(
                    StyleItem {
                        name,
                        value: trim(value.take(value.len() - important_mark().len())),
                        important: true,
                    },
                )
            } else {
                Some(StyleItem { name, value, important: false })
            }
        } else {
            None
        }
    } else {
        None
    }
}

/// `style` after one piece of a `style` attribute, and the error in it, if
/// it makes a declaration for a property that does not accept the value. A
/// declaration for a name that is not a property's is passed over.
pub open spec fn inline_declared(style: Style, piece: Seq<char>) -> (Style, Option<NodeErrorText>) {
    match style_item(piece) {
        Some(item) => match Property::named(item.name) {
            Some(p) => {
                let (s, e) = declared_value(style, p, item.value, item.important);
                match e {
                    Some(err) => (
                        s,
                        Some(NodeErrorText { attr: Attribute::Presentation(p), err }),
                    ),
                    None => (s, None),
                }
            },
            None => (style, None),
        },
        None => (style, None),
    }
}

/// `style` after the pieces of a `style` attribute from place `i` on, up to
/// the first piece with an error, and that error.
pub open spec fn inline_styled_from(style: Style, pieces: Seq<Seq<char>>, i: int) -> (
    Style,
    Option<NodeErrorText>,
)
    decreases pieces.len() - i,
{
    if 0 <= i < pieces.len() {
        let (s, e) = inline_declared(style, pieces[i]);
        if e is Some {
            (s, e)
        } else {
            inline_styled_from(s, pieces, i + 1)
        }
    } else {
        (style, None)
    }
}

/// `style` after the declarations of a `style` attribute: the pieces between
/// its semicolons, in order, up to the first with an error; and that error.
pub open spec fn inline_styled(style: Style, declarations: Seq<char>) -> (
    Style,
    Option<NodeErrorText>,
) {
    inline_styled_from(style, split(declarations, ';'), 0)
}

/// What an element declares after its presentation attributes from place `i`
/// on, up to the first whose value is not accepted; and the error in that
/// one.
pub open spec fn presented_from(
    specified: Seq<SpecifiedValueText>,
    bag: Seq<(Attribute, Seq<char>)>,
    i: int,
) -> (Seq<SpecifiedValueText>, Option<NodeErrorText>)
    decreases bag.len() - i,
{
    if 0 <= i < bag.len() {
        match bag[i].0 {
            Attribute::Presentation(p) => match parsed_value(p, bag[i].1) {
                Ok(v) => presented_from(specified.update(p.spec_index(), v), bag, i + 1),
                Err(err) => (specified, Some(NodeErrorText { attr: bag[i].0, err })),
            },
            _ => presented_from(specified, bag, i + 1),
        }
    } else {
        (specified, None)
    }
}

/// What an element declares after its presentation attributes: those
/// attributes of `bag` that have the name of a property, in order, up to the
/// first whose value is not accepted; and the error in that one.
pub open spec fn presented(specified: Seq<SpecifiedValueText>, bag: Seq<(Attribute, Seq<char>)>) -> (
    Seq<SpecifiedValueText>,
    Option<NodeErrorText>,
) {
    presented_from(specified, bag, 0)
}

/// The error of a result, if it has one, with its messages as sequences of
/// characters.
pub open spec fn error_text(r: NodeResult) -> Option<NodeErrorText> {
    match r {
        Ok(_) => None,
        Err(e) => Some(e@),
    }
}

/// Reads one piece of a `style` attribute.
fn parse_style_item(piece: &str) -> (r: Option<(String, String, bool)>)
    ensures
        match r {
            Some((name, value, important)) => style_item(piece@) == Some(
                StyleItem { name: name@, value: value@, important },
            ),
            None => style_item(piece@) is None,
        },
{
    let v = chars_of(piece);
    let c = index_of_char(&v, ':', 0);
    if c < v.len() {
        let before = string_of(&v, 0, c);
        let behind = string_of(&v, c + 1, v.len());
        assert(before@ == piece@.take(c as int));
        assert(behind@ == piece@.skip(c + 1));
        let name = trimmed(before.as_str());
        let value = trimmed(behind.as_str());
        if name.as_str().unicode_len() > 0 && value.as_str().unicode_len() > 0 {
            let chars = chars_of(value.as_str());
            let mark = chars_of("!important");
            if has_suffix(&chars, &mark) {
                let rest = string_of(&chars, 0, chars.len() - mark.len());
                assert(rest@ == value@.take(value@.len() - important_mark().len()));
                Some((name, trimmed(rest.as_str()), true))
            } else {
                Some((name, value, false))
            }
        } else {
            None
        }
    } else {
        None
    }
}

/// The error of an optional error, with its messages as sequences of
/// characters.
pub open spec fn value_error_text(o: Option<ValueErrorKind>) -> Option<ValueErrorText> {
    match o {
        Some(e) => Some(e@),
        None => None,
    }
}

impl SpecifiedValues {
    /// Takes in a declaration of `value` for `p`, unless it is passed over,
    /// and hands back the error in the value, if the property does not
    /// accept it.
    pub fn set_property(
        &mut self,
        p: Property,
        value: &str,
        important: bool,
        important_styles: &mut ImportantStyles,
    ) -> (r: Option<ValueErrorKind>)
        requires
            old(self).wf(),
            old(important_styles).wf(),
        ensures
            final(self).wf(),
            final(important_styles).wf(),
            final(self)@ == declared_value(
                Style { specified: old(self)@, important: old(important_styles)@ },
                p,
                value@,
                important,
            ).0.specified,
            final(important_styles)@ == declared_value(
                Style { specified: old(self)@, important: old(important_styles)@ },
                p,
                value@,
                important,
            ).0.important,
            value_error_text(r) == declared_value(
                Style { specified: old(self)@, important: old(important_styles)@ },
                p,
                value@,
                important,
            ).1,
    {
        if !important && important_styles.contains(p) {
            return None;
        }
        if important {
            important_styles.insert(p);
        }
        match self.parse_attribute_pair(p, value) {
            Ok(_) => None,
            Err(e) => Some(e),
        }
    }

    /// Takes in the declaration `declaration` of a style rule, unless it is
    /// passed over. A value that is not accepted is passed over too.
    pub fn set_property_from_declaration(
        &mut self,
        declaration: &Declaration,
        important_styles: &mut ImportantStyles,
    )
        requires
            old(self).wf(),
            old(important_styles).wf(),
        ensures
            final(self).wf(),
            final(important_styles).wf(),
            final(self)@ == declared(
                Style { specified: old(self)@, important: old(important_styles)@ },
                declaration@,
            ).specified,
            final(important_styles)@ == declared(
                Style { specified: old(self)@, important: old(important_styles)@ },
                declaration@,
            ).important,
    {
        let _ = self.set_property(
            declaration.property,
            declaration.value.as_str(),
            declaration.important,
            important_styles,
        );
    }

    /// Takes in the declarations of a `style` attribute, in order, up to the
    /// first with a value that is not accepted, which is the error.
    pub fn parse_style_declarations(
        &mut self,
        declarations: &str,
        important_styles: &mut ImportantStyles,
    ) -> (r: NodeResult)
        requires
            old(self).wf(),
            old(important_styles).wf(),
        ensures
            final(self).wf(),
            final(important_styles).wf(),
            final(self)@ == inline_styled(
                Style { specified: old(self)@, important: old(important_styles)@ },
                declarations@,
            ).0.specified,
            final(important_styles)@ == inline_styled(
                Style { specified: old(self)@, important: old(important_styles)@ },
                declarations@,
            ).0.important,
            error_text(r) == inline_styled(
                Style { specified: old(self)@, important: old(important_styles)@ },
                declarations@,
            ).1,
    {
        let parts = pieces(declarations, ';');
        let ghost all = split(declarations@, ';');
        let ghost start = Style { specified: self@, important: important_styles@ };
        let mut i: usize = 0;
        while i < parts.len()
            invariant
                i <= parts@.len(),
                texts(parts@) == all,
                all == split(declarations@, ';'),
                start == (Style { specified: old(self)@, important: old(important_styles)@ }),
                self.wf(),
                important_styles.wf(),
                inline_styled_from(
                    Style { specified: self@, important: important_styles@ },
                    all,
                    i as int,
                ) == inline_styled_from(start, all, 0),
            decreases parts@.len() - i,
        {
            assert(texts(parts@)[i as int] == parts@[i as int]@);
            let ghost before = Style { specified: self@, important: important_styles@ };
            match parse_style_item(parts[i].as_str()) {
                Some((name, value, important)) => {
                    match Property::from_name(name.as_str()) {
                        Some(p) => {
                            match self.set_property(
                                p,
                                value.as_str(),
                                important,
                                important_styles,
                            ) {
                                Some(e) => {
                                    proof {
                                        let after = Style {
                                            specified: self@,
                                            important: important_styles@,
                                        };
                                        let step = declared_value(before, p, value@, important);
                                        assert(after == step.0);
                                        assert(inline_declared(before, all[i as int]).0 == after);
                                        assert(inline_styled_from(before, all, i as int).0
                                            == after);
                                    }
                                    return Err(
                                        NodeError::attribute_error(Attribute::Presentation(p), e),
                                    );
                                },
                                None => {},
                            }
                        },
                        None => {},
                    }
                },
                None => {},
            }
            i = i + 1;
        }
        Ok(())
    }

    /// Takes in the presentation attributes of `pbag`, in order, up to the
    /// first with a value that is not accepted, which is the error.
    pub fn parse_presentation_attributes(&mut self, pbag: &PropertyBag) -> (r: NodeResult)
        requires
            old(self).wf(),
        ensures
            final(self).wf(),
            final(self)@ == presented(old(self)@, pbag@).0,
            error_text(r) == presented(old(self)@, pbag@).1,
    {
        let mut i: usize = 0;
        while i < pbag.len()
            invariant
                i <= pbag@.len(),
                self.wf(),
                presented_from(self@, pbag@, i as int) == presented_from(old(self)@, pbag@, 0),
            decreases pbag@.len() - i,
        {
            let attr = pbag.attribute(i);
            match attr {
                Attribute::Presentation(p) => {
                    match self.parse_attribute_pair(p, pbag.value(i)) {
                        Ok(_) => {},
                        Err(e) => {
                            return Err(NodeError::attribute_error(attr, e));
                        },
                    }
                },
                _ => {},
            }
            i = i + 1;
        }
        Ok(())
    }
}

} // verus!
