//! White space handling of character data, as the `xml:space` property
//! selects it.

use vstd::prelude::*;
use crate::strings::{
    char_is_whitespace, chars_of, index_after_whitespace, is_whitespace,
    lemma_skip_whitespace_back_bounds, lemma_skip_whitespace_bounds, skip_whitespace,
    skip_whitespace_back, trim_end, trim_start,
};

verus! {

/// What stands beside a run of character data among its siblings.
#[derive(Clone, Copy, Debug, PartialEq, Eq, Structural)]
pub struct NormalizeDefault {
    /// An element precedes the character data, so that leading white space
    /// separates the two and is kept.
    pub has_element_before: bool,
    /// An element follows the character data, so that trailing white space
    /// separates the two and is kept.
    pub has_element_after: bool,
}

/// How character data is normalized.
#[derive(Clone, Copy, Debug, PartialEq, Eq, Structural)]
pub enum XmlSpaceNormalize {
    /// `xml:space="default"`: edges are trimmed and white space collapsed.
    Default(NormalizeDefault),
    /// `xml:space="preserve"`: the text is kept as it is.
    Preserve,
}

/// `s` without its line feeds, with each tab turned into a space, and with
/// every run of spaces reduced to one space.
pub open spec fn squeeze(s: Seq<char>) -> Seq<char>
    decreases s.len(),
{
    if s.len() == 0 {
        seq![]
    } else {
        let init = squeeze(s.drop_last());
        let c = s.last();
        if c == '\n' {
            init
        } else if c == '\t' || c == ' ' {
            if init.len() > 0 && init.last() == ' ' {
                init
            } else {
                init.push(' ')
            }
        } else {
            init.push(c)
        }
    }
}

/// `s` with the white space removed from each edge that no element adjoins.
pub open spec fn trim_edges(elements: NormalizeDefault, s: Seq<char>) -> Seq<char> {
    let a = if elements.has_element_before {
        s
    } else {
        trim_start(s)
    };
    if elements.has_element_after {
        a
    } else {
        trim_end(a)
    }
}

/// The text that `xml:space="default"` makes of `s`.
pub open spec fn normalize_default(elements: NormalizeDefault, s: Seq<char>) -> Seq<char> {
    squeeze(trim_edges(elements, s))
}

/// The text that normalization in `mode` makes of `s`.
pub open spec fn normalized(mode: XmlSpaceNormalize, s: Seq<char>) -> Seq<char> {
    match mode {
        XmlSpaceNormalize::Default(elements) => normalize_default(elements, s),
        XmlSpaceNormalize::Preserve => s,
    }
}

/// `s` holds no line feed, no tab, and no space directly behind a space.
pub open spec fn is_squeezed(s: Seq<char>) -> bool {
    &&& forall|i: int| 0 <= i < s.len() ==> s[i] != '\n' && s[i] != '\t'
    &&& forall|i: int| 0 < i < s.len() ==> !(s[i - 1] == ' ' && #[trigger] s[i] == ' ')
}

/// What `squeeze` gives is squeezed.
pub proof fn lemma_squeeze_is_squeezed(s: Seq<char>)
    ensures
        is_squeezed(squeeze(s)),
    decreases s.len(),
{
    if s.len() > 0 {
        lemma_squeeze_is_squeezed(s.drop_last());
    }
}

/// `squeeze` leaves a squeezed text as it is.
pub proof fn lemma_squeeze_of_squeezed(s: Seq<char>)
    requires
        is_squeezed(s),
    ensures
        squeeze(s) == s,
    decreases s.len(),
{
    if s.len() > 0 {
        let init = s.drop_last();
        assert(is_squeezed(init)) by {
            assert forall|i: int| 0 < i < init.len() implies !(init[i - 1] == ' '
                && #[trigger] init[i] == ' ') by {
                assert(init[i] == s[i]);
            }
        }
        lemma_squeeze_of_squeezed(init);
        let c = s.last();
        assert(c == s[s.len() - 1]);
        if c == ' ' && init.len() > 0 {
            assert(init.last() == s[s.len() - 2]);
        }
        assert(init.push(c) == s);
    }
}

/// `squeeze` keeps a first character that is no white space.
pub proof fn lemma_squeeze_keeps_first(s: Seq<char>)
    requires
        s.len() > 0,
        !is_whitespace(s[0]),
    ensures
        squeeze(s).len() > 0,
        squeeze(s)[0] == s[0],
    decreases s.len(),
{
    if s.len() > 1 {
        lemma_squeeze_keeps_first(s.drop_last());
    } else {
        assert(s.drop_last().len() == 0);
        assert(squeeze(s.drop_last()).len() == 0);
    }
}

/// `squeeze` keeps a last character that is no white space.
pub proof fn lemma_squeeze_keeps_last(s: Seq<char>)
    requires
        s.len() > 0,
        !is_whitespace(s.last()),
    ensures
        squeeze(s).len() > 0,
        squeeze(s).last() == s.last(),
{
}

/// Trimming the edges a second time changes nothing once the text has been
/// normalized.
proof fn lemma_trim_edges_of_normalized(elements: NormalizeDefault, s: Seq<char>)
    ensures
        trim_edges(elements, normalize_default(elements, s)) == normalize_default(elements, s),
{
    let a = if elements.has_element_before {
        s
    } else {
        trim_start(s)
    };
    let t = trim_edges(elements, s);
    let r = squeeze(t);
    lemma_skip_whitespace_bounds(s, 0);
    lemma_skip_whitespace_back_bounds(a, a.len() as int);
    // What was trimmed begins and ends with a character that is no white space.
    if !elements.has_element_before && t.len() > 0 {
        assert(t[0] == a[0]);
        assert(a[0] == s[skip_whitespace(s, 0)]);
        lemma_squeeze_keeps_first(t);
    }
    if !elements.has_element_after && t.len() > 0 {
        assert(t.last() == a[skip_whitespace_back(a, a.len() as int) - 1]);
        lemma_squeeze_keeps_last(t);
    }
    if t.len() == 0 {
        assert(r.len() == 0);
    }
    let ra = if elements.has_element_before {
        r
    } else {
        trim_start(r)
    };
    if !elements.has_element_before {
        assert(skip_whitespace(r, 0) == 0);
        assert(r.skip(0) == r);
    }
    assert(ra == r);
    if !elements.has_element_after {
        assert(skip_whitespace_back(r, r.len() as int) == r.len());
        assert(r.take(r.len() as int) == r);
    }
}

/// Normalizing in the default mode a text that was so normalized, with the
/// same neighbours, gives the same text.
pub proof fn lemma_normalize_default_idempotent(elements: NormalizeDefault, s: Seq<char>)
    ensures
        normalize_default(elements, normalize_default(elements, s)) == normalize_default(
            elements,
            s,
        ),
{
    lemma_trim_edges_of_normalized(elements, s);
    lemma_squeeze_is_squeezed(trim_edges(elements, s));
    lemma_squeeze_of_squeezed(normalize_default(elements, s));
}

/// Normalizing twice in one mode gives what normalizing once gives; in the
/// mode `Preserve` the text is never altered.
pub proof fn lemma_normalized_idempotent(mode: XmlSpaceNormalize, s: Seq<char>)
    ensures
        normalized(mode, normalized(mode, s)) == normalized(mode, s),
        mode is Preserve ==> normalized(mode, s) == s,
{
    match mode {
        XmlSpaceNormalize::Default(elements) => {
            lemma_normalize_default_idempotent(elements, s);
        },
        XmlSpaceNormalize::Preserve => {},
    }
}

/// Normalizes the white space of `s` as `mode` asks.
pub fn xml_space_normalize(mode: XmlSpaceNormalize, s: &str) -> (r: String)
    ensures
        r@ == normalized(mode, s@),
{
    match mode {
        XmlSpaceNormalize::Preserve => s.to_owned(),
        XmlSpaceNormalize::Default(elements) => {
            let v = chars_of(s);
            let a: usize = if elements.has_element_before {
                0
            } else {
                index_after_whitespace(&v, 0)
            };
            let ghost front = v@.skip(a as int);
            let mut b: usize = v.len();
            if !elements.has_element_after {
                // Walk back over the white space at the end of what is left.
                while b > a && char_is_whitespace(v[b - 1])
                    invariant
                        a <= b <= v.len(),
                        front == v@.skip(a as int),
                        skip_whitespace_back(front, b - a) == skip_whitespace_back(
                            front,
                            front.len() as int,
                        ),
                    decreases b,
                {
                    b = b - 1;
                }
            }
            let ghost t = v@.subrange(a as int, b as int);
            proof {
                assert(v@.skip(0) == v@);
                assert(front.take(front.len() as int) == front);
                assert(t == front.take(b - a));
                assert(t == trim_edges(elements, s@));
            }
            let mut out = String::new();
            let mut last_is_space = false;
            let mut i: usize = a;
            while i < b
                invariant
                    a <= i <= b <= v.len(),
                    t == v@.subrange(a as int, b as int),
                    out@ == squeeze(t.take(i - a)),
                    last_is_space == (out@.len() > 0 && out@.last() == ' '),
                decreases b - i,
            {
                let c = v[i];
                proof {
                    assert(t.take(i - a + 1).drop_last() == t.take(i - a));
                    assert(t.take(i - a + 1).last() == c);
                }
                if c == '\n' {
                } else if c == '\t' || c == ' ' {
                    if !last_is_space {
                        out.push(' ');
                        last_is_space = true;
                    }
                } else {
                    out.push(c);
                    last_is_space = false;
                }
                i = i + 1;
            }
            assert(t.take(b - a) == t);
            out
        },
    }
}

} // verus!
