//! Text handling: normalising the message that a glyph hides, choosing the
//! kind of glyph by name, and escaping text for SVG markup.

use vstd::prelude::*;
use vstd::string::StringExecFns;

verus! {

broadcast use vstd::string::group_string_axioms;

/// What `str::trim` returns for a string: the string without its leading
/// and trailing white space (Unicode `White_Space`).
pub uninterp spec fn trimmed(s: Seq<char>) -> Seq<char>;

/// What `str::to_lowercase` returns for a string: its Unicode lowercase.
pub uninterp spec fn lowercased(s: Seq<char>) -> Seq<char>;

/// `str::trim`: the string without leading and trailing white space.
#[verifier::external_body]
fn trim_str(s: &str) -> (r: &str)
    ensures
        r@ == trimmed(s@),
{
    s.trim()
}

/// `str::to_lowercase`: the Unicode lowercase of the string.
#[verifier::external_body]
fn lowercase_str(s: &str) -> (r: String)
    ensures
        r@ == lowercased(s@),
{
    s.to_lowercase()
}

/// `String::push`: appends one character.
#[verifier::external_body]
fn push_char(s: &mut String, c: char)
    ensures
        final(s)@ == old(s)@.push(c),
{
    s.push(c)
}

/// The characters a message may keep: the lowercase latin letters and the
/// space.
pub open spec fn supported_input_char(c: char) -> bool {
    ('a' <= c && c <= 'z') || c == ' '
}

/// The message that a glyph encodes for `message`: trimmed, lowercased, and
/// reduced to its supported characters; when nothing is left, the
/// placeholder "the hidden line".
pub open spec fn normalized(message: Seq<char>) -> Seq<char> {
    let filtered = lowercased(trimmed(message)).filter(|x: char| supported_input_char(x));
    if filtered.len() == 0 {
        "the hidden line"@
    } else {
        filtered
    }
}

/// Normalises a message (see `normalized`).
pub fn normalize_message(message: &str) -> (r: String)
    ensures
        r@ == normalized(message@),
{
    let lowered = lowercase_str(trim_str(message));
    let lowered_str = lowered.as_str();
    let mut filtered = String::new();
    for c in it: lowered_str.chars()
        invariant
            it.seq() == lowered@,
            filtered@ == lowered@.take(it.index() as int).filter(|x: char| supported_input_char(x)),
    {
        let ghost k = it.index() as int;
        assert(lowered@.take(k + 1).filter(|x: char| supported_input_char(x)) == if supported_input_char(c) {
            lowered@.take(k).filter(|x: char| supported_input_char(x)).push(c)
        } else {
            lowered@.take(k).filter(|x: char| supported_input_char(x))
        }) by {
            reveal(Seq::filter);
            assert(lowered@.take(k + 1).drop_last() =~= lowered@.take(k));
        }
        if ('a' <= c && c <= 'z') || c == ' ' {
            push_char(&mut filtered, c);
        }
    }
    assert(lowered@.take(lowered@.len() as int) =~= lowered@);
    if filtered.as_str().unicode_len() == 0 {
        String::from_str("the hidden line")
    } else {
        filtered
    }
}

/// The markup for one character in an attribute value: `&`, `"`, `<` and `>`
/// become entities, anything else stays.
pub open spec fn escaped_attr_char(c: char) -> Seq<char> {
    if c == '&' {
        "&amp;"@
    } else if c == '"' {
        "&quot;"@
    } else if c == '<' {
        "&lt;"@
    } else if c == '>' {
        "&gt;"@
    } else {
        seq![c]
    }
}

/// The markup for one character of text content: `&`, `<` and `>` become
/// entities, anything else stays.
pub open spec fn escaped_text_char(c: char) -> Seq<char> {
    if c == '&' {
        "&amp;"@
    } else if c == '<' {
        "&lt;"@
    } else if c == '>' {
        "&gt;"@
    } else {
        seq![c]
    }
}

/// A string escaped character by character for an attribute value.
pub open spec fn escaped_attr(s: Seq<char>) -> Seq<char>
    decreases s.len(),
{
    if s.len() == 0 {
        Seq::empty()
    } else {
        escaped_attr(s.drop_last()) + escaped_attr_char(s.last())
    }
}

/// A string escaped character by character for text content.
pub open spec fn escaped_text(s: Seq<char>) -> Seq<char>
    decreases s.len(),
{
    if s.len() == 0 {
        Seq::empty()
    } else {
        escaped_text(s.drop_last()) + escaped_text_char(s.last())
    }
}

/// Characters that would end an attribute value or open markup.
pub open spec fn markup_char(c: char) -> bool {
    c == '<' || c == '>' || c == '"'
}

/// An escaped attribute value holds no `<`, `>` or `"`, and escaped text no
/// `<` or `>`: whatever the input, escaping leaves no raw markup.
pub proof fn lemma_escaped_has_no_markup(s: Seq<char>)
    ensures
        forall|k: int| 0 <= k < escaped_attr(s).len() ==> !markup_char(#[trigger] escaped_attr(s)[k]),
        forall|k: int|
            0 <= k < escaped_text(s).len() ==> #[trigger] escaped_text(s)[k] != '<' && escaped_text(s)[k] != '>',
    decreases s.len(),
{
    reveal_strlit("&amp;");
    reveal_strlit("&quot;");
    reveal_strlit("&lt;");
    reveal_strlit("&gt;");
    if s.len() > 0 {
        lemma_escaped_has_no_markup(s.drop_last());
        let pa = escaped_attr(s.drop_last());
        let ca = escaped_attr_char(s.last());
        assert forall|k: int| 0 <= k < escaped_attr(s).len() implies !markup_char(#[trigger] escaped_attr(s)[k]) by {
            if k < pa.len() {
                assert(escaped_attr(s)[k] == pa[k]);
            } else {
                assert(escaped_attr(s)[k] == ca[k - pa.len()]);
            }
        }
        let pt = escaped_text(s.drop_last());
        let ct = escaped_text_char(s.last());
        assert forall|k: int| 0 <= k < escaped_text(s).len() implies #[trigger] escaped_text(s)[k] != '<' && escaped_text(s)[k] != '>' by {
            if k < pt.len() {
                assert(escaped_text(s)[k] == pt[k]);
            } else {
                assert(escaped_text(s)[k] == ct[k - pt.len()]);
            }
        }
    }
}

/// Text without `&`, `"`, `<` and `>` is its own escape, for attributes and
/// for content alike.
pub proof fn lemma_escape_keeps_plain_text(s: Seq<char>)
    requires
        forall|k: int| 0 <= k < s.len() ==> !markup_char(#[trigger] s[k]) && s[k] != '&',
    ensures
        escaped_attr(s) == s,
        escaped_text(s) == s,
    decreases s.len(),
{
    if s.len() > 0 {
        lemma_escape_keeps_plain_text(s.drop_last());
        assert(s.drop_last().push(s.last()) =~= s);
        assert(escaped_attr(s) =~= s.drop_last() + seq![s.last()]);
        assert(escaped_text(s) =~= s.drop_last() + seq![s.last()]);
    }
}

/// Escapes a value for an SVG attribute (see `escaped_attr`).
pub fn escape_attr(value: &str) -> (r: String)
    ensures
        r@ == escaped_attr(value@),
{
    let mut r = String::new();
    for c in it: value.chars()
        invariant
            it.seq() == value@,
            r@ == escaped_attr(value@.take(it.index() as int)),
    {
        let ghost k = it.index() as int;
        assert(value@.take(k + 1).drop_last() =~= value@.take(k));
        if c == '&' {
            r.append("&amp;");
        } else if c == '"' {
            r.append("&quot;");
        } else if c == '<' {
            r.append("&lt;");
        } else if c == '>' {
            r.append("&gt;");
        } else {
            push_char(&mut r, c);
        }
    }
    assert(value@.take(value@.len() as int) =~= value@);
    r
}

/// Escapes text content for SVG (see `escaped_text`).
pub fn escape_text(value: &str) -> (r: String)
    ensures
        r@ == escaped_text(value@),
{
    let mut r = String::new();
    for c in it: value.chars()
        invariant
            it.seq() == value@,
            r@ == escaped_text(value@.take(it.index() as int)),
    {
        let ghost k = it.index() as int;
        assert(value@.take(k + 1).drop_last() =~= value@.take(k));
        if c == '&' {
            r.append("&amp;");
        } else if c == '<' {
            r.append("&lt;");
        } else if c == '>' {
            r.append("&gt;");
        } else {
            push_char(&mut r, c);
        }
    }
    assert(value@.take(value@.len() as int) =~= value@);
    r
}

/// The kind of glyph to draw.
#[derive(Debug, Clone, Copy, PartialEq, Eq, Structural)]
pub enum StegKind {
    Spiral,
    Fingerprint,
}

/// The names that select a fingerprint: after trimming and lowercasing, one of
/// "fingerprint", "maze" or "01".
pub open spec fn names_fingerprint(name: Seq<char>) -> bool {
    let key = lowercased(trimmed(name));
    key == "fingerprint"@ || key == "maze"@ || key == "01"@
}

impl StegKind {
    /// The kind a name selects: a fingerprint for the names of
    /// `names_fingerprint`, a spiral for any other name.
    pub fn from_name(name: &str) -> (kind: StegKind)
        ensures
            kind == (if names_fingerprint(name@) { StegKind::Fingerprint } else { StegKind::Spiral }),
    {
        let key = lowercase_str(trim_str(name));
        if key == String::from_str("fingerprint") || key == String::from_str("maze") || key
            == String::from_str("01") {
            StegKind::Fingerprint
        } else {
            StegKind::Spiral
        }
    }

    /// The label of the kind, as the SVG's description names it.
    pub fn as_label(self) -> (label: &'static str)
        ensures
            label@ == (if self == StegKind::Spiral { "spiral"@ } else { "fingerprint"@ }),
    {
        match self {
            StegKind::Spiral => "spiral",
            StegKind::Fingerprint => "fingerprint",
        }
    }
}

/// The values of a background option that mean no background: after
/// trimming, the empty string, "none" or "transparent".
pub open spec fn names_no_background(background: Seq<char>) -> bool {
    let key = trimmed(background);
    key == ""@ || key == "none"@ || key == "transparent"@
}

/// The fill of the background rectangle that a background option asks for:
/// none for the values of `names_no_background`, the trimmed value otherwise.
pub fn background_fill(background: &str) -> (fill: Option<String>)
    ensures
        match fill {
            None => names_no_background(background@),
            Some(f) => !names_no_background(background@) && f@ == trimmed(background@),
        },
{
    let key = trim_str(background);
    let owned = String::from_str(key);
    if owned == String::from_str("") || owned == String::from_str("none") || owned == String::from_str("transparent") {
        None
    } else {
        Some(owned)
    }
}

} // verus!
