use vstd::prelude::*;

verus! {

/// The text that console writes for `text` under the style that
/// `Style::from_dotted_str(style)` builds, with styling forced on.
pub uninterp spec fn styled(style: Seq<char>, text: Seq<char>) -> Seq<char>;

/// What a sink writes for `text` in a dotted style: the styled text where the
/// sink has colour, the text itself where it has none.
pub open spec fn painted(style: Seq<char>, text: Seq<char>, colour: bool) -> Seq<char> {
    if colour {
        styled(style, text)
    } else {
        text
    }
}

/// Relies on console's `Style::from_dotted_str`, `Style::force_styling` and the
/// `Display` of `StyledObject`: with styling forced off the text is written as
/// it is, with no escape code around it.
#[verifier::external_body]
pub(crate) fn paint(style: &str, text: &str, colour: bool) -> (r: String)
    ensures
        colour ==> r@ == styled(style@, text@),
        !colour ==> r@ == text@,
{
    console::Style::from_dotted_str(style).force_styling(colour).apply_to(text).to_string()
}

} // verus!
