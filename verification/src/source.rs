//! Reading the source text: from the characters of a drawing to the parsed
//! drawing, or to the parser's complaint.

use resvg::usvg::Error;
use resvg::usvg::Options;
use resvg::usvg::Tree;
use vstd::prelude::*;
use crate::error::ConvertError;

verus! {

/// `usvg::Tree`, a parsed drawing. Opaque here.
#[verifier::external_type_specification]
#[verifier::external_body]
pub struct ExTree(resvg::usvg::Tree);

/// `usvg::Options`, the settings of the parser, among them the fonts it may
/// use. Opaque here.
#[verifier::external_type_specification]
#[verifier::external_body]
pub struct ExOptions<'a>(resvg::usvg::Options<'a>);

/// `usvg::Error`, the parser's failure. Opaque here.
#[verifier::external_type_specification]
#[verifier::external_body]
pub struct ExError(resvg::usvg::Error);

/// The font family that the parser's options carry: the family of text that
/// names none.
pub uninterp spec fn options_family(options: Options) -> Seq<char>;

/// Sets the field `font_family` of the parser's options, which then carry
/// the family given.
#[verifier::external_body]
fn set_font_family(options: &mut Options, family: &str)
    ensures
        options_family(*final(options)) == family@,
{
    options.font_family = family.to_string();
}

/// The font family of the options that are handed to the parser: the family
/// given, where there is one, and else the one that the options came with.
pub open spec fn prepared_family(options: Options, font_family: Option<String>) -> Seq<char> {
    match font_family {
        Some(family) => family@,
        None => options_family(options),
    }
}

/// Prepares the parser's options: they carry the family given, where there
/// is one, and are else the options as they came.
pub fn prepare_options<'a>(options: Options<'a>, font_family: &Option<String>) -> (prepared:
    Options<'a>)
    ensures
        options_family(prepared) == prepared_family(options, *font_family),
        font_family is None ==> prepared == options,
{
    let mut prepared = options;
    match font_family {
        Some(family) => {
            set_font_family(&mut prepared, family.as_str());
        },
        None => {},
    }
    prepared
}

/// Calls `usvg::Tree::from_str`. What it makes of a text depends on the
/// options and on the fonts and images they lead to, so nothing is said of
/// the outcome.
#[verifier::external_body]
fn parse_tree(svg: &str, options: &Options) -> (parsed: Result<Tree, Error>) {
    Tree::from_str(svg, options)
}

/// What `Display` writes for a `usvg::Error`: the parser's description of
/// its failure. The text depends on the error alone: a fixed sentence for
/// each kind of failure, followed, where the text of the drawing is not
/// well formed, by what the reader of that text found wrong.
pub uninterp spec fn refusal_text(error: Error) -> Seq<char>;

/// Parses the text of a drawing under the given options, with the given
/// font family, where there is one, for text that names none. A text that
/// the parser refuses is reported in the parser's own words.
pub fn parse_drawing(svg: &str, options: Options, font_family: &Option<String>) -> (r: Result<
    Tree,
    ConvertError,
>)
    ensures
        r is Err ==> r->Err_0 is SourceParse,
        exists|parsed: Result<Tree, Error>| #[trigger] is_parse_outcome(r, parsed),
{
    let prepared = prepare_options(options, font_family);
    let parsed = parse_tree(svg, &prepared);
    let ghost answer = parsed;
    let r = parse_outcome(parsed);
    assert(is_parse_outcome(r, answer));
    r
}

/// Whether `r` is what a conversion makes of the parser's answer `parsed`:
/// the parsed drawing as it is, or else a parse error that holds the
/// parser's description of its failure, word for word.
pub open spec fn is_parse_outcome(r: Result<Tree, ConvertError>, parsed: Result<Tree, Error>) -> bool {
    match parsed {
        Ok(tree) => r == Ok::<Tree, ConvertError>(tree),
        Err(error) => r is Err && r->Err_0 is SourceParse && r->Err_0->SourceParse_0@
            == refusal_text(error),
    }
}

/// Turns the parser's answer into the conversion's: a drawing is passed on,
/// a failure becomes a parse error in the parser's own words.
pub fn parse_outcome(parsed: Result<Tree, Error>) -> (r: Result<Tree, ConvertError>)
    ensures
        is_parse_outcome(r, parsed),
{
    match parsed {
        Ok(tree) => Ok(tree),
        Err(error) => Err(ConvertError::SourceParse(parse_error_text(&error))),
    }
}

/// The parser's description of its failure, through its `Display`.
#[verifier::external_body]
fn parse_error_text(error: &Error) -> (text: String)
    ensures
        text@ == refusal_text(*error),
{
    error.to_string()
}

} // verus!
