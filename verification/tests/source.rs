use svg2pdf::usvg::Error;
use svg2pdf::usvg::Options;
use svg2pdf::usvg::Tree;
use svg_page::error::ConvertError;
use svg_page::source::parse_drawing;
use svg_page::source::parse_outcome;
use svg_page::source::prepare_options;

const DRAWING: &str = "<svg xmlns=\"http://www.w3.org/2000/svg\" width=\"200\" height=\"100\">\
                       <rect x=\"10\" y=\"10\" width=\"50\" height=\"30\" fill=\"#00ff00\"/></svg>";

fn refusal(r: Result<Tree, ConvertError>) -> ConvertError {
    match r {
        Ok(_) => panic!("a drawing where a refusal was due"),
        Err(e) => e,
    }
}

#[test]
fn parse_reads_a_drawing() {
    let tree = parse_drawing(DRAWING, Options::default(), &None).unwrap();
    assert_eq!(tree.size().width(), 200.0);
    assert_eq!(tree.size().height(), 100.0);
    let tree = parse_drawing(DRAWING, Options::default(), &Some("Inter".to_string())).unwrap();
    assert_eq!(tree.size().width(), 200.0);
}

#[test]
fn parse_reports_a_broken_text() {
    for text in ["", "<svg", "not a drawing", "<html></html>"] {
        match parse_drawing(text, Options::default(), &None) {
            Err(ConvertError::SourceParse(message)) => assert!(!message.is_empty()),
            Err(other) => panic!("unexpected error: {}", other.message()),
            Ok(_) => panic!("a broken text was parsed"),
        }
    }
}

#[test]
fn parse_reports_in_the_words_of_the_parser() {
    let texts = ["", "<svg", "<a><b></a>", "not a drawing", "<html></html>"];
    for text in texts {
        let expected = match Tree::from_str(text, &Options::default()) {
            Ok(_) => panic!("the parser took a broken text"),
            Err(error) => error.to_string(),
        };
        assert_eq!(
            refusal(parse_drawing(text, Options::default(), &None)),
            ConvertError::SourceParse(expected)
        );
    }
}

#[test]
fn outcome_of_a_refusal_holds_its_description() {
    assert_eq!(
        refusal(parse_outcome(Err(Error::InvalidSize))),
        ConvertError::SourceParse("SVG has an invalid size".to_string())
    );
    assert_eq!(
        refusal(parse_outcome(Err(Error::NotAnUtf8Str))),
        ConvertError::SourceParse("provided data has not an UTF-8 encoding".to_string())
    );
    assert_eq!(
        refusal(parse_outcome(Err(Error::MalformedGZip))),
        ConvertError::SourceParse("provided data has a malformed GZip content".to_string())
    );
    assert_eq!(
        refusal(parse_outcome(Err(Error::ElementsLimitReached))),
        ConvertError::SourceParse(
            "the maximum number of SVG elements has been reached".to_string()
        )
    );
}

#[test]
fn outcome_of_a_drawing_is_the_drawing() {
    let tree = Tree::from_str(DRAWING, &Options::default()).unwrap();
    let passed = parse_outcome(Ok(tree)).unwrap();
    assert_eq!(passed.size().width(), 200.0);
    assert_eq!(passed.size().height(), 100.0);
}

#[test]
fn prepared_options_carry_the_family() {
    let prepared = prepare_options(Options::default(), &Some("Inter".to_string()));
    assert_eq!(prepared.font_family, "Inter");
    let prepared = prepare_options(prepared, &Some("Fira Code".to_string()));
    assert_eq!(prepared.font_family, "Fira Code");
}

#[test]
fn prepared_options_stay_without_a_family() {
    let came_with = Options::default().font_family;
    let prepared = prepare_options(Options::default(), &None);
    assert_eq!(prepared.font_family, came_with);
    let mut options = Options::default();
    options.font_family = "Noto Sans".to_string();
    options.dpi = 144.0;
    let prepared = prepare_options(options, &None);
    assert_eq!(prepared.font_family, "Noto Sans");
    assert_eq!(prepared.dpi, 144.0);
}
