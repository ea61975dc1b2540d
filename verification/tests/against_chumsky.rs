use apyxl::parser::chars::{skip_run, CharClass};
use apyxl::parser::lexical::{ident, keyword};
use apyxl::text::chars_of;
use chumsky::prelude::{any, end, extra, Simple, SimpleSpan};
use chumsky::{text, Parser};

type Error<'a> = extra::Err<Simple<'a, char>>;

const WORDS: [&str; 24] = [
    "a", "_", "_a", "a_b", "a1", "1a", "", "-", "a-b", "pub", "public", "pubfn", "fn", "é", "aé",
    "A9_", "__", "a b", " a", "a.", "struct", "structs", "use", "us",
];

/// How many characters of `text` the parser takes from its start.
fn taken<'a, O>(text: &'a str, parser: impl Parser<'a, &'a str, O, Error<'a>>) -> Option<usize> {
    parser
        .map_with_span(|_, span: SimpleSpan| span.end)
        .then_ignore(any().repeated())
        .then_ignore(end())
        .parse(text)
        .into_result()
        .ok()
        .map(|bytes| text[..bytes].chars().count())
}

#[test]
fn identifiers_are_those_of_the_parser_library() {
    for word in WORDS {
        let expected = taken(word, text::ident::<&str, char, Error>());
        assert_eq!(ident(&chars_of(word), 0), expected, "{:?}", word);
    }
}

#[test]
fn keywords_are_those_of_the_parser_library() {
    for word in WORDS {
        for kw in ["pub", "fn", "struct", "use", "a"] {
            let expected = taken(word, text::keyword::<&str, char, &str, Error>(kw));
            assert_eq!(keyword(&chars_of(word), 0, kw), expected, "{:?} {:?}", word, kw);
        }
    }
}

#[test]
fn white_space_is_that_of_the_parser_library() {
    for text in ["", " ", " \t\n\r a", "\u{a0}\u{2003}\u{3000}x", "\u{200b} ", "a "] {
        let expected = taken(text, text::whitespace::<char, &str, Error>());
        assert_eq!(Some(skip_run(&chars_of(text), 0, CharClass::Space)), expected, "{:?}", text);
    }
}
