use case_converter::{convert, submit, NamingScheme};

const ALL: [NamingScheme; 4] = [
    NamingScheme::Camel,
    NamingScheme::Pascal,
    NamingScheme::Snake,
    NamingScheme::Kebab,
];

#[test]
fn submit_snake_to_camel() {
    assert_eq!(submit("hello_world", "camelCase"), "helloWorld");
}

#[test]
fn submit_pascal_to_snake() {
    assert_eq!(submit("HelloWorld", "snake_case"), "hello_world");
}

#[test]
fn submit_kebab_to_pascal() {
    assert_eq!(submit("hello-world", "PascalCase"), "HelloWorld");
}

#[test]
fn submit_camel_to_kebab() {
    assert_eq!(submit("helloWorld", "kebab-case"), "hello-world");
}

#[test]
fn submit_unknown_scheme_returns_name() {
    assert_eq!(submit("already", "bogusScheme"), "already");
}

#[test]
fn submit_empty_name() {
    assert_eq!(submit("", "snake_case"), "");
}

#[test]
fn empty_input_gives_empty_output_for_every_scheme() {
    for k in ALL {
        assert_eq!(convert("", k), "");
    }
}

#[test]
fn delimiters_alone_give_empty_output() {
    for k in ALL {
        assert_eq!(convert("__- -_", k), "");
    }
}

#[test]
fn canonical_inputs_are_unchanged() {
    assert_eq!(convert("helloBigWorld", NamingScheme::Camel), "helloBigWorld");
    assert_eq!(convert("HelloBigWorld", NamingScheme::Pascal), "HelloBigWorld");
    assert_eq!(convert("hello_big_world", NamingScheme::Snake), "hello_big_world");
    assert_eq!(convert("hello-big-world", NamingScheme::Kebab), "hello-big-world");
}

#[test]
fn converting_twice_changes_nothing_more() {
    for k in ALL {
        let once = convert("parse XML_fileNow", k);
        assert_eq!(convert(&once, k), once);
    }
}

#[test]
fn unknown_scheme_falls_through() {
    for s in ["", "hello_world", "HelloWorld", "a b-c"] {
        assert_eq!(submit(s, "unknown-scheme-xyz"), s);
    }
}

#[test]
fn scheme_names_are_case_sensitive() {
    assert_eq!(submit("hello_world", "CamelCase"), "hello_world");
    assert_eq!(submit("hello_world", "SNAKE_CASE"), "hello_world");
    assert_eq!(submit("hello_world", ""), "hello_world");
    assert_eq!(submit("hello_world", "camelCase "), "hello_world");
}

#[test]
fn word_count_is_the_same_for_every_scheme() {
    let input = "myXMLParser_v2 config-file";
    let snake = convert(input, NamingScheme::Snake);
    let kebab = convert(input, NamingScheme::Kebab);
    let pascal = convert(input, NamingScheme::Pascal);
    let camel = convert(input, NamingScheme::Camel);
    assert_eq!(snake, "my_xml_parser_v2_config_file");
    assert_eq!(kebab, "my-xml-parser-v2-config-file");
    assert_eq!(pascal, "MyXmlParserV2ConfigFile");
    assert_eq!(camel, "myXmlParserV2ConfigFile");
    assert_eq!(snake.split('_').count(), 6);
    assert_eq!(kebab.split('-').count(), 6);
    assert_eq!(pascal.chars().filter(|c| c.is_uppercase()).count(), 6);
}

#[test]
fn acronym_boundary() {
    assert_eq!(convert("XMLParser", NamingScheme::Snake), "xml_parser");
    assert_eq!(convert("parseHTTPResponse", NamingScheme::Kebab), "parse-http-response");
}

#[test]
fn digits_stay_with_the_word_before() {
    assert_eq!(convert("version2", NamingScheme::Snake), "version2");
    assert_eq!(convert("utf8Decoder", NamingScheme::Snake), "utf8_decoder");
    assert_eq!(convert("SuperMario64Game", NamingScheme::Kebab), "super-mario64-game");
    assert_eq!(convert("route_66", NamingScheme::Pascal), "Route66");
}

#[test]
fn leading_trailing_and_repeated_delimiters_collapse() {
    assert_eq!(convert("__hello__world__", NamingScheme::Camel), "helloWorld");
    assert_eq!(convert("-hello--world-", NamingScheme::Snake), "hello_world");
    assert_eq!(convert("  hello   world ", NamingScheme::Kebab), "hello-world");
}

#[test]
fn single_word_keeps_its_content() {
    assert_eq!(convert("word", NamingScheme::Camel), "word");
    assert_eq!(convert("word", NamingScheme::Pascal), "Word");
    assert_eq!(convert("WORD", NamingScheme::Snake), "word");
    assert_eq!(convert("Word", NamingScheme::Kebab), "word");
}

#[test]
fn mixed_case_words_are_normalized() {
    assert_eq!(convert("HELLO_world", NamingScheme::Pascal), "HelloWorld");
    assert_eq!(convert("Hello World", NamingScheme::Camel), "helloWorld");
    assert_eq!(convert("hELLO", NamingScheme::Snake), "h_ello");
}

#[test]
fn selectors_are_read_exactly() {
    assert_eq!(NamingScheme::from_selector("camelCase"), Some(NamingScheme::Camel));
    assert_eq!(NamingScheme::from_selector("PascalCase"), Some(NamingScheme::Pascal));
    assert_eq!(NamingScheme::from_selector("snake_case"), Some(NamingScheme::Snake));
    assert_eq!(NamingScheme::from_selector("kebab-case"), Some(NamingScheme::Kebab));
    assert_eq!(NamingScheme::from_selector("kebab_case"), None);
    assert_eq!(NamingScheme::from_selector("pascalCase"), None);
    assert_eq!(NamingScheme::from_selector(""), None);
}

#[test]
fn delimiter_only_names_give_empty_output() {
    for sel in ["camelCase", "PascalCase", "snake_case", "kebab-case"] {
        assert_eq!(submit("__", sel), "");
        assert_eq!(submit("- _", sel), "");
    }
    assert_eq!(submit("__", "bogusScheme"), "__");
}

#[test]
fn canonical_names_with_digits_and_short_words_are_unchanged() {
    assert_eq!(convert("aB1Cd", NamingScheme::Camel), "aB1Cd");
    assert_eq!(convert("x2", NamingScheme::Camel), "x2");
    assert_eq!(convert("AbC", NamingScheme::Pascal), "AbC");
    assert_eq!(convert("Route66Map", NamingScheme::Pascal), "Route66Map");
    assert_eq!(convert("a_1_b2", NamingScheme::Snake), "a_1_b2");
    assert_eq!(convert("v2-api", NamingScheme::Kebab), "v2-api");
}

#[test]
fn other_characters_separate_words() {
    assert_eq!(convert("a.bC", NamingScheme::Snake), "a_b_c");
    assert_eq!(convert("x.Y z", NamingScheme::Pascal), "XYZ");
    assert_eq!(submit("a.b", "snake_case"), "a_b");
    assert_eq!(submit("user@example.com", "kebab-case"), "user-example-com");
    assert_eq!(submit("a\tb\nc", "camelCase"), "aBC");
}

#[test]
fn names_without_letters_or_digits_give_empty_output() {
    for sel in ["camelCase", "PascalCase", "snake_case", "kebab-case"] {
        assert_eq!(submit(".", sel), "");
        assert_eq!(submit("!? ._/", sel), "");
        assert_eq!(submit("\u{2014}\u{00b7}", sel), "");
    }
}

#[test]
fn non_ascii_letters_stay_in_words() {
    assert_eq!(submit("caf\u{e9}_au_lait", "camelCase"), "caf\u{e9}AuLait");
    assert_eq!(submit("a\u{2014}b", "snake_case"), "a_b");
}
