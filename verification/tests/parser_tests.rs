use command_server::definition::{ArgumentArity, ArgumentDefinition};
use command_server::parser::ArgumentParser;

fn strings(items: &[&str]) -> Vec<String> {
    items.iter().map(|s| s.to_string()).collect()
}

#[test]
fn required_definition_has_no_default() {
    let d = ArgumentDefinition::required("key", "The key");
    assert_eq!(d.name, "key");
    assert_eq!(d.description, "The key");
    assert!(d.required);
    assert_eq!(d.arity, ArgumentArity::Single);
    assert!(d.default.is_none());
}

#[test]
fn optional_definitions_carry_their_defaults() {
    let plain = ArgumentDefinition::optional("ttl", "Time to live");
    assert!(!plain.required);
    assert_eq!(plain.arity, ArgumentArity::Single);
    assert!(plain.default.is_none());

    let with = ArgumentDefinition::optional_with_default("ttl", "Time to live", "60");
    assert!(!with.required);
    assert_eq!(with.default, Some(strings(&["60"])));

    let rest = ArgumentDefinition::required_remainder("words", "The words");
    assert!(rest.required);
    assert_eq!(rest.arity, ArgumentArity::Remainder);
    assert!(rest.default.is_none());

    let opt_rest = ArgumentDefinition::optional_remainder("words", "The words");
    assert!(!opt_rest.required);
    assert_eq!(opt_rest.arity, ArgumentArity::Remainder);

    let rest_with =
        ArgumentDefinition::optional_remainder_with_default("words", "The words", &["a", "b"]);
    assert!(!rest_with.required);
    assert_eq!(rest_with.arity, ArgumentArity::Remainder);
    assert_eq!(rest_with.default, Some(strings(&["a", "b"])));
}

#[test]
fn usage_token_forms() {
    assert_eq!(ArgumentDefinition::required("key", "").usage_token(), "<key>");
    assert_eq!(ArgumentDefinition::optional("ttl", "").usage_token(), "[ttl]");
    assert_eq!(
        ArgumentDefinition::optional_with_default("ttl", "", "60").usage_token(),
        "[ttl]=60"
    );
    assert_eq!(
        ArgumentDefinition::required_remainder("words", "").usage_token(),
        "<words...>"
    );
    assert_eq!(
        ArgumentDefinition::optional_remainder("words", "").usage_token(),
        "[words...]"
    );
    assert_eq!(
        ArgumentDefinition::optional_remainder_with_default("words", "", &["a", "b"]).usage_token(),
        "[words...]"
    );
}

#[test]
fn usage_token_ignores_an_empty_default() {
    let d = ArgumentDefinition {
        name: "ttl",
        description: "",
        required: false,
        arity: ArgumentArity::Single,
        default: Some(Vec::new()),
    };
    assert_eq!(d.usage_token(), "[ttl]");
    assert_eq!(d.summary(), "ttl (optional single): ");
}

#[test]
fn summary_forms() {
    assert_eq!(
        ArgumentDefinition::required("key", "The key").summary(),
        "key (required single): The key"
    );
    assert_eq!(
        ArgumentDefinition::optional_with_default("ttl", "Time to live", "60").summary(),
        "ttl (optional single): Time to live [default: 60]"
    );
    assert_eq!(
        ArgumentDefinition::required_remainder("words", "The words").summary(),
        "words (required variadic): The words"
    );
    assert_eq!(
        ArgumentDefinition::optional_remainder_with_default("words", "The words", &["a", "b"])
            .summary(),
        "words (optional variadic): The words [default: a b]"
    );
}

#[test]
fn usage_line_without_parameters() {
    let parser = ArgumentParser::new("PING", Vec::new());
    assert_eq!(parser.usage(), "Usage: PING");
    assert_eq!(parser.usage_with_details(), "Usage: PING");
}

#[test]
fn usage_line_and_details() {
    let parser = ArgumentParser::builder("SET")
        .required("key", "The key")
        .optional_with_default("ttl", "Time to live", "60")
        .optional_remainder("rest", "Everything else")
        .build();
    assert_eq!(parser.usage(), "Usage: SET <key> [ttl]=60 [rest...]");
    assert_eq!(
        parser.usage_with_details(),
        "Usage: SET <key> [ttl]=60 [rest...]\n  key (required single): The key\n  ttl (optional single): Time to live [default: 60]\n  rest (optional variadic): Everything else"
    );
}

#[test]
fn builder_keeps_declaration_order() {
    let parser = ArgumentParser::builder("CMD")
        .arg(ArgumentDefinition::optional("a", ""))
        .optional("b", "")
        .required_remainder("c", "")
        .build();
    let parsed = parser.parse(&["1", "2", "3", "4"]).unwrap();
    assert_eq!(parsed.names(), &["a", "b", "c"]);
    assert_eq!(parsed.list("a"), strings(&["1"]));
    assert_eq!(parsed.list("b"), strings(&["2"]));
    assert_eq!(parsed.list("c"), strings(&["3", "4"]));
}

#[test]
fn trailing_remainder_without_tokens_yields_default() {
    let parser = ArgumentParser::builder("ECHO")
        .optional_remainder_with_default("message", "", &["x", "y"])
        .build();
    let parsed = parser.parse(&[]).unwrap();
    assert_eq!(parsed.list("message"), strings(&["x", "y"]));
    assert!(parsed.raw().is_empty());
}

#[test]
fn trailing_remainder_with_tokens_yields_the_tokens() {
    let parser = ArgumentParser::builder("ECHO")
        .optional_remainder_with_default("message", "", &["x", "y"])
        .build();
    let parsed = parser.parse(&["t1", "t2", "t3"]).unwrap();
    assert_eq!(parsed.list("message"), strings(&["t1", "t2", "t3"]));
    assert_eq!(parsed.raw(), strings(&["t1", "t2", "t3"]).as_slice());
}

#[test]
fn arguments_are_trimmed_and_empty_ones_dropped() {
    let parser = ArgumentParser::builder("ECHO").required_remainder("message", "").build();
    let parsed = parser.parse(&["  a ", "", "   ", "b\n", "\tc"]).unwrap();
    assert_eq!(parsed.raw(), strings(&["a", "b", "c"]).as_slice());
    assert_eq!(parsed.list("message"), strings(&["a", "b", "c"]));
}

#[test]
fn missing_required_single_is_named() {
    let parser = ArgumentParser::builder("GET").required("key", "The key").build();
    let error = parser.parse(&[]).unwrap_err();
    assert_eq!(error.message(), "Missing required argument(s): key");
    assert_eq!(error.command(), "GET");
    assert_eq!(
        error.usage(),
        "Usage: GET <key>\n  key (required single): The key"
    );
    assert_eq!(
        error.pretty(),
        "Missing required argument(s): key\nUsage: GET <key>\n  key (required single): The key"
    );
}

#[test]
fn all_missing_required_are_named_in_order() {
    let parser = ArgumentParser::builder("SET")
        .required("key", "")
        .required("value", "")
        .build();
    let error = parser.parse(&[]).unwrap_err();
    assert_eq!(error.message(), "Missing required argument(s): key, value");
    let error = parser.parse(&["k"]).unwrap_err();
    assert_eq!(error.message(), "Missing required argument(s): value");
}

#[test]
fn missing_required_remainder_is_named() {
    let parser = ArgumentParser::builder("SAY")
        .required("to", "")
        .required_remainder("words", "")
        .build();
    let error = parser.parse(&["bob"]).unwrap_err();
    assert_eq!(error.message(), "Missing required argument(s): words");
}

#[test]
fn surplus_tokens_are_reported_from_the_first() {
    let parser = ArgumentParser::builder("GET").required("key", "").build();
    let error = parser.parse(&["k", "extra", "more"]).unwrap_err();
    assert_eq!(error.message(), "Unexpected argument(s) starting at 'extra more'");
    let none = ArgumentParser::new("NOP", Vec::new());
    let error = none.parse(&["x"]).unwrap_err();
    assert_eq!(error.message(), "Unexpected argument(s) starting at 'x'");
    assert_eq!(error.usage(), "Usage: NOP");
}

#[test]
fn remainder_that_is_not_last_is_rejected() {
    let parser = ArgumentParser::builder("BAD")
        .optional_remainder("rest", "")
        .required("key", "")
        .build();
    let error = parser.parse(&["a", "b"]).unwrap_err();
    assert_eq!(
        error.message(),
        "Argument 'rest' captures the remaining input and must be the final argument"
    );
    let error = parser.parse(&[]).unwrap_err();
    assert_eq!(
        error.message(),
        "Argument 'rest' captures the remaining input and must be the final argument"
    );
}

#[test]
fn single_default_applies_only_without_a_token() {
    let parser = ArgumentParser::builder("EXPIRE")
        .required("key", "")
        .optional_with_default("ttl", "", "60")
        .optional("unit", "")
        .build();
    let parsed = parser.parse(&["k"]).unwrap();
    assert_eq!(parsed.get("key"), Some("k"));
    assert_eq!(parsed.get("ttl"), Some("60"));
    assert_eq!(parsed.get("unit"), None);
    assert!(parsed.has("ttl"));
    assert!(!parsed.has("unit"));
    assert!(!parsed.has("nothing"));
    assert_eq!(parsed.get_or("unit", "s"), "s");
    assert_eq!(parsed.get_or("ttl", "1"), "60");
    assert_eq!(parsed.get_all("unit"), Some(strings(&[]).as_slice()));
    assert_eq!(parsed.get_all("nothing"), None);
    assert!(parsed.list("nothing").is_empty());

    let parsed = parser.parse(&["k", "5", "ms"]).unwrap();
    assert_eq!(parsed.get("ttl"), Some("5"));
    assert_eq!(parsed.get("unit"), Some("ms"));
    assert_eq!(parsed.command_name(), "EXPIRE");
}

#[test]
fn joined_values() {
    let parser = ArgumentParser::builder("SAY").required_remainder("words", "").build();
    let parsed = parser.parse(&["a", "b", "c"]).unwrap();
    assert_eq!(parsed.get_joined("words", ", "), Some("a, b, c".to_string()));
    assert_eq!(parsed.get_joined("words", ""), Some("abc".to_string()));
    assert_eq!(parsed.get_joined("other", " "), None);
    assert_eq!(parsed.get("words"), Some("a"));
}

#[test]
fn a_name_declared_twice_keeps_its_last_binding() {
    let parser = ArgumentParser::builder("DUP").required("x", "").required("x", "").build();
    let parsed = parser.parse(&["1", "2"]).unwrap();
    assert_eq!(parsed.names(), &["x", "x"]);
    assert_eq!(parsed.get("x"), Some("2"));
}

#[test]
fn pretty_rendering() {
    let none = ArgumentParser::new("NOP", Vec::new());
    assert_eq!(none.parse(&[]).unwrap().pretty(), "NOP: <no arguments>");

    let parser = ArgumentParser::builder("SAY")
        .required("to", "")
        .optional("how", "")
        .optional_remainder("words", "")
        .build();
    let parsed = parser.parse(&["bob"]).unwrap();
    assert_eq!(
        parsed.pretty(),
        "SAY arguments:\n  to: bob\n  how: <none>\n  words: <none>"
    );
    let parsed = parser.parse(&["bob", "loud", "hi", "there"]).unwrap();
    assert_eq!(
        parsed.pretty(),
        "SAY arguments:\n  to: bob\n  how: loud\n  words: hi there"
    );
}

#[test]
fn bind_takes_tokens_as_they_are() {
    let parser = ArgumentParser::builder("SET")
        .required("key", "")
        .optional_remainder_with_default("rest", "", &["d"])
        .build();
    let parsed = parser.bind(strings(&[" k ", "", "v"])).unwrap();
    assert_eq!(parsed.raw(), strings(&[" k ", "", "v"]).as_slice());
    assert_eq!(parsed.get("key"), Some(" k "));
    assert_eq!(parsed.list("rest"), strings(&["", "v"]));

    let parsed = parser.bind(strings(&["k"])).unwrap();
    assert_eq!(parsed.list("rest"), strings(&["d"]));

    let error = parser.bind(Vec::new()).unwrap_err();
    assert_eq!(error.message(), "Missing required argument(s): key");
    assert_eq!(
        error.usage(),
        "Usage: SET <key> [rest...]\n  key (required single): \n  rest (optional variadic):  [default: d]"
    );

    let single = ArgumentParser::builder("GET").required("key", "").build();
    let error = single.bind(strings(&["a", "b", "c"])).unwrap_err();
    assert_eq!(error.message(), "Unexpected argument(s) starting at 'b c'");
}
