use coin_cards::svg::{
    index_fault_message, parse_index, attribute_value, extract_polygon_points, format_points, point_tokens, take_value, Args,
    ArgsCommand, ArgsError,
};

fn args(list: &[&str]) -> Vec<String> {
    list.iter().map(|s| s.to_string()).collect()
}

fn run(list: &[&str]) -> Args {
    match Args::parse(&args(list)) {
        Ok(ArgsCommand::Run(a)) => a,
        Ok(ArgsCommand::Help) => panic!("unexpected help"),
        Err(e) => panic!("unexpected error {}", e.message()),
    }
}

fn fault(list: &[&str]) -> String {
    match Args::parse(&args(list)) {
        Err(e) => e.message(),
        Ok(_) => panic!("expected an error"),
    }
}

#[test]
fn args_default_to_first_polygon_of_stdin() {
    let a = run(&[]);
    assert!(a.input.is_none());
    assert!(a.polygon_id.is_none());
    assert_eq!(a.polygon_index, 0);
}

#[test]
fn args_read_input_id_and_index() {
    let a = run(&["card.svg", "--id", "wall", "--index", "3"]);
    assert_eq!(a.input.as_deref(), Some("card.svg"));
    assert_eq!(a.polygon_id.as_deref(), Some("wall"));
    assert_eq!(a.polygon_index, 3);

    let b = run(&["--id=door", "--index=+12", "shapes/door.svg"]);
    assert_eq!(b.polygon_id.as_deref(), Some("door"));
    assert_eq!(b.polygon_index, 12);
    assert_eq!(b.input.as_deref(), Some("shapes/door.svg"));
    let c = run(&["-", "--index", "1"]);
    assert_eq!(c.input.as_deref(), Some("-"));
    assert_eq!(c.polygon_index, 1);
    assert_eq!(fault(&["-x"]), "unknown option: -x");
}

#[test]
fn args_help_stops_reading() {
    assert!(matches!(Args::parse(&args(&["a.svg", "-h", "--bogus"])), Ok(ArgsCommand::Help)));
    assert!(matches!(Args::parse(&args(&["--help"])), Ok(ArgsCommand::Help)));
}

#[test]
fn args_faults_have_their_messages() {
    assert_eq!(fault(&["--id"]), "--id requires a value");
    assert_eq!(fault(&["--index"]), "--index requires a value");
    assert_eq!(fault(&["--bogus"]), "unknown option: --bogus");
    assert_eq!(fault(&["a.svg", "b.svg"]), "only one input svg path is supported");
    assert_eq!(fault(&["--index", "x1"]), "invalid --index: invalid digit found in string");
    assert_eq!(fault(&["--index="]), "invalid --index: cannot parse integer from empty string");
    assert_eq!(
        fault(&["--index", "99999999999999999999999"]),
        "invalid --index: number too large to fit in target type"
    );
    assert!(matches!(
        Args::parse(&args(&["--index", "-1"])),
        Err(ArgsError::InvalidIndex { text, .. }) if text == "-1"
    ));
}

#[test]
fn take_value_reads_the_next_argument() {
    let list = args(&["--id", "x"]);
    assert_eq!(take_value(&list, 1, "--id").ok(), Some("x".to_string()));
    assert!(matches!(take_value(&list, 2, "--id"), Err(ArgsError::MissingValue(o)) if o == "--id"));
}

#[test]
fn attribute_values_are_found_in_tags() {
    let tag = "<polygon id = 'a1' points=\"1,2 3,4\" fill=\"red\">";
    assert_eq!(attribute_value(tag, "id").as_deref(), Some("a1"));
    assert_eq!(attribute_value(tag, "points").as_deref(), Some("1,2 3,4"));
    assert_eq!(attribute_value(tag, "stroke"), None);
    assert_eq!(attribute_value("<polygon points=12>", "points"), None);
    assert_eq!(attribute_value("<polygon points='12>", "points"), None);
    assert_eq!(attribute_value("<polygon points>", "points"), None);
}

const SVG: &str = "<svg><polygon id=\"first\" points=\"0,0 10,0 10,10\"/>\
<rect/><polygon id=\"second\" points=\"1 2 3 4 5 6\"/><polygon id=\"bare\"/></svg>";

#[test]
fn polygons_are_selected_by_index_or_id() {
    assert_eq!(extract_polygon_points(SVG, None, 0), Ok("0,0 10,0 10,10".to_string()));
    assert_eq!(extract_polygon_points(SVG, None, 1), Ok("1 2 3 4 5 6".to_string()));
    assert_eq!(extract_polygon_points(SVG, Some("second"), 0), Ok("1 2 3 4 5 6".to_string()));
    assert_eq!(
        extract_polygon_points(SVG, None, 5),
        Err("no <polygon> found at index 5".to_string())
    );
    assert_eq!(
        extract_polygon_points(SVG, Some("missing"), 0),
        Err("no <polygon id=\"missing\"> found".to_string())
    );
    assert_eq!(
        extract_polygon_points(SVG, Some("bare"), 0),
        Err("matched <polygon> tag has no points attribute".to_string())
    );
    assert_eq!(
        extract_polygon_points("<polygon points='1 2'", None, 0),
        Err("unterminated <polygon> tag".to_string())
    );
}

#[test]
fn point_lists_split_on_separators() {
    assert_eq!(point_tokens(" 1,2\t3\r\n4,,5 "), vec!["1", "2", "3", "4", "5"]);
    assert!(point_tokens(" , ").is_empty());
    assert_eq!(point_tokens("-1.5e3"), vec!["-1.5e3"]);
}

#[test]
fn points_print_as_nested_lists() {
    assert_eq!(format_points(&[]), "[]");
    assert_eq!(format_points(&[[1, -2]]), "[[1,-2]]");
    assert_eq!(
        format_points(&[[0, 10], [-90, -56], [2147483647, -2147483648]]),
        "[[0,10],[-90,-56],[2147483647,-2147483648]]"
    );
}

#[test]
fn index_parse_agrees_with_std() {
    let texts = [
        "", "+", "-", "0", "+12", "-1", "12a", "a", "007", "+-3", " 1", "1 ", "\u{ff11}",
        "18446744073709551615", "18446744073709551616", "99999999999999999999x",
        "1844674407370955161x",
    ];
    for text in texts {
        match (text.parse::<usize>(), parse_index(text)) {
            (Ok(a), Ok(b)) => assert_eq!(a, b, "{text}"),
            (Err(e), Err(f)) => assert_eq!(e.to_string(), index_fault_message(f), "{text}"),
            (a, b) => panic!("{text}: std {a:?}, library {b:?}"),
        }
    }
}
