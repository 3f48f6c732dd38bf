use frb_lanes::mir::function::{
    assemble, parse, sort_and_add_func_id, validate_frb_threads, LaneRoutingError, ParseError,
};
use frb_lanes::mir::{
    IrValueOrSkip, LaneRouting, MirFunc, MirFuncInput, MirFuncMode, ParserMirInternalConfig,
    RequireAnnotationWhen,
};
use frb_lanes::text::{contains, join};

fn strings(items: &[&str]) -> Vec<String> {
    items.iter().map(|s| s.to_string()).collect()
}

fn func(name: &str) -> MirFunc<u32> {
    MirFunc {
        id: None,
        name: name.to_string(),
        inputs: vec![],
        mode: MirFuncMode::Normal,
        thread: None,
        details: 0,
    }
}

fn on_lane(name: &str, lane: &str) -> MirFunc<u32> {
    MirFunc {
        thread: Some(lane.to_string()),
        ..func(name)
    }
}

fn with_param(name: &str, param: &str) -> MirFunc<u32> {
    MirFunc {
        inputs: vec![
            MirFuncInput {
                name: "first".to_string(),
            },
            MirFuncInput {
                name: param.to_string(),
            },
        ],
        ..func(name)
    }
}

fn sync(name: &str) -> MirFunc<u32> {
    MirFunc {
        mode: MirFuncMode::Sync,
        ..func(name)
    }
}

fn config(
    lanes: Option<&[&str]>,
    require: Option<(Option<bool>, Option<&[&str]>)>,
) -> ParserMirInternalConfig {
    ParserMirInternalConfig {
        lane_routing: Some(LaneRouting {
            lanes: lanes.map(strings),
            require_annotation_when: require.map(|(sync, param_named)| RequireAnnotationWhen {
                sync,
                param_named: param_named.map(strings),
            }),
        }),
    }
}

const NO_RULES: ParserMirInternalConfig = ParserMirInternalConfig { lane_routing: None };

#[test]
fn join_puts_the_separator_between() {
    assert_eq!(join(&strings(&[]), ", "), "");
    assert_eq!(join(&strings(&["a"]), ", "), "a");
    assert_eq!(join(&strings(&["a", "b", "c"]), ", "), "a, b, c");
}

#[test]
fn contains_compares_whole_strings() {
    assert!(contains(&strings(&["a", "bc"]), &"bc".to_string()));
    assert!(!contains(&strings(&["a", "bc"]), &"b".to_string()));
}

#[test]
fn functions_are_sorted_and_numbered() {
    let sorted = sort_and_add_func_id(vec![func("b"), func("c"), func("a")]);
    let summary: Vec<(&str, Option<i32>)> =
        sorted.iter().map(|f| (f.name.as_str(), f.id)).collect();
    assert_eq!(
        summary,
        vec![("a", Some(1)), ("b", Some(2)), ("c", Some(3))]
    );
}

#[test]
fn no_functions_are_no_functions() {
    assert_eq!(sort_and_add_func_id(Vec::<MirFunc<u32>>::new()), vec![]);
}

#[test]
fn equal_names_keep_their_order() {
    let numbered = |name: &str, details: u32| MirFunc {
        details,
        ..func(name)
    };
    let sorted = sort_and_add_func_id(vec![
        numbered("x", 1),
        numbered("a", 2),
        numbered("x", 3),
        numbered("a", 4),
    ]);
    let summary: Vec<(&str, u32, Option<i32>)> = sorted
        .iter()
        .map(|f| (f.name.as_str(), f.details, f.id))
        .collect();
    assert_eq!(
        summary,
        vec![
            ("a", 2, Some(1)),
            ("a", 4, Some(2)),
            ("x", 1, Some(3)),
            ("x", 3, Some(4))
        ]
    );
}

#[test]
fn names_are_ordered_by_code_point() {
    let sorted = sort_and_add_func_id(vec![
        func("\u{10000}"),
        func("ab"),
        func("\u{ff5e}"),
        func("a"),
        func("B"),
        func("_a"),
    ]);
    let names: Vec<&str> = sorted.iter().map(|f| f.name.as_str()).collect();
    assert_eq!(names, vec!["B", "_a", "a", "ab", "\u{ff5e}", "\u{10000}"]);
}

#[test]
fn sorting_changes_the_number_only() {
    let given = MirFunc {
        id: Some(77),
        details: 5,
        mode: MirFuncMode::Sync,
        ..with_param("f", "state")
    };
    let expected = MirFunc {
        id: Some(1),
        details: 5,
        mode: MirFuncMode::Sync,
        ..with_param("f", "state")
    };
    assert_eq!(sort_and_add_func_id(vec![given]), vec![expected]);
}

#[test]
fn the_order_of_the_input_does_not_matter() {
    let one = sort_and_add_func_id(vec![func("b"), sync("a"), on_lane("c", "Main")]);
    let other = sort_and_add_func_id(vec![on_lane("c", "Main"), func("b"), sync("a")]);
    assert_eq!(one, other);
}

#[test]
fn earlier_numbers_and_the_order_around_equal_names_do_not_matter() {
    let first = || MirFunc {
        details: 1,
        ..func("a")
    };
    let second = || MirFunc {
        details: 2,
        ..func("a")
    };
    let one = sort_and_add_func_id(vec![func("b"), first(), second()]);
    let other = sort_and_add_func_id(vec![
        MirFunc {
            id: Some(7),
            ..first()
        },
        func("b"),
        MirFunc {
            id: Some(7),
            ..second()
        },
    ]);
    assert_eq!(one, other);
}

#[test]
fn sorting_twice_changes_nothing() {
    let once = || sort_and_add_func_id(vec![func("b"), sync("a"), func("a")]);
    assert_eq!(sort_and_add_func_id(once()), once());
}

#[test]
fn without_rules_everything_passes() {
    let funcs = vec![on_lane("f", "anything"), sync("g"), func("h")];
    assert_eq!(validate_frb_threads(&funcs, &NO_RULES), Ok(()));
    assert_eq!(validate_frb_threads(&funcs, &config(None, None)), Ok(()));
}

#[test]
fn configured_lanes_and_main_pass() {
    let funcs = vec![
        on_lane("f", "Main"),
        on_lane("g", "db"),
        on_lane("h", "net"),
        func("i"),
    ];
    assert_eq!(
        validate_frb_threads(&funcs, &config(Some(&["db", "net"]), None)),
        Ok(())
    );
}

#[test]
fn main_passes_where_no_lane_is_configured() {
    let funcs = vec![on_lane("f", "Main")];
    assert_eq!(validate_frb_threads(&funcs, &config(Some(&[]), None)), Ok(()));
    assert!(validate_frb_threads(&vec![on_lane("f", "main")], &config(Some(&[]), None)).is_err());
}

#[test]
fn the_first_unknown_lane_is_reported() {
    let funcs = vec![
        on_lane("f", "db"),
        on_lane("g", "disk"),
        on_lane("h", "moon"),
        sync("i"),
    ];
    let error = validate_frb_threads(
        &funcs,
        &config(Some(&["db", "net"]), Some((Some(true), None))),
    )
    .unwrap_err();
    assert_eq!(
        error,
        LaneRoutingError::UnknownLane {
            function: "g".to_string(),
            lane: "disk".to_string(),
            lanes: strings(&["db", "net"]),
        }
    );
    assert_eq!(
        error.message(),
        "function `g` is annotated `#[frb(thread = disk)]`, but `disk` is not a configured lane; \
         valid lanes: Main, db, net"
    );
}

#[test]
fn all_missing_annotations_are_reported() {
    let funcs = vec![
        sync("a"),
        func("b"),
        with_param("c", "state"),
        with_param("d", "other"),
        MirFunc {
            thread: Some("db".to_string()),
            ..sync("e")
        },
    ];
    let rules = config(
        Some(&["db", "net"]),
        Some((Some(true), Some(&["state", "db"]))),
    );
    let error = validate_frb_threads(&funcs, &rules).unwrap_err();
    assert_eq!(
        error,
        LaneRoutingError::MissingAnnotation {
            lanes_hint: "Main|db|net".to_string(),
            offenders: strings(&["a", "c"]),
        }
    );
    assert_eq!(
        error.message(),
        "these functions match the configured `require_annotation_when` policy but have no \
         `#[frb(thread = ...)]` annotation; add `#[frb(thread = Main|db|net)]` to each so the \
         custom executor routes it: [\"a\", \"c\"]"
    );
}

#[test]
fn the_hint_without_lanes_is_main() {
    let error =
        validate_frb_threads(&vec![sync("a")], &config(None, Some((Some(true), None)))).unwrap_err();
    assert_eq!(
        error,
        LaneRoutingError::MissingAnnotation {
            lanes_hint: "Main".to_string(),
            offenders: strings(&["a"]),
        }
    );
    let error = validate_frb_threads(
        &vec![sync("a")],
        &config(Some(&[]), Some((Some(true), None))),
    )
    .unwrap_err();
    assert_eq!(
        error,
        LaneRoutingError::MissingAnnotation {
            lanes_hint: "Main|".to_string(),
            offenders: strings(&["a"]),
        }
    );
}

#[test]
fn names_are_quoted_in_the_message() {
    let error = LaneRoutingError::MissingAnnotation {
        lanes_hint: "Main".to_string(),
        offenders: strings(&["a\"b", "c\n"]),
    };
    assert!(error.message().ends_with("routes it: [\"a\\\"b\", \"c\\n\"]"));
}

#[test]
fn sync_functions_may_go_without_annotation() {
    let funcs = vec![sync("a")];
    for sync in [None, Some(false)] {
        assert_eq!(
            validate_frb_threads(&funcs, &config(None, Some((sync, None)))),
            Ok(())
        );
    }
}

#[test]
fn annotating_the_offenders_mends_the_error() {
    let rules = config(Some(&["db"]), Some((Some(true), Some(&["state"]))));
    assert!(validate_frb_threads(&vec![sync("a"), with_param("b", "state")], &rules).is_err());
    let mended = vec![
        MirFunc {
            thread: Some("Main".to_string()),
            ..sync("a")
        },
        MirFunc {
            thread: Some("db".to_string()),
            ..with_param("b", "state")
        },
    ];
    assert_eq!(validate_frb_threads(&mended, &rules), Ok(()));
}

#[test]
fn the_verdict_does_not_depend_on_the_order() {
    let rules = config(Some(&["db"]), None);
    let one = vec![on_lane("a", "db"), on_lane("b", "moon")];
    let other = vec![on_lane("b", "moon"), on_lane("a", "db")];
    assert!(validate_frb_threads(&one, &rules).is_err());
    assert!(validate_frb_threads(&other, &rules).is_err());
    assert!(validate_frb_threads(&sort_and_add_func_id(other), &rules).is_err());
}

#[test]
fn items_are_parted_in_order() {
    let items = vec![
        IrValueOrSkip::Value(1),
        IrValueOrSkip::Skip("x"),
        IrValueOrSkip::Value(2),
        IrValueOrSkip::Skip("y"),
    ];
    assert_eq!(IrValueOrSkip::split(items), (vec![1, 2], vec!["x", "y"]));
}

#[test]
fn parsed_items_are_assembled() {
    let (funcs, skips) = assemble(
        &NO_RULES,
        vec![
            IrValueOrSkip::Value(func("c")),
            IrValueOrSkip::Skip("generic"),
        ],
        vec![IrValueOrSkip::Value(func("a"))],
        vec![
            IrValueOrSkip::Skip("private"),
            IrValueOrSkip::Value(func("b")),
        ],
    )
    .unwrap();
    let names: Vec<(&str, Option<i32>)> = funcs.iter().map(|f| (f.name.as_str(), f.id)).collect();
    assert_eq!(names, vec![("a", Some(1)), ("b", Some(2)), ("c", Some(3))]);
    assert_eq!(skips, vec!["generic", "private"]);
}

type Items = Vec<IrValueOrSkip<MirFunc<u32>, &'static str>>;

#[test]
fn parsers_run_in_turn() {
    let mut log: Vec<&str> = Vec::new();
    let outcome = parse(
        &config(Some(&["db"]), None),
        &mut log,
        |log: &mut Vec<&str>| -> Result<Items, &'static str> {
            log.push("declared");
            Ok(vec![IrValueOrSkip::Value(on_lane("f", "db"))])
        },
        |log: &mut Vec<&str>| -> Result<Items, &'static str> {
            log.push("accessors");
            Ok(vec![])
        },
        |log: &mut Vec<&str>| -> Result<Items, &'static str> {
            log.push("getters");
            Ok(vec![IrValueOrSkip::Skip("note")])
        },
    );
    assert_eq!(log, vec!["declared", "accessors", "getters"]);
    let expected = MirFunc {
        id: Some(1),
        ..on_lane("f", "db")
    };
    assert_eq!(outcome, Ok((vec![expected], vec!["note"])));
}

#[test]
fn the_first_parser_that_fails_ends_the_parse() {
    let mut log: Vec<&str> = Vec::new();
    let outcome = parse(
        &NO_RULES,
        &mut log,
        |log: &mut Vec<&str>| -> Result<Items, &'static str> {
            log.push("declared");
            Ok(vec![])
        },
        |log: &mut Vec<&str>| -> Result<Items, &'static str> {
            log.push("accessors");
            Err("no accessor")
        },
        |log: &mut Vec<&str>| -> Result<Items, &'static str> {
            log.push("getters");
            Err("no getter")
        },
    );
    assert_eq!(log, vec!["declared", "accessors"]);
    assert_eq!(outcome, Err(ParseError::Items("no accessor")));
}

#[test]
fn a_refused_annotation_fails_the_parse() {
    let outcome = parse(
        &config(Some(&["db"]), None),
        &mut (),
        |_: &mut ()| -> Result<Items, &'static str> {
            Ok(vec![IrValueOrSkip::Value(on_lane("f", "moon"))])
        },
        |_: &mut ()| -> Result<Items, &'static str> { Ok(vec![]) },
        |_: &mut ()| -> Result<Items, &'static str> { Ok(vec![]) },
    );
    assert_eq!(
        outcome,
        Err(ParseError::Lanes(LaneRoutingError::UnknownLane {
            function: "f".to_string(),
            lane: "moon".to_string(),
            lanes: strings(&["db"]),
        }))
    );
}
