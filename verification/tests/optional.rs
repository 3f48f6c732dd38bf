use frb_lanes::mir::optional::{
    make_optional, parse_type_path_data_optional, MirType, MirTypeDelegate, MirTypeOptional,
};

fn ty(text: &str) -> syn::Type {
    syn::parse_str(text).unwrap()
}

fn path(text: &str) -> syn::TypePath {
    syn::parse_str(text).unwrap()
}

/// Parses names of primitive types, and counts how often it is called.
fn parse_primitive(calls: &mut u32, ty: &syn::Type) -> Result<MirType<&'static str>, &'static str> {
    *calls += 1;
    if *ty == self::ty("u8") {
        Ok(MirType::Primitive("u8"))
    } else if *ty == self::ty("Vec<u8>") {
        Ok(MirType::PrimitiveList("u8"))
    } else {
        Err("unknown type")
    }
}

#[test]
fn an_option_is_parsed() {
    let mut calls = 0;
    let arguments = [ty("u8")];
    assert_eq!(
        parse_type_path_data_optional(&mut calls, &path("Any"), ("Option", &arguments), parse_primitive),
        Ok(Some(MirType::Optional(MirTypeOptional {
            inner: Box::new(MirType::Primitive("u8")),
            boxed_wrapper: true,
        })))
    );
    assert_eq!(calls, 1);
}

#[test]
fn an_option_of_a_list_needs_no_box() {
    let mut calls = 0;
    let arguments = [ty("Vec<u8>")];
    assert_eq!(
        parse_type_path_data_optional(&mut calls, &path("Any"), ("Option", &arguments), parse_primitive),
        Ok(Some(MirType::Optional(MirTypeOptional {
            inner: Box::new(MirType::PrimitiveList("u8")),
            boxed_wrapper: false,
        })))
    );
}

#[test]
fn an_error_of_the_inner_type_is_passed_on() {
    let mut calls = 0;
    let arguments = [ty("Unknown")];
    assert_eq!(
        parse_type_path_data_optional(&mut calls, &path("Any"), ("Option", &arguments), parse_primitive),
        Err("unknown type")
    );
    assert_eq!(calls, 1);
}

#[test]
fn other_types_are_left_alone() {
    let mut calls = 0;
    let one = [ty("u8")];
    let two = [ty("u8"), ty("u8")];
    assert_eq!(
        parse_type_path_data_optional(&mut calls, &path("Any"), ("Vec", &one), parse_primitive),
        Ok(None)
    );
    assert_eq!(
        parse_type_path_data_optional(&mut calls, &path("Any"), ("option", &one), parse_primitive),
        Ok(None)
    );
    assert_eq!(
        parse_type_path_data_optional(&mut calls, &path("Any"), ("Option", &[]), parse_primitive),
        Ok(None)
    );
    assert_eq!(
        parse_type_path_data_optional(&mut calls, &path("Any"), ("Option", &two), parse_primitive),
        Ok(None)
    );
    assert_eq!(calls, 0);
}

#[test]
fn some_kinds_get_a_box() {
    let boxed = [
        MirType::StructRef(1),
        MirType::EnumRef(1),
        MirType::RustAutoOpaqueImplicit(1),
        MirType::RustOpaque(1),
        MirType::DartOpaque(1),
        MirType::DartFn(1),
        MirType::Primitive(1),
        MirType::Record(1),
        MirType::Delegate(MirTypeDelegate::PrimitiveEnum(1)),
        MirType::Delegate(MirTypeDelegate::Time(1)),
        MirType::Optional(make_optional(MirType::GeneralList(1))),
    ];
    for ty in boxed {
        assert!(make_optional(ty).boxed_wrapper);
    }
}

#[test]
fn other_kinds_get_no_box() {
    let plain = [
        MirType::PrimitiveList(1),
        MirType::GeneralList(1),
        MirType::Boxed(1),
        MirType::Dynamic(1),
        MirType::Delegate(MirTypeDelegate::Other(1)),
    ];
    for ty in plain {
        assert!(!make_optional(ty).boxed_wrapper);
    }
}

#[test]
fn nested_optionals_are_not_flattened() {
    let once = make_optional(MirType::Primitive(1));
    let twice = make_optional(MirType::Optional(make_optional(MirType::Primitive(1))));
    assert_eq!(*twice.inner, MirType::Optional(once));
    assert!(twice.boxed_wrapper);
}

#[test]
fn different_types_have_different_optionals() {
    assert_ne!(
        make_optional(MirType::StructRef(1)),
        make_optional(MirType::EnumRef(1))
    );
    assert_ne!(
        make_optional(MirType::Boxed(1)),
        make_optional(MirType::Boxed(2))
    );
}

#[test]
fn only_the_last_segment_decides() {
    let arguments = [ty("u8")];
    let parse = |text: &str| {
        let mut calls = 0;
        let parsed = parse_type_path_data_optional(
            &mut calls,
            &path(text),
            ("Option", &arguments),
            parse_primitive,
        );
        (parsed, calls)
    };
    assert_eq!(parse("std::option::Option<u8>"), parse("Option<u8>"));
}

#[test]
fn a_trait_elsewhere_does_no_harm() {
    let arguments = [ty("u8")];
    let parse_by_state = |state: &mut u32, _: &syn::Type| {
        if *state == 1 {
            Ok::<MirType<u8>, ()>(MirType::StructRef(0))
        } else {
            Ok(MirType::TraitDef(0))
        }
    };
    assert_eq!(
        parse_type_path_data_optional(&mut 1, &path("Option"), ("Option", &arguments), parse_by_state),
        Ok(Some(MirType::Optional(MirTypeOptional {
            inner: Box::new(MirType::StructRef(0)),
            boxed_wrapper: true,
        })))
    );
}
