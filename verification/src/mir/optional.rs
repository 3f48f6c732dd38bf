//! The type `Option<T>`.

use vstd::prelude::*;

verus! {

/// A type that is carried across the bridge as another one.
#[derive(Debug, PartialEq, Eq)]
pub enum MirTypeDelegate<P> {
    /// An enum without data, carried as its number.
    PrimitiveEnum(P),
    /// A point in time or a duration.
    Time(P),
    /// Any other type of this kind.
    Other(P),
}

/// A type as the generator sees it. `P` is what it keeps of a type besides its kind;
/// it is carried along unread.
#[derive(Debug, PartialEq, Eq)]
pub enum MirType<P> {
    Boxed(P),
    DartFn(P),
    DartOpaque(P),
    Delegate(MirTypeDelegate<P>),
    Dynamic(P),
    EnumRef(P),
    GeneralList(P),
    Optional(MirTypeOptional<P>),
    Primitive(P),
    PrimitiveList(P),
    Record(P),
    RustAutoOpaqueImplicit(P),
    RustOpaque(P),
    StructRef(P),
    TraitDef(P),
}

/// An optional type.
#[derive(Debug, PartialEq, Eq)]
pub struct MirTypeOptional<P> {
    /// The type of the value that may be there.
    pub inner: Box<MirType<P>>,
    /// Whether that value is put into a box of its own.
    pub boxed_wrapper: bool,
}

impl<P> MirTypeOptional<P> {
    /// An optional `inner`.
    pub fn new(inner: MirType<P>) -> (optional: Self)
        ensures
            *optional.inner == inner,
            !optional.boxed_wrapper,
    {
        MirTypeOptional { inner: Box::new(inner), boxed_wrapper: false }
    }

    /// An optional `inner` in a box.
    pub fn new_with_boxed_wrapper(inner: MirType<P>) -> (optional: Self)
        ensures
            *optional.inner == inner,
            optional.boxed_wrapper,
    {
        MirTypeOptional { inner: Box::new(inner), boxed_wrapper: true }
    }
}

/// An optional value of this type is put into a box of its own.
pub open spec fn is_boxed_when_optional<P>(ty: MirType<P>) -> bool {
    match ty {
        MirType::StructRef(_)
        | MirType::EnumRef(_)
        | MirType::RustAutoOpaqueImplicit(_)
        | MirType::RustOpaque(_)
        | MirType::DartOpaque(_)
        | MirType::DartFn(_)
        | MirType::Primitive(_)
        | MirType::Record(_)
        | MirType::Optional(_) => true,
        MirType::Delegate(delegate) => !(delegate is Other),
        _ => false,
    }
}

/// The optional type around `inner`.
pub open spec fn optional_of<P>(inner: MirType<P>) -> MirTypeOptional<P> {
    MirTypeOptional { inner: Box::new(inner), boxed_wrapper: is_boxed_when_optional(inner) }
}

/// Makes a type optional. A trait is no type of a value, so it has no optional.
pub fn make_optional<P>(inner: MirType<P>) -> (optional: MirTypeOptional<P>)
    requires
        !(inner is TraitDef),
    ensures
        optional == optional_of(inner),
{
    match &inner {
        MirType::StructRef(_)
        | MirType::EnumRef(_)
        | MirType::RustAutoOpaqueImplicit(_)
        | MirType::RustOpaque(_)
        | MirType::DartOpaque(_)
        | MirType::DartFn(_)
        | MirType::Primitive(_)
        | MirType::Record(_)
        | MirType::Delegate(MirTypeDelegate::PrimitiveEnum(_)) => {
            MirTypeOptional::new_with_boxed_wrapper(inner)
        },
        MirType::Delegate(MirTypeDelegate::Time(_)) => {
            MirTypeOptional::new_with_boxed_wrapper(inner)
        },
        // Each layer of nested optionals is a value of its own.
        MirType::Optional(_) => MirTypeOptional::new_with_boxed_wrapper(inner),
        MirType::PrimitiveList(_)
        | MirType::GeneralList(_)
        | MirType::Boxed(_)
        | MirType::Dynamic(_)
        | MirType::Delegate(_)
        | MirType::TraitDef(_) => MirTypeOptional::new(inner),
    }
}

/// The type `syn::Type` of the crate syn: a type as it is written in Rust code. It is
/// carried unread.
#[verifier::external_type_specification]
#[verifier::external_body]
pub struct ExType(syn::Type);

/// The type `syn::TypePath` of the crate syn: a path that names a type. It is carried
/// unread.
#[verifier::external_type_specification]
#[verifier::external_body]
pub struct ExTypePath(syn::TypePath);

/// The last segment of a type's path: its name, and its generic arguments.
pub type SplayedSegment<'a> = (&'a str, &'a [syn::Type]);

/// The segment reads `Option<..>`, with one argument.
pub open spec fn is_option(segment: SplayedSegment<'_>) -> bool {
    segment.0@ == "Option"@ && segment.1@.len() == 1
}

/// What a parse of `Option<T>` gives, if one of `T` gave `inner`.
pub open spec fn parsed_from<P, E>(inner: Result<MirType<P>, E>) -> Result<
    Option<MirType<P>>,
    E,
> {
    match inner {
        Ok(inner) => Ok(Some(MirType::Optional(optional_of(inner)))),
        Err(e) => Err(e),
    }
}

/// Parses `Option<T>`, where `parse_type` parses `T`. Of any other type it is `None`,
/// and `parse_type` is not called. Of the path only the last segment is read.
pub fn parse_type_path_data_optional<TP, P, E, F>(
    type_parser: &mut TP,
    _type_path: &syn::TypePath,
    last_segment: SplayedSegment<'_>,
    parse_type: F,
) -> (parsed: Result<Option<MirType<P>>, E>) where
    F: FnOnce(&mut TP, &syn::Type) -> Result<MirType<P>, E>,

    requires
        is_option(last_segment) ==> forall|t: &mut TP|
            *t == *old(type_parser) ==> #[trigger] call_requires(
                parse_type,
                (t, &last_segment.1@[0]),
            ),
        is_option(last_segment) ==> forall|t: &mut TP, ty: MirType<P>|
            *t == *old(type_parser) && #[trigger] call_ensures(
                parse_type,
                (t, &last_segment.1@[0]),
                Ok(ty),
            ) ==> !(ty is TraitDef),
    ensures
        if is_option(last_segment) {
            exists|t: &mut TP, inner: Result<MirType<P>, E>|
                *t == *old(type_parser) && #[trigger] call_ensures(
                    parse_type,
                    (t, &last_segment.1@[0]),
                    inner,
                ) && *final(type_parser) == *final(t) && parsed == parsed_from(inner)
        } else {
            parsed == Ok::<Option<MirType<P>>, E>(None) && *final(type_parser) == *old(type_parser)
        },
{
    let (name, arguments) = last_segment;
    let option = "Option".to_owned();
    if name.to_owned() == option && arguments.len() == 1 {
        match parse_type(type_parser, &arguments[0]) {
            Ok(inner) => Ok(Some(MirType::Optional(make_optional(inner)))),
            Err(e) => Err(e),
        }
    } else {
        Ok(None)
    }
}

/// How many optionals are nested in `ty`, from the outside.
pub open spec fn optional_layers<P>(ty: MirType<P>) -> nat
    decreases ty,
{
    match ty {
        MirType::Optional(optional) => 1 + optional_layers(*optional.inner),
        _ => 0,
    }
}

/// Making a type optional adds one layer, whatever the type: nested optionals are
/// not flattened.
pub proof fn law_optional_adds_one_layer<P>(inner: MirType<P>)
    ensures
        optional_layers(MirType::Optional(optional_of(inner))) == optional_layers(inner) + 1,
{
}

/// Different types have different optionals, and the inner type can be read back.
pub proof fn law_optional_keeps_the_inner_type<P>(a: MirType<P>, b: MirType<P>)
    ensures
        *optional_of(a).inner == a,
        optional_of(a) == optional_of(b) ==> a == b,
{
}

/// Only the last segment of a path decides how it is parsed: two parses that find the parser in
/// the same state, of paths with the same last segment, have the same result and leave the
/// parser in the same state, if `parse_type` does so. What is required of each parse is what
/// [`parse_type_path_data_optional`] ensures of it.
pub proof fn law_only_the_last_segment_decides<TP, P, E, F>(
    path1: syn::TypePath,
    path2: syn::TypePath,
    last_segment: SplayedSegment<'_>,
    parse_type: F,
    before: TP,
    parsed1: Result<Option<MirType<P>>, E>,
    after1: TP,
    parsed2: Result<Option<MirType<P>>, E>,
    after2: TP,
) where F: FnOnce(&mut TP, &syn::Type) -> Result<MirType<P>, E>
    requires
        is_option(last_segment) ==> forall|
            t1: &mut TP,
            t2: &mut TP,
            r1: Result<MirType<P>, E>,
            r2: Result<MirType<P>, E>,
        |
            *t1 == before && *t2 == before && #[trigger] call_ensures(
                parse_type,
                (t1, &last_segment.1@[0]),
                r1,
            ) && #[trigger] call_ensures(parse_type, (t2, &last_segment.1@[0]), r2) ==> r1 == r2
                && *final(t1) == *final(t2),
        if is_option(last_segment) {
            exists|t: &mut TP, inner: Result<MirType<P>, E>|
                *t == before && #[trigger] call_ensures(
                    parse_type,
                    (t, &last_segment.1@[0]),
                    inner,
                ) && after1 == *final(t) && parsed1 == parsed_from(inner)
        } else {
            parsed1 == Ok::<Option<MirType<P>>, E>(None) && after1 == before
        },
        if is_option(last_segment) {
            exists|t: &mut TP, inner: Result<MirType<P>, E>|
                *t == before && #[trigger] call_ensures(
                    parse_type,
                    (t, &last_segment.1@[0]),
                    inner,
                ) && after2 == *final(t) && parsed2 == parsed_from(inner)
        } else {
            parsed2 == Ok::<Option<MirType<P>>, E>(None) && after2 == before
        },
    ensures
        parsed1 == parsed2,
        after1 == after2,
{
}

} // verus!
