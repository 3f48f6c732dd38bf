//! What parsing `Option<T>` does, told from its inputs and results alone.

use super::optional::{
    make_optional, parse_type_path_data_optional, MirType, MirTypeOptional,
};
use vstd::prelude::*;

verus! {

/// Values of these types are carried by reference or as a list, so that an optional one needs no
/// box; a trait has no values.
pub open spec fn needs_no_box<P>(ty: MirType<P>) -> bool {
    ||| ty is PrimitiveList
    ||| ty is GeneralList
    ||| ty is Boxed
    ||| ty is Dynamic
    ||| ty is TraitDef
    ||| ty matches MirType::Delegate(delegate) && !(delegate is PrimitiveEnum) && !(
    delegate is Time)
}

/// An optional type holds the given type as it is, whatever its kind, and a box exactly if that
/// type needs one. Every type but a trait has an optional.
pub proof fn law_optional_holds_the_given_type<P>(inner: MirType<P>, optional: MirTypeOptional<P>)
    ensures
        call_ensures(make_optional::<P>, (inner,), optional) ==> *optional.inner == inner
            && optional.boxed_wrapper == !needs_no_box(inner),
        call_ensures(MirTypeOptional::<P>::new, (inner,), optional) ==> *optional.inner == inner
            && !optional.boxed_wrapper,
        call_ensures(MirTypeOptional::<P>::new_with_boxed_wrapper, (inner,), optional)
            ==> *optional.inner == inner && optional.boxed_wrapper,
        !(inner is TraitDef) ==> call_requires(make_optional::<P>, (inner,)),
        call_requires(MirTypeOptional::<P>::new, (inner,)),
        call_requires(MirTypeOptional::<P>::new_with_boxed_wrapper, (inner,)),
{
}

/// Whenever `Option<T>` is parsed, `T` is parsed from the state in which the parser is, and the
/// parser is left as that leaves it. If `T` parsed to a type, of whatever kind, the result is
/// the optional of that very type, with a box exactly if the type needs one; if it failed, the
/// result is its error.
pub proof fn law_option_is_parsed_to_the_optional_of_its_argument<TP, P, E, F>(
    path: &syn::TypePath,
    name: &str,
    arguments: &[syn::Type],
    parse_type: F,
    parsed: Result<Option<MirType<P>>, E>,
) where F: FnOnce(&mut TP, &syn::Type) -> Result<MirType<P>, E>
    requires
        name@ == "Option"@,
        arguments@.len() == 1,
    ensures
        forall|type_parser: &mut TP|
            #[trigger] call_ensures(
                parse_type_path_data_optional::<TP, P, E, F>,
                (type_parser, path, (name, arguments), parse_type),
                parsed,
            ) ==> exists|t: &mut TP, inner: Result<MirType<P>, E>|
                *t == *type_parser && #[trigger] call_ensures(parse_type, (t, &arguments@[0]), inner)
                    && *final(type_parser) == *final(t) && match inner {
                    Ok(ty) => {
                        &&& parsed matches Ok(Some(MirType::Optional(optional)))
                        &&& *optional.inner == ty
                        &&& optional.boxed_wrapper == !needs_no_box(ty)
                    },
                    Err(e) => parsed == Err::<Option<MirType<P>>, E>(e),
                },
        forall|type_parser: &mut TP|
            (forall|t: &mut TP|
                *t == *type_parser ==> #[trigger] call_requires(parse_type, (t, &arguments@[0])))
                && (forall|t: &mut TP, ty: MirType<P>|
                *t == *type_parser && #[trigger] call_ensures(parse_type, (t, &arguments@[0]), Ok(ty))
                    ==> !(ty is TraitDef)) ==> #[trigger] call_requires(
                parse_type_path_data_optional::<TP, P, E, F>,
                (type_parser, path, (name, arguments), parse_type),
            ),
{
}

/// A segment of another name, or with no argument or several, is no option: nothing is parsed,
/// and the parser is left as it was.
pub proof fn law_what_is_no_option_is_left_alone<TP, P, E, F>(
    path: &syn::TypePath,
    name: &str,
    arguments: &[syn::Type],
    parse_type: F,
    parsed: Result<Option<MirType<P>>, E>,
) where F: FnOnce(&mut TP, &syn::Type) -> Result<MirType<P>, E>
    requires
        name@ != "Option"@ || arguments@.len() != 1,
    ensures
        forall|type_parser: &mut TP|
            #[trigger] call_ensures(
                parse_type_path_data_optional::<TP, P, E, F>,
                (type_parser, path, (name, arguments), parse_type),
                parsed,
            ) ==> parsed == Ok::<Option<MirType<P>>, E>(None) && *final(type_parser)
                == *type_parser,
        forall|type_parser: &mut TP| #[trigger]
            call_requires(
                parse_type_path_data_optional::<TP, P, E, F>,
                (type_parser, path, (name, arguments), parse_type),
            ),
{
}

} // verus!
