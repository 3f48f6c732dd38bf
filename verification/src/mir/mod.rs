//! What the generator parses out of annotated Rust code.

use vstd::prelude::*;

pub mod function;
pub mod function_call_laws;
pub mod function_laws;
pub mod name_order;
pub mod optional;
pub mod optional_laws;

verus! {

/// How a function is called from the other side of the bridge.
#[derive(Clone, Copy, Debug, PartialEq, Eq, Structural)]
pub enum MirFuncMode {
    /// The caller gets a handle and the call runs off its thread.
    Normal,
    /// The caller waits, and the call runs on its own thread.
    Sync,
}

/// A parameter of a function.
#[derive(Debug, PartialEq, Eq)]
pub struct MirFuncInput {
    /// The parameter's name as the Rust code spells it.
    pub name: String,
}

/// A function to be bridged.
///
/// `details` is all that the generator keeps of the function besides what is
/// read here; it is carried along unread.
#[derive(Debug, PartialEq, Eq)]
pub struct MirFunc<D> {
    /// The function's number, once it has been given one.
    pub id: Option<i32>,
    /// The function's name as the Rust code spells it.
    pub name: String,
    /// The parameters, in order.
    pub inputs: Vec<MirFuncInput>,
    /// The way the function is called.
    pub mode: MirFuncMode,
    /// The lane of the annotation `#[frb(thread = ...)]`, where there is one.
    pub thread: Option<String>,
    /// Everything else.
    pub details: D,
}

/// Which functions must carry a lane annotation.
#[derive(Debug, PartialEq, Eq)]
pub struct RequireAnnotationWhen {
    /// With `Some(true)`, every synchronous function.
    pub sync: Option<bool>,
    /// Every function with a parameter of one of these names.
    pub param_named: Option<Vec<String>>,
}

/// The embedder's rules on lane annotations.
#[derive(Debug, PartialEq, Eq)]
pub struct LaneRouting {
    /// The lanes that an annotation may name, besides `Main`. With `None` it may
    /// name any.
    pub lanes: Option<Vec<String>>,
    /// Which functions must be annotated. With `None` none must.
    pub require_annotation_when: Option<RequireAnnotationWhen>,
}

/// The generator's settings.
#[derive(Debug, PartialEq, Eq)]
pub struct ParserMirInternalConfig {
    /// The rules on lane annotations, where the embedder has any.
    pub lane_routing: Option<LaneRouting>,
}

/// An item that was parsed, or a note on why one was left out.
#[derive(Debug, PartialEq, Eq)]
pub enum IrValueOrSkip<T, S> {
    /// The parsed item.
    Value(T),
    /// Why the item was left out.
    Skip(S),
}

impl<T, S> IrValueOrSkip<T, S> {
    /// The parsed items among `items`, in order.
    pub open spec fn values(items: Seq<Self>) -> Seq<T>
        decreases items.len(),
    {
        if items.len() == 0 {
            seq![]
        } else {
            let before = Self::values(items.drop_last());
            match items.last() {
                IrValueOrSkip::Value(value) => before.push(value),
                IrValueOrSkip::Skip(_) => before,
            }
        }
    }

    /// The notes among `items`, in order.
    pub open spec fn skips(items: Seq<Self>) -> Seq<S>
        decreases items.len(),
    {
        if items.len() == 0 {
            seq![]
        } else {
            let before = Self::skips(items.drop_last());
            match items.last() {
                IrValueOrSkip::Value(_) => before,
                IrValueOrSkip::Skip(skip) => before.push(skip),
            }
        }
    }

    /// Parts the items from the notes.
    pub fn split(items: Vec<Self>) -> (parts: (Vec<T>, Vec<S>))
        ensures
            parts.0@ == Self::values(items@),
            parts.1@ == Self::skips(items@),
    {
        let ghost all = items@;
        let mut values: Vec<T> = Vec::new();
        let mut skips: Vec<S> = Vec::new();
        for item in iter: items
            invariant
                iter.seq() == all,
                values@ == Self::values(all.take(iter.index())),
                skips@ == Self::skips(all.take(iter.index())),
        {
            assert(all.take(iter.index() + 1).drop_last() =~= all.take(iter.index()));
            match item {
                IrValueOrSkip::Value(value) => values.push(value),
                IrValueOrSkip::Skip(skip) => skips.push(skip),
            }
        }
        assert(all.take(all.len() as int) =~= all);
        (values, skips)
    }
}

} // verus!
