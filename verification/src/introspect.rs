//! The interface introspector: which functions a component exports.

use vstd::prelude::*;
use crate::signature::{FunctionSignature, SignatureModel};

verus! {

/// What a world exports under one of its names.
#[derive(Clone, Debug, PartialEq, Eq)]
pub enum WorldItem {
    /// A function, which becomes an endpoint.
    Function(FunctionSignature),
    /// An interface; its functions are not exported by the world itself.
    Interface,
    /// A type.
    Type,
}

/// A world of a component: a name, and what is exported under it.
#[derive(Clone, Debug, PartialEq, Eq)]
pub struct World {
    pub name: String,
    /// The exports, in the order of their declaration.
    pub exports: Vec<WorldItem>,
}

/// The mathematical value of a [`WorldItem`].
pub enum WorldItemModel {
    Function(SignatureModel),
    Interface,
    Type,
}

/// The mathematical value of a [`World`].
pub struct WorldModel {
    pub name: Seq<char>,
    pub exports: Seq<WorldItemModel>,
}

impl View for WorldItem {
    type V = WorldItemModel;

    open spec fn view(&self) -> WorldItemModel {
        match self {
            WorldItem::Function(f) => WorldItemModel::Function(f@),
            WorldItem::Interface => WorldItemModel::Interface,
            WorldItem::Type => WorldItemModel::Type,
        }
    }
}

/// The values of a list of exports.
pub open spec fn exports_model(exports: Seq<WorldItem>) -> Seq<WorldItemModel> {
    Seq::new(exports.len(), |i: int| exports[i]@)
}

impl View for World {
    type V = WorldModel;

    open spec fn view(&self) -> WorldModel {
        WorldModel { name: self.name@, exports: exports_model(self.exports@) }
    }
}

/// The values of a list of worlds.
pub open spec fn worlds_model(worlds: Seq<World>) -> Seq<WorldModel> {
    Seq::new(worlds.len(), |i: int| worlds[i]@)
}

/// The functions among the first `upto` exports, in their order.
pub open spec fn exported_functions(exports: Seq<WorldItem>, upto: int) -> Seq<FunctionSignature>
    decreases upto,
{
    if upto <= 0 {
        Seq::empty()
    } else {
        let before = exported_functions(exports, upto - 1);
        match exports[upto - 1] {
            WorldItem::Function(f) => before.push(f),
            _ => before,
        }
    }
}

/// Each of the functions, with the name of the world that exports it.
pub open spec fn in_world(name: String, functions: Seq<FunctionSignature>) -> Seq<
    (String, FunctionSignature),
> {
    Seq::new(functions.len(), |i: int| (name, functions[i]))
}

/// The functions that the first `upto` worlds export, each with the name of
/// its world: world by world, and within a world in the order of the exports.
pub open spec fn listed_functions(worlds: Seq<World>, upto: int) -> Seq<(String, FunctionSignature)>
    decreases upto,
{
    if upto <= 0 {
        Seq::empty()
    } else {
        let world = worlds[upto - 1];
        listed_functions(worlds, upto - 1) + in_world(
            world.name,
            exported_functions(world.exports@, world.exports.len() as int),
        )
    }
}

/// What a list of borrowed names and signatures refers to.
pub open spec fn referred(list: Seq<(&String, &FunctionSignature)>) -> Seq<
    (String, FunctionSignature),
> {
    Seq::new(list.len(), |i: int| (*list[i].0, *list[i].1))
}

/// Lists the functions that the worlds of a component export, each with the
/// name of its world. The order is that of the declarations: nothing is
/// sorted, and nothing but functions is listed.
pub fn list_wasm_component_functions(worlds: &Vec<World>) -> (functions: Vec<
    (&String, &FunctionSignature),
>)
    ensures
        referred(functions@) == listed_functions(worlds@, worlds.len() as int),
{
    let mut functions: Vec<(&String, &FunctionSignature)> = Vec::new();
    let mut w: usize = 0;
    assert(referred(functions@) =~= listed_functions(worlds@, 0));
    while w < worlds.len()
        invariant
            w <= worlds.len(),
            referred(functions@) == listed_functions(worlds@, w as int),
        decreases worlds.len() - w,
    {
        let world = &worlds[w];
        let ghost before = referred(functions@);
        let mut e: usize = 0;
        assert(referred(functions@) =~= before + in_world(
            world.name,
            exported_functions(world.exports@, 0),
        ));
        while e < world.exports.len()
            invariant
                e <= world.exports.len(),
                referred(functions@) == before + in_world(
                    world.name,
                    exported_functions(world.exports@, e as int),
                ),
            decreases world.exports.len() - e,
        {
            match &world.exports[e] {
                WorldItem::Function(function) => {
                    let ghost listed = referred(functions@);
                    let ghost found = exported_functions(world.exports@, e as int);
                    functions.push((&world.name, function));
                    assert(exported_functions(world.exports@, e + 1) == found.push(*function));
                    assert(referred(functions@) =~= listed.push((world.name, *function)));
                    assert(in_world(world.name, found.push(*function)) =~= in_world(
                        world.name,
                        found,
                    ).push((world.name, *function)));
                    assert(referred(functions@) =~= before + in_world(
                        world.name,
                        exported_functions(world.exports@, e + 1),
                    ));
                },
                _ => {},
            }
            e += 1;
        }
        w += 1;
    }
    functions
}

} // verus!
