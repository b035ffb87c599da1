//! The intermediate representation of the native module's C-style ABI: the
//! types, functions and classes that every emitter consumes.

use vstd::prelude::*;
use crate::text::str_eq;

verus! {

/// The access level at which an opaque handle was obtained. It is
/// meaningful only for custom (opaque-handle) types: a `Ref` handle carries
/// no disposal obligation, a `Value` handle does.
#[derive(Clone, Copy, PartialEq, Eq, Structural, Debug)]
pub enum TypeKind {
    Ref,
    RefMut,
    Value,
}

/// A type as the interface description records it. `is_custom` marks an
/// opaque handle to another class; otherwise `name` holds a native
/// primitive ("i32", "bool", "()", UTF-8 text, raw-JSON text, ...).
#[derive(Clone, Debug)]
pub struct Type {
    pub name: String,
    pub kind: TypeKind,
    pub is_custom: bool,
    pub is_nullable: bool,
}

/// One exported native function: its exported symbol (`name`), its logical
/// method name, its documentation, and its signature.
#[derive(Clone, Debug)]
pub struct Function {
    pub name: String,
    pub method: String,
    pub comments: Vec<String>,
    pub inputs: Vec<(String, Type)>,
    pub output: Type,
}

/// One class of the interface: its documentation and its functions, sorted
/// into four buckets by the minimum access level each requires.
#[derive(Clone, Debug)]
pub struct Class {
    pub comments: Vec<String>,
    pub static_fns: Vec<Function>,
    pub own_fns: Vec<Function>,
    pub shared_fns: Vec<Function>,
    pub mut_fns: Vec<Function>,
}

impl Function {
    /// A function with no receiver as its first input is a static
    /// (factory) function.
    pub open spec fn spec_is_static(self) -> bool {
        self.inputs@.len() == 0 || self.inputs@[0].0@ != "this"@
    }

    pub fn is_static(&self) -> (r: bool)
        ensures
            r == self.spec_is_static(),
    {
        if self.inputs.len() == 0 {
            true
        } else {
            !str_eq(self.inputs[0].0.as_str(), "this")
        }
    }

    /// A function whose output is not the unit type returns a value.
    pub open spec fn spec_has_return_type(self) -> bool {
        self.output.name@ != "()"@
    }

    pub fn has_return_type(&self) -> (r: bool)
        ensures
            r == self.spec_has_return_type(),
    {
        !str_eq(self.output.name.as_str(), "()")
    }
}

/// All functions of a class: the four buckets in one sequence.
pub open spec fn all_fns(c: Class) -> Seq<Function> {
    c.shared_fns@ + c.mut_fns@ + c.static_fns@ + c.own_fns@
}

/// The native symbols of a sequence of functions are pairwise distinct.
pub open spec fn distinct_symbols(fns: Seq<Function>) -> bool {
    forall|i: int, j: int|
        0 <= i < j < fns.len() ==> fns[i].name@ != fns[j].name@
}

/// How many functions in `fns` carry the native symbol `sym`.
pub open spec fn count_symbol(fns: Seq<Function>, sym: Seq<char>) -> nat
    decreases fns.len(),
{
    if fns.len() == 0 {
        0
    } else {
        (if fns[0].name@ == sym {
            1nat
        } else {
            0nat
        }) + count_symbol(fns.drop_first(), sym)
    }
}

/// The shape required of a disposer: a `"drop"` function takes exactly its
/// receiver and returns nothing.
pub open spec fn drop_fn_wf(f: Function) -> bool {
    f.method@ == "drop"@ ==> {
        &&& f.inputs@.len() == 1
        &&& !f.spec_is_static()
        &&& f.output.name@ == "()"@
    }
}

/// Well-formedness of a class: every function stands in exactly one bucket
/// (their symbols are pairwise distinct), disposers have the disposer
/// shape, and the disposer, if any, is unique and stands in the owning
/// bucket.
pub open spec fn class_wf(c: Class) -> bool {
    &&& distinct_symbols(all_fns(c))
    &&& forall|i: int| 0 <= i < all_fns(c).len() ==> drop_fn_wf(#[trigger] all_fns(c)[i])
    &&& forall|i: int|
        0 <= i < c.shared_fns@.len() ==> (#[trigger] c.shared_fns@[i]).method@ != "drop"@
    &&& forall|i: int|
        0 <= i < c.mut_fns@.len() ==> (#[trigger] c.mut_fns@[i]).method@ != "drop"@
    &&& forall|i: int|
        0 <= i < c.static_fns@.len() ==> (#[trigger] c.static_fns@[i]).method@ != "drop"@
    &&& forall|i: int, j: int|
        0 <= i < j < c.own_fns@.len() ==> !(c.own_fns@[i].method@ == "drop"@
            && c.own_fns@[j].method@ == "drop"@)
}

proof fn lemma_count_zero(fns: Seq<Function>, sym: Seq<char>)
    requires
        forall|k: int| 0 <= k < fns.len() ==> fns[k].name@ != sym,
    ensures
        count_symbol(fns, sym) == 0,
    decreases fns.len(),
{
    if fns.len() > 0 {
        assert(forall|k: int|
            0 <= k < fns.drop_first().len() ==> fns.drop_first()[k].name@ == fns[k + 1].name@);
        lemma_count_zero(fns.drop_first(), sym);
    }
}

proof fn lemma_count_distinct(fns: Seq<Function>, i: int)
    requires
        distinct_symbols(fns),
        0 <= i < fns.len(),
    ensures
        count_symbol(fns, fns[i].name@) == 1,
    decreases fns.len(),
{
    let sym = fns[i].name@;
    let rest = fns.drop_first();
    if i == 0 {
        assert(forall|k: int| 0 <= k < rest.len() ==> rest[k].name@ == fns[k + 1].name@);
        assert(forall|k: int| 0 <= k < rest.len() ==> rest[k].name@ != sym);
        lemma_count_zero(rest, sym);
    } else {
        assert(fns[0].name@ != sym);
        assert(forall|k: int| 0 <= k < rest.len() ==> rest[k].name@ == fns[k + 1].name@);
        assert(distinct_symbols(rest));
        assert(rest[i - 1].name@ == sym);
        lemma_count_distinct(rest, i - 1);
    }
}

/// The four access buckets of a well-formed class partition its functions:
/// their concatenation contains each function's native symbol exactly
/// once, with no duplication and no omission.
pub proof fn lemma_buckets_partition(c: Class)
    requires
        class_wf(c),
    ensures
        forall|i: int|
            0 <= i < all_fns(c).len() ==> count_symbol(all_fns(c), #[trigger] all_fns(c)[i].name@)
                == 1,
{
    assert forall|i: int| 0 <= i < all_fns(c).len() implies count_symbol(
        all_fns(c),
        #[trigger] all_fns(c)[i].name@,
    ) == 1 by {
        lemma_count_distinct(all_fns(c), i);
    }
}

} // verus!
