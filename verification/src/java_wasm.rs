//! The Java emitter for the embeddable-runtime (wasm) backend: maps IR
//! types to Java wire and surface types and renders each class of the IR
//! as its three-level access hierarchy (`Ref`, `RefMut`, owned), with full
//! argument and return marshalling around every native call.

use vstd::prelude::*;
use crate::ir::{class_wf, Class, Function, Type, TypeKind};
use crate::text::{seq_assoc, str_eq};
use crate::java::{class_comments_text, comment_sub, substitute_comment, write_class_comments};

verus! {

/// The mixed-case (lower camel case) rendering of an identifier. The
/// conversion depends on the characters alone.
pub uninterp spec fn mixed_case_of(s: Seq<char>) -> Seq<char>;

/// Relies on heck's `MixedCase::to_mixed_case` for `str`: a pure
/// case conversion, a function of the characters alone.
#[verifier::external_body]
fn to_mixed_case(s: &str) -> (r: String)
    ensures
        r@ == mixed_case_of(s@),
{
    heck::MixedCase::to_mixed_case(s)
}

/// The Java name of a native primitive on the wire.
pub open spec fn prim_ll_type(name: Seq<char>) -> Seq<char> {
    if name == "i8"@ {
        "byte"@
    } else if name == "i16"@ {
        "short"@
    } else if name == "i32"@ {
        "int"@
    } else if name == "i64"@ {
        "long"@
    } else if name == "u8"@ {
        "byte"@
    } else if name == "u16"@ {
        "short"@
    } else if name == "u32"@ {
        "int"@
    } else if name == "u64"@ {
        "long"@
    } else if name == "usize"@ {
        "int"@
    } else if name == "f32"@ {
        "float"@
    } else if name == "f64"@ {
        "double"@
    } else if name == "bool"@ {
        "boolean"@
    } else if name == "()"@ {
        "void"@
    } else if name == "c_char"@ {
        "byte"@
    } else if name == "Json"@ {
        "String"@
    } else {
        name
    }
}

/// The low-level (wire) Java type of an IR type: borrowed text is read as
/// a `String`, every other borrowed handle travels as an `int` address,
/// and primitives map one-to-one by width.
pub open spec fn ll_type(ty: Type) -> Seq<char> {
    if ty.kind == TypeKind::Ref && ty.name@ == "c_char"@ {
        "String"@
    } else if ty.kind == TypeKind::Ref || ty.kind == TypeKind::RefMut {
        "int"@
    } else if !ty.is_custom {
        prim_ll_type(ty.name@)
    } else {
        "int"@
    }
}

/// The high-level (surface) Java type of an IR type: an opaque handle
/// surfaces as its class name, level-matched to its kind; booleans and
/// sizes surface as native Java types; the rest surfaces as on the wire.
pub open spec fn hl_type(ty: Type) -> Seq<char> {
    if ty.is_custom {
        match ty.kind {
            TypeKind::Ref => ty.name@ + "Ref"@,
            TypeKind::RefMut => ty.name@ + "RefMut"@,
            TypeKind::Value => ty.name@,
        }
    } else if ty.name@ == "bool"@ {
        "boolean"@
    } else if ty.name@ == "usize"@ {
        "int"@
    } else {
        ll_type(ty)
    }
}

/// The failure of an emission run: the interface description holds a
/// primitive type name the mapping table does not know. Such a name is
/// an error of the description itself; it is rejected loudly, never
/// passed through.
#[derive(Clone, Copy, PartialEq, Eq, Structural, Debug)]
pub enum EmitError {
    UnmappedPrimitive,
}

/// The primitive type names the mapping table knows.
pub open spec fn prim_known(name: Seq<char>) -> bool {
    ||| name == "i8"@
    ||| name == "i16"@
    ||| name == "i32"@
    ||| name == "i64"@
    ||| name == "u8"@
    ||| name == "u16"@
    ||| name == "u32"@
    ||| name == "u64"@
    ||| name == "usize"@
    ||| name == "f32"@
    ||| name == "f64"@
    ||| name == "bool"@
    ||| name == "()"@
    ||| name == "c_char"@
    ||| name == "Json"@
}

/// A type the mapping engine accepts: every opaque handle and every
/// borrowed type maps, and a by-value primitive maps exactly when its
/// name is in the table.
pub open spec fn type_mapped(ty: Type) -> bool {
    ||| ty.is_custom
    ||| ty.kind == TypeKind::Ref
    ||| ty.kind == TypeKind::RefMut
    ||| prim_known(ty.name@)
}

fn prim_known_check(name: &str) -> (r: bool)
    ensures
        r == prim_known(name@),
{
    str_eq(name, "i8") || str_eq(name, "i16") || str_eq(name, "i32") || str_eq(name, "i64")
        || str_eq(name, "u8") || str_eq(name, "u16") || str_eq(name, "u32") || str_eq(name, "u64")
        || str_eq(name, "usize") || str_eq(name, "f32") || str_eq(name, "f64") || str_eq(
        name,
        "bool",
    ) || str_eq(name, "()") || str_eq(name, "c_char") || str_eq(name, "Json")
}

fn type_mapped_check(ty: &Type) -> (r: bool)
    ensures
        r == type_mapped(*ty),
{
    ty.is_custom || matches!(ty.kind, TypeKind::Ref) || matches!(ty.kind, TypeKind::RefMut)
        || prim_known_check(ty.name.as_str())
}

/// Every type a function's signature mentions is accepted by the
/// mapping engine.
pub open spec fn fn_mappable(f: Function) -> bool {
    &&& type_mapped(f.output)
    &&& forall|i: int| 0 <= i < f.inputs@.len() ==> type_mapped(#[trigger] f.inputs@[i].1)
}

fn fn_mappable_check(f: &Function) -> (r: bool)
    ensures
        r == fn_mappable(*f),
{
    if !type_mapped_check(&f.output) {
        return false;
    }
    let mut k: usize = 0;
    while k < f.inputs.len()
        invariant
            0 <= k <= f.inputs@.len(),
            forall|i: int| 0 <= i < k ==> type_mapped(#[trigger] f.inputs@[i].1),
            type_mapped(f.output),
        decreases f.inputs@.len() - k,
    {
        if !type_mapped_check(&f.inputs[k].1) {
            return false;
        }
        k += 1;
    }
    true
}

/// Every function in the run is mappable.
pub open spec fn fns_mappable(fns: Seq<Function>) -> bool {
    forall|i: int| 0 <= i < fns.len() ==> fn_mappable(#[trigger] fns[i])
}

fn fns_mappable_check(fns: &Vec<Function>) -> (r: bool)
    ensures
        r == fns_mappable(fns@),
{
    let mut k: usize = 0;
    while k < fns.len()
        invariant
            0 <= k <= fns@.len(),
            forall|i: int| 0 <= i < k ==> fn_mappable(#[trigger] fns@[i]),
        decreases fns@.len() - k,
    {
        if !fn_mappable_check(&fns[k]) {
            return false;
        }
        k += 1;
    }
    true
}

/// Every function in the run but the disposer is mappable; the disposer
/// is rendered only through the owned class's drop path.
pub open spec fn fns_mappable_no_drop(fns: Seq<Function>) -> bool {
    forall|i: int|
        0 <= i < fns.len() && (#[trigger] fns[i]).method@ != "drop"@ ==> fn_mappable(fns[i])
}

fn fns_mappable_no_drop_check(fns: &Vec<Function>) -> (r: bool)
    ensures
        r == fns_mappable_no_drop(fns@),
{
    let mut k: usize = 0;
    while k < fns.len()
        invariant
            0 <= k <= fns@.len(),
            forall|i: int|
                0 <= i < k && (#[trigger] fns@[i]).method@ != "drop"@ ==> fn_mappable(fns@[i]),
        decreases fns@.len() - k,
    {
        if !str_eq(fns[k].method.as_str(), "drop") && !fn_mappable_check(&fns[k]) {
            return false;
        }
        k += 1;
    }
    true
}

fn ll_type_name(ty: &Type) -> (r: String)
    requires
        type_mapped(*ty),
    ensures
        r@ == ll_type(*ty),
{
    let name = ty.name.as_str();
    if matches!(ty.kind, TypeKind::Ref) && str_eq(name, "c_char") {
        String::from_str("String")
    } else if matches!(ty.kind, TypeKind::Ref) || matches!(ty.kind, TypeKind::RefMut) {
        String::from_str("int")
    } else if !ty.is_custom {
        if str_eq(name, "i8") {
            String::from_str("byte")
        } else if str_eq(name, "i16") {
            String::from_str("short")
        } else if str_eq(name, "i32") {
            String::from_str("int")
        } else if str_eq(name, "i64") {
            String::from_str("long")
        } else if str_eq(name, "u8") {
            String::from_str("byte")
        } else if str_eq(name, "u16") {
            String::from_str("short")
        } else if str_eq(name, "u32") {
            String::from_str("int")
        } else if str_eq(name, "u64") {
            String::from_str("long")
        } else if str_eq(name, "usize") {
            String::from_str("int")
        } else if str_eq(name, "f32") {
            String::from_str("float")
        } else if str_eq(name, "f64") {
            String::from_str("double")
        } else if str_eq(name, "bool") {
            String::from_str("boolean")
        } else if str_eq(name, "()") {
            String::from_str("void")
        } else if str_eq(name, "c_char") {
            String::from_str("byte")
        } else if str_eq(name, "Json") {
            String::from_str("String")
        } else {
            ty.name.clone()
        }
    } else {
        String::from_str("int")
    }
}

fn hl_type_name(ty: &Type) -> (r: String)
    requires
        type_mapped(*ty),
    ensures
        r@ == hl_type(*ty),
{
    if ty.is_custom {
        match ty.kind {
            TypeKind::Ref => ty.name.clone().concat("Ref"),
            TypeKind::RefMut => ty.name.clone().concat("RefMut"),
            TypeKind::Value => ty.name.clone(),
        }
    } else if str_eq(ty.name.as_str(), "bool") {
        String::from_str("boolean")
    } else if str_eq(ty.name.as_str(), "usize") {
        String::from_str("int")
    } else {
        ll_type_name(ty)
    }
}

/// Computes the wire type name, as [`ll_type`] describes; a by-value
/// primitive whose name the table does not know is an error of the
/// interface description and is rejected, never passed through.
pub fn get_ll_type(ty: &Type) -> (r: Result<String, EmitError>)
    ensures
        r is Ok <==> type_mapped(*ty),
        r matches Ok(s) ==> s@ == ll_type(*ty),
{
    if type_mapped_check(ty) {
        Ok(ll_type_name(ty))
    } else {
        Err(EmitError::UnmappedPrimitive)
    }
}

/// Computes the surface type name, as [`hl_type`] describes; an
/// unmapped primitive name is rejected, never passed through.
pub fn get_hl_type(ty: &Type) -> (r: Result<String, EmitError>)
    ensures
        r is Ok <==> type_mapped(*ty),
        r matches Ok(s) ==> s@ == hl_type(*ty),
{
    if type_mapped_check(ty) {
        Ok(hl_type_name(ty))
    } else {
        Err(EmitError::UnmappedPrimitive)
    }
}

/// The surfaced Java method name: the mixed-case logical name, with the
/// reserved renamings applied deterministically (`clone` surfaces as
/// `copy`, `close` as `finish`, `new` as `create`, `default` as
/// `createDefault`).
pub open spec fn surface_method(m: Seq<char>) -> Seq<char> {
    let mc = mixed_case_of(m);
    if mc == "clone"@ {
        "copy"@
    } else if mc == "close"@ {
        "finish"@
    } else if mc == "new"@ {
        "create"@
    } else if mc == "default"@ {
        "createDefault"@
    } else {
        mc
    }
}

/// Computes the surfaced method name, as [`surface_method`] describes.
pub fn surface_method_name(m: &str) -> (r: String)
    ensures
        r@ == surface_method(m@),
{
    let mc = to_mixed_case(m);
    if str_eq(mc.as_str(), "clone") {
        String::from_str("copy")
    } else if str_eq(mc.as_str(), "close") {
        String::from_str("finish")
    } else if str_eq(mc.as_str(), "new") {
        String::from_str("create")
    } else if str_eq(mc.as_str(), "default") {
        String::from_str("createDefault")
    } else {
        mc
    }
}

/// Text-valued types: surfaced as `String` or declared as raw-JSON text.
/// They are marshalled through a freshly allocated native buffer.
pub open spec fn string_like(t: Type) -> bool {
    hl_type(t) == "String"@ || t.name@ == "Json"@
}

/// How many leading inputs are skipped when enumerating surface
/// parameters: the receiver, unless the function is static.
pub open spec fn param_skip(f: Function) -> int {
    if f.spec_is_static() {
        0
    } else {
        1
    }
}

pub open spec fn fn_comment_lines(comments: Seq<String>) -> Seq<char>
    decreases comments.len(),
{
    if comments.len() == 0 {
        Seq::empty()
    } else {
        "\n     * "@ + comment_sub(comments[0]@) + fn_comment_lines(comments.drop_first())
    }
}

/// The documentation block above a rendered method; empty when the
/// function carries no comments.
pub open spec fn fn_comments_text(comments: Seq<String>) -> Seq<char> {
    if comments.len() == 0 {
        Seq::empty()
    } else {
        "\n    /**"@ + fn_comment_lines(comments) + "\n     */"@
    }
}

/// The method signature line up to the opening parenthesis of the
/// parameter list. The canonical factory goes through the same shape as
/// every method: its surfaced name is `create`, per the renaming rule.
pub open spec fn fn_header_text(f: Function) -> Seq<char> {
    "\n    public"@ + (if f.spec_is_static() {
        " static"@
    } else {
        Seq::empty()
    }) + " "@ + hl_type(f.output) + " "@ + surface_method(f.method@) + "("@
}

/// The surface parameter list from input position `k` on; `first` is true
/// when no parameter has been rendered yet.
pub open spec fn params_from(inputs: Seq<(String, Type)>, k: int, first: bool) -> Seq<char>
    decreases inputs.len() - k,
{
    if !(0 <= k < inputs.len()) {
        Seq::empty()
    } else {
        (if first {
            Seq::empty()
        } else {
            ", "@
        }) + hl_type(inputs[k].1) + " "@ + mixed_case_of(inputs[k].0@) + params_from(
            inputs,
            k + 1,
            false,
        )
    }
}

/// The fail-fast null-sentinel checks: every opaque-handle argument is
/// rejected before the native call when its address is 0.
pub open spec fn null_checks_from(inputs: Seq<(String, Type)>, k: int) -> Seq<char>
    decreases inputs.len() - k,
{
    if !(0 <= k < inputs.len()) {
        Seq::empty()
    } else {
        (if inputs[k].1.is_custom {
            "if ("@ + mixed_case_of(inputs[k].0@)
                + ".ptr == 0) {\n            throw new RuntimeException();\n        }\n        "@
        } else {
            Seq::empty()
        }) + null_checks_from(inputs, k + 1)
    }
}

/// The buffer allocations: every text-valued argument is copied into a
/// freshly allocated native buffer before the call.
pub open spec fn allocs_from(inputs: Seq<(String, Type)>, k: int) -> Seq<char>
    decreases inputs.len() - k,
{
    if !(0 <= k < inputs.len()) {
        Seq::empty()
    } else {
        (if string_like(inputs[k].1) {
            "LiveSplitCoreNative.AllocatedBuf "@ + mixed_case_of(inputs[k].0@)
                + "_Allocated = LiveSplitCoreNative.allocString("@ + mixed_case_of(inputs[k].0@)
                + ");\n        "@
        } else {
            Seq::empty()
        }) + allocs_from(inputs, k + 1)
    }
}

/// The assignment that captures the native call's result, dependent on
/// the return kind (text read-back, wrapped handle, cast primitive).
pub open spec fn ret_head_text(f: Function) -> Seq<char> {
    let rt = hl_type(f.output);
    if !f.spec_has_return_type() {
        Seq::empty()
    } else if string_like(f.output) {
        rt + " result = LiveSplitCoreNative.readString("@
    } else if f.output.is_custom {
        rt + " result = new "@ + rt + "("@
    } else {
        rt + " result = "@ + (if f.output.name@ == "u8"@ {
            "("@ + rt + ")"@
        } else {
            Seq::empty()
        })
    }
}

/// The expression passed on the wire for one argument.
pub open spec fn call_arg_expr(name: Seq<char>, t: Type) -> Seq<char> {
    if name == "this"@ {
        "this.ptr"@
    } else if hl_type(t) == "boolean"@ {
        "(byte)("@ + mixed_case_of(name) + " ? 1 : 0)"@
    } else if string_like(t) {
        mixed_case_of(name) + "_Allocated.ptr"@
    } else if t.is_custom {
        mixed_case_of(name) + ".ptr"@
    } else {
        mixed_case_of(name)
    }
}

/// The comma-separated wire arguments of the native call, from input
/// position `k` on.
pub open spec fn call_args_from(inputs: Seq<(String, Type)>, k: int) -> Seq<char>
    decreases inputs.len() - k,
{
    if !(0 <= k < inputs.len()) {
        Seq::empty()
    } else {
        (if k != 0 {
            ", "@
        } else {
            Seq::empty()
        }) + call_arg_expr(inputs[k].0@, inputs[k].1) + call_args_from(inputs, k + 1)
    }
}

/// The text closing the native call: boolean widening, the closing
/// parenthesis of a read-back or wrapper, and the statement terminator.
pub open spec fn call_tail_text(f: Function) -> Seq<char> {
    ")"@ + (if hl_type(f.output) == "boolean"@ {
        " != 0"@
    } else {
        Seq::empty()
    }) + (if string_like(f.output) {
        ")"@
    } else if f.spec_has_return_type() && f.output.is_custom {
        ")"@
    } else {
        Seq::empty()
    }) + ";"@
}

/// The buffer releases after the call: every text argument's buffer is
/// released on the normal exit path, immediately after the call.
pub open spec fn deallocs_from(inputs: Seq<(String, Type)>, k: int) -> Seq<char>
    decreases inputs.len() - k,
{
    if !(0 <= k < inputs.len()) {
        Seq::empty()
    } else {
        (if string_like(inputs[k].1) {
            "\n        "@ + mixed_case_of(inputs[k].0@) + "_Allocated.dealloc();"@
        } else {
            Seq::empty()
        }) + deallocs_from(inputs, k + 1)
    }
}

/// The ownership invalidations after the call: every opaque-handle
/// argument passed by value has its caller-side address reset to the null
/// sentinel, so the caller can never dispose a moved handle.
pub open spec fn invalidates_from(inputs: Seq<(String, Type)>, k: int) -> Seq<char>
    decreases inputs.len() - k,
{
    if !(0 <= k < inputs.len()) {
        Seq::empty()
    } else {
        (if inputs[k].1.is_custom && inputs[k].1.kind == TypeKind::Value {
            "\n        "@ + mixed_case_of(inputs[k].0@) + ".ptr = 0;"@
        } else {
            Seq::empty()
        }) + invalidates_from(inputs, k + 1)
    }
}

/// The return statement: a nullable opaque return surfaces the null
/// sentinel as Java `null` instead of a wrapped instance.
pub open spec fn ret_tail_text(f: Function) -> Seq<char> {
    if f.spec_has_return_type() {
        (if f.output.is_nullable && f.output.is_custom {
            "\n        if (result.ptr == 0) {\n            return null;\n        }"@
        } else {
            Seq::empty()
        }) + "\n        return result;"@
    } else {
        Seq::empty()
    }
}

/// The function marshals at least one text-valued argument through a
/// native buffer. Its call is then wrapped so every buffer is released
/// on every exit path, a native-call failure included.
pub open spec fn has_text_args(f: Function) -> bool {
    exists|i: int| 0 <= i < f.inputs@.len() && string_like(#[trigger] f.inputs@[i].1)
}

/// The complete rendering of one bound method.
pub open spec fn fn_text(f: Function) -> Seq<char> {
    fn_comments_text(f.comments@) + fn_header_text(f) + params_from(
        f.inputs@,
        param_skip(f),
        true,
    ) + ") {\n        "@ + null_checks_from(f.inputs@, 0) + allocs_from(f.inputs@, 0) + (if has_text_args(
        f,
    ) {
        "try {\n        "@
    } else {
        Seq::<char>::empty()
    }) + ret_head_text(f) + "LiveSplitCoreNative.INSTANCE."@ + f.name@ + "("@ + call_args_from(
        f.inputs@,
        0,
    ) + call_tail_text(f) + invalidates_from(f.inputs@, 0) + ret_tail_text(f) + (if has_text_args(
        f,
    ) {
        ("\n        } finally {"@ + deallocs_from(f.inputs@, 0)) + "\n        }"@
    } else {
        Seq::<char>::empty()
    }) + "\n    }"@
}

fn has_text_args_check(f: &Function) -> (r: bool)
    requires
        forall|i: int| 0 <= i < f.inputs@.len() ==> type_mapped(#[trigger] f.inputs@[i].1),
    ensures
        r == has_text_args(*f),
{
    let mut k: usize = 0;
    while k < f.inputs.len()
        invariant
            0 <= k <= f.inputs@.len(),
            forall|i: int| 0 <= i < f.inputs@.len() ==> type_mapped(#[trigger] f.inputs@[i].1),
            forall|i: int| 0 <= i < k ==> !string_like(#[trigger] f.inputs@[i].1),
        decreases f.inputs@.len() - k,
    {
        if is_string_like(&f.inputs[k].1) {
            return true;
        }
        k += 1;
    }
    false
}

fn write_fn_comments(out: &mut String, comments: &Vec<String>)
    ensures
        final(out)@ == old(out)@ + fn_comments_text(comments@),
{
    if comments.len() == 0 {
        proof {
            assert(old(out)@ + Seq::<char>::empty() =~= old(out)@);
        }
        return ;
    }
    out.append("\n    /**");
    let ghost base = out@;
    let mut i: usize = 0;
    proof {
        assert(comments@.skip(0) =~= comments@);
    }
    while i < comments.len()
        invariant
            0 <= i <= comments@.len(),
            base + fn_comment_lines(comments@) == out@ + fn_comment_lines(
                comments@.skip(i as int),
            ),
        decreases comments@.len() - i,
    {
        let ghost rest = comments@.skip(i as int);
        let ghost out0 = out@;
        out.append("\n     * ");
        let line = substitute_comment(comments[i].as_str());
        out.append(line.as_str());
        proof {
            assert(rest[0] == comments@[i as int]);
            assert(rest.drop_first() =~= comments@.skip(i + 1));
            let tail = fn_comment_lines(comments@.skip(i + 1));
            assert(out0 + ("\n     * "@ + comment_sub(comments@[i as int]@) + tail) =~= ((out0
                + "\n     * "@) + comment_sub(comments@[i as int]@)) + tail);
        }
        i += 1;
    }
    proof {
        assert(comments@.skip(comments@.len() as int) =~= Seq::<String>::empty());
        assert(out@ + Seq::<char>::empty() =~= out@);
    }
    out.append("\n     */");
    proof {
        assert(old(out)@ + fn_comments_text(comments@) =~= ((old(out)@ + "\n    /**"@)
            + fn_comment_lines(comments@)) + "\n     */"@);
    }
}

fn write_params(out: &mut String, inputs: &Vec<(String, Type)>, skip: usize)
    requires
        forall|i: int| 0 <= i < inputs@.len() ==> type_mapped(#[trigger] inputs@[i].1),
    ensures
        final(out)@ == old(out)@ + params_from(inputs@, skip as int, true),
{
    let ghost base = out@;
    let mut k: usize = skip;
    while k < inputs.len()
        invariant
            skip <= k,
            k <= inputs@.len() || k == skip,
            forall|i: int| 0 <= i < inputs@.len() ==> type_mapped(#[trigger] inputs@[i].1),
            base + params_from(inputs@, skip as int, true) == out@ + params_from(
                inputs@,
                k as int,
                k == skip,
            ),
        decreases inputs@.len() - k,
    {
        let ghost out0 = out@;
        let ghost first = (k == skip);
        if k != skip {
            out.append(", ");
        }
        let hl = hl_type_name(&inputs[k].1);
        out.append(hl.as_str());
        out.append(" ");
        let m = to_mixed_case(inputs[k].0.as_str());
        out.append(m.as_str());
        proof {
            let item = (if first {
                Seq::<char>::empty()
            } else {
                ", "@
            }) + hl_type(inputs@[k as int].1) + " "@ + mixed_case_of(inputs@[k as int].0@);
            let tail = params_from(inputs@, k + 1, false);
            assert(out@ =~= out0 + item);
            assert(out0 + (item + tail) =~= (out0 + item) + tail);
        }
        k += 1;
    }
    proof {
        assert(out@ + params_from(inputs@, k as int, k == skip) =~= out@);
    }
}

fn write_null_checks(out: &mut String, inputs: &Vec<(String, Type)>)
    ensures
        final(out)@ == old(out)@ + null_checks_from(inputs@, 0),
{
    let ghost base = out@;
    let mut k: usize = 0;
    while k < inputs.len()
        invariant
            0 <= k <= inputs@.len(),
            base + null_checks_from(inputs@, 0) == out@ + null_checks_from(inputs@, k as int),
        decreases inputs@.len() - k,
    {
        let ghost out0 = out@;
        if inputs[k].1.is_custom {
            out.append("if (");
            let m = to_mixed_case(inputs[k].0.as_str());
            out.append(m.as_str());
            out.append(".ptr == 0) {\n            throw new RuntimeException();\n        }\n        ");
        }
        proof {
            let item = if inputs@[k as int].1.is_custom {
                "if ("@ + mixed_case_of(inputs@[k as int].0@)
                    + ".ptr == 0) {\n            throw new RuntimeException();\n        }\n        "@
            } else {
                Seq::<char>::empty()
            };
            let tail = null_checks_from(inputs@, k + 1);
            assert(out@ =~= out0 + item);
            assert(out0 + (item + tail) =~= (out0 + item) + tail);
        }
        k += 1;
    }
    proof {
        assert(out@ + null_checks_from(inputs@, k as int) =~= out@);
    }
}

/// Checks whether an argument of type `t` is text-valued and marshalled
/// through a native buffer.
fn is_string_like(t: &Type) -> (r: bool)
    requires
        type_mapped(*t),
    ensures
        r == string_like(*t),
{
    let hl = hl_type_name(t);
    str_eq(hl.as_str(), "String") || str_eq(t.name.as_str(), "Json")
}

fn write_allocs(out: &mut String, inputs: &Vec<(String, Type)>)
    requires
        forall|i: int| 0 <= i < inputs@.len() ==> type_mapped(#[trigger] inputs@[i].1),
    ensures
        final(out)@ == old(out)@ + allocs_from(inputs@, 0),
{
    let ghost base = out@;
    let mut k: usize = 0;
    while k < inputs.len()
        invariant
            0 <= k <= inputs@.len(),
            forall|i: int| 0 <= i < inputs@.len() ==> type_mapped(#[trigger] inputs@[i].1),
            base + allocs_from(inputs@, 0) == out@ + allocs_from(inputs@, k as int),
        decreases inputs@.len() - k,
    {
        let ghost out0 = out@;
        if is_string_like(&inputs[k].1) {
            out.append("LiveSplitCoreNative.AllocatedBuf ");
            let m = to_mixed_case(inputs[k].0.as_str());
            out.append(m.as_str());
            out.append("_Allocated = LiveSplitCoreNative.allocString(");
            out.append(m.as_str());
            out.append(");\n        ");
        }
        proof {
            let item = if string_like(inputs@[k as int].1) {
                "LiveSplitCoreNative.AllocatedBuf "@ + mixed_case_of(inputs@[k as int].0@)
                    + "_Allocated = LiveSplitCoreNative.allocString("@ + mixed_case_of(
                    inputs@[k as int].0@,
                ) + ");\n        "@
            } else {
                Seq::<char>::empty()
            };
            let tail = allocs_from(inputs@, k + 1);
            assert(out@ =~= out0 + item);
            assert(out0 + (item + tail) =~= (out0 + item) + tail);
        }
        k += 1;
    }
    proof {
        assert(out@ + allocs_from(inputs@, k as int) =~= out@);
    }
}

fn write_call_args(out: &mut String, inputs: &Vec<(String, Type)>)
    requires
        forall|i: int| 0 <= i < inputs@.len() ==> type_mapped(#[trigger] inputs@[i].1),
    ensures
        final(out)@ == old(out)@ + call_args_from(inputs@, 0),
{
    let ghost base = out@;
    let mut k: usize = 0;
    while k < inputs.len()
        invariant
            0 <= k <= inputs@.len(),
            forall|i: int| 0 <= i < inputs@.len() ==> type_mapped(#[trigger] inputs@[i].1),
            base + call_args_from(inputs@, 0) == out@ + call_args_from(inputs@, k as int),
        decreases inputs@.len() - k,
    {
        let ghost out0 = out@;
        if k != 0 {
            out.append(", ");
        }
        let name = &inputs[k].0;
        let t = &inputs[k].1;
        let hl = hl_type_name(t);
        if str_eq(name.as_str(), "this") {
            out.append("this.ptr");
        } else if str_eq(hl.as_str(), "boolean") {
            out.append("(byte)(");
            let m = to_mixed_case(name.as_str());
            out.append(m.as_str());
            out.append(" ? 1 : 0)");
        } else if str_eq(hl.as_str(), "String") || str_eq(t.name.as_str(), "Json") {
            let m = to_mixed_case(name.as_str());
            out.append(m.as_str());
            out.append("_Allocated.ptr");
        } else if t.is_custom {
            let m = to_mixed_case(name.as_str());
            out.append(m.as_str());
            out.append(".ptr");
        } else {
            let m = to_mixed_case(name.as_str());
            out.append(m.as_str());
        }
        proof {
            let item = (if k != 0 {
                ", "@
            } else {
                Seq::<char>::empty()
            }) + call_arg_expr(inputs@[k as int].0@, inputs@[k as int].1);
            let tail = call_args_from(inputs@, k + 1);
            assert(out@ =~= out0 + item);
            assert(out0 + (item + tail) =~= (out0 + item) + tail);
        }
        k += 1;
    }
    proof {
        assert(out@ + call_args_from(inputs@, k as int) =~= out@);
    }
}

fn write_deallocs(out: &mut String, inputs: &Vec<(String, Type)>)
    requires
        forall|i: int| 0 <= i < inputs@.len() ==> type_mapped(#[trigger] inputs@[i].1),
    ensures
        final(out)@ == old(out)@ + deallocs_from(inputs@, 0),
{
    let ghost base = out@;
    let mut k: usize = 0;
    while k < inputs.len()
        invariant
            0 <= k <= inputs@.len(),
            forall|i: int| 0 <= i < inputs@.len() ==> type_mapped(#[trigger] inputs@[i].1),
            base + deallocs_from(inputs@, 0) == out@ + deallocs_from(inputs@, k as int),
        decreases inputs@.len() - k,
    {
        let ghost out0 = out@;
        if is_string_like(&inputs[k].1) {
            out.append("\n        ");
            let m = to_mixed_case(inputs[k].0.as_str());
            out.append(m.as_str());
            out.append("_Allocated.dealloc();");
        }
        proof {
            let item = if string_like(inputs@[k as int].1) {
                "\n        "@ + mixed_case_of(inputs@[k as int].0@) + "_Allocated.dealloc();"@
            } else {
                Seq::<char>::empty()
            };
            let tail = deallocs_from(inputs@, k + 1);
            assert(out@ =~= out0 + item);
            assert(out0 + (item + tail) =~= (out0 + item) + tail);
        }
        k += 1;
    }
    proof {
        assert(out@ + deallocs_from(inputs@, k as int) =~= out@);
    }
}

fn write_invalidates(out: &mut String, inputs: &Vec<(String, Type)>)
    ensures
        final(out)@ == old(out)@ + invalidates_from(inputs@, 0),
{
    let ghost base = out@;
    let mut k: usize = 0;
    while k < inputs.len()
        invariant
            0 <= k <= inputs@.len(),
            base + invalidates_from(inputs@, 0) == out@ + invalidates_from(inputs@, k as int),
        decreases inputs@.len() - k,
    {
        let ghost out0 = out@;
        if inputs[k].1.is_custom && matches!(inputs[k].1.kind, TypeKind::Value) {
            out.append("\n        ");
            let m = to_mixed_case(inputs[k].0.as_str());
            out.append(m.as_str());
            out.append(".ptr = 0;");
        }
        proof {
            let item = if inputs@[k as int].1.is_custom && inputs@[k as int].1.kind
                == TypeKind::Value {
                "\n        "@ + mixed_case_of(inputs@[k as int].0@) + ".ptr = 0;"@
            } else {
                Seq::<char>::empty()
            };
            let tail = invalidates_from(inputs@, k + 1);
            assert(out@ =~= out0 + item);
            assert(out0 + (item + tail) =~= (out0 + item) + tail);
        }
        k += 1;
    }
    proof {
        assert(out@ + invalidates_from(inputs@, k as int) =~= out@);
    }
}

#[verifier::rlimit(100)]
fn write_fn_checked(out: &mut String, function: &Function)
    requires
        fn_mappable(*function),
    ensures
        final(out)@ == old(out)@ + fn_text(*function),
{
    let f = function;
    let is_static = f.is_static();
    let has_return_type = f.has_return_type();
    let return_type = hl_type_name(&f.output);
    let has_text = has_text_args_check(f);

    let ghost b0 = out@;
    let ghost p1 = fn_comments_text(f.comments@);
    let ghost p2 = p1 + fn_header_text(*f);
    let ghost p3 = p2 + params_from(f.inputs@, param_skip(*f), true);
    let ghost p4 = p3 + ") {\n        "@;
    let ghost p5 = p4 + null_checks_from(f.inputs@, 0);
    let ghost p6 = p5 + allocs_from(f.inputs@, 0);
    let ghost p7 = p6 + (if has_text_args(*f) {
        "try {\n        "@
    } else {
        Seq::<char>::empty()
    });
    let ghost p8 = p7 + ret_head_text(*f);
    let ghost p9 = p8 + "LiveSplitCoreNative.INSTANCE."@;
    let ghost p10 = p9 + f.name@;
    let ghost p11 = p10 + "("@;
    let ghost p12 = p11 + call_args_from(f.inputs@, 0);
    let ghost p13 = p12 + call_tail_text(*f);
    let ghost p14 = p13 + invalidates_from(f.inputs@, 0);
    let ghost p15 = p14 + ret_tail_text(*f);
    let ghost p16 = p15 + (if has_text_args(*f) {
        ("\n        } finally {"@ + deallocs_from(f.inputs@, 0)) + "\n        }"@
    } else {
        Seq::<char>::empty()
    });
    let ghost p17 = p16 + "\n    }"@;

    write_fn_comments(out, &f.comments);

    out.append("\n    public");
    if is_static {
        out.append(" static");
    }
    out.append(" ");
    out.append(return_type.as_str());
    out.append(" ");
    let method = surface_method_name(f.method.as_str());
    out.append(method.as_str());
    out.append("(");
    proof {
        let b = b0 + p1;
        let c1 = "\n    public"@ + (if f.spec_is_static() {
            " static"@
        } else {
            Seq::<char>::empty()
        });
        if f.spec_is_static() {
            seq_assoc(b, "\n    public"@, " static"@);
        } else {
            assert(c1 =~= "\n    public"@);
        }
        seq_assoc(b, c1, " "@);
        seq_assoc(b, c1 + " "@, hl_type(f.output));
        seq_assoc(b, (c1 + " "@) + hl_type(f.output), " "@);
        seq_assoc(b, ((c1 + " "@) + hl_type(f.output)) + " "@, surface_method(f.method@));
        seq_assoc(
            b,
            (((c1 + " "@) + hl_type(f.output)) + " "@) + surface_method(f.method@),
            "("@,
        );
        seq_assoc(b0, p1, fn_header_text(*f));
        assert(out@ == b0 + p2);
    }

    let skip: usize = if is_static {
        0
    } else {
        1
    };
    write_params(out, &f.inputs, skip);
    proof {
        seq_assoc(b0, p2, params_from(f.inputs@, param_skip(*f), true));
        assert(out@ == b0 + p3);
    }

    out.append(") {\n        ");
    proof {
        seq_assoc(b0, p3, ") {\n        "@);
        assert(out@ == b0 + p4);
    }

    write_null_checks(out, &f.inputs);
    proof {
        seq_assoc(b0, p4, null_checks_from(f.inputs@, 0));
        assert(out@ == b0 + p5);
    }
    write_allocs(out, &f.inputs);
    proof {
        seq_assoc(b0, p5, allocs_from(f.inputs@, 0));
        assert(out@ == b0 + p6);
    }

    if has_text {
        out.append("try {\n        ");
        proof {
            seq_assoc(b0, p6, "try {\n        "@);
        }
    } else {
        proof {
            assert(p6 + Seq::<char>::empty() =~= p6);
        }
    }
    proof {
        assert(out@ == b0 + p7);
    }

    if has_return_type {
        if is_string_like(&f.output) {
            out.append(return_type.as_str());
            out.append(" result = LiveSplitCoreNative.readString(");
            proof {
                let b = b0 + p7;
                seq_assoc(b, hl_type(f.output), " result = LiveSplitCoreNative.readString("@);
                seq_assoc(b0, p7, ret_head_text(*f));
                assert(out@ == b0 + p8);
            }
        } else if f.output.is_custom {
            out.append(return_type.as_str());
            out.append(" result = new ");
            out.append(return_type.as_str());
            out.append("(");
            proof {
                let b = b0 + p7;
                let rt = hl_type(f.output);
                seq_assoc(b, rt, " result = new "@);
                seq_assoc(b, rt + " result = new "@, rt);
                seq_assoc(b, (rt + " result = new "@) + rt, "("@);
                seq_assoc(b0, p7, ret_head_text(*f));
                assert(out@ == b0 + p8);
            }
        } else {
            out.append(return_type.as_str());
            out.append(" result = ");
            let is_u8 = str_eq(f.output.name.as_str(), "u8");
            if is_u8 {
                out.append("(");
                out.append(return_type.as_str());
                out.append(")");
            }
            proof {
                let b = b0 + p7;
                let rt = hl_type(f.output);
                seq_assoc(b, rt, " result = "@);
                if f.output.name@ == "u8"@ {
                    seq_assoc(b, rt + " result = "@, "("@);
                    seq_assoc(b, (rt + " result = "@) + "("@, rt);
                    seq_assoc(b, ((rt + " result = "@) + "("@) + rt, ")"@);
                    seq_assoc(rt + " result = "@, "("@ + rt, ")"@);
                    seq_assoc(rt + " result = "@, "("@, rt);
                    assert(ret_head_text(*f) == (rt + " result = "@) + (("("@ + rt) + ")"@));
                } else {
                    assert((rt + " result = "@) + Seq::<char>::empty() =~= rt + " result = "@);
                }
                seq_assoc(b0, p7, ret_head_text(*f));
                assert(out@ == b0 + p8);
            }
        }
    } else {
        proof {
            assert(ret_head_text(*f) == Seq::<char>::empty());
            assert(p7 + Seq::<char>::empty() =~= p7);
            assert(out@ == b0 + p8);
        }
    }

    out.append("LiveSplitCoreNative.INSTANCE.");
    out.append(f.name.as_str());
    out.append("(");
    proof {
        seq_assoc(b0, p8, "LiveSplitCoreNative.INSTANCE."@);
        seq_assoc(b0, p9, f.name@);
        seq_assoc(b0, p10, "("@);
        assert(out@ == b0 + p11);
    }

    write_call_args(out, &f.inputs);
    proof {
        seq_assoc(b0, p11, call_args_from(f.inputs@, 0));
        assert(out@ == b0 + p12);
    }

    out.append(")");
    let is_bool_ret = str_eq(return_type.as_str(), "boolean");
    if is_bool_ret {
        out.append(" != 0");
    }
    let out_string_like = is_string_like(&f.output);
    if out_string_like {
        out.append(")");
    } else if has_return_type && f.output.is_custom {
        out.append(")");
    }
    out.append(";");
    proof {
        let b = b0 + p12;
        let c1 = ")"@ + (if hl_type(f.output) == "boolean"@ {
            " != 0"@
        } else {
            Seq::<char>::empty()
        });
        if hl_type(f.output) == "boolean"@ {
            seq_assoc(b, ")"@, " != 0"@);
        } else {
            assert(c1 =~= ")"@);
        }
        let c2 = c1 + (if string_like(f.output) {
            ")"@
        } else if f.spec_has_return_type() && f.output.is_custom {
            ")"@
        } else {
            Seq::<char>::empty()
        });
        if string_like(f.output) {
            seq_assoc(b, c1, ")"@);
        } else if f.spec_has_return_type() && f.output.is_custom {
            seq_assoc(b, c1, ")"@);
        } else {
            assert(c2 =~= c1);
        }
        seq_assoc(b, c2, ";"@);
        seq_assoc(b0, p12, call_tail_text(*f));
        assert(out@ == b0 + p13);
    }

    write_invalidates(out, &f.inputs);
    proof {
        seq_assoc(b0, p13, invalidates_from(f.inputs@, 0));
        assert(out@ == b0 + p14);
    }

    if has_return_type {
        if f.output.is_nullable && f.output.is_custom {
            out.append("\n        if (result.ptr == 0) {\n            return null;\n        }");
            out.append("\n        return result;");
            proof {
                let b = b0 + p14;
                seq_assoc(
                    b,
                    "\n        if (result.ptr == 0) {\n            return null;\n        }"@,
                    "\n        return result;"@,
                );
                seq_assoc(b0, p14, ret_tail_text(*f));
                assert(out@ == b0 + p15);
            }
        } else {
            out.append("\n        return result;");
            proof {
                assert(ret_tail_text(*f) =~= "\n        return result;"@);
                seq_assoc(b0, p14, ret_tail_text(*f));
                assert(out@ == b0 + p15);
            }
        }
    } else {
        proof {
            assert(ret_tail_text(*f) == Seq::<char>::empty());
            assert(p14 + Seq::<char>::empty() =~= p14);
            assert(out@ == b0 + p15);
        }
    }

    if has_text {
        out.append("\n        } finally {");
        write_deallocs(out, &f.inputs);
        out.append("\n        }");
        proof {
            let b = b0 + p15;
            seq_assoc(b, "\n        } finally {"@, deallocs_from(f.inputs@, 0));
            seq_assoc(b, "\n        } finally {"@ + deallocs_from(f.inputs@, 0), "\n        }"@);
            seq_assoc(
                b0,
                p15,
                ("\n        } finally {"@ + deallocs_from(f.inputs@, 0)) + "\n        }"@,
            );
        }
    } else {
        proof {
            assert(p15 + Seq::<char>::empty() =~= p15);
        }
    }
    proof {
        assert(out@ == b0 + p16);
    }

    out.append("\n    }");
    proof {
        seq_assoc(b0, p16, "\n    }"@);
        assert(out@ == b0 + p17);
        assert(fn_text(*function) == p17);
    }
}

/// Renders one bound method and appends it to `out`, exactly as
/// [`fn_text`] describes: the call is guarded by the null-sentinel
/// checks, every text argument's buffer is released on every exit path,
/// and the canonical factory surfaces under the `create` name. A
/// signature naming an unmapped primitive is rejected and `out` is left
/// untouched.
pub fn write_fn(out: &mut String, function: &Function) -> (r: Result<(), EmitError>)
    ensures
        r is Ok <==> fn_mappable(*function),
        r is Ok ==> final(out)@ == old(out)@ + fn_text(*function),
        r is Err ==> final(out)@ == old(out)@,
{
    if !fn_mappable_check(function) {
        return Err(EmitError::UnmappedPrimitive);
    }
    write_fn_checked(out, function);
    Ok(())
}

/// The renderings of a run of functions, from position `k` on.
pub open spec fn fns_texts(fns: Seq<Function>, k: int) -> Seq<char>
    decreases fns.len() - k,
{
    if !(0 <= k < fns.len()) {
        Seq::empty()
    } else {
        fn_text(fns[k]) + fns_texts(fns, k + 1)
    }
}

fn write_fns(out: &mut String, fns: &Vec<Function>)
    requires
        fns_mappable(fns@),
    ensures
        final(out)@ == old(out)@ + fns_texts(fns@, 0),
{
    let ghost base = out@;
    let mut k: usize = 0;
    while k < fns.len()
        invariant
            0 <= k <= fns@.len(),
            fns_mappable(fns@),
            base + fns_texts(fns@, 0) == out@ + fns_texts(fns@, k as int),
        decreases fns@.len() - k,
    {
        let ghost out0 = out@;
        write_fn_checked(out, &fns[k]);
        proof {
            let item = fn_text(fns@[k as int]);
            let tail = fns_texts(fns@, k + 1);
            seq_assoc(out0, item, tail);
        }
        k += 1;
    }
    proof {
        assert(out@ + fns_texts(fns@, k as int) =~= out@);
    }
}

/// As [`fns_texts`], but the unique disposer is left out: it is rendered
/// only through the idempotent `drop` path of the owned class.
pub open spec fn fns_texts_no_drop(fns: Seq<Function>, k: int) -> Seq<char>
    decreases fns.len() - k,
{
    if !(0 <= k < fns.len()) {
        Seq::empty()
    } else {
        (if fns[k].method@ != "drop"@ {
            fn_text(fns[k])
        } else {
            Seq::empty()
        }) + fns_texts_no_drop(fns, k + 1)
    }
}

fn write_fns_no_drop(out: &mut String, fns: &Vec<Function>)
    requires
        fns_mappable_no_drop(fns@),
    ensures
        final(out)@ == old(out)@ + fns_texts_no_drop(fns@, 0),
{
    let ghost base = out@;
    let mut k: usize = 0;
    while k < fns.len()
        invariant
            0 <= k <= fns@.len(),
            fns_mappable_no_drop(fns@),
            base + fns_texts_no_drop(fns@, 0) == out@ + fns_texts_no_drop(fns@, k as int),
        decreases fns@.len() - k,
    {
        let ghost out0 = out@;
        let ghost item = if fns@[k as int].method@ != "drop"@ {
            fn_text(fns@[k as int])
        } else {
            Seq::<char>::empty()
        };
        if !str_eq(fns[k].method.as_str(), "drop") {
            write_fn_checked(out, &fns[k]);
        }
        proof {
            let tail = fns_texts_no_drop(fns@, k + 1);
            assert(out@ =~= out0 + item);
            seq_assoc(out0, item, tail);
        }
        k += 1;
    }
    proof {
        assert(out@ + fns_texts_no_drop(fns@, k as int) =~= out@);
    }
}

/// The native call of the class's unique disposer inside the owned
/// class's `drop` body; empty when the class has no disposer.
pub open spec fn drop_call_text(fns: Seq<Function>, k: int) -> Seq<char>
    decreases fns.len() - k,
{
    if !(0 <= k < fns.len()) {
        Seq::empty()
    } else if fns[k].method@ == "drop"@ {
        "\n            LiveSplitCoreNative.INSTANCE."@ + fns[k].name@ + "(this.ptr);"@
    } else {
        drop_call_text(fns, k + 1)
    }
}

proof fn lemma_drop_call_from(fns: Seq<Function>, k: int, i: int)
    requires
        0 <= k <= i < fns.len(),
        fns[i].method@ == "drop"@,
        forall|j: int| 0 <= j < fns.len() && j != i ==> (#[trigger] fns[j]).method@ != "drop"@,
    ensures
        drop_call_text(fns, k) == ("\n            LiveSplitCoreNative.INSTANCE."@ + fns[i].name@)
            + "(this.ptr);"@,
    decreases i - k,
{
    if k < i {
        lemma_drop_call_from(fns, k + 1, i);
    }
}

/// Law: for a well-formed class, the owned surface's drop path calls
/// exactly the class's unique disposer — the one `"drop"` function of
/// its owning bucket — so the disposer is rendered nowhere else (the
/// bucket renderings skip it) and under no other symbol.
pub proof fn lemma_drop_path_is_sole_disposer(c: Class, i: int)
    requires
        class_wf(c),
        0 <= i < c.own_fns@.len(),
        c.own_fns@[i].method@ == "drop"@,
    ensures
        drop_call_text(c.own_fns@, 0) == ("\n            LiveSplitCoreNative.INSTANCE."@
            + c.own_fns@[i].name@) + "(this.ptr);"@,
{
    assert forall|j: int|
        0 <= j < c.own_fns@.len() && j != i implies (#[trigger] c.own_fns@[j]).method@
        != "drop"@ by {
        if j < i {
            assert(!(c.own_fns@[j].method@ == "drop"@ && c.own_fns@[i].method@ == "drop"@));
        } else {
            assert(!(c.own_fns@[i].method@ == "drop"@ && c.own_fns@[j].method@ == "drop"@));
        }
    }
    lemma_drop_call_from(c.own_fns@, 0, i);
}

fn write_drop_call(out: &mut String, fns: &Vec<Function>)
    ensures
        final(out)@ == old(out)@ + drop_call_text(fns@, 0),
{
    let mut k: usize = 0;
    while k < fns.len()
        invariant
            0 <= k <= fns@.len(),
            drop_call_text(fns@, 0) == drop_call_text(fns@, k as int),
            out@ == old(out)@,
        decreases fns@.len() - k,
    {
        if str_eq(fns[k].method.as_str(), "drop") {
            out.append("\n            LiveSplitCoreNative.INSTANCE.");
            out.append(fns[k].name.as_str());
            out.append("(this.ptr);");
            proof {
                let b = old(out)@;
                let c1 = "\n            LiveSplitCoreNative.INSTANCE."@;
                let c2 = fns@[k as int].name@;
                let c3 = "(this.ptr);"@;
                seq_assoc(b, c1, c2);
                seq_assoc(b, c1 + c2, c3);
                assert(out@ == b + ((c1 + c2) + c3));
                assert(drop_call_text(fns@, k as int) == (c1 + c2) + c3);
                assert(out@ == old(out)@ + drop_call_text(fns@, 0));
            }
            return ;
        }
        k += 1;
    }
    proof {
        assert(out@ + drop_call_text(fns@, k as int) =~= out@);
    }
}

/// The borrowed-read surface of a class: it holds the handle address and
/// exposes every shared function; any wider surface widens to it.
pub open spec fn class_ref_text(class_name: Seq<char>, c: Class) -> Seq<char> {
    "package org.livesplit;\n"@ + class_comments_text(c.comments@) + "\npublic class "@ + (
    class_name + "Ref"@) + " {\n    int ptr;"@ + fns_texts(c.shared_fns@, 0)
        + (if class_name == "SharedTimer"@ {
        shared_timer_extra()
    } else {
        Seq::empty()
    }) + "\n    "@ + (class_name + "Ref"@) + "(int ptr) {\n        this.ptr = ptr;\n    }\n}"@
}

/// The scoped read/write helpers that only the shared-timer class gains.
pub open spec fn shared_timer_extra() -> Seq<char> {
    "\n    public void readWith(java.util.function.Consumer<TimerRef> action) {\n        try (TimerReadLock timerLock = read()) {\n            action.accept(timerLock.timer());\n        }\n    }\n    public void writeWith(java.util.function.Consumer<TimerRefMut> action) {\n        try (TimerWriteLock timerLock = write()) {\n            action.accept(timerLock.timer());\n        }\n    }"@
}

/// Renders the borrowed-read surface of a class, as [`class_ref_text`]
/// describes; a shared function naming an unmapped primitive aborts the
/// emission with `out` untouched.
pub fn write_class_ref(out: &mut String, class_name: &str, class: &Class) -> (r: Result<
    (),
    EmitError,
>)
    ensures
        r is Ok <==> fns_mappable(class.shared_fns@),
        r is Ok ==> final(out)@ == old(out)@ + class_ref_text(class_name@, *class),
        r is Err ==> final(out)@ == old(out)@,
{
    if !fns_mappable_check(&class.shared_fns) {
        return Err(EmitError::UnmappedPrimitive);
    }
    let ghost b0 = out@;
    let ghost cnr = class_name@ + "Ref"@;
    let ghost p1 = "package org.livesplit;\n"@;
    let ghost p2 = p1 + class_comments_text(class.comments@);
    let ghost p3 = p2 + "\npublic class "@;
    let ghost p4 = p3 + cnr;
    let ghost p5 = p4 + " {\n    int ptr;"@;
    let ghost p6 = p5 + fns_texts(class.shared_fns@, 0);
    let ghost p7 = p6 + (if class_name@ == "SharedTimer"@ {
        shared_timer_extra()
    } else {
        Seq::<char>::empty()
    });
    let ghost p8 = p7 + "\n    "@;
    let ghost p9 = p8 + cnr;
    let ghost p10 = p9 + "(int ptr) {\n        this.ptr = ptr;\n    }\n}"@;

    let class_name_ref = String::from_str(class_name).concat("Ref");
    out.append("package org.livesplit;\n");
    write_class_comments(out, &class.comments);
    proof {
        seq_assoc(b0, p1, class_comments_text(class.comments@));
    }
    out.append("\npublic class ");
    proof {
        seq_assoc(b0, p2, "\npublic class "@);
    }
    out.append(class_name_ref.as_str());
    proof {
        seq_assoc(b0, p3, cnr);
    }
    out.append(" {\n    int ptr;");
    proof {
        seq_assoc(b0, p4, " {\n    int ptr;"@);
    }
    write_fns(out, &class.shared_fns);
    proof {
        seq_assoc(b0, p5, fns_texts(class.shared_fns@, 0));
    }
    if str_eq(class_name, "SharedTimer") {
        out.append(
            "\n    public void readWith(java.util.function.Consumer<TimerRef> action) {\n        try (TimerReadLock timerLock = read()) {\n            action.accept(timerLock.timer());\n        }\n    }\n    public void writeWith(java.util.function.Consumer<TimerRefMut> action) {\n        try (TimerWriteLock timerLock = write()) {\n            action.accept(timerLock.timer());\n        }\n    }",
        );
        proof {
            seq_assoc(b0, p6, shared_timer_extra());
        }
    } else {
        proof {
            assert(p6 + Seq::<char>::empty() =~= p6);
        }
    }
    out.append("\n    ");
    proof {
        seq_assoc(b0, p7, "\n    "@);
    }
    out.append(class_name_ref.as_str());
    proof {
        seq_assoc(b0, p8, cnr);
    }
    out.append("(int ptr) {\n        this.ptr = ptr;\n    }\n}");
    proof {
        seq_assoc(b0, p9, "(int ptr) {\n        this.ptr = ptr;\n    }\n}"@);
        assert(out@ == b0 + p10);
        assert(class_ref_text(class_name@, *class) == p10);
    }
    Ok(())
}

/// The borrowed-mutable surface of a class: it extends the borrowed-read
/// surface and additionally exposes every mutating function.
pub open spec fn class_ref_mut_text(class_name: Seq<char>, c: Class) -> Seq<char> {
    "package org.livesplit;\n"@ + class_comments_text(c.comments@) + "\npublic class "@ + (
    class_name + "RefMut"@) + " extends "@ + (class_name + "Ref"@) + " {"@ + fns_texts(c.mut_fns@, 0) + "\n    "@ + (class_name + "RefMut"@) + "(int ptr) {\n        super(ptr);\n    }\n}"@
}

/// Renders the borrowed-mutable surface of a class, as
/// [`class_ref_mut_text`] describes; a mutating function naming an
/// unmapped primitive aborts the emission with `out` untouched.
pub fn write_class_ref_mut(out: &mut String, class_name: &str, class: &Class) -> (r: Result<
    (),
    EmitError,
>)
    ensures
        r is Ok <==> fns_mappable(class.mut_fns@),
        r is Ok ==> final(out)@ == old(out)@ + class_ref_mut_text(class_name@, *class),
        r is Err ==> final(out)@ == old(out)@,
{
    if !fns_mappable_check(&class.mut_fns) {
        return Err(EmitError::UnmappedPrimitive);
    }
    let ghost b0 = out@;
    let ghost cnr = class_name@ + "Ref"@;
    let ghost cnrm = class_name@ + "RefMut"@;
    let ghost p1 = "package org.livesplit;\n"@;
    let ghost p2 = p1 + class_comments_text(class.comments@);
    let ghost p3 = p2 + "\npublic class "@;
    let ghost p4 = p3 + cnrm;
    let ghost p5 = p4 + " extends "@;
    let ghost p6 = p5 + cnr;
    let ghost p7 = p6 + " {"@;
    let ghost p8 = p7 + fns_texts(class.mut_fns@, 0);
    let ghost p9 = p8 + "\n    "@;
    let ghost p10 = p9 + cnrm;
    let ghost p11 = p10 + "(int ptr) {\n        super(ptr);\n    }\n}"@;

    let class_name_ref = String::from_str(class_name).concat("Ref");
    let class_name_ref_mut = String::from_str(class_name).concat("RefMut");
    out.append("package org.livesplit;\n");
    write_class_comments(out, &class.comments);
    proof {
        seq_assoc(b0, p1, class_comments_text(class.comments@));
    }
    out.append("\npublic class ");
    proof {
        seq_assoc(b0, p2, "\npublic class "@);
    }
    out.append(class_name_ref_mut.as_str());
    proof {
        seq_assoc(b0, p3, cnrm);
    }
    out.append(" extends ");
    proof {
        seq_assoc(b0, p4, " extends "@);
    }
    out.append(class_name_ref.as_str());
    proof {
        seq_assoc(b0, p5, cnr);
    }
    out.append(" {");
    proof {
        seq_assoc(b0, p6, " {"@);
    }
    write_fns(out, &class.mut_fns);
    proof {
        seq_assoc(b0, p7, fns_texts(class.mut_fns@, 0));
    }
    out.append("\n    ");
    proof {
        seq_assoc(b0, p8, "\n    "@);
    }
    out.append(class_name_ref_mut.as_str());
    proof {
        seq_assoc(b0, p9, cnrm);
    }
    out.append("(int ptr) {\n        super(ptr);\n    }\n}");
    proof {
        seq_assoc(b0, p10, "(int ptr) {\n        super(ptr);\n    }\n}"@);
        assert(out@ == b0 + p11);
        assert(class_ref_mut_text(class_name@, *class) == p11);
    }
    Ok(())
}

/// The owned surface of a class: it extends the borrowed-mutable surface,
/// exposes the factories and owning functions, and uniquely carries the
/// disposal obligation. Its `drop` path is a no-op once the handle is at
/// the null sentinel, so disposal is idempotent.
pub open spec fn class_text(class_name: Seq<char>, c: Class) -> Seq<char> {
    "package org.livesplit;\n"@ + class_comments_text(c.comments@) + "\npublic class "@
        + class_name + " extends "@ + (class_name + "RefMut"@)
        + " implements AutoCloseable {\n    private void drop() {\n        if (ptr != 0) {"@
        + drop_call_text(c.own_fns@, 0)
        + "\n            ptr = 0;\n        }\n    }\n    protected void finalize() throws Throwable {\n        drop();\n        super.finalize();\n    }\n    public void close() {\n        drop();\n    }"@
        + fns_texts_no_drop(c.static_fns@, 0) + fns_texts_no_drop(c.own_fns@, 0) + "\n    "@ + class_name + "(int ptr) {\n        super(ptr);\n    }\n}"@
}

/// Renders the owned surface of a class, as [`class_text`] describes;
/// a factory or owning function naming an unmapped primitive aborts the
/// emission with `out` untouched.
pub fn write_class(out: &mut String, class_name: &str, class: &Class) -> (r: Result<
    (),
    EmitError,
>)
    ensures
        r is Ok <==> fns_mappable(class.static_fns@) && fns_mappable_no_drop(class.own_fns@),
        r is Ok ==> final(out)@ == old(out)@ + class_text(class_name@, *class),
        r is Err ==> final(out)@ == old(out)@,
{
    if !(fns_mappable_check(&class.static_fns) && fns_mappable_no_drop_check(&class.own_fns)) {
        return Err(EmitError::UnmappedPrimitive);
    }
    let ghost b0 = out@;
    let ghost cnrm = class_name@ + "RefMut"@;
    let ghost p1 = "package org.livesplit;\n"@;
    let ghost p2 = p1 + class_comments_text(class.comments@);
    let ghost p3 = p2 + "\npublic class "@;
    let ghost p4 = p3 + class_name@;
    let ghost p5 = p4 + " extends "@;
    let ghost p6 = p5 + cnrm;
    let ghost p7 = p6
        + " implements AutoCloseable {\n    private void drop() {\n        if (ptr != 0) {"@;
    let ghost p8 = p7 + drop_call_text(class.own_fns@, 0);
    let ghost p9 = p8
        + "\n            ptr = 0;\n        }\n    }\n    protected void finalize() throws Throwable {\n        drop();\n        super.finalize();\n    }\n    public void close() {\n        drop();\n    }"@;
    let ghost p10 = p9 + fns_texts_no_drop(class.static_fns@, 0);
    let ghost p11 = p10 + fns_texts_no_drop(class.own_fns@, 0);
    let ghost p12 = p11 + "\n    "@;
    let ghost p13 = p12 + class_name@;
    let ghost p14 = p13 + "(int ptr) {\n        super(ptr);\n    }\n}"@;

    let class_name_ref_mut = String::from_str(class_name).concat("RefMut");
    out.append("package org.livesplit;\n");
    write_class_comments(out, &class.comments);
    proof {
        seq_assoc(b0, p1, class_comments_text(class.comments@));
    }
    out.append("\npublic class ");
    proof {
        seq_assoc(b0, p2, "\npublic class "@);
    }
    out.append(class_name);
    proof {
        seq_assoc(b0, p3, class_name@);
    }
    out.append(" extends ");
    proof {
        seq_assoc(b0, p4, " extends "@);
    }
    out.append(class_name_ref_mut.as_str());
    proof {
        seq_assoc(b0, p5, cnrm);
    }
    out.append(" implements AutoCloseable {\n    private void drop() {\n        if (ptr != 0) {");
    proof {
        seq_assoc(
            b0,
            p6,
            " implements AutoCloseable {\n    private void drop() {\n        if (ptr != 0) {"@,
        );
    }
    write_drop_call(out, &class.own_fns);
    proof {
        seq_assoc(b0, p7, drop_call_text(class.own_fns@, 0));
    }
    out.append(
        "\n            ptr = 0;\n        }\n    }\n    protected void finalize() throws Throwable {\n        drop();\n        super.finalize();\n    }\n    public void close() {\n        drop();\n    }",
    );
    proof {
        seq_assoc(
            b0,
            p8,
            "\n            ptr = 0;\n        }\n    }\n    protected void finalize() throws Throwable {\n        drop();\n        super.finalize();\n    }\n    public void close() {\n        drop();\n    }"@,
        );
    }
    write_fns_no_drop(out, &class.static_fns);
    proof {
        seq_assoc(b0, p9, fns_texts_no_drop(class.static_fns@, 0));
    }
    write_fns_no_drop(out, &class.own_fns);
    proof {
        seq_assoc(b0, p10, fns_texts_no_drop(class.own_fns@, 0));
    }
    out.append("\n    ");
    proof {
        seq_assoc(b0, p11, "\n    "@);
    }
    out.append(class_name);
    proof {
        seq_assoc(b0, p12, class_name@);
    }
    out.append("(int ptr) {\n        super(ptr);\n    }\n}");
    proof {
        seq_assoc(b0, p13, "(int ptr) {\n        super(ptr);\n    }\n}"@);
        assert(out@ == b0 + p14);
        assert(class_text(class_name@, *class) == p14);
    }
    Ok(())
}

/// The fixed runtime bridge class emitted once per backend run: memory
/// access, the string helpers, and the two host callbacks (elapsed time
/// and the UTC calendar writer with its fixed binary layout).
pub open spec fn native_class_text() -> Seq<char> {
    r#"package org.livesplit;

import java.io.ByteArrayOutputStream;
import java.lang.invoke.MethodHandle;
import java.lang.invoke.MethodHandles;
import java.lang.invoke.MethodType;
import java.nio.ByteBuffer;
import java.nio.charset.Charset;
import java.time.Instant;
import java.time.ZoneOffset;
import java.time.ZonedDateTime;

public class LiveSplitCoreNative {
    public static LiveSplitCore INSTANCE;
    static Charset charset;

    static {
        charset = Charset.forName("UTF-8");

        MethodHandle instantNow = null;
        MethodHandle dateNow = null;
        try {
            instantNow = MethodHandles.lookup().findStatic(LiveSplitCoreNative.class, "Instant_now", MethodType.methodType(double.class));
            dateNow = MethodHandles.lookup().findStatic(LiveSplitCoreNative.class, "Date_now", MethodType.methodType(void.class, int.class));
        } catch (Exception e) {}

        INSTANCE = new LiveSplitCore(10 << 20, dateNow, null, null, instantNow);
    }

    static Long firstNanoTime = null;
    static double Instant_now() {
        long nanoTime = System.nanoTime();
        if (firstNanoTime == null) {
            firstNanoTime = nanoTime;
        }
        long diff = nanoTime - firstNanoTime;
        double diffS = (double)diff / 1_000_000_000.0;
        return diffS;
    }

    static void Date_now(int ptr) {
        ZonedDateTime date = Instant.now().atZone(ZoneOffset.UTC);
        ByteBuffer mem = INSTANCE.getMemory().slice();
        mem.position(ptr);
        int year = date.getYear();
        mem.put((byte)(year & 0xFF));
        mem.put((byte)(year >> 8));
        mem.put((byte)date.getMonth().getValue());
        mem.put((byte)date.getDayOfMonth());
        mem.put((byte)date.getHour());
        mem.put((byte)date.getMinute());
        mem.put((byte)date.getSecond());
        int millis = date.getNano() / 1_000_000;
        mem.put((byte)(millis & 0xFF));
        mem.put((byte)(millis >> 8));
    }

    public static class AllocatedBuf {
        public int ptr;
        public int size;

        public void dealloc() {
            INSTANCE.dealloc(ptr, size);
        }
    }

    public static AllocatedBuf allocString(String s) {
        AllocatedBuf buf = new AllocatedBuf();
        byte[] bytes = s.getBytes(charset);
        buf.size = bytes.length + 1;
        buf.ptr = INSTANCE.alloc(buf.size);
        ByteBuffer mem = INSTANCE.getMemory().slice();
        mem.position(buf.ptr);
        mem.put(bytes);
        mem.put((byte)0);
        return buf;
    }

    public static String readString(int ptr) {
        ByteBuffer mem = INSTANCE.getMemory().slice();
        mem.position(ptr);
        ByteArrayOutputStream stream = new ByteArrayOutputStream();
        while (true) {
            byte val = mem.get();
            if (val == 0) {
                break;
            }
            stream.write(val);
        }
        return new String(stream.toByteArray(), charset);
    }
}"#@ + "\n"@
}

/// Renders the fixed runtime bridge class, as [`native_class_text`]
/// describes.
pub fn write_native_class(out: &mut String)
    ensures
        final(out)@ == old(out)@ + native_class_text(),
{
    out.append(
        r#"package org.livesplit;

import java.io.ByteArrayOutputStream;
import java.lang.invoke.MethodHandle;
import java.lang.invoke.MethodHandles;
import java.lang.invoke.MethodType;
import java.nio.ByteBuffer;
import java.nio.charset.Charset;
import java.time.Instant;
import java.time.ZoneOffset;
import java.time.ZonedDateTime;

public class LiveSplitCoreNative {
    public static LiveSplitCore INSTANCE;
    static Charset charset;

    static {
        charset = Charset.forName("UTF-8");

        MethodHandle instantNow = null;
        MethodHandle dateNow = null;
        try {
            instantNow = MethodHandles.lookup().findStatic(LiveSplitCoreNative.class, "Instant_now", MethodType.methodType(double.class));
            dateNow = MethodHandles.lookup().findStatic(LiveSplitCoreNative.class, "Date_now", MethodType.methodType(void.class, int.class));
        } catch (Exception e) {}

        INSTANCE = new LiveSplitCore(10 << 20, dateNow, null, null, instantNow);
    }

    static Long firstNanoTime = null;
    static double Instant_now() {
        long nanoTime = System.nanoTime();
        if (firstNanoTime == null) {
            firstNanoTime = nanoTime;
        }
        long diff = nanoTime - firstNanoTime;
        double diffS = (double)diff / 1_000_000_000.0;
        return diffS;
    }

    static void Date_now(int ptr) {
        ZonedDateTime date = Instant.now().atZone(ZoneOffset.UTC);
        ByteBuffer mem = INSTANCE.getMemory().slice();
        mem.position(ptr);
        int year = date.getYear();
        mem.put((byte)(year & 0xFF));
        mem.put((byte)(year >> 8));
        mem.put((byte)date.getMonth().getValue());
        mem.put((byte)date.getDayOfMonth());
        mem.put((byte)date.getHour());
        mem.put((byte)date.getMinute());
        mem.put((byte)date.getSecond());
        int millis = date.getNano() / 1_000_000;
        mem.put((byte)(millis & 0xFF));
        mem.put((byte)(millis >> 8));
    }

    public static class AllocatedBuf {
        public int ptr;
        public int size;

        public void dealloc() {
            INSTANCE.dealloc(ptr, size);
        }
    }

    public static AllocatedBuf allocString(String s) {
        AllocatedBuf buf = new AllocatedBuf();
        byte[] bytes = s.getBytes(charset);
        buf.size = bytes.length + 1;
        buf.ptr = INSTANCE.alloc(buf.size);
        ByteBuffer mem = INSTANCE.getMemory().slice();
        mem.position(buf.ptr);
        mem.put(bytes);
        mem.put((byte)0);
        return buf;
    }

    public static String readString(int ptr) {
        ByteBuffer mem = INSTANCE.getMemory().slice();
        mem.position(ptr);
        ByteArrayOutputStream stream = new ByteArrayOutputStream();
        while (true) {
            byte val = mem.get();
            if (val == 0) {
                break;
            }
            stream.write(val);
        }
        return new String(stream.toByteArray(), charset);
    }
}"#,
    );
    out.append("\n");
}

/// The views of a produced file list: each entry as (file name, content).
pub open spec fn file_views(s: Seq<(String, String)>) -> Seq<(Seq<char>, Seq<char>)> {
    s.map_values(|p: (String, String)| (p.0@, p.1@))
}

/// The three per-class artifacts of every class from position `k` on, in
/// class order: the borrowed-read, borrowed-mutable and owned surfaces.
pub open spec fn class_files(classes: Seq<(String, Class)>, k: int) -> Seq<(Seq<char>, Seq<char>)>
    decreases classes.len() - k,
{
    if !(0 <= k < classes.len()) {
        Seq::empty()
    } else {
        seq![
            (classes[k].0@ + "Ref.java"@, class_ref_text(classes[k].0@, classes[k].1)),
            (classes[k].0@ + "RefMut.java"@, class_ref_mut_text(classes[k].0@, classes[k].1)),
            (classes[k].0@ + ".java"@, class_text(classes[k].0@, classes[k].1)),
        ] + class_files(classes, k + 1)
    }
}

/// Everything this backend produces for one run: the shared runtime
/// bridge once, then the three surfaces of every class, in class order.
pub open spec fn wasm_files(classes: Seq<(String, Class)>) -> Seq<(Seq<char>, Seq<char>)> {
    seq![("LiveSplitCoreNative.java"@, native_class_text())] + class_files(classes, 0)
}

/// Class names order strictly ascending by scalar value, character by
/// character: the order the class catalog carries them in, being keyed
/// by name.
pub open spec fn name_lt(a: Seq<char>, b: Seq<char>) -> bool
    decreases a.len(),
{
    if b.len() == 0 {
        false
    } else if a.len() == 0 {
        true
    } else if a[0] != b[0] {
        (a[0] as u32) < (b[0] as u32)
    } else {
        name_lt(a.drop_first(), b.drop_first())
    }
}

/// Every class of the run can be emitted: no function of it names an
/// unmapped primitive.
pub open spec fn class_emittable(c: Class) -> bool {
    &&& fns_mappable(c.shared_fns@)
    &&& fns_mappable(c.mut_fns@)
    &&& fns_mappable(c.static_fns@)
    &&& fns_mappable_no_drop(c.own_fns@)
}

fn class_emittable_check(c: &Class) -> (r: bool)
    ensures
        r == class_emittable(*c),
{
    fns_mappable_check(&c.shared_fns) && fns_mappable_check(&c.mut_fns) && fns_mappable_check(
        &c.static_fns,
    ) && fns_mappable_no_drop_check(&c.own_fns)
}

/// As [`class_emittable`], over the whole catalog.
pub open spec fn classes_emittable(classes: Seq<(String, Class)>) -> bool {
    forall|k: int| 0 <= k < classes.len() ==> class_emittable((#[trigger] classes[k]).1)
}

/// Produces every file of this backend as a (file name, content) pair,
/// as [`wasm_files`] describes; writing the files out is the caller's
/// concern. The catalog comes keyed by class name, so its entries stand
/// in strictly ascending name order. An unmapped primitive name
/// anywhere in the catalog aborts the whole run for this backend: no
/// partial file list comes back.
#[verifier::rlimit(100)]
pub fn write(classes: &Vec<(String, Class)>) -> (r: Result<Vec<(String, String)>, EmitError>)
    requires
        forall|i: int|
            0 <= i && i + 1 < classes@.len() ==> name_lt(
                (#[trigger] classes@[i]).0@,
                classes@[i + 1].0@,
            ),
    ensures
        r is Ok <==> classes_emittable(classes@),
        r matches Ok(files) ==> file_views(files@) == wasm_files(classes@),
{
    let mut k: usize = 0;
    while k < classes.len()
        invariant
            0 <= k <= classes@.len(),
            forall|j: int| 0 <= j < k ==> class_emittable((#[trigger] classes@[j]).1),
        decreases classes@.len() - k,
    {
        if !class_emittable_check(&classes[k].1) {
            return Err(EmitError::UnmappedPrimitive);
        }
        k += 1;
    }

    let mut r: Vec<(String, String)> = Vec::new();
    let mut native = String::new();
    write_native_class(&mut native);
    let ghost native_view = native@;
    r.push((String::from_str("LiveSplitCoreNative.java"), native));
    proof {
        assert(file_views(r@) =~= seq![("LiveSplitCoreNative.java"@, native_class_text())]);
    }
    let mut k: usize = 0;
    proof {
        assert(class_files(classes@, 0) == class_files(classes@, k as int));
    }
    while k < classes.len()
        invariant
            0 <= k <= classes@.len(),
            classes_emittable(classes@),
            wasm_files(classes@) == file_views(r@) + class_files(classes@, k as int),
        decreases classes@.len() - k,
    {
        let ghost r0 = file_views(r@);
        let name = &classes[k].0;
        let class = &classes[k].1;
        proof {
            assert(class_emittable(classes@[k as int].1));
        }

        let mut ref_out = String::new();
        match write_class_ref(&mut ref_out, name.as_str(), class) {
            Ok(_) => {},
            Err(e) => {
                proof {
                    assert(false);
                }
                return Err(e);
            },
        }
        r.push((name.clone().concat("Ref.java"), ref_out));

        let mut ref_mut_out = String::new();
        match write_class_ref_mut(&mut ref_mut_out, name.as_str(), class) {
            Ok(_) => {},
            Err(e) => {
                proof {
                    assert(false);
                }
                return Err(e);
            },
        }
        r.push((name.clone().concat("RefMut.java"), ref_mut_out));

        let mut class_out = String::new();
        match write_class(&mut class_out, name.as_str(), class) {
            Ok(_) => {},
            Err(e) => {
                proof {
                    assert(false);
                }
                return Err(e);
            },
        }
        r.push((name.clone().concat(".java"), class_out));

        proof {
            let item = seq![
                (classes@[k as int].0@ + "Ref.java"@, class_ref_text(
                    classes@[k as int].0@,
                    classes@[k as int].1,
                )),
                (classes@[k as int].0@ + "RefMut.java"@, class_ref_mut_text(
                    classes@[k as int].0@,
                    classes@[k as int].1,
                )),
                (classes@[k as int].0@ + ".java"@, class_text(
                    classes@[k as int].0@,
                    classes@[k as int].1,
                )),
            ];
            assert(file_views(r@) =~= r0 + item);
            seq_assoc(r0, item, class_files(classes@, k + 1));
        }
        k += 1;
    }
    proof {
        assert(file_views(r@) + class_files(classes@, k as int) =~= file_views(r@));
    }
    Ok(r)
}

} // verus!
