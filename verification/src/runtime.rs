//! A model of the handle-lifecycle conventions that every emitted
//! binding follows: the owned class's idempotent disposal path, the
//! fail-fast null-sentinel check on every opaque-handle argument, the
//! invalidation of owned-by-value arguments after a successful call, and
//! the wrapping of nullable opaque returns.
//!
//! The native module itself is outside the model; it appears only as the
//! log of calls that crossed into it, so every property proved here holds
//! whatever the module does.

use vstd::prelude::*;
use crate::ir::TypeKind;

verus! {

/// The observable trace of one native module instance: which handles
/// were passed to a disposer, and the result handed back by each regular
/// call that crossed the boundary, in order.
pub struct NativeModule {
    pub drop_calls: Vec<usize>,
    pub calls: Vec<usize>,
}

impl NativeModule {
    /// A module that has not been entered yet.
    pub fn new() -> (r: NativeModule)
        ensures
            r.drop_calls@ == Seq::<usize>::empty(),
            r.calls@ == Seq::<usize>::empty(),
    {
        NativeModule { drop_calls: Vec::new(), calls: Vec::new() }
    }
}

/// A surface object that owns a native handle. `Live` means the address
/// is not the null sentinel and disposal is still owed; `Disposed` means
/// the address is the null sentinel, and is terminal.
#[derive(Clone, Copy, PartialEq, Eq, Structural, Debug)]
pub struct OwnedHandle {
    pub ptr: usize,
}

/// What one disposal invocation does: the handle ends at the null
/// sentinel; the disposer is entered exactly once when the handle was
/// live and not at all when it was already disposed; no other native
/// call is made.
pub open spec fn dispose_post(
    h0: OwnedHandle,
    n0: NativeModule,
    h1: OwnedHandle,
    n1: NativeModule,
) -> bool {
    &&& h1.ptr == 0
    &&& (h0.ptr != 0 ==> n1.drop_calls@ == n0.drop_calls@.push(h0.ptr))
    &&& (h0.ptr == 0 ==> n1.drop_calls@ == n0.drop_calls@)
    &&& n1.calls@ == n0.calls@
}

impl OwnedHandle {
    /// A handle still carrying its disposal obligation.
    pub open spec fn live(self) -> bool {
        self.ptr != 0
    }

    /// Wraps an address that the module handed to a factory.
    pub fn from_address(addr: usize) -> (r: OwnedHandle)
        ensures
            r.ptr == addr,
    {
        OwnedHandle { ptr: addr }
    }

    /// Disposes the handle: a no-op once disposed, else one native drop
    /// call, then the null sentinel. Explicit disposal and best-effort
    /// reclamation both come through here, so running both is safe.
    pub fn dispose(&mut self, native: &mut NativeModule)
        ensures
            dispose_post(*old(self), *old(native), *final(self), *final(native)),
    {
        if self.ptr != 0 {
            native.drop_calls.push(self.ptr);
            self.ptr = 0;
        }
    }
}

/// Law: invoking disposal twice performs exactly one native drop call in
/// total when the handle was live (none when it was not), and the handle
/// stands at the null sentinel after both invocations.
pub proof fn lemma_dispose_idempotent(
    h0: OwnedHandle,
    n0: NativeModule,
    h1: OwnedHandle,
    n1: NativeModule,
    h2: OwnedHandle,
    n2: NativeModule,
)
    requires
        dispose_post(h0, n0, h1, n1),
        dispose_post(h1, n1, h2, n2),
    ensures
        h1.ptr == 0,
        h2.ptr == 0,
        h0.ptr != 0 ==> n2.drop_calls@ == n0.drop_calls@.push(h0.ptr),
        h0.ptr == 0 ==> n2.drop_calls@ == n0.drop_calls@,
        n2.calls@ == n0.calls@,
{
}

/// One opaque-handle argument at the call boundary: its current address
/// and the access level its declared type records.
#[derive(Clone, Copy, PartialEq, Eq, Structural, Debug)]
pub struct HandleArg {
    pub ptr: usize,
    pub kind: TypeKind,
}

/// The error raised, before the native call, when an opaque-handle
/// argument stands at the null sentinel.
#[derive(Clone, Copy, PartialEq, Eq, Structural, Debug)]
pub enum CallError {
    NullHandle,
}

/// Every opaque-handle argument is away from the null sentinel.
pub open spec fn all_live(args: Seq<HandleArg>) -> bool {
    forall|i: int| 0 <= i < args.len() ==> args[i].ptr != 0
}

/// The caller-side state of the arguments after a successful call:
/// every owned-by-value handle was invalidated to the null sentinel
/// (ownership moved into the callee), every other handle is untouched.
pub open spec fn invalidated(args0: Seq<HandleArg>, args1: Seq<HandleArg>) -> bool {
    &&& args1.len() == args0.len()
    &&& forall|i: int| 0 <= i < args0.len() ==> args1[i].kind == args0[i].kind
    &&& forall|i: int|
        0 <= i < args0.len() ==> args1[i].ptr == (if args0[i].kind == TypeKind::Value {
            0
        } else {
            args0[i].ptr
        })
}

/// Performs one marshalled call over opaque-handle arguments. Every
/// argument is checked against the null sentinel first: on a null
/// argument the call fails at once and the native module is never
/// entered. Otherwise the call crosses into the module exactly once,
/// `native_result` stands for the address the module hands back, and
/// every owned-by-value argument is invalidated on the caller's side.
pub fn invoke(
    args: &mut Vec<HandleArg>,
    native: &mut NativeModule,
    native_result: usize,
) -> (r: Result<usize, CallError>)
    ensures
        r is Ok <==> all_live(old(args)@),
        r matches Ok(v) ==> v == native_result,
        !all_live(old(args)@) ==> {
            &&& r == Result::<usize, CallError>::Err(CallError::NullHandle)
            &&& final(args)@ == old(args)@
            &&& final(native).calls@ == old(native).calls@
            &&& final(native).drop_calls@ == old(native).drop_calls@
        },
        all_live(old(args)@) ==> {
            &&& final(native).calls@ == old(native).calls@.push(native_result)
            &&& final(native).drop_calls@ == old(native).drop_calls@
            &&& invalidated(old(args)@, final(args)@)
        },
{
    let mut k: usize = 0;
    while k < args.len()
        invariant
            0 <= k <= args@.len(),
            forall|i: int| 0 <= i < k ==> args@[i].ptr != 0,
            args@ == old(args)@,
            *native == *old(native),
        decreases args@.len() - k,
    {
        if args[k].ptr == 0 {
            return Err(CallError::NullHandle);
        }
        k += 1;
    }
    native.calls.push(native_result);
    let mut k: usize = 0;
    while k < args.len()
        invariant
            0 <= k <= args@.len(),
            args@.len() == old(args)@.len(),
            forall|i: int| 0 <= i < args@.len() ==> args@[i].kind == old(args)@[i].kind,
            forall|i: int|
                0 <= i < k ==> args@[i].ptr == (if old(args)@[i].kind == TypeKind::Value {
                    0
                } else {
                    old(args)@[i].ptr
                }),
            forall|i: int| k <= i < args@.len() ==> args@[i].ptr == old(args)@[i].ptr,
            final(native).calls@ == old(native).calls@.push(native_result),
            final(native).drop_calls@ == old(native).drop_calls@,
        decreases args@.len() - k,
    {
        if matches!(args[k].kind, TypeKind::Value) {
            let kind = args[k].kind;
            args[k] = HandleArg { ptr: 0, kind };
        }
        k += 1;
    }
    Ok(native_result)
}

/// Law: after a successful call, every argument marshalled with the
/// owned-by-value kind stands at the null sentinel on the caller's side,
/// and disposing such a moved handle afterwards performs no native call.
pub proof fn lemma_owned_by_value_moved(
    args0: Seq<HandleArg>,
    args1: Seq<HandleArg>,
    i: int,
    n1: NativeModule,
    h2: OwnedHandle,
    n2: NativeModule,
)
    requires
        invalidated(args0, args1),
        0 <= i < args0.len(),
        args0[i].kind == TypeKind::Value,
        dispose_post(OwnedHandle { ptr: args1[i].ptr }, n1, h2, n2),
    ensures
        args1[i].ptr == 0,
        n2.drop_calls@ == n1.drop_calls@,
        n2.calls@ == n1.calls@,
{
}

/// Wraps the address a call returned, for a nullable opaque return type:
/// the null sentinel surfaces as an absence value, never as a
/// zero-addressed instance of the class.
pub fn wrap_nullable_return(addr: usize) -> (r: Option<OwnedHandle>)
    ensures
        addr == 0 ==> r is None,
        addr != 0 ==> r == Some(OwnedHandle { ptr: addr }),
{
    if addr == 0 {
        None
    } else {
        Some(OwnedHandle { ptr: addr })
    }
}

} // verus!
