use livesplit_core::bridge::Bridge;
use livesplit_core::ir::TypeKind;
use livesplit_core::runtime::{
    invoke, wrap_nullable_return, CallError, HandleArg, NativeModule, OwnedHandle,
};

#[test]
fn dispose_twice_is_one_native_call() {
    let mut native = NativeModule::new();
    let mut handle = OwnedHandle::from_address(42);
    handle.dispose(&mut native);
    assert_eq!(handle.ptr, 0);
    assert_eq!(native.drop_calls.len(), 1);
    assert_eq!(native.drop_calls[0], 42);
    handle.dispose(&mut native);
    assert_eq!(handle.ptr, 0);
    assert_eq!(native.drop_calls.len(), 1);
    assert_eq!(native.calls.len(), 0);
}

#[test]
fn owned_by_value_argument_moves() {
    let mut native = NativeModule::new();
    let mut args = vec![
        HandleArg { ptr: 7, kind: TypeKind::Ref },
        HandleArg { ptr: 9, kind: TypeKind::Value },
    ];
    let r = invoke(&mut args, &mut native, 11);
    assert!(matches!(r, Ok(11)));
    assert_eq!(native.calls.len(), 1);
    assert_eq!(args[0].ptr, 7);
    assert_eq!(args[1].ptr, 0);
    let mut moved = OwnedHandle { ptr: args[1].ptr };
    moved.dispose(&mut native);
    assert_eq!(native.drop_calls.len(), 0);
}

#[test]
fn null_handle_fails_before_native_call() {
    let mut native = NativeModule::new();
    let mut args = vec![
        HandleArg { ptr: 7, kind: TypeKind::Ref },
        HandleArg { ptr: 0, kind: TypeKind::RefMut },
    ];
    let r = invoke(&mut args, &mut native, 11);
    assert!(matches!(r, Err(CallError::NullHandle)));
    assert_eq!(native.calls.len(), 0);
    assert_eq!(native.drop_calls.len(), 0);
    assert_eq!(args[0].ptr, 7);
    assert_eq!(args[1].ptr, 0);
}

#[test]
fn nullable_return_is_absence() {
    assert!(wrap_nullable_return(0).is_none());
    let h = wrap_nullable_return(123).unwrap();
    assert_eq!(h.ptr, 123);
}

#[test]
fn string_round_trip() {
    let mut bridge = Bridge::new(1024);
    let (addr, size) = bridge.alloc_string("héllo wörld ✓").unwrap();
    assert_eq!(bridge.read_string(addr).unwrap().as_str(), "héllo wörld ✓");
    bridge.dealloc(addr, size);
    let (addr2, size2) = bridge.alloc_string("").unwrap();
    assert_eq!(size2, 1);
    assert_eq!(bridge.read_string(addr2).unwrap().as_str(), "");
}

#[test]
fn allocation_is_never_null_and_bumps() {
    let mut bridge = Bridge::new(64);
    let a = bridge.allocate(10).unwrap();
    assert_eq!(a, 1);
    let b = bridge.allocate(10).unwrap();
    assert_eq!(b, 11);
    assert!(bridge.allocate(1000).is_none());
}

#[test]
fn date_callback_layout() {
    let mut bridge = Bridge::new(64);
    let a: usize = 16;
    bridge.write_date(a, 2024, 3, 7, 8, 15, 30, 250);
    let expected: [u8; 9] = [0xE8, 0x07, 0x03, 0x07, 0x08, 0x0F, 0x1E, 0xFA, 0x00];
    for (i, want) in expected.iter().enumerate() {
        assert_eq!(bridge.read_byte(a + i).unwrap(), *want);
    }
    assert_eq!(bridge.read_byte(a - 1).unwrap(), 0);
    assert_eq!(bridge.read_byte(a + 9).unwrap(), 0);
    assert!(bridge.read_byte(64).is_none());
}
