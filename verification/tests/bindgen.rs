use livesplit_core::ir::{Class, Function, Type, TypeKind};
use livesplit_core::java::write_class_comments;
use livesplit_core::java_wasm::{
    get_hl_type, get_ll_type, surface_method_name, write_class, write_class_ref,
    write_class_ref_mut, write_fn,
};

fn ty(name: &str, kind: TypeKind, is_custom: bool, is_nullable: bool) -> Type {
    Type {
        name: name.to_string(),
        kind,
        is_custom,
        is_nullable,
    }
}

fn prim(name: &str) -> Type {
    ty(name, TypeKind::Value, false, false)
}

fn empty_class() -> Class {
    Class {
        comments: Vec::new(),
        static_fns: Vec::new(),
        own_fns: Vec::new(),
        shared_fns: Vec::new(),
        mut_fns: Vec::new(),
    }
}

fn widget_class() -> Class {
    let mut class = empty_class();
    class.static_fns.push(Function {
        name: "Widget_new".to_string(),
        method: "new".to_string(),
        comments: Vec::new(),
        inputs: Vec::new(),
        output: ty("Widget", TypeKind::Value, true, false),
    });
    class.own_fns.push(Function {
        name: "Widget_drop".to_string(),
        method: "drop".to_string(),
        comments: Vec::new(),
        inputs: vec![("this".to_string(), ty("Widget", TypeKind::Value, true, false))],
        output: prim("()"),
    });
    class
}

#[test]
fn type_mapping_wire() {
    assert_eq!(get_ll_type(&prim("i8")).unwrap().as_str(), "byte");
    assert_eq!(get_ll_type(&prim("u16")).unwrap().as_str(), "short");
    assert_eq!(get_ll_type(&prim("usize")).unwrap().as_str(), "int");
    assert_eq!(get_ll_type(&prim("u64")).unwrap().as_str(), "long");
    assert_eq!(get_ll_type(&prim("f32")).unwrap().as_str(), "float");
    assert_eq!(get_ll_type(&prim("f64")).unwrap().as_str(), "double");
    assert_eq!(get_ll_type(&prim("bool")).unwrap().as_str(), "boolean");
    assert_eq!(get_ll_type(&prim("()")).unwrap().as_str(), "void");
    assert_eq!(get_ll_type(&prim("Json")).unwrap().as_str(), "String");
    assert_eq!(get_ll_type(&ty("c_char", TypeKind::Ref, false, false)).unwrap().as_str(), "String");
    assert_eq!(get_ll_type(&ty("Widget", TypeKind::Value, true, false)).unwrap().as_str(), "int");
    assert_eq!(get_ll_type(&ty("Widget", TypeKind::RefMut, true, false)).unwrap().as_str(), "int");
    // an unmapped primitive name is an error, never a silent default
    assert!(get_ll_type(&prim("i128")).is_err());
    assert!(get_hl_type(&prim("Anything")).is_err());
    // a borrowed type maps regardless of its name
    assert_eq!(get_ll_type(&ty("Anything", TypeKind::Ref, false, false)).unwrap().as_str(), "int");
}

#[test]
fn type_mapping_surface() {
    assert_eq!(get_hl_type(&ty("Widget", TypeKind::Ref, true, false)).unwrap().as_str(), "WidgetRef");
    assert_eq!(
        get_hl_type(&ty("Widget", TypeKind::RefMut, true, false)).unwrap().as_str(),
        "WidgetRefMut"
    );
    assert_eq!(get_hl_type(&ty("Widget", TypeKind::Value, true, false)).unwrap().as_str(), "Widget");
    assert_eq!(get_hl_type(&prim("bool")).unwrap().as_str(), "boolean");
    assert_eq!(get_hl_type(&prim("usize")).unwrap().as_str(), "int");
    assert_eq!(get_hl_type(&prim("i64")).unwrap().as_str(), "long");
}

#[test]
fn method_renaming() {
    assert_eq!(surface_method_name("clone").as_str(), "copy");
    assert_eq!(surface_method_name("close").as_str(), "finish");
    assert_eq!(surface_method_name("new").as_str(), "create");
    assert_eq!(surface_method_name("default").as_str(), "createDefault");
    assert_eq!(surface_method_name("personal_best").as_str(), "personalBest");
    assert_eq!(surface_method_name("set_game_name").as_str(), "setGameName");
}

#[test]
fn class_comments_substitute_placeholders() {
    let mut out = String::new();
    let comments = vec![
        "Returns <NULL> if empty.".to_string(),
        "<TRUE> or <FALSE>.".to_string(),
    ];
    write_class_comments(&mut out, &comments);
    assert_eq!(
        out.as_str(),
        "\n/**\n * Returns null if empty.\n * true or false.\n */"
    );
}

#[test]
fn widget_owned_surface() {
    let class = widget_class();
    let mut out = String::new();
    write_class(&mut out, "Widget", &class).unwrap();
    let expected = "package org.livesplit;\n\
                    \n/**\n */\
                    \npublic class Widget extends WidgetRefMut implements AutoCloseable {\
                    \n    private void drop() {\
                    \n        if (ptr != 0) {\
                    \n            LiveSplitCoreNative.INSTANCE.Widget_drop(this.ptr);\
                    \n            ptr = 0;\
                    \n        }\
                    \n    }\
                    \n    protected void finalize() throws Throwable {\
                    \n        drop();\
                    \n        super.finalize();\
                    \n    }\
                    \n    public void close() {\
                    \n        drop();\
                    \n    }\
                    \n    public static Widget create() {\
                    \n        Widget result = new Widget(LiveSplitCoreNative.INSTANCE.Widget_new());\
                    \n        return result;\
                    \n    }\
                    \n    Widget(int ptr) {\
                    \n        super(ptr);\
                    \n    }\n}";
    assert_eq!(expected, out.as_str());
}

#[test]
fn nullable_return_surfaces_null() {
    let f = Function {
        name: "Widget_find".to_string(),
        method: "find".to_string(),
        comments: Vec::new(),
        inputs: vec![("this".to_string(), ty("Widget", TypeKind::Ref, true, false))],
        output: ty("Other", TypeKind::Value, true, true),
    };
    let mut out = String::new();
    write_fn(&mut out, &f).unwrap();
    assert!(out.contains("if (result.ptr == 0) {\n            return null;\n        }"));
    assert!(out.contains("Other result = new Other("));
    assert!(out.contains("if (this.ptr == 0) {\n            throw new RuntimeException();\n        }"));
}

#[test]
fn string_argument_marshalling() {
    let f = Function {
        name: "Widget_set_name".to_string(),
        method: "set_name".to_string(),
        comments: Vec::new(),
        inputs: vec![
            ("this".to_string(), ty("Widget", TypeKind::RefMut, true, false)),
            ("new_name".to_string(), ty("c_char", TypeKind::Ref, false, false)),
            ("enabled".to_string(), prim("bool")),
        ],
        output: prim("()"),
    };
    let mut out = String::new();
    write_fn(&mut out, &f).unwrap();
    let expected = "\n    public void setName(String newName, boolean enabled) {\
                    \n        if (this.ptr == 0) {\
                    \n            throw new RuntimeException();\
                    \n        }\
                    \n        LiveSplitCoreNative.AllocatedBuf newName_Allocated = LiveSplitCoreNative.allocString(newName);\
                    \n        try {\
                    \n        LiveSplitCoreNative.INSTANCE.Widget_set_name(this.ptr, newName_Allocated.ptr, (byte)(enabled ? 1 : 0));\
                    \n        } finally {\
                    \n        newName_Allocated.dealloc();\
                    \n        }\
                    \n    }";
    assert_eq!(expected, out.as_str());
}

#[test]
fn owned_value_argument_is_invalidated_in_text() {
    let f = Function {
        name: "Widget_consume".to_string(),
        method: "consume".to_string(),
        comments: Vec::new(),
        inputs: vec![
            ("this".to_string(), ty("Widget", TypeKind::RefMut, true, false)),
            ("victim".to_string(), ty("Other", TypeKind::Value, true, false)),
        ],
        output: prim("()"),
    };
    let mut out = String::new();
    write_fn(&mut out, &f).unwrap();
    assert!(out.contains("\n        victim.ptr = 0;"));
    assert!(out.contains("if (victim.ptr == 0) {\n            throw new RuntimeException();\n        }"));
}

#[test]
fn ref_and_ref_mut_surfaces() {
    let mut class = empty_class();
    class.shared_fns.push(Function {
        name: "Widget_count".to_string(),
        method: "count".to_string(),
        comments: Vec::new(),
        inputs: vec![("this".to_string(), ty("Widget", TypeKind::Ref, true, false))],
        output: prim("u32"),
    });
    let mut out = String::new();
    write_class_ref(&mut out, "Widget", &class).unwrap();
    assert!(out.starts_with("package org.livesplit;\n"));
    assert!(out.contains("public class WidgetRef {\n    int ptr;"));
    assert!(out.contains("public int count() {"));
    assert!(out.contains("\n    WidgetRef(int ptr) {\n        this.ptr = ptr;\n    }\n}"));

    let mut out2 = String::new();
    write_class_ref_mut(&mut out2, "Widget", &class).unwrap();
    assert!(out2.contains("public class WidgetRefMut extends WidgetRef {"));
    assert!(out2.contains("\n    WidgetRefMut(int ptr) {\n        super(ptr);\n    }\n}"));
}

#[test]
fn backend_file_layout() {
    let classes = vec![("Widget".to_string(), widget_class())];
    let files = livesplit_core::java_wasm::write(&classes).unwrap();
    assert_eq!(files.len(), 4);
    assert_eq!(files[0].0.as_str(), "LiveSplitCoreNative.java");
    assert!(files[0].1.contains("public static AllocatedBuf allocString(String s)"));
    assert!(files[0].1.contains("static void Date_now(int ptr)"));
    assert_eq!(files[1].0.as_str(), "WidgetRef.java");
    assert_eq!(files[2].0.as_str(), "WidgetRefMut.java");
    assert_eq!(files[3].0.as_str(), "Widget.java");
    assert!(files[3].1.contains("public class Widget extends WidgetRefMut"));
}

#[test]
fn nullable_factory_surfaces_as_create() {
    let f = Function {
        name: "Widget_new".to_string(),
        method: "new".to_string(),
        comments: Vec::new(),
        inputs: Vec::new(),
        output: ty("Widget", TypeKind::Value, true, true),
    };
    let mut out = String::new();
    write_fn(&mut out, &f).unwrap();
    assert!(out.contains("\n    public static Widget create() {"));
    assert!(out.contains("Widget result = new Widget(LiveSplitCoreNative.INSTANCE.Widget_new());"));
    assert!(out.contains("if (result.ptr == 0) {\n            return null;\n        }"));
}

#[test]
fn buckets_partition_across_surfaces() {
    let mut class = widget_class();
    let this_ref = ("this".to_string(), ty("Widget", TypeKind::Ref, true, false));
    let this_mut = ("this".to_string(), ty("Widget", TypeKind::RefMut, true, false));
    let this_own = ("this".to_string(), ty("Widget", TypeKind::Value, true, false));
    class.shared_fns.push(Function {
        name: "Widget_peek".to_string(),
        method: "peek".to_string(),
        comments: Vec::new(),
        inputs: vec![this_ref],
        output: prim("u32"),
    });
    class.mut_fns.push(Function {
        name: "Widget_bump".to_string(),
        method: "bump".to_string(),
        comments: Vec::new(),
        inputs: vec![this_mut],
        output: prim("()"),
    });
    class.own_fns.push(Function {
        name: "Widget_into_other".to_string(),
        method: "into_other".to_string(),
        comments: Vec::new(),
        inputs: vec![this_own],
        output: ty("Other", TypeKind::Value, true, false),
    });
    let mut ref_out = String::new();
    write_class_ref(&mut ref_out, "Widget", &class).unwrap();
    let mut mut_out = String::new();
    write_class_ref_mut(&mut mut_out, "Widget", &class).unwrap();
    let mut own_out = String::new();
    write_class(&mut own_out, "Widget", &class).unwrap();
    // each function lands in exactly one of the three surfaces, once
    assert_eq!(ref_out.matches("Widget_peek(").count(), 1);
    assert_eq!(mut_out.matches("Widget_peek(").count(), 0);
    assert_eq!(own_out.matches("Widget_peek(").count(), 0);
    assert_eq!(mut_out.matches("Widget_bump(").count(), 1);
    assert_eq!(ref_out.matches("Widget_bump(").count(), 0);
    assert_eq!(own_out.matches("Widget_bump(").count(), 0);
    assert_eq!(own_out.matches("Widget_into_other(").count(), 1);
    assert_eq!(own_out.matches("Widget_new(").count(), 1);
    // the disposer appears only through the idempotent drop path
    assert_eq!(own_out.matches("Widget_drop(").count(), 1);
    assert!(own_out.contains("private void drop() {\n        if (ptr != 0) {"));
}

#[test]
fn u8_return_is_cast() {
    let f = Function {
        name: "Widget_kind".to_string(),
        method: "kind".to_string(),
        comments: Vec::new(),
        inputs: vec![("this".to_string(), ty("Widget", TypeKind::Ref, true, false))],
        output: prim("u8"),
    };
    let mut out = String::new();
    write_fn(&mut out, &f).unwrap();
    assert!(out.contains("byte result = (byte)LiveSplitCoreNative.INSTANCE.Widget_kind(this.ptr);"));
}

#[test]
fn bool_return_widened() {
    let f = Function {
        name: "Widget_is_empty".to_string(),
        method: "is_empty".to_string(),
        comments: Vec::new(),
        inputs: vec![("this".to_string(), ty("Widget", TypeKind::Ref, true, false))],
        output: prim("bool"),
    };
    let mut out = String::new();
    write_fn(&mut out, &f).unwrap();
    assert!(out.contains("boolean result = LiveSplitCoreNative.INSTANCE.Widget_is_empty(this.ptr) != 0;"));
}

#[test]
fn unmapped_primitive_fails_loudly() {
    let f = Function {
        name: "Widget_weird".to_string(),
        method: "weird".to_string(),
        comments: Vec::new(),
        inputs: vec![
            ("this".to_string(), ty("Widget", TypeKind::Ref, true, false)),
            ("x".to_string(), prim("i128")),
        ],
        output: prim("()"),
    };
    let mut out = String::from("existing");
    assert!(write_fn(&mut out, &f).is_err());
    assert_eq!(out.as_str(), "existing");

    let mut class = empty_class();
    class.shared_fns.push(f);
    let mut ref_out = String::new();
    assert!(write_class_ref(&mut ref_out, "Widget", &class).is_err());
    assert_eq!(ref_out.as_str(), "");

    let classes = vec![("Widget".to_string(), class)];
    assert!(livesplit_core::java_wasm::write(&classes).is_err());
}

#[test]
fn json_argument_released_on_every_exit_path() {
    let f = Function {
        name: "Widget_load".to_string(),
        method: "load".to_string(),
        comments: Vec::new(),
        inputs: vec![
            ("this".to_string(), ty("Widget", TypeKind::RefMut, true, false)),
            ("state".to_string(), prim("Json")),
        ],
        output: ty("Other", TypeKind::Value, true, true),
    };
    let mut out = String::new();
    write_fn(&mut out, &f).unwrap();
    // the buffer release stands in a finally block, after every return
    assert!(out.contains("try {\n        Other result = new Other("));
    assert!(out.contains(
        "\n        return result;\n        } finally {\n        state_Allocated.dealloc();\n        }\n    }"
    ));
}
