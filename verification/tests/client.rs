use zap::config::{Casing, Config, EvCall, EvDecl, EvSource, EvType, NumTy, Ty, TyDecl};
use zap::output::typescript::client::{code, ClientOutput};

fn ty(ts: &str) -> Ty {
    Ty { luau: "unused".to_string(), ts: ts.to_string(), ser: Vec::new(), des: Vec::new() }
}

fn event(name: &str, from: EvSource, call: EvCall, ts: &str) -> EvDecl {
    EvDecl { name: name.to_string(), from, evty: EvType::Reliable, call, data: ty(ts) }
}

fn config(evdecls: Vec<EvDecl>) -> Config {
    Config {
        tydecls: Vec::new(),
        evdecls,
        write_checks: true,
        typescript: true,
        manual_event_loop: false,
        casing: Casing::Camel,
        event_id_ty: NumTy::U8,
        runtime: "RUNTIME\n".to_string(),
    }
}

#[test]
fn no_surface_unless_asked_for() {
    let mut c = config(vec![event("A", EvSource::Client, EvCall::SingleSync, "number")]);
    c.typescript = false;
    assert_eq!(code(&c), None);
    c.typescript = true;
    assert!(code(&c).is_some());
}

#[test]
fn empty_schema_gives_an_empty_surface() {
    let mut c = config(Vec::new());
    assert_eq!(code(&c), Some(String::new()));
    c.manual_event_loop = true;
    c.tydecls.push(TyDecl { name: "T".to_string(), ty: ty("number") });
    assert_eq!(code(&c), Some(String::new()));
    assert_eq!(ClientOutput::new(&c).output(), "");
    c.typescript = false;
    assert_eq!(code(&c), None);
}

#[test]
fn client_surface() {
    let mut c = config(vec![
        event("Move", EvSource::Client, EvCall::SingleSync, "Pos"),
        event("Hit", EvSource::Server, EvCall::ManySync, "number"),
        event("Say", EvSource::Client, EvCall::ManyAsync, "string"),
        event("Tick", EvSource::Server, EvCall::SingleAsync, "undefined"),
    ]);
    c.tydecls.push(TyDecl { name: "Pos".to_string(), ty: ty("{ x: number }") });
    c.tydecls.push(TyDecl { name: "Id".to_string(), ty: ty("number") });
    let expected = [
        "// Client generated by Zap",
        "type Pos = { x: number }",
        "type Id = number",
        "",
        "export const Move: {",
        "\tfire: (value: Pos) => void",
        "};",
        "export const Say: {",
        "\tfire: (value: string) => void",
        "};",
        "export const Hit: {",
        "\ton: (callback: (value: number) => void) => void",
        "};",
        "export const Tick: {",
        "\tsetCallback: (callback: (value: undefined) => void) => void",
        "};",
        "",
    ]
    .join("\n");
    assert_eq!(code(&c), Some(expected));
}

#[test]
fn client_surface_with_manual_event_loop() {
    let mut c = config(vec![event("Hit", EvSource::Server, EvCall::SingleSync, "number")]);
    c.manual_event_loop = true;
    c.casing = Casing::Pascal;
    let expected = [
        "// Client generated by Zap",
        "export const SendEvents: () => void",
        "export const Hit: {",
        "\tSetCallback: (Callback: (Value: number) => void) => void",
        "};",
        "",
    ]
    .join("\n");
    assert_eq!(code(&c), Some(expected));

    c.casing = Casing::Snake;
    let expected = [
        "// Client generated by Zap",
        "export const send_events: () => void",
        "export const Hit: {",
        "\tset_callback: (callback: (value: number) => void) => void",
        "};",
        "",
    ]
    .join("\n");
    assert_eq!(code(&c), Some(expected));
}

#[test]
fn client_methods_compose() {
    let c = config(vec![
        event("Move", EvSource::Client, EvCall::SingleSync, "Pos"),
        event("Hit", EvSource::Server, EvCall::ManySync, "number"),
    ]);
    let mut out = ClientOutput::new(&c);
    out.push_return_listen();
    out.push_return();
    let expected = [
        "export const Hit: {",
        "\ton: (callback: (value: number) => void) => void",
        "};",
        "export const Move: {",
        "\tfire: (value: Pos) => void",
        "};",
        "export const Hit: {",
        "\ton: (callback: (value: number) => void) => void",
        "};",
        "// Client generated by Zap",
        "export const Move: {",
        "\tfire: (value: Pos) => void",
        "};",
        "export const Hit: {",
        "\ton: (callback: (value: number) => void) => void",
        "};",
        "",
    ]
    .join("\n");
    assert_eq!(out.output(), expected);
}
