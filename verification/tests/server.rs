use zap::config::{Casing, Config, EvCall, EvDecl, EvSource, EvType, NumTy, Stmt, Ty, TyDecl};
use zap::output::luau::server::{code, ServerOutput};

// `$` marks the places where the name of the value goes
fn stmt(depth: u32, check: bool, text: &str) -> Stmt {
    Stmt { depth, check, parts: text.split('$').map(|p| p.to_string()).collect() }
}

fn number() -> Ty {
    Ty {
        luau: "number".to_string(),
        ts: "number".to_string(),
        ser: vec![
            stmt(0, true, "assert($ >= 0)"),
            stmt(0, false, "local pos = alloc(1)"),
            stmt(0, false, "buffer.writeu8(outgoing_buff, pos, $)"),
        ],
        des: vec![stmt(0, false, "$ = buffer.readu8(incoming_buff, read(1))")],
    }
}

fn event(name: &str, from: EvSource, evty: EvType, call: EvCall) -> EvDecl {
    EvDecl { name: name.to_string(), from, evty, call, data: number() }
}

fn config(evdecls: Vec<EvDecl>) -> Config {
    Config {
        tydecls: Vec::new(),
        evdecls,
        write_checks: true,
        typescript: true,
        manual_event_loop: false,
        casing: Casing::Snake,
        event_id_ty: NumTy::U8,
        runtime: "RUNTIME\n".to_string(),
    }
}

fn text(lines: &[&str]) -> String {
    let mut s = String::new();
    for l in lines {
        s.push_str(l);
        s.push('\n');
    }
    s
}

const EVENT_LOOP: [&str; 17] = [
    "",
    "RunService.Heartbeat:Connect(function()",
    "\tfor player, outgoing in player_map do",
    "\t\tif outgoing.used > 0 then",
    "\t\t\tlocal buff = buffer.create(outgoing.used)",
    "\t\t\tbuffer.copy(buff, 0, outgoing.buff, 0, outgoing.used)",
    "",
    "\t\t\treliable:FireClient(player, buff, outgoing.inst)",
    "",
    "\t\t\toutgoing.buff = buffer.create(64)",
    "\t\t\toutgoing.used = 0",
    "\t\t\toutgoing.size = 64",
    "\t\t\ttable.clear(outgoing.inst)",
    "\t\tend",
    "\tend",
    "end)",
    "",
];

#[test]
fn empty_schema_gives_nothing() {
    let c = config(Vec::new());
    assert_eq!(code(&c), "");
}

#[test]
fn empty_schema_ignores_types_and_runtime() {
    let mut c = config(Vec::new());
    c.tydecls.push(TyDecl { name: "T".to_string(), ty: number() });
    c.manual_event_loop = true;
    assert_eq!(code(&c), "");
    assert_eq!(ServerOutput::new(&c).output(), "");
}

#[test]
fn one_event_is_enough_for_a_module() {
    let c = config(vec![event("A", EvSource::Server, EvType::Reliable, EvCall::SingleSync)]);
    assert!(code(&c).starts_with("-- Server generated by Zap\nRUNTIME\n\n"));
}

#[test]
fn a_value_is_validated_before_the_id_is_written() {
    let mut c = config(vec![
        event("R", EvSource::Server, EvType::Reliable, EvCall::SingleSync),
        event("U", EvSource::Server, EvType::Unreliable, EvCall::SingleSync),
    ]);
    for ev in c.evdecls.iter_mut() {
        ev.data.ser = vec![
            stmt(0, false, "local pos = alloc(1)"),
            stmt(0, true, "if $ < 0 then"),
            stmt(1, true, "error(\"negative\")"),
            stmt(0, true, "end"),
            stmt(0, false, "buffer.writeu8(outgoing_buff, pos, $)"),
            stmt(0, true, "assert($ < 256)"),
        ];
    }
    let out = code(&c);
    for id in [1, 2] {
        let encode = format!(
            "\t\t\tif value < 0 then\n\t\t\t\terror(\"negative\")\n\t\t\tend\n\t\t\tassert(value < 256)\n\t\t\tlocal pos = alloc(1)\n\t\t\tbuffer.writeu8(outgoing_buff, pos, {id})\n\t\t\tlocal pos = alloc(1)\n\t\t\tbuffer.writeu8(outgoing_buff, pos, value)\n"
        );
        assert_eq!(out.matches(&encode).count(), 4);
    }
    // the state of the peer is loaded before, and saved after
    assert!(out.contains("\t\t\tload_player(player)\n\t\t\tif value < 0 then\n"));
    assert!(out.contains(
        "\t\t\tbuffer.writeu8(outgoing_buff, pos, value)\n\t\t\tplayer_map[player] = save()\n"
    ));
    // no validating statement stands behind a write
    assert_eq!(out.matches("assert(value < 256)").count(), 8);
    assert!(!out.contains("pos, value)\n\t\t\tassert(value < 256)"));
    assert!(!out.contains("alloc(1)\n\t\t\tif value < 0 then"));

    c.write_checks = false;
    let out = code(&c);
    assert!(!out.contains("value < 0"));
    assert!(!out.contains("assert("));
    assert_eq!(
        out.matches(
            "\t\t\tlocal pos = alloc(1)\n\t\t\tbuffer.writeu8(outgoing_buff, pos, 1)\n\t\t\tlocal pos = alloc(1)\n\t\t\tbuffer.writeu8(outgoing_buff, pos, value)\n"
        )
        .count(),
        4
    );
}

#[test]
fn a_writer_validates_before_it_writes() {
    let mut c = config(vec![event("A", EvSource::Server, EvType::Reliable, EvCall::SingleSync)]);
    c.tydecls.push(TyDecl {
        name: "Pair".to_string(),
        ty: Ty {
            luau: "{ a: number, b: number }".to_string(),
            ts: "{ a: number, b: number }".to_string(),
            ser: vec![
                stmt(0, true, "assert($.a >= 0)"),
                stmt(0, false, "buffer.writeu8(outgoing_buff, alloc(1), $.a)"),
                stmt(0, true, "assert($.b >= 0)"),
                stmt(0, false, "buffer.writeu8(outgoing_buff, alloc(1), $.b)"),
            ],
            des: Vec::new(),
        },
    });
    let out = code(&c);
    assert!(out.contains(&text(&[
        "function types.write_Pair(value: Pair)",
        "\tassert(value.a >= 0)",
        "\tassert(value.b >= 0)",
        "\tbuffer.writeu8(outgoing_buff, alloc(1), value.a)",
        "\tbuffer.writeu8(outgoing_buff, alloc(1), value.b)",
        "end",
    ])));
}

#[test]
fn decode_loops_and_registry() {
    let c = config(vec![
        event("A", EvSource::Client, EvType::Reliable, EvCall::SingleSync),
        event("B", EvSource::Client, EvType::Reliable, EvCall::ManyAsync),
        event("C", EvSource::Client, EvType::Unreliable, EvCall::ManySync),
        event("D", EvSource::Client, EvType::Unreliable, EvCall::SingleAsync),
    ]);
    let mut expected = String::new();
    expected.push_str("-- Server generated by Zap\nRUNTIME\n");
    expected.push_str(&text(&EVENT_LOOP));
    expected.push_str(&text(&[
        "local events = table.create(4)",
        "events[2] = {}",
        "events[3] = {}",
        "reliable.OnServerEvent:Connect(function(player, buff, inst)",
        "\tincoming_buff = buff",
        "\tincoming_inst = inst",
        "\tincoming_read = 0",
        "\tincoming_ipos = 0",
        "\tlocal len = buffer.len(buff)",
        "\twhile incoming_read < len do",
        "\t\tlocal id = buffer.readu8(buff, read(1))",
        "\t\tif id == 1 then",
        "\t\t\tlocal value",
        "\t\t\tvalue = buffer.readu8(incoming_buff, read(1))",
        "\t\t\tif events[1] then",
        "\t\t\t\tevents[1](player, value)",
        "\t\t\tend",
        "\t\telseif id == 2 then",
        "\t\t\tlocal value",
        "\t\t\tvalue = buffer.readu8(incoming_buff, read(1))",
        "\t\t\tfor _, cb in events[2] do",
        "\t\t\t\ttask.spawn(cb, player, value)",
        "\t\t\tend",
        "\t\telse",
        "\t\t\terror(\"Unknown event id\")",
        "\t\tend",
        "\tend",
        "end)",
        "unreliable.OnServerEvent:Connect(function(player, buff, inst)",
        "\tincoming_buff = buff",
        "\tincoming_inst = inst",
        "\tincoming_read = 0",
        "\tincoming_ipos = 0",
        "\tlocal id = buffer.readu8(buff, read(1))",
        "\tif id == 3 then",
        "\t\tlocal value",
        "\t\tvalue = buffer.readu8(incoming_buff, read(1))",
        "\t\tfor _, cb in events[3] do",
        "\t\t\tcb(player, value)",
        "\t\tend",
        "\telseif id == 4 then",
        "\t\tlocal value",
        "\t\tvalue = buffer.readu8(incoming_buff, read(1))",
        "\t\tif events[4] then",
        "\t\t\ttask.spawn(events[4], player, value)",
        "\t\tend",
        "\telse",
        "\t\terror(\"Unknown event id\")",
        "\tend",
        "end)",
        "return {",
        "\tA = {",
        "\t\tset_callback = function(callback: (Player, number) -> ())",
        "\t\t\tevents[1] = callback",
        "\t\tend,",
        "\t},",
        "\tB = {",
        "\t\ton = function(callback: (Player, number) -> ())",
        "\t\t\ttable.insert(events[2], callback)",
        "\t\tend,",
        "\t},",
        "\tC = {",
        "\t\ton = function(callback: (Player, number) -> ())",
        "\t\t\ttable.insert(events[3], callback)",
        "\t\tend,",
        "\t},",
        "\tD = {",
        "\t\tset_callback = function(callback: (Player, number) -> ())",
        "\t\t\tevents[4] = callback",
        "\t\tend,",
        "\t},",
        "}",
    ]));
    assert_eq!(code(&c), expected);
}

#[test]
fn reliable_send_operations() {
    let mut c = config(vec![event("Hit", EvSource::Server, EvType::Reliable, EvCall::ManySync)]);
    c.casing = Casing::Camel;
    let mut expected = String::new();
    expected.push_str("-- Server generated by Zap\nRUNTIME\n");
    expected.push_str(&text(&EVENT_LOOP));
    expected.push_str(&text(&[
        "local events = table.create(1)",
        "return {",
        "\tHit = {",
        "\t\tfire = function(player: Player, value: number)",
        "\t\t\tload_player(player)",
        "\t\t\tassert(value >= 0)",
        "\t\t\tlocal pos = alloc(1)",
        "\t\t\tbuffer.writeu8(outgoing_buff, pos, 1)",
        "\t\t\tlocal pos = alloc(1)",
        "\t\t\tbuffer.writeu8(outgoing_buff, pos, value)",
        "\t\t\tplayer_map[player] = save()",
        "\t\tend,",
        "\t\tfireAll = function(value: number)",
        "\t\t\tload_empty()",
        "\t\t\tassert(value >= 0)",
        "\t\t\tlocal pos = alloc(1)",
        "\t\t\tbuffer.writeu8(outgoing_buff, pos, 1)",
        "\t\t\tlocal pos = alloc(1)",
        "\t\t\tbuffer.writeu8(outgoing_buff, pos, value)",
        "\t\t\tlocal buff, used, inst = outgoing_buff, outgoing_used, outgoing_inst",
        "\t\t\tfor _, player in Players:GetPlayers() do",
        "\t\t\t\tload_player(player)",
        "\t\t\t\talloc(used)",
        "\t\t\t\tbuffer.copy(outgoing_buff, outgoing_apos, buff, 0, used)",
        "\t\t\t\ttable.move(inst, 1, #inst, #outgoing_inst + 1, outgoing_inst)",
        "\t\t\t\tplayer_map[player] = save()",
        "\t\t\tend",
        "\t\tend,",
        "\t\tfireExcept = function(except: Player, value: number)",
        "\t\t\tload_empty()",
        "\t\t\tassert(value >= 0)",
        "\t\t\tlocal pos = alloc(1)",
        "\t\t\tbuffer.writeu8(outgoing_buff, pos, 1)",
        "\t\t\tlocal pos = alloc(1)",
        "\t\t\tbuffer.writeu8(outgoing_buff, pos, value)",
        "\t\t\tlocal buff, used, inst = outgoing_buff, outgoing_used, outgoing_inst",
        "\t\t\tfor _, player in Players:GetPlayers() do",
        "\t\t\t\tif player ~= except then",
        "\t\t\t\t\tload_player(player)",
        "\t\t\t\t\talloc(used)",
        "\t\t\t\t\tbuffer.copy(outgoing_buff, outgoing_apos, buff, 0, used)",
        "\t\t\t\t\ttable.move(inst, 1, #inst, #outgoing_inst + 1, outgoing_inst)",
        "\t\t\t\t\tplayer_map[player] = save()",
        "\t\t\t\tend",
        "\t\t\tend",
        "\t\tend,",
        "\t\tfireList = function(list: { Player }, value: number)",
        "\t\t\tload_empty()",
        "\t\t\tassert(value >= 0)",
        "\t\t\tlocal pos = alloc(1)",
        "\t\t\tbuffer.writeu8(outgoing_buff, pos, 1)",
        "\t\t\tlocal pos = alloc(1)",
        "\t\t\tbuffer.writeu8(outgoing_buff, pos, value)",
        "\t\t\tlocal buff, used, inst = outgoing_buff, outgoing_used, outgoing_inst",
        "\t\t\tfor _, player in list do",
        "\t\t\t\tload_player(player)",
        "\t\t\t\talloc(used)",
        "\t\t\t\tbuffer.copy(outgoing_buff, outgoing_apos, buff, 0, used)",
        "\t\t\t\ttable.move(inst, 1, #inst, #outgoing_inst + 1, outgoing_inst)",
        "\t\t\t\tplayer_map[player] = save()",
        "\t\t\tend",
        "\t\tend,",
        "\t},",
        "}",
    ]));
    assert_eq!(code(&c), expected);
}

#[test]
fn unreliable_send_operations() {
    let mut c = config(vec![event("Tick", EvSource::Server, EvType::Unreliable, EvCall::SingleSync)]);
    c.casing = Casing::Pascal;
    c.write_checks = false;
    let mut expected = String::new();
    expected.push_str("-- Server generated by Zap\nRUNTIME\n");
    expected.push_str(&text(&EVENT_LOOP));
    expected.push_str(&text(&[
        "local events = table.create(1)",
        "return {",
        "\tTick = {",
        "\t\tFire = function(Player: Player, Value: number)",
        "\t\t\tload_empty()",
        "\t\t\tlocal pos = alloc(1)",
        "\t\t\tbuffer.writeu8(outgoing_buff, pos, 1)",
        "\t\t\tlocal pos = alloc(1)",
        "\t\t\tbuffer.writeu8(outgoing_buff, pos, Value)",
        "\t\t\tlocal buff = buffer.create(outgoing_used)",
        "\t\t\tbuffer.copy(buff, 0, outgoing_buff, 0, outgoing_used)",
        "\t\t\tunreliable:FireClient(Player, buff, outgoing_inst)",
        "\t\tend,",
        "\t\tFireAll = function(Value: number)",
        "\t\t\tload_empty()",
        "\t\t\tlocal pos = alloc(1)",
        "\t\t\tbuffer.writeu8(outgoing_buff, pos, 1)",
        "\t\t\tlocal pos = alloc(1)",
        "\t\t\tbuffer.writeu8(outgoing_buff, pos, Value)",
        "\t\t\tlocal buff = buffer.create(outgoing_used)",
        "\t\t\tbuffer.copy(buff, 0, outgoing_buff, 0, outgoing_used)",
        "\t\t\tunreliable:FireAllClients(buff, outgoing_inst)",
        "\t\tend,",
        "\t\tFireExcept = function(Except: Player, Value: number)",
        "\t\t\tload_empty()",
        "\t\t\tlocal pos = alloc(1)",
        "\t\t\tbuffer.writeu8(outgoing_buff, pos, 1)",
        "\t\t\tlocal pos = alloc(1)",
        "\t\t\tbuffer.writeu8(outgoing_buff, pos, Value)",
        "\t\t\tlocal buff = buffer.create(outgoing_used)",
        "\t\t\tbuffer.copy(buff, 0, outgoing_buff, 0, outgoing_used)",
        "\t\t\tfor _, player in Players:GetPlayers() do",
        "\t\t\t\tif player ~= Except then",
        "\t\t\t\t\tunreliable:FireClient(player, buff, outgoing_inst)",
        "\t\t\t\tend",
        "\t\t\tend",
        "\t\tend,",
        "\t\tFireList = function(List: { Player }, Value: number)",
        "\t\t\tload_empty()",
        "\t\t\tlocal pos = alloc(1)",
        "\t\t\tbuffer.writeu8(outgoing_buff, pos, 1)",
        "\t\t\tlocal pos = alloc(1)",
        "\t\t\tbuffer.writeu8(outgoing_buff, pos, Value)",
        "\t\t\tlocal buff = buffer.create(outgoing_used)",
        "\t\t\tbuffer.copy(buff, 0, outgoing_buff, 0, outgoing_used)",
        "\t\t\tfor _, player in List do",
        "\t\t\t\tunreliable:FireClient(player, buff, outgoing_inst)",
        "\t\t\tend",
        "\t\tend,",
        "\t},",
        "}",
    ]));
    assert_eq!(code(&c), expected);
}

#[test]
fn named_types_get_writer_and_reader() {
    let mut c = config(vec![event("A", EvSource::Server, EvType::Reliable, EvCall::SingleSync)]);
    c.write_checks = false;
    c.tydecls.push(TyDecl {
        name: "Pos".to_string(),
        ty: Ty {
            luau: "{ x: number }".to_string(),
            ts: "{ x: number }".to_string(),
            ser: vec![
                stmt(0, true, "if $.x < 0 then"),
                stmt(1, true, "error(\"x is negative\")"),
                stmt(0, true, "end"),
                stmt(0, false, "local pos = alloc(1)"),
                stmt(0, false, "buffer.writeu8(outgoing_buff, pos, $.x)"),
            ],
            des: vec![
                stmt(0, false, "$ = {}"),
                stmt(0, true, "if incoming_read >= 1024 then"),
                stmt(1, true, "error(\"too long\")"),
                stmt(0, true, "end"),
                stmt(0, false, "$.x = buffer.readu8(incoming_buff, read(1))"),
            ],
        },
    });
    let out = code(&c);
    let expected = text(&[
        "export type Pos = { x: number }",
        "function types.write_Pos(value: Pos)",
        "\tlocal pos = alloc(1)",
        "\tbuffer.writeu8(outgoing_buff, pos, value.x)",
        "end",
        "function types.read_Pos()",
        "\tlocal value;",
        "\tvalue = {}",
        "\tif incoming_read >= 1024 then",
        "\t\terror(\"too long\")",
        "\tend",
        "\tvalue.x = buffer.readu8(incoming_buff, read(1))",
        "\treturn value",
        "end",
        "",
        "RunService.Heartbeat:Connect(function()",
    ]);
    assert!(out.starts_with(&format!("-- Server generated by Zap\nRUNTIME\n{}", expected)));

    c.write_checks = true;
    let out = code(&c);
    assert!(out.contains(&text(&[
        "function types.write_Pos(value: Pos)",
        "\tif value.x < 0 then",
        "\t\terror(\"x is negative\")",
        "\tend",
        "\tlocal pos = alloc(1)",
    ])));
}

#[test]
fn manual_event_loop_is_a_function_of_the_module() {
    let mut c = config(vec![event("A", EvSource::Client, EvType::Reliable, EvCall::SingleSync)]);
    c.manual_event_loop = true;
    for (casing, name) in [
        (Casing::Pascal, "SendEvents"),
        (Casing::Camel, "sendEvents"),
        (Casing::Snake, "send_events"),
    ] {
        c.casing = casing;
        let out = code(&c);
        assert!(out.contains(&format!(
            "RUNTIME\n\nlocal function {name}()\n\tfor player, outgoing in player_map do\n"
        )));
        assert!(out.contains("\t\tend\n\tend\nend\n\nlocal events = table.create(1)\n"));
        assert!(out.contains(&format!("return {{\n\t{name} = {name},\n\tA = {{\n")));
        assert!(!out.contains("RunService.Heartbeat"));
    }
}

#[test]
fn ids_follow_declaration_order() {
    // [A, B, C] have the ids 1, 2, 3, whatever their directions and channels.
    let directions = [
        [EvSource::Client, EvSource::Client, EvSource::Client],
        [EvSource::Client, EvSource::Server, EvSource::Client],
        [EvSource::Server, EvSource::Client, EvSource::Server],
        [EvSource::Server, EvSource::Server, EvSource::Server],
    ];
    for from in directions {
        for evty in [EvType::Reliable, EvType::Unreliable] {
            let c = config(vec![
                event("A", from[0], evty, EvCall::SingleSync),
                event("B", from[1], evty, EvCall::SingleSync),
                event("C", from[2], evty, EvCall::SingleSync),
            ]);
            let out = code(&c);
            for (i, name) in ["A", "B", "C"].iter().enumerate() {
                let id = i + 1;
                match from[i] {
                    EvSource::Client => {
                        assert!(out.contains(&format!("id == {id} then\n")));
                        assert!(out.contains(&format!(
                            "\t{name} = {{\n\t\tset_callback = function(callback: (Player, number) -> ())\n\t\t\tevents[{id}] = callback\n"
                        )));
                    }
                    EvSource::Server => {
                        assert!(!out.contains(&format!("id == {id} then\n")));
                        assert!(out.contains(&format!(
                            "\t{name} = {{\n\t\tfire = function(player: Player, value: number)\n"
                        )));
                        assert_eq!(
                            out.matches(&format!("buffer.writeu8(outgoing_buff, pos, {id})\n"))
                                .count(),
                            4
                        );
                    }
                }
            }
        }
    }
}

#[test]
fn direction_partitioning() {
    let c = config(vec![
        event("A", EvSource::Client, EvType::Reliable, EvCall::SingleSync),
        event("B", EvSource::Server, EvType::Reliable, EvCall::SingleSync),
        event("C", EvSource::Client, EvType::Unreliable, EvCall::SingleSync),
    ]);
    let out = code(&c);
    let reliable = out.find("reliable.OnServerEvent").unwrap();
    let unreliable = out.find("unreliable.OnServerEvent").unwrap();
    let surface = out.find("return {").unwrap();
    assert!(reliable < unreliable && unreliable < surface);
    let reliable_loop = &out[reliable..unreliable];
    let unreliable_loop = &out[unreliable..surface];
    assert!(reliable_loop.contains("\t\tif id == 1 then\n"));
    assert!(!reliable_loop.contains("id == 2"));
    assert!(!reliable_loop.contains("id == 3"));
    assert!(unreliable_loop.contains("\tif id == 3 then\n"));
    assert!(!unreliable_loop.contains("id == 1"));
    assert!(!unreliable_loop.contains("id == 2"));
    let api = &out[surface..];
    assert!(api.contains("\tB = {\n\t\tfire = function("));
    assert!(!api.contains("\tA = {\n\t\tfire = function("));
    assert!(!api.contains("\tC = {\n\t\tfire = function("));
    assert!(!api.contains("\tB = {\n\t\tset_callback"));
}

#[test]
fn every_decode_loop_fails_on_an_unknown_id() {
    let c = config(vec![
        event("A", EvSource::Client, EvType::Reliable, EvCall::SingleSync),
        event("C", EvSource::Client, EvType::Unreliable, EvCall::SingleSync),
    ]);
    let out = code(&c);
    assert!(out.contains(
        "\t\t\tend\n\t\telse\n\t\t\terror(\"Unknown event id\")\n\t\tend\n\tend\nend)\n"
    ));
    assert!(out.contains("\t\tend\n\telse\n\t\terror(\"Unknown event id\")\n\tend\nend)\n"));
    assert_eq!(out.matches("error(\"Unknown event id\")").count(), 2);
}

#[test]
fn decode_loop_is_left_out_where_nothing_arrives() {
    let only_reliable =
        config(vec![event("A", EvSource::Client, EvType::Reliable, EvCall::SingleSync)]);
    let out = code(&only_reliable);
    assert!(out.contains("\nreliable.OnServerEvent"));
    assert!(!out.contains("unreliable.OnServerEvent"));

    let only_unreliable =
        config(vec![event("A", EvSource::Client, EvType::Unreliable, EvCall::SingleSync)]);
    let out = code(&only_unreliable);
    assert!(!out.contains("\nreliable.OnServerEvent"));
    assert!(out.contains("\nunreliable.OnServerEvent"));

    let only_outgoing =
        config(vec![event("A", EvSource::Server, EvType::Reliable, EvCall::SingleSync)]);
    let out = code(&only_outgoing);
    assert!(!out.contains("OnServerEvent"));
    assert!(!out.contains("Unknown event id"));
}

#[test]
fn id_width_is_the_same_on_read_and_write() {
    for (ty, name, size) in [(NumTy::U8, "u8", 1), (NumTy::U16, "u16", 2), (NumTy::U32, "u32", 4)]
    {
        let mut c = config(vec![
            event("A", EvSource::Client, EvType::Reliable, EvCall::SingleSync),
            event("B", EvSource::Client, EvType::Unreliable, EvCall::SingleSync),
            event("C", EvSource::Server, EvType::Reliable, EvCall::SingleSync),
        ]);
        c.event_id_ty = ty;
        let out = code(&c);
        assert_eq!(
            out.matches(&format!("local id = buffer.read{name}(buff, read({size}))\n")).count(),
            2
        );
        assert_eq!(
            out.matches(&format!(
                "local pos = alloc({size})\n\t\t\tbuffer.write{name}(outgoing_buff, pos, 3)\n"
            ))
            .count(),
            4
        );
    }
}

#[test]
fn ids_with_several_digits() {
    let mut evdecls = Vec::new();
    for i in 0..120 {
        evdecls.push(event(
            &format!("E{i}"),
            if i % 2 == 0 { EvSource::Client } else { EvSource::Server },
            EvType::Reliable,
            EvCall::ManySync,
        ));
    }
    let out = code(&config(evdecls));
    assert!(out.contains("local events = table.create(120)\n"));
    assert!(out.contains("events[119] = {}\n"));
    assert!(!out.contains("events[120] = {}\n"));
    assert!(out.contains("\t\tif id == 1 then\n"));
    assert!(out.contains("\t\telseif id == 101 then\n"));
    assert!(out.contains("\t\telseif id == 119 then\n"));
    assert!(out.contains("\tE99 = {\n\t\tfire = function("));
    assert!(out.contains("buffer.writeu8(outgoing_buff, pos, 100)\n"));
    assert!(out.contains("buffer.writeu8(outgoing_buff, pos, 120)\n"));
    assert!(out.contains("\t\t\ttable.insert(events[11], callback)\n"));
}

#[test]
fn generator_methods_compose() {
    let c = config(vec![
        event("A", EvSource::Client, EvType::Reliable, EvCall::SingleSync),
        event("B", EvSource::Server, EvType::Reliable, EvCall::SingleSync),
    ]);
    let mut listen = ServerOutput::new(&c);
    listen.push_return_listen();
    let listen = listen.output();
    let expected = text(&[
        "A = {",
        "\tset_callback = function(callback: (Player, number) -> ())",
        "\t\tevents[1] = callback",
        "\tend,",
        "},",
        "-- Server generated by Zap",
    ]);
    assert!(listen.starts_with(&expected));

    let mut ret = ServerOutput::new(&c);
    ret.push_return();
    let ret = ret.output();
    assert!(ret.starts_with("return {\n\tB = {\n\t\tfire = function(player: Player, value: number)\n"));
    assert!(ret.contains(
        "\t},\n\tA = {\n\t\tset_callback = function(callback: (Player, number) -> ())\n\t\t\tevents[1] = callback\n\t\tend,\n\t},\n}\n-- Server generated by Zap\n"
    ));
    assert!(ret.ends_with(&code(&c)));
}

#[test]
fn generation_is_deterministic() {
    let c = config(vec![
        event("A", EvSource::Client, EvType::Reliable, EvCall::SingleSync),
        event("B", EvSource::Server, EvType::Unreliable, EvCall::ManyAsync),
    ]);
    assert_eq!(code(&c), code(&c));
    assert_eq!(code(&c), code(&c.clone()));
}

#[test]
fn statements_name_the_value_as_the_parameter_does() {
    let mut c = config(vec![
        event("In", EvSource::Client, EvType::Reliable, EvCall::SingleSync),
        event("Out", EvSource::Server, EvType::Reliable, EvCall::SingleSync),
    ]);
    c.tydecls.push(TyDecl { name: "N".to_string(), ty: number() });
    for (casing, name) in
        [(Casing::Pascal, "Value"), (Casing::Camel, "value"), (Casing::Snake, "value")]
    {
        c.casing = casing;
        let out = code(&c);
        // in a send, the name of the parameter
        assert_eq!(out.matches(&format!("({name}: number)\n")).count(), 1);
        assert_eq!(out.matches(&format!(", {name}: number)\n")).count(), 3);
        assert_eq!(out.matches(&format!("\t\t\tassert({name} >= 0)\n")).count(), 4);
        assert_eq!(
            out.matches(&format!("\t\t\tbuffer.writeu8(outgoing_buff, pos, {name})\n")).count(),
            4
        );
        // in a writer, a reader and a decode loop, `value`
        assert!(out.contains(
            "function types.write_N(value: N)\n\tassert(value >= 0)\n\tlocal pos = alloc(1)\n\tbuffer.writeu8(outgoing_buff, pos, value)\nend\n"
        ));
        assert!(out.contains(
            "\tlocal value;\n\tvalue = buffer.readu8(incoming_buff, read(1))\n\treturn value\n"
        ));
        assert!(out.contains(
            "\t\t\tlocal value\n\t\t\tvalue = buffer.readu8(incoming_buff, read(1))\n"
        ));
    }
}

#[test]
fn each_step_can_be_taken_on_its_own() {
    let c = config(vec![
        event("A", EvSource::Client, EvType::Reliable, EvCall::ManySync),
        event("B", EvSource::Server, EvType::Unreliable, EvCall::SingleSync),
        event("C", EvSource::Client, EvType::Reliable, EvCall::SingleAsync),
    ]);
    let module = code(&c);

    let mut out = ServerOutput::new(&c);
    out.push_reliable();
    let expected = text(&[
        "reliable.OnServerEvent:Connect(function(player, buff, inst)",
        "\tincoming_buff = buff",
        "\tincoming_inst = inst",
        "\tincoming_read = 0",
        "\tincoming_ipos = 0",
        "\tlocal len = buffer.len(buff)",
        "\twhile incoming_read < len do",
        "\t\tlocal id = buffer.readu8(buff, read(1))",
        "\t\tif id == 1 then",
        "\t\t\tlocal value",
        "\t\t\tvalue = buffer.readu8(incoming_buff, read(1))",
        "\t\t\tfor _, cb in events[1] do",
        "\t\t\t\tcb(player, value)",
        "\t\t\tend",
        "\t\telseif id == 3 then",
        "\t\t\tlocal value",
        "\t\t\tvalue = buffer.readu8(incoming_buff, read(1))",
        "\t\t\tif events[3] then",
        "\t\t\t\ttask.spawn(events[3], player, value)",
        "\t\t\tend",
        "\t\telse",
        "\t\t\terror(\"Unknown event id\")",
        "\t\tend",
        "\tend",
        "end)",
    ]);
    assert_eq!(out.output(), format!("{expected}{module}"));

    let mut out = ServerOutput::new(&c);
    out.push_unreliable();
    let expected = text(&[
        "unreliable.OnServerEvent:Connect(function(player, buff, inst)",
        "\tincoming_buff = buff",
        "\tincoming_inst = inst",
        "\tincoming_read = 0",
        "\tincoming_ipos = 0",
        "\tlocal id = buffer.readu8(buff, read(1))",
        "\telse",
        "\t\terror(\"Unknown event id\")",
        "\tend",
        "end)",
    ]);
    assert_eq!(out.output(), format!("{expected}{module}"));

    let mut out = ServerOutput::new(&c);
    out.push_callback_lists();
    out.push_return_setcallback(&c.evdecls[2], 3);
    out.push_return_on(&c.evdecls[0], 1);
    out.push_write_event_id(2);
    out.push_encode(&c.evdecls[1], 2);
    out.push_packet();
    out.push_enqueue();
    out.push_unknown_id();
    let expected = text(&[
        "local events = table.create(3)",
        "events[1] = {}",
        "set_callback = function(callback: (Player, number) -> ())",
        "\tevents[3] = callback",
        "end,",
        "on = function(callback: (Player, number) -> ())",
        "\ttable.insert(events[1], callback)",
        "end,",
        "local pos = alloc(1)",
        "buffer.writeu8(outgoing_buff, pos, 2)",
        "assert(value >= 0)",
        "local pos = alloc(1)",
        "buffer.writeu8(outgoing_buff, pos, 2)",
        "local pos = alloc(1)",
        "buffer.writeu8(outgoing_buff, pos, value)",
        "local buff = buffer.create(outgoing_used)",
        "buffer.copy(buff, 0, outgoing_buff, 0, outgoing_used)",
        "load_player(player)",
        "alloc(used)",
        "buffer.copy(outgoing_buff, outgoing_apos, buff, 0, used)",
        "table.move(inst, 1, #inst, #outgoing_inst + 1, outgoing_inst)",
        "player_map[player] = save()",
        "else",
        "\terror(\"Unknown event id\")",
        "end",
    ]);
    assert_eq!(out.output(), format!("{expected}{module}"));

    let mut out = ServerOutput::new(&c);
    out.push_return_outgoing();
    let got = out.output();
    assert!(got.starts_with("B = {\n\tfire = function(player: Player, value: number)\n\t\tload_empty()\n\t\tassert(value >= 0)\n\t\tlocal pos = alloc(1)\n\t\tbuffer.writeu8(outgoing_buff, pos, 2)\n"));
    assert!(got.ends_with(&format!("\tend,\n}},\n{module}")));
    assert_eq!(got.matches("buffer.writeu8(outgoing_buff, pos, 2)\n").count(), 8);
}
