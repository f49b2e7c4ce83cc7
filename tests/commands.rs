use std::sync::Arc;
use wxwork_robot::command::{
    get_command_description, parse_http_method, parse_output_type, WXWorkCommand,
    WXWorkCommandData, WXWorkCommandHttpMethod, WXWorkCommandMatch, WXWorkCommandPtr,
    WXWorkCommandSpawnOutputType,
};
use wxwork_robot::env::merge_envs;
use wxwork_robot::json::Json;
use wxwork_robot::text::{to_env_text, to_field_text};

fn s(x: &str) -> Json {
    Json::Str(x.to_string())
}

fn num(x: &str) -> Json {
    Json::Number(x.to_string())
}

fn obj(entries: Vec<(&str, Json)>) -> Json {
    Json::Object(entries.into_iter().map(|(k, v)| (k.to_string(), v)).collect())
}

fn get<'a>(j: &'a Json, key: &str) -> Option<&'a Json> {
    match j {
        Json::Object(e) => e.iter().rev().find(|(k, _)| k == key).map(|(_, v)| v),
        _ => None,
    }
}

fn env_value(m: &WXWorkCommandMatch, key: &str) -> Option<String> {
    match get(m.ref_json(), key) {
        Some(Json::Str(v)) => Some(v.clone()),
        _ => None,
    }
}

fn names(cmds: &[WXWorkCommandPtr]) -> Vec<String> {
    cmds.iter().map(|c| (*c.name()).clone()).collect()
}

fn text(x: &str) -> Option<Arc<String>> {
    Some(Arc::new(x.to_string()))
}

#[test]
fn missing_type_is_left_out() {
    let table = obj(vec![
        ("a", obj(vec![("echo", s("x"))])),
        ("b", obj(vec![("type", s("echo"))])),
        ("c", obj(vec![("type", s("help"))])),
    ]);
    let cmds = WXWorkCommand::parse(&table);
    assert_eq!(names(&cmds), vec!["b".to_string(), "c".to_string()]);
}

#[test]
fn spawn_requires_exec() {
    let without = obj(vec![("type", s("spawn"))]);
    assert!(WXWorkCommand::new("run", &without).is_none());
    let with = obj(vec![("type", s("spawn")), ("exec", s("/bin/true"))]);
    let cmd = WXWorkCommand::new("run", &with).unwrap();
    match &cmd.data {
        WXWorkCommandData::SPAWN(sp) => {
            assert_eq!(sp.program, "/bin/true");
            assert!(sp.args.is_empty());
            assert_eq!(sp.cwd, "");
            assert_eq!(sp.output_type, WXWorkCommandSpawnOutputType::Markdown);
        }
        _ => panic!("expected a spawn command"),
    }
}

#[test]
fn http_requires_url() {
    let without = obj(vec![("type", s("http"))]);
    assert!(WXWorkCommand::new("call", &without).is_none());
    let with = obj(vec![("type", s("http")), ("url", s("http://example.org"))]);
    let cmd = WXWorkCommand::new("call", &with).unwrap();
    match &cmd.data {
        WXWorkCommandData::HTTP(h) => {
            assert_eq!(h.url, "http://example.org");
            assert_eq!(h.echo, "Ok");
            assert_eq!(h.post, "Ok");
            assert_eq!(h.method, WXWorkCommandHttpMethod::Auto);
            assert_eq!(h.content_type, "");
            assert!(h.headers.is_empty());
        }
        _ => panic!("expected an http command"),
    }
}

#[test]
fn table_keeps_siblings_of_rejected_entries() {
    let table = obj(vec![
        ("s", obj(vec![("type", s("spawn"))])),
        ("h", obj(vec![("type", s("http")), ("url", s("u"))])),
        ("x", obj(vec![("type", s("unknown"))])),
        ("(", obj(vec![("type", s("echo"))])),
        ("n", s("not an object")),
        ("e", obj(vec![("type", s("echo"))])),
    ]);
    let cmds = WXWorkCommand::parse(&table);
    assert_eq!(names(&cmds), vec!["h".to_string(), "e".to_string()]);
}

#[test]
fn parse_of_non_object_is_empty() {
    assert!(WXWorkCommand::parse(&s("x")).is_empty());
    assert!(WXWorkCommand::parse(&Json::Null).is_empty());
}

#[test]
fn names_ignore_case() {
    assert_eq!(parse_output_type("TEXT"), WXWorkCommandSpawnOutputType::Text);
    assert_eq!(parse_output_type("Image"), WXWorkCommandSpawnOutputType::Image);
    assert_eq!(parse_output_type("markdown"), WXWorkCommandSpawnOutputType::Markdown);
    assert_eq!(parse_output_type("weird"), WXWorkCommandSpawnOutputType::Markdown);
    assert_eq!(parse_http_method("GET"), WXWorkCommandHttpMethod::Get);
    assert_eq!(parse_http_method("PoSt"), WXWorkCommandHttpMethod::Post);
    assert_eq!(parse_http_method("delete"), WXWorkCommandHttpMethod::Delete);
    assert_eq!(parse_http_method("HEAD"), WXWorkCommandHttpMethod::Head);
    assert_eq!(parse_http_method("Put"), WXWorkCommandHttpMethod::Put);
    assert_eq!(parse_http_method("fetch"), WXWorkCommandHttpMethod::Auto);
}

#[test]
fn declared_method_and_output_type_ignore_case() {
    let sp = obj(vec![("type", s("spawn")), ("exec", s("e")), ("output_type", s("IMAGE"))]);
    match WXWorkCommand::new("a", &sp).unwrap().data {
        WXWorkCommandData::SPAWN(x) => assert_eq!(x.output_type, WXWorkCommandSpawnOutputType::Image),
        _ => panic!("expected a spawn command"),
    }
    let h = obj(vec![("type", s("http")), ("url", s("u")), ("method", s("Delete"))]);
    match WXWorkCommand::new("a", &h).unwrap().data {
        WXWorkCommandData::HTTP(x) => assert_eq!(x.method, WXWorkCommandHttpMethod::Delete),
        _ => panic!("expected an http command"),
    }
}

#[test]
fn deploy_capture() {
    let cmd = WXWorkCommand::new("deploy (?P<service>\\S+)", &obj(vec![("type", s("echo"))])).unwrap();
    let m = cmd.try_capture("deploy service-a");
    assert!(m.has_result());
    assert_eq!(env_value(&m, "WXWORK_ROBOT_CMD"), Some("deploy service-a".to_string()));
    assert_eq!(env_value(&m, "WXWORK_ROBOT_CMD_SERVICE"), Some("service-a".to_string()));
}

#[test]
fn optional_group_that_did_not_take_part_is_left_out() {
    let cmd = WXWorkCommand::new("go(?P<far> far)?", &obj(vec![("type", s("echo"))])).unwrap();
    let m = cmd.try_capture("go");
    assert_eq!(env_value(&m, "WXWORK_ROBOT_CMD"), Some("go".to_string()));
    assert_eq!(get(m.ref_json(), "WXWORK_ROBOT_CMD_FAR").is_none(), true);
}

#[test]
fn capture_overrides_static_env() {
    let decl = obj(vec![
        ("type", s("echo")),
        ("env", obj(vec![("name", s("static")), ("other", s("kept"))])),
    ]);
    let cmd = WXWorkCommand::new("hi (?P<name>\\w+)", &decl).unwrap();
    let m = cmd.try_capture("hi bob");
    assert_eq!(env_value(&m, "WXWORK_ROBOT_CMD_NAME"), Some("bob".to_string()));
    assert_eq!(env_value(&m, "WXWORK_ROBOT_CMD_OTHER"), Some("kept".to_string()));
}

#[test]
fn no_match_is_repeatable() {
    let cmd = WXWorkCommand::new("^deploy", &obj(vec![("type", s("echo"))])).unwrap();
    let a = cmd.try_capture("hello");
    let b = cmd.try_capture("hello");
    assert!(!a.has_result());
    assert!(!b.has_result());
    assert!(matches!(a.ref_json(), Json::Null));
    let c = cmd.try_capture("deploy now");
    let d = cmd.try_capture("deploy now");
    assert_eq!(format!("{:?}", c.ref_json()), format!("{:?}", d.ref_json()));
}

#[test]
fn static_env_keys_and_values() {
    let decl = obj(vec![
        ("type", s("echo")),
        ("env", obj(vec![("mode", s("fast")), ("n", num("3")), ("z", Json::Null), ("b", Json::Bool(false))])),
    ]);
    let cmd = WXWorkCommand::new("x", &decl).unwrap();
    let m = cmd.try_capture("x");
    assert_eq!(env_value(&m, "WXWORK_ROBOT_CMD_MODE"), Some("fast".to_string()));
    assert_eq!(env_value(&m, "WXWORK_ROBOT_CMD_N"), Some("3".to_string()));
    assert_eq!(env_value(&m, "WXWORK_ROBOT_CMD_Z"), Some("null".to_string()));
    assert_eq!(env_value(&m, "WXWORK_ROBOT_CMD_B"), Some("false".to_string()));
    assert_eq!(env_value(&m, "WXWORK_ROBOT_CMD"), Some("x".to_string()));
}

#[test]
fn spawn_args_are_stringified() {
    let decl = obj(vec![
        ("type", s("spawn")),
        ("exec", s("run.sh")),
        ("cwd", s("/tmp")),
        (
            "args",
            Json::Array(vec![
                Json::Null,
                Json::Bool(true),
                num("3"),
                s("x"),
                Json::Array(vec![num("1"), s("a")]),
            ]),
        ),
    ]);
    match WXWorkCommand::new("r", &decl).unwrap().data {
        WXWorkCommandData::SPAWN(sp) => {
            assert_eq!(sp.args, vec!["", "true", "3", "x", "[1,\"a\"]"]);
            assert_eq!(sp.cwd, "/tmp");
        }
        _ => panic!("expected a spawn command"),
    }
}

#[test]
fn http_headers_are_stringified() {
    let decl = obj(vec![
        ("type", s("http")),
        ("url", s("u")),
        ("echo", s("sent")),
        ("post", s("body")),
        ("content_type", s("text/plain")),
        ("headers", obj(vec![("X-A", s("1")), ("X-B", num("2")), ("X-C", Json::Null)])),
    ]);
    match WXWorkCommand::new("r", &decl).unwrap().data {
        WXWorkCommandData::HTTP(h) => {
            assert_eq!(h.echo, "sent");
            assert_eq!(h.post, "body");
            assert_eq!(h.content_type, "text/plain");
            assert_eq!(
                h.headers,
                vec![
                    ("X-A".to_string(), "1".to_string()),
                    ("X-B".to_string(), "2".to_string()),
                    ("X-C".to_string(), "".to_string()),
                ]
            );
        }
        _ => panic!("expected an http command"),
    }
}

#[test]
fn echo_and_help_defaults() {
    match WXWorkCommand::new("e", &obj(vec![("type", s("echo"))])).unwrap().data {
        WXWorkCommandData::ECHO(e) => assert_eq!(e.echo, "Ok"),
        _ => panic!("expected an echo command"),
    }
    match WXWorkCommand::new("e", &obj(vec![("type", s("echo")), ("echo", s("pong"))])).unwrap().data {
        WXWorkCommandData::ECHO(e) => assert_eq!(e.echo, "pong"),
        _ => panic!("expected an echo command"),
    }
    let help = obj(vec![("type", s("help")), ("prefix", s("P")), ("suffix", s("S"))]);
    match WXWorkCommand::new("help", &help).unwrap().data {
        WXWorkCommandData::HELP(h) => {
            assert_eq!(h.prefix, "P");
            assert_eq!(h.suffix, "S");
        }
        _ => panic!("expected a help command"),
    }
    match WXWorkCommand::new("help", &obj(vec![("type", s("help"))])).unwrap().data {
        WXWorkCommandData::HELP(h) => {
            assert_eq!(h.prefix, "");
            assert_eq!(h.suffix, "");
        }
        _ => panic!("expected a help command"),
    }
}

#[test]
fn rejected_declarations() {
    let echo = obj(vec![("type", s("echo"))]);
    assert!(WXWorkCommand::new("(", &echo).is_none());
    assert!(WXWorkCommand::new("ok", &s("echo")).is_none());
    assert!(WXWorkCommand::new("ok", &obj(vec![("type", s("mail"))])).is_none());
    assert!(WXWorkCommand::new("ok", &obj(vec![("type", s("ECHO"))])).is_none());
    assert!(WXWorkCommand::new("ok", &obj(vec![("type", Json::Bool(true))])).is_none());
}

#[test]
fn visible_description() {
    let hidden = obj(vec![("type", s("echo")), ("hidden", Json::Bool(true)), ("description", s("d"))]);
    let cmd = Arc::new(WXWorkCommand::new("a", &hidden).unwrap());
    assert!(cmd.is_hidden());
    assert_eq!(get_command_description(&cmd), None);
    let plain = obj(vec![("type", s("echo"))]);
    let cmd = Arc::new(WXWorkCommand::new("name", &plain).unwrap());
    assert!(!cmd.is_hidden());
    assert_eq!(*cmd.description(), "");
    assert_eq!(get_command_description(&cmd), text("name"));
    let described = obj(vec![("type", s("echo")), ("hidden", Json::Bool(false)), ("description", s("says hi"))]);
    let cmd = Arc::new(WXWorkCommand::new("name", &described).unwrap());
    assert_eq!(get_command_description(&cmd), text("says hi"));
}

#[test]
fn merge_skips_arrays() {
    let l = obj(vec![("A", s("1"))]);
    let r = obj(vec![("A", s("2")), ("B", Json::Array(vec![num("1"), num("2")]))]);
    let m = merge_envs(l, &r);
    match &m {
        Json::Object(e) => {
            assert_eq!(e.len(), 1);
            assert!(matches!(get(&m, "A"), Some(Json::Str(v)) if v == "2"));
        }
        _ => panic!("expected an object"),
    }
}

#[test]
fn merge_adds_scalars() {
    let l = obj(vec![("A", s("1"))]);
    let r = obj(vec![("N", Json::Null), ("T", Json::Bool(true)), ("C", obj(vec![]))]);
    let m = merge_envs(l, &r);
    assert!(matches!(get(&m, "A"), Some(Json::Str(v)) if v == "1"));
    assert!(matches!(get(&m, "N"), Some(Json::Null)));
    assert!(matches!(get(&m, "T"), Some(Json::Bool(true))));
    assert!(get(&m, "C").is_none());
}

#[test]
fn merge_non_object_left() {
    let m = merge_envs(s("left"), &obj(vec![("A", s("2"))]));
    assert!(matches!(m, Json::Str(ref v) if v == "left"));
    let m = merge_envs(obj(vec![("A", s("1"))]), &s("right"));
    assert!(matches!(get(&m, "A"), Some(Json::Str(v)) if v == "1"));
}

#[test]
fn json_text_escapes_strings() {
    assert_eq!(to_field_text(&Json::Array(vec![s("a\"b")])), "[\"a\\\"b\"]");
    assert_eq!(to_field_text(&obj(vec![("k", Json::Array(vec![]))])), "{\"k\":[]}");
    assert_eq!(to_field_text(&Json::Null), "");
    assert_eq!(to_env_text(&Json::Null), "null");
    assert_eq!(to_env_text(&num("1.5")), "1.5");
}

#[test]
fn built_commands_are_well_formed() {
    let mut cmd = WXWorkCommand::new("a+b", &obj(vec![("type", s("echo"))])).unwrap();
    assert!(cmd.is_well_formed());
    assert_eq!(*cmd.name(), "a+b");
    cmd.envs = Json::Null;
    assert!(!cmd.is_well_formed());
    cmd.envs = obj(vec![("K", num("1"))]);
    assert!(!cmd.is_well_formed());
}

#[test]
fn repeated_header_keeps_the_later_value() {
    let decl = obj(vec![
        ("type", s("http")),
        ("url", s("u")),
        ("headers", obj(vec![("X", s("1")), ("Y", Json::Bool(true)), ("X", s("2"))])),
    ]);
    match WXWorkCommand::new("r", &decl).unwrap().data {
        WXWorkCommandData::HTTP(h) => assert_eq!(
            h.headers,
            vec![("X".to_string(), "2".to_string()), ("Y".to_string(), "true".to_string())]
        ),
        _ => panic!("expected an http command"),
    }
}
