use serde_json::Value;
use stream_playback::gui::config_api::{
    add_meta, config_reply, contents_to_write, get_config, get_stats, post_config, post_restart,
    save_reply, strip_meta, SaveOutcome,
};
use stream_playback::gui::reply::Reply;

fn parse(text: &str) -> Value {
    serde_json::from_str(text).unwrap()
}

fn json(reply: &Reply) -> Value {
    assert_eq!(reply.status, 200);
    assert_eq!(reply.headers.len(), 1);
    assert_eq!(reply.headers[0].name, "content-type");
    assert_eq!(reply.headers[0].value, "application/json");
    parse(&reply.body)
}

fn assert_text(reply: &Reply, status: u16, body: &str) {
    assert_eq!(reply.status, status);
    assert_eq!(reply.body, body);
    assert_eq!(reply.headers.len(), 1);
    assert_eq!(reply.headers[0].name, "content-type");
    assert_eq!(reply.headers[0].value, "text/plain; charset=utf-8");
}

const FILE: &str = "[gui]\npassword = \"test\"\nport = 8081\n\n[receiver]\nhost = \"h\"\n";

#[test]
fn configuration_is_shown_with_meta() {
    let reply = get_config(Ok(FILE.to_string()));
    assert_eq!(
        json(&reply),
        parse(
            r#"{"gui": {"password": "test", "port": 8081}, "receiver": {"host": "h"},
                "_meta": {"hot_reloadable_fields": []}}"#
        )
    );
    assert_eq!(
        json(&get_config(Ok(String::new()))),
        parse(r#"{"_meta": {"hot_reloadable_fields": []}}"#)
    );
}

#[test]
fn configuration_that_cannot_be_read() {
    assert_text(&get_config(Err("gone".to_string())), 500, "read error: gone");
    assert_text(&config_reply(Err("odd".to_string())), 500, "parse error: odd");
    let reply = get_config(Ok("a = = b".to_string()));
    assert_eq!(reply.status, 500);
    assert!(reply.body.starts_with("parse error: TOML parse error at line 1"));
}

#[test]
fn meta_is_only_for_objects() {
    let list = Value::Array(vec![Value::Null]);
    assert_eq!(add_meta(list.clone()), list);
    assert_eq!(strip_meta(list.clone()), list);
    assert_eq!(
        add_meta(parse(r#"{"_meta": 1, "a": 2}"#)),
        parse(r#"{"_meta": {"hot_reloadable_fields": []}, "a": 2}"#)
    );
    assert_eq!(strip_meta(parse(r#"{"_meta": 1, "a": 2}"#)), parse(r#"{"a": 2}"#));
    assert_eq!(strip_meta(Value::Object(serde_json::Map::new())), Value::Object(serde_json::Map::new()));
}

#[test]
fn configuration_sent_back_is_saved_as_it_was() {
    let shown = json(&get_config(Ok(FILE.to_string())));
    let contents = post_config(shown).unwrap();
    assert_eq!(contents, FILE);
    assert!(!contents.contains("_meta"));
}

#[test]
fn saving_again_changes_nothing() {
    let sent = parse(
        r#"{"z": [1, -2, 3.5], "a": {"b": "x\ny", "c": {}}, "t": [{"k": true}], "_meta": 0}"#,
    );
    let text = post_config(sent.clone()).unwrap();
    let shown = json(&get_config(Ok(text.clone())));
    assert_eq!(strip_meta(shown.clone()), strip_meta(sent));
    assert_eq!(post_config(shown).unwrap(), text);
}

#[test]
fn deep_nesting_is_saved_but_not_read_back() {
    let nested = |depth: usize| {
        parse(&format!("{{\"a\": {}1{}}}", "[".repeat(depth), "]".repeat(depth)))
    };
    let text = post_config(nested(70)).unwrap();
    assert_eq!(strip_meta(json(&get_config(Ok(text)))), nested(70));
    let text = post_config(nested(100)).unwrap();
    assert_eq!(get_config(Ok(text)).status, 500);
}

#[test]
fn only_meta_is_left_out() {
    let plain = post_config(parse(r#"{"a": {"_meta": 3}, "b": 2}"#)).unwrap();
    let told = post_config(parse(r#"{"_meta": {"x": 1}, "a": {"_meta": 3}, "b": 2}"#)).unwrap();
    assert_eq!(plain, told);
    assert_eq!(plain, "b = 2\n\n[a]\n_meta = 3\n");
}

#[test]
fn configuration_that_is_no_toml() {
    let error = post_config(parse(r#"{"a": null}"#)).unwrap_err();
    assert_text(&error, 400, "serialize error: unsupported unit type");
    let error = post_config(Value::Bool(true)).unwrap_err();
    assert_eq!(error.status, 400);
    assert!(error.body.starts_with("serialize error: "));
    let error = contents_to_write(Err("why".to_string())).unwrap_err();
    assert_text(&error, 400, "serialize error: why");
    assert_eq!(contents_to_write(Ok("x = 1\n".to_string())).unwrap(), "x = 1\n");
}

#[test]
fn answers_after_saving() {
    assert_eq!(
        json(&save_reply(SaveOutcome::Saved)),
        parse(r#"{"status": "saved", "restart_required": true}"#)
    );
    let e = || "full".to_string();
    assert_text(&save_reply(SaveOutcome::TempfileFailed(e())), 500, "tempfile error: full");
    assert_text(&save_reply(SaveOutcome::WriteFailed(e())), 500, "write error: full");
    assert_text(&save_reply(SaveOutcome::PersistFailed(e())), 500, "persist error: full");
}

#[test]
fn answer_to_a_restart() {
    let reply = post_restart();
    assert_eq!(json(&reply), parse(r#"{"status": "restarting"}"#));
    assert_eq!(reply.body, r#"{"status":"restarting"}"#);
}

#[test]
fn counters_in_json() {
    assert_eq!(
        json(&get_stats((500, 3, -7), 1000, 600, 1024)),
        parse(
            r#"{"received": 500, "lost": 3, "pkt_id": -7, "samples_produced": 1000,
                "samples_played": 600, "ring_occupied": 400, "ring_capacity": 1024}"#
        )
    );
    let reply = json(&get_stats((u64::MAX, 0, i32::MIN), 1, 2, 0));
    assert_eq!(reply["received"], Value::from(u64::MAX));
    assert_eq!(reply["pkt_id"], Value::from(i32::MIN));
    assert_eq!(reply["ring_occupied"], Value::from(0));
}
