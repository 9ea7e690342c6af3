//! The configuration file and the counters, as the browser reads and writes them.

use crate::gui::json::empty_array;
use crate::gui::json::json_of;
use crate::gui::json::json_text;
use crate::gui::json::object;
use crate::gui::json::parse_toml;
use crate::gui::json::remove_member;
use crate::gui::json::render_toml;
use crate::gui::json::signed;
use crate::gui::json::text;
use crate::gui::json::to_json_text;
use crate::gui::json::toml_parsed;
use crate::gui::json::toml_rendered;
use crate::gui::json::truth;
use crate::gui::json::unsigned;
use crate::gui::json::Json;
use crate::gui::reply::text_reply;
use crate::gui::reply::typed_reply;
use crate::gui::reply::Reply;
use crate::gui::reply::ReplyView;
use crate::stats::saturating_difference;
use serde_json::Value;
use vstd::prelude::*;
use vstd::string::StringExecFns;

verus! {

/// The time between the answer to a restart and the end of the program, in milliseconds.
pub const RESTART_DELAY_MS: u64 = 200;

/// What the browser is told about the configuration: no field can be changed without a restart.
pub open spec fn meta() -> Json {
    Json::Object(map!["hot_reloadable_fields"@ => Json::Array(Seq::empty())])
}

/// A configuration with what the browser is told about it.
pub open spec fn with_meta(config: Json) -> Json {
    match config {
        Json::Object(members) => Json::Object(members.insert("_meta"@, meta())),
        _ => config,
    }
}

/// A configuration without what the browser is told about it.
pub open spec fn without_meta(config: Json) -> Json {
    match config {
        Json::Object(members) => Json::Object(members.remove("_meta"@)),
        _ => config,
    }
}

/// An answer in JSON.
pub open spec fn json_reply(json: Json) -> ReplyView {
    typed_reply(200, "application/json"@, json_text(json))
}

fn reply_json(value: &Value) -> (reply: Reply)
    ensures
        reply@ == json_reply(json_of(*value)),
{
    Reply::typed(200, "application/json", to_json_text(value))
}

fn failure(status: u16, what: &str, why: &str) -> (reply: Reply)
    ensures
        reply@ == text_reply(status, what@ + why@),
{
    Reply::text(status, what.to_string().concat(why))
}

/// Adds what the browser is told about a configuration.
pub fn add_meta(config: Value) -> (told: Value)
    ensures
        json_of(told) == with_meta(json_of(config)),
{
    let mut told = config;
    if let Some(members) = told.as_object_mut() {
        let mut fields = serde_json::Map::new();
        fields.insert("hot_reloadable_fields".to_string(), empty_array());
        members.insert("_meta".to_string(), object(fields));
    }
    told
}

/// Takes away what the browser is told about a configuration.
pub fn strip_meta(told: Value) -> (config: Value)
    ensures
        json_of(config) == without_meta(json_of(told)),
{
    let mut config = told;
    if let Some(members) = config.as_object_mut() {
        remove_member(members, "_meta");
    }
    config
}

/// The answer to a request for the configuration, where `contents` is what came of reading the
/// file: its text, or the reason why it could not be read.
pub fn get_config(contents: Result<String, String>) -> (reply: Reply)
    ensures
        reply@ == (match contents {
            Err(e) => text_reply(500, "read error: "@ + e@),
            Ok(text) => match toml_parsed(text@) {
                Err(e) => text_reply(500, "parse error: "@ + e),
                Ok(config) => json_reply(with_meta(config)),
            },
        }),
{
    match contents {
        Err(e) => failure(500, "read error: ", e.as_str()),
        Ok(text) => config_reply(parse_toml(text.as_str())),
    }
}

/// The answer to a request for the configuration, where `parsed` is what came of parsing the file.
pub fn config_reply(parsed: Result<Value, String>) -> (reply: Reply)
    ensures
        reply@ == (match parsed {
            Err(e) => text_reply(500, "parse error: "@ + e@),
            Ok(config) => json_reply(with_meta(json_of(config))),
        }),
{
    match parsed {
        Err(e) => failure(500, "parse error: ", e.as_str()),
        Ok(config) => reply_json(&add_meta(config)),
    }
}

/// The text to write to the configuration file, for a configuration that the browser sent, or the
/// answer where there is none.
pub fn post_config(new_val: Value) -> (contents: Result<String, Reply>)
    ensures
        match toml_rendered(without_meta(json_of(new_val))) {
            Ok(text) => contents matches Ok(c) && c@ == text,
            Err(e) => contents matches Err(reply) && reply@ == text_reply(
                400,
                "serialize error: "@ + e,
            ),
        },
{
    let clean = strip_meta(new_val);
    contents_to_write(render_toml(&clean))
}

/// The text to write to the configuration file, or the answer where `rendered` holds an error.
pub fn contents_to_write(rendered: Result<String, String>) -> (contents: Result<String, Reply>)
    ensures
        match rendered {
            Ok(text) => contents matches Ok(c) && c@ == text@,
            Err(e) => contents matches Err(reply) && reply@ == text_reply(
                400,
                "serialize error: "@ + e@,
            ),
        },
{
    match rendered {
        Ok(text) => Ok(text),
        Err(e) => Err(failure(400, "serialize error: ", e.as_str())),
    }
}

/// What came of writing the configuration file.
#[derive(Debug)]
pub enum SaveOutcome {
    /// The temporary file could not be made.
    TempfileFailed(String),
    /// The temporary file could not be written.
    WriteFailed(String),
    /// The temporary file could not take the place of the configuration file.
    PersistFailed(String),
    /// The new configuration is in place.
    Saved,
}

/// What the browser is told after the configuration was saved. Every field takes a restart.
pub open spec fn saved() -> Json {
    Json::Object(
        map!["status"@ => Json::Text("saved"@), "restart_required"@ => Json::Bool(true)],
    )
}

/// The answer to a configuration that the browser sent.
pub fn save_reply(outcome: SaveOutcome) -> (reply: Reply)
    ensures
        reply@ == (match outcome {
            SaveOutcome::TempfileFailed(e) => text_reply(500, "tempfile error: "@ + e@),
            SaveOutcome::WriteFailed(e) => text_reply(500, "write error: "@ + e@),
            SaveOutcome::PersistFailed(e) => text_reply(500, "persist error: "@ + e@),
            SaveOutcome::Saved => json_reply(saved()),
        }),
{
    match outcome {
        SaveOutcome::TempfileFailed(e) => failure(500, "tempfile error: ", e.as_str()),
        SaveOutcome::WriteFailed(e) => failure(500, "write error: ", e.as_str()),
        SaveOutcome::PersistFailed(e) => failure(500, "persist error: ", e.as_str()),
        SaveOutcome::Saved => {
            let mut members = serde_json::Map::new();
            members.insert("status".to_string(), text("saved"));
            members.insert("restart_required".to_string(), truth(true));
            reply_json(&object(members))
        },
    }
}

/// The answer to a request for a restart.
pub fn post_restart() -> (reply: Reply)
    ensures
        reply@ == json_reply(Json::Object(map!["status"@ => Json::Text("restarting"@)])),
{
    let mut members = serde_json::Map::new();
    members.insert("status".to_string(), text("restarting"));
    reply_json(&object(members))
}

/// What the browser is told about the stream.
pub open spec fn stats_members(
    snapshot: (u64, u64, i32),
    produced: u64,
    played: u64,
    ring_capacity: usize,
) -> Map<Seq<char>, Json> {
    map![
        "received"@ => Json::Int(snapshot.0 as int),
        "lost"@ => Json::Int(snapshot.1 as int),
        "pkt_id"@ => Json::Int(snapshot.2 as int),
        "samples_produced"@ => Json::Int(produced as int),
        "samples_played"@ => Json::Int(played as int),
        "ring_occupied"@ => Json::Int(saturating_difference(produced, played) as int),
        "ring_capacity"@ => Json::Int(ring_capacity as int),
    ]
}

/// The answer to a request for the counters.
pub fn get_stats(
    snapshot: (u64, u64, i32),
    produced: u64,
    played: u64,
    ring_capacity: usize,
) -> (reply: Reply)
    ensures
        reply@ == json_reply(
            Json::Object(stats_members(snapshot, produced, played, ring_capacity)),
        ),
{
    let (received, lost, pkt_id) = snapshot;
    let mut members = serde_json::Map::new();
    members.insert("received".to_string(), unsigned(received));
    members.insert("lost".to_string(), unsigned(lost));
    members.insert("pkt_id".to_string(), signed(pkt_id));
    members.insert("samples_produced".to_string(), unsigned(produced));
    members.insert("samples_played".to_string(), unsigned(played));
    members.insert("ring_occupied".to_string(), unsigned(produced.saturating_sub(played)));
    members.insert("ring_capacity".to_string(), unsigned(ring_capacity as u64));
    reply_json(&object(members))
}

/// Saving is done once: where the TOML text reads back as the configuration that it was written
/// from, the browser is shown what it sent, but for `_meta`, and sending that back writes the same
/// text again.
pub proof fn law_saving_again_changes_nothing(sent: Json, text: Seq<char>)
    requires
        toml_rendered(without_meta(sent)) == Ok::<Seq<char>, Seq<char>>(text),
        toml_parsed(text) == Ok::<Json, Seq<char>>(without_meta(sent)),
    ensures
        with_meta(toml_parsed(text)->Ok_0) == with_meta(sent),
        toml_rendered(without_meta(with_meta(toml_parsed(text)->Ok_0))) == Ok::<
            Seq<char>,
            Seq<char>,
        >(text),
{
    law_meta_leaves_no_trace(without_meta(sent));
    if let Json::Object(members) = sent {
        assert(members.remove("_meta"@).insert("_meta"@, meta()) =~= members.insert(
            "_meta"@,
            meta(),
        ));
    }
}

/// Only the member `_meta` is left out of what is saved: two configurations that differ nowhere
/// else are saved alike.
pub proof fn law_only_meta_is_left_out(
    members: Map<Seq<char>, Json>,
    others: Map<Seq<char>, Json>,
)
    requires
        members.remove("_meta"@) == others.remove("_meta"@),
    ensures
        without_meta(Json::Object(members)) == without_meta(Json::Object(others)),
        without_meta(Json::Object(members)) matches Json::Object(kept) && (forall|key: Seq<char>|
            key != "_meta"@ ==> (#[trigger] kept.contains_key(key) == members.contains_key(key)) && (
            kept.contains_key(key) ==> kept[key] == members[key])) && !kept.contains_key("_meta"@),
{
}

/// A configuration that the browser sends back as it got it is saved as it was. One that had a
/// member `_meta` of its own loses it.
pub proof fn law_meta_leaves_no_trace(config: Json)
    ensures
        without_meta(with_meta(config)) == without_meta(config),
        (config matches Json::Object(members) ==> !members.contains_key("_meta"@))
            ==> without_meta(with_meta(config)) == config,
{
    if let Json::Object(members) = config {
        assert(members.insert("_meta"@, meta()).remove("_meta"@) =~= members.remove("_meta"@));
        if !members.contains_key("_meta"@) {
            assert(members.remove("_meta"@) =~= members);
        }
    }
}

/// The counters are told as they are, each under its own name, and whatever the ring can hold: the
/// three parts of the snapshot, the samples that came into the ring and those that were played, how
/// many are in it, and how many it can hold.
pub proof fn law_counters_are_told_by_name(
    snapshot: (u64, u64, i32),
    produced: u64,
    played: u64,
    ring_capacity: usize,
    reply: Reply,
) -> (members: Map<Seq<char>, Json>)
    requires
        call_ensures(get_stats, (snapshot, produced, played, ring_capacity), reply),
    ensures
        reply@.status == 200,
        reply@.headers == seq![("content-type"@, "application/json"@)],
        reply@.body == json_text(Json::Object(members)),
        members.dom() == set![
            "received"@,
            "lost"@,
            "pkt_id"@,
            "samples_produced"@,
            "samples_played"@,
            "ring_occupied"@,
            "ring_capacity"@,
        ],
        members["received"@] == Json::Int(snapshot.0 as int),
        members["lost"@] == Json::Int(snapshot.1 as int),
        members["pkt_id"@] == Json::Int(snapshot.2 as int),
        members["samples_produced"@] == Json::Int(produced as int),
        members["samples_played"@] == Json::Int(played as int),
        produced >= played ==> members["ring_occupied"@] == Json::Int(produced - played),
        produced < played ==> members["ring_occupied"@] == Json::Int(0),
        members["ring_capacity"@] == Json::Int(ring_capacity as int),
{
    reveal_strlit("received");
    reveal_strlit("lost");
    reveal_strlit("pkt_id");
    reveal_strlit("samples_produced");
    reveal_strlit("samples_played");
    reveal_strlit("ring_occupied");
    reveal_strlit("ring_capacity");
    assert("received"@.len() == 8);
    assert("lost"@.len() == 4);
    assert("pkt_id"@.len() == 6);
    assert("samples_produced"@.len() == 16);
    assert("samples_played"@.len() == 14);
    assert("ring_occupied"@.len() == 13 && "ring_occupied"@[5] == 'o');
    assert("ring_capacity"@.len() == 13 && "ring_capacity"@[5] == 'c');
    let members = stats_members(snapshot, produced, played, ring_capacity);
    assert(members.dom() =~= set![
        "received"@,
        "lost"@,
        "pkt_id"@,
        "samples_produced"@,
        "samples_played"@,
        "ring_occupied"@,
        "ring_capacity"@,
    ]);
    members
}

/// To a configuration is added that no field can be changed without a restart, under `_meta`; all
/// else is told as it is.
pub proof fn law_told_configuration(config: Json)
    ensures
        !(config is Object) ==> with_meta(config) == config,
        config matches Json::Object(members) ==> {
            &&& with_meta(config) matches Json::Object(told)
            &&& told.dom() == members.dom().insert("_meta"@)
            &&& forall|name: Seq<char>| #![trigger told[name]]
                name != "_meta"@ && members.contains_key(name) ==> told[name] == members[name]
            &&& told["_meta"@] matches Json::Object(meta)
            &&& meta.dom() == set!["hot_reloadable_fields"@]
            &&& meta["hot_reloadable_fields"@] == Json::Array(Seq::<Json>::empty())
        },
{
    assert(map!["hot_reloadable_fields"@ => Json::Array(Seq::<Json>::empty())].dom()
        =~= set!["hot_reloadable_fields"@]);
}

/// From a configuration `_meta` is taken away, and nothing else.
pub proof fn law_stripped_configuration(told: Json)
    ensures
        !(told is Object) ==> without_meta(told) == told,
        told matches Json::Object(members) ==> {
            &&& without_meta(told) matches Json::Object(config)
            &&& config.dom() == members.dom().remove("_meta"@)
            &&& forall|name: Seq<char>| #![trigger config[name]]
                name != "_meta"@ && members.contains_key(name) ==> config[name] == members[name]
        },
{
}

/// Adding `_meta` and taking it away works on documents as it is told of them.
pub proof fn law_meta_is_added_and_taken_away(
    config: Value,
    told: Value,
    sent: Value,
    stripped: Value,
)
    requires
        call_ensures(add_meta, (config,), told),
        call_ensures(strip_meta, (sent,), stripped),
    ensures
        json_of(told) == with_meta(json_of(config)),
        json_of(stripped) == without_meta(json_of(sent)),
{
}

/// The browser is shown what the file says, or why there is nothing to show.
pub proof fn law_configuration_is_shown(contents: Result<String, String>, reply: Reply)
    requires
        call_ensures(get_config, (contents,), reply),
    ensures
        contents matches Err(e) ==> {
            &&& reply@.status == 500
            &&& reply@.headers == seq![("content-type"@, "text/plain; charset=utf-8"@)]
            &&& reply@.body == "read error: "@ + e@
        },
        contents matches Ok(text) ==> (toml_parsed(text@) matches Err(e) ==> {
            &&& reply@.status == 500
            &&& reply@.headers == seq![("content-type"@, "text/plain; charset=utf-8"@)]
            &&& reply@.body == "parse error: "@ + e
        }),
        contents matches Ok(text) ==> (toml_parsed(text@) matches Ok(config) ==> {
            &&& reply@.status == 200
            &&& reply@.headers == seq![("content-type"@, "application/json"@)]
            &&& reply@.body == json_text(with_meta(config))
        }),
{
}

/// What came of parsing the file decides the answer.
pub proof fn law_parsed_configuration_is_shown(parsed: Result<Value, String>, reply: Reply)
    requires
        call_ensures(config_reply, (parsed,), reply),
    ensures
        parsed matches Err(e) ==> {
            &&& reply@.status == 500
            &&& reply@.headers == seq![("content-type"@, "text/plain; charset=utf-8"@)]
            &&& reply@.body == "parse error: "@ + e@
        },
        parsed matches Ok(config) ==> {
            &&& reply@.status == 200
            &&& reply@.headers == seq![("content-type"@, "application/json"@)]
            &&& reply@.body == json_text(with_meta(json_of(config)))
        },
{
}

/// What the browser sends is written as TOML without `_meta`; where it cannot be written so,
/// nothing is, and the browser is told why.
pub proof fn law_sent_configuration_is_written(new_val: Value, contents: Result<String, Reply>)
    requires
        call_ensures(post_config, (new_val,), contents),
    ensures
        toml_rendered(without_meta(json_of(new_val))) matches Ok(text) ==> (contents matches Ok(c)
            && c@ == text),
        toml_rendered(without_meta(json_of(new_val))) matches Err(e) ==> (contents matches Err(
            reply,
        ) && {
            &&& reply@.status == 400
            &&& reply@.headers == seq![("content-type"@, "text/plain; charset=utf-8"@)]
            &&& reply@.body == "serialize error: "@ + e
        }),
{
}

/// What came of writing it as TOML decides what goes into the file.
pub proof fn law_rendered_text_is_written(
    rendered: Result<String, String>,
    contents: Result<String, Reply>,
)
    requires
        call_ensures(contents_to_write, (rendered,), contents),
    ensures
        rendered matches Ok(text) ==> (contents matches Ok(c) && c@ == text@),
        rendered matches Err(e) ==> (contents matches Err(reply) && {
            &&& reply@.status == 400
            &&& reply@.headers == seq![("content-type"@, "text/plain; charset=utf-8"@)]
            &&& reply@.body == "serialize error: "@ + e@
        }),
{
}

/// Each way in which saving can fail is told by its own message; where it did not fail, the browser
/// is told that it was saved and takes a restart.
pub proof fn law_outcome_of_saving_is_told(outcome: SaveOutcome, reply: Reply) -> (members: Map<
    Seq<char>,
    Json,
>)
    requires
        call_ensures(save_reply, (outcome,), reply),
    ensures
        !(outcome is Saved) ==> reply@.status == 500 && reply@.headers == seq![
            ("content-type"@, "text/plain; charset=utf-8"@),
        ],
        outcome matches SaveOutcome::TempfileFailed(e) ==> reply@.body == "tempfile error: "@ + e@,
        outcome matches SaveOutcome::WriteFailed(e) ==> reply@.body == "write error: "@ + e@,
        outcome matches SaveOutcome::PersistFailed(e) ==> reply@.body == "persist error: "@ + e@,
        outcome is Saved ==> {
            &&& reply@.status == 200
            &&& reply@.headers == seq![("content-type"@, "application/json"@)]
            &&& reply@.body == json_text(Json::Object(members))
            &&& members.dom() == set!["status"@, "restart_required"@]
            &&& members["status"@] == Json::Text("saved"@)
            &&& members["restart_required"@] == Json::Bool(true)
        },
{
    reveal_strlit("status");
    reveal_strlit("restart_required");
    assert("status"@.len() != "restart_required"@.len());
    let members = map![
        "status"@ => Json::Text("saved"@),
        "restart_required"@ => Json::Bool(true),
    ];
    assert(members.dom() =~= set!["status"@, "restart_required"@]);
    members
}

/// A request for a restart is answered by saying that it is under way, which leaves a fifth of a
/// second for the answer.
pub proof fn law_restart_is_announced(reply: Reply) -> (members: Map<Seq<char>, Json>)
    requires
        call_ensures(post_restart, (), reply),
    ensures
        reply@.status == 200,
        reply@.headers == seq![("content-type"@, "application/json"@)],
        reply@.body == json_text(Json::Object(members)),
        members.dom() == set!["status"@],
        members["status"@] == Json::Text("restarting"@),
        5 * RESTART_DELAY_MS == 1000,
{
    let members = map!["status"@ => Json::Text("restarting"@)];
    assert(members.dom() =~= set!["status"@]);
    members
}

} // verus!
