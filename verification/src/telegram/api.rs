//! What is sent to the Telegram API, and what its answers mean.
use vstd::prelude::*;

use crate::codex_provider;
use crate::json;
use crate::json::{Json, JsonView};
use crate::telegram::config::BotConfig;
use crate::telegram::labels;
use crate::text;

verus! {

/// The address of a method of the API.
pub fn telegram_url(token: &str, method: &str) -> (res: String)
    ensures
        res@ == "https://api.telegram.org/bot"@ + token@ + "/"@ + method@,
{
    let head = text::cat3("https://api.telegram.org/bot", token, "/");
    text::cat(head.as_str(), method)
}

/// A list of texts.
fn text_list(a: &str, b: &str, c: &str) -> (res: Json)
    ensures
        res@ == JsonView::Array(seq![JsonView::Str(a@), JsonView::Str(b@), JsonView::Str(c@)]),
{
    let mut items: Vec<Json> = Vec::new();
    items.push(Json::text(a));
    items.push(Json::text(b));
    items.push(Json::text(c));
    assert(json::array_view(items@) =~= seq![
        JsonView::Str(a@),
        JsonView::Str(b@),
        JsonView::Str(c@),
    ]);
    Json::Array(items)
}

/// Asks for updates from an offset on.
pub fn get_updates_payload(offset: i64) -> (res: Json)
    ensures
        res@ == JsonView::Object(
            map![
                "offset"@ => json::integer_view(offset as int),
                "timeout"@ => JsonView::Unsigned(25),
                "allowed_updates"@ => JsonView::Array(seq![
                    JsonView::Str("message"@),
                    JsonView::Str("edited_message"@),
                    JsonView::Str("callback_query"@),
                ]),
            ],
        ),
{
    Json::empty_object().with("offset", Json::integer(offset)).with(
        "timeout",
        Json::Unsigned(25),
    ).with("allowed_updates", text_list("message", "edited_message", "callback_query"))
}

/// Asks for updates that came while the bot was away to be dropped.
pub fn drop_pending_payload() -> (res: Json)
    ensures
        res@ == JsonView::Object(map!["drop_pending_updates"@ => JsonView::Bool(true)]),
{
    Json::empty_object().with("drop_pending_updates", Json::Bool(true))
}

/// The calls, each with its payload, that are made before the first update is asked for: the
/// commands are announced anew, and updates that came while the bot was away are dropped where
/// that is wanted.
pub open spec fn startup(drop_pending: bool) -> Seq<(Seq<char>, JsonView)> {
    let announcing = seq![
        ("deleteMyCommands"@, JsonView::Object(Map::empty())),
        ("setMyCommands"@, labels::announced_commands()),
    ];
    if drop_pending {
        announcing.push(
            (
                "deleteWebhook"@,
                JsonView::Object(map!["drop_pending_updates"@ => JsonView::Bool(true)]),
            ),
        )
    } else {
        announcing
    }
}

/// The views of a list of calls.
pub open spec fn call_views(calls: Seq<(String, Json)>) -> Seq<(Seq<char>, JsonView)> {
    calls.map_values(|call: (String, Json)| (call.0@, call.1@))
}

/// The calls that are made before the first update is asked for.
pub fn startup_calls(config: &BotConfig) -> (res: Vec<(String, Json)>)
    ensures
        call_views(res@) == startup(config.drop_pending_updates),
{
    let mut calls: Vec<(String, Json)> = Vec::new();
    calls.push(("deleteMyCommands".to_owned(), Json::empty_object()));
    calls.push(("setMyCommands".to_owned(), labels::bot_commands()));
    if config.drop_pending_updates {
        calls.push(("deleteWebhook".to_owned(), drop_pending_payload()));
    }
    assert(call_views(calls@) =~= startup(config.drop_pending_updates));
    calls
}

/// A new message.
pub open spec fn message(chat_id: i64, shown: Seq<char>, markup: Option<JsonView>) -> JsonView {
    let bare = map![
        "chat_id"@ => json::integer_view(chat_id as int),
        "text"@ => JsonView::Str(shown),
    ];
    JsonView::Object(
        match markup {
            Some(markup) => bare.insert("reply_markup"@, markup),
            None => bare,
        },
    )
}

/// A new message.
pub fn send_message_payload(chat_id: i64, shown: &str, markup: Option<Json>) -> (res: Json)
    ensures
        res@ == message(
            chat_id,
            shown@,
            match markup {
                Some(markup) => Some(markup@),
                None => None,
            },
        ),
{
    let value = Json::empty_object().with("chat_id", Json::integer(chat_id)).with(
        "text",
        Json::text(shown),
    );
    match markup {
        Some(markup) => value.with("reply_markup", markup),
        None => value,
    }
}

/// Another text, and perhaps other buttons, for a message.
pub open spec fn edit(
    chat_id: i64,
    message_id: i64,
    shown: Seq<char>,
    markup: Option<JsonView>,
) -> JsonView {
    let bare = map![
        "chat_id"@ => json::integer_view(chat_id as int),
        "message_id"@ => json::integer_view(message_id as int),
        "text"@ => JsonView::Str(shown),
    ];
    JsonView::Object(
        match markup {
            Some(markup) => bare.insert("reply_markup"@, markup),
            None => bare,
        },
    )
}

/// Another text, and perhaps other buttons, for a message.
pub fn edit_message_payload(chat_id: i64, message_id: i64, shown: &str, markup: Option<Json>) -> (res:
    Json)
    ensures
        res@ == edit(
            chat_id,
            message_id,
            shown@,
            match markup {
                Some(markup) => Some(markup@),
                None => None,
            },
        ),
{
    let value = Json::empty_object().with("chat_id", Json::integer(chat_id)).with(
        "message_id",
        Json::integer(message_id),
    ).with("text", Json::text(shown));
    match markup {
        Some(markup) => value.with("reply_markup", markup),
        None => value,
    }
}

/// Asks for a message to be deleted.
pub fn delete_message_payload(chat_id: i64, message_id: i64) -> (res: Json)
    ensures
        res@ == JsonView::Object(
            map![
                "chat_id"@ => json::integer_view(chat_id as int),
                "message_id"@ => json::integer_view(message_id as int),
            ],
        ),
{
    Json::empty_object().with("chat_id", Json::integer(chat_id)).with(
        "message_id",
        Json::integer(message_id),
    )
}

/// The message that takes away a keyboard of earlier days.
pub fn remove_keyboard_payload(chat_id: i64) -> (res: Json)
    ensures
        res@ == message(
            chat_id,
            "正在打开菜单。"@,
            Some(JsonView::Object(map!["remove_keyboard"@ => JsonView::Bool(true)])),
        ),
{
    send_message_payload(
        chat_id,
        "正在打开菜单。",
        Some(Json::empty_object().with("remove_keyboard", Json::Bool(true))),
    )
}

/// Tells that a button was noticed.
pub fn answer_callback_payload(callback_query_id: &str) -> (res: Json)
    ensures
        res@ == JsonView::Object(
            map!["callback_query_id"@ => JsonView::Str(callback_query_id@)],
        ),
{
    Json::empty_object().with("callback_query_id", Json::text(callback_query_id))
}

/// How a call of the API went.
#[derive(Debug, Clone, PartialEq, Eq)]
pub enum TelegramReply {
    /// The request could not be made.
    NotSent(String),
    /// The answer could not be read.
    Unreadable(String),
    /// The answer: whether its HTTP status is one of success, that status, whether it says that
    /// it is in order, and what it says otherwise.
    Answer { success: bool, status: String, ok: bool, description: Option<String> },
}

/// What is wrong with a call of the API, where anything is.
pub open spec fn call_error(method: Seq<char>, reply: TelegramReply) -> Option<Seq<char>> {
    match reply {
        TelegramReply::NotSent(error) => Some("请求 Telegram API 失败："@ + error@),
        TelegramReply::Unreadable(error) => Some("解析 Telegram API 响应失败："@ + error@),
        TelegramReply::Answer { success, status, ok, description } => if success && ok {
            None
        } else {
            Some(
                "Telegram API "@ + method + " 失败："@ + match description {
                    Some(said) => said@,
                    None => status@,
                },
            )
        },
    }
}

/// Judges a call of the API.
pub fn telegram_outcome(method: &str, reply: &TelegramReply) -> (res: Result<(), String>)
    ensures
        codex_provider::message_of(res) == call_error(method@, *reply),
{
    match reply {
        TelegramReply::NotSent(error) => Err(text::cat("请求 Telegram API 失败：", error.as_str())),
        TelegramReply::Unreadable(error) => Err(
            text::cat("解析 Telegram API 响应失败：", error.as_str()),
        ),
        TelegramReply::Answer { success, status, ok, description } => {
            if *success && *ok {
                return Ok(());
            }
            let said = match description {
                Some(said) => said.as_str(),
                None => status.as_str(),
            };
            let head = text::cat3("Telegram API ", method, " 失败：");
            Err(text::cat(head.as_str(), said))
        },
    }
}

/// Judges a call that edits a message: that nothing changed is no error.
pub fn edit_outcome(outcome: Result<(), String>) -> (res: Result<(), String>)
    ensures
        codex_provider::message_of(res) == match codex_provider::message_of(outcome) {
            Some(error) => if text::has_part(error, "message is not modified"@) {
                None
            } else {
                Some(error)
            },
            None => None,
        },
{
    match outcome {
        Ok(_) => Ok(()),
        Err(error) => if text::holds_part(error.as_str(), "message is not modified") {
            Ok(())
        } else {
            Err(error)
        },
    }
}

/// The id of the message that was sent, which an answer has to tell.
pub fn sent_message(message_id: Option<i64>) -> (res: Result<i64, String>)
    ensures
        match message_id {
            Some(id) => res == Ok::<i64, String>(id),
            None => res matches Err(error) && error@ == "Telegram sendMessage 响应缺少消息"@,
        },
{
    match message_id {
        Some(id) => Ok(id),
        None => Err("Telegram sendMessage 响应缺少消息".to_owned()),
    }
}

// ---------------------------------------------------------------------------
// Laws
// ---------------------------------------------------------------------------

/// A method is called at the address of the bot with that token.
pub proof fn law_address_names_token_and_method(token: &str, method: &str, res: String)
    requires
        call_ensures(telegram_url, (token, method), res),
    ensures
        res@ == "https://api.telegram.org/bot"@ + token@ + "/"@ + method@,
{
}

/// Updates are asked for from the offset on, of the kinds that the bot looks at.
pub proof fn law_updates_are_asked_from_the_offset(offset: i64, res: Json)
    requires
        call_ensures(get_updates_payload, (offset,), res),
    ensures
        json::i64_in(res@.get("offset"@)) == Some(offset),
        res@.get("timeout"@) == Some(JsonView::Unsigned(25)),
        res@.get("allowed_updates"@) matches Some(JsonView::Array(kinds)) && {
            &&& kinds.len() == 3
            &&& kinds[0] == JsonView::Str("message"@)
            &&& kinds[1] == JsonView::Str("edited_message"@)
            &&& kinds[2] == JsonView::Str("callback_query"@)
        },
        json::has_only(res@, set!["offset"@, "timeout"@, "allowed_updates"@]),
{
    reveal_strlit("offset");
    reveal_strlit("timeout");
    reveal_strlit("allowed_updates");
    assert("offset"@.len() == 6);
    assert("timeout"@.len() == 7);
    assert("allowed_updates"@.len() == 15);
}

/// Updates that wait are asked to be dropped.
pub proof fn law_waiting_updates_are_dropped(res: Json)
    requires
        call_ensures(drop_pending_payload, (), res),
    ensures
        res@.get("drop_pending_updates"@) == Some(JsonView::Bool(true)),
{
}

/// Before the first update the commands are taken back and announced anew, and updates that wait
/// are dropped exactly where that is wanted.
pub proof fn law_bot_starts_with_its_commands(
    config: &BotConfig,
    commands: Json,
    res: Vec<(String, Json)>,
)
    requires
        call_ensures(startup_calls, (config,), res),
        call_ensures(labels::bot_commands, (), commands),
    ensures
        res@.len() == if config.drop_pending_updates { 3nat } else { 2 },
        res@[0].0@ == "deleteMyCommands"@,
        res@[0].1@ == JsonView::Object(Map::empty()),
        res@[1].0@ == "setMyCommands"@,
        res@[1].1@ == commands@,
        config.drop_pending_updates ==> res@[2].0@ == "deleteWebhook"@ && res@[2].1@.get(
            "drop_pending_updates"@,
        ) == Some(JsonView::Bool(true)),
{
    let views = call_views(res@);
    assert(views.len() == res@.len());
    assert(forall|i: int|
        0 <= i < res@.len() ==> views[i] == ((#[trigger] res@[i]).0@, res@[i].1@));
    assert(views[0] == (res@[0].0@, res@[0].1@));
    assert(views[1] == (res@[1].0@, res@[1].1@));
}

/// A message goes to its chat with its text as it is, and with its buttons, where it has any.
pub proof fn law_message_goes_to_its_chat(
    chat_id: i64,
    shown: &str,
    markup: Option<Json>,
    res: Json,
)
    requires
        call_ensures(send_message_payload, (chat_id, shown, markup), res),
    ensures
        json::i64_in(res@.get("chat_id"@)) == Some(chat_id),
        res@.get("text"@) == Some(JsonView::Str(shown@)),
        markup matches Some(markup) ==> res@.get("reply_markup"@) == Some(markup@),
        markup is None ==> res@.get("reply_markup"@) is None,
        json::has_only(res@, set!["chat_id"@, "text"@, "reply_markup"@]),
{
    reveal_strlit("chat_id");
    reveal_strlit("text");
    reveal_strlit("reply_markup");
    assert("chat_id"@.len() == 7);
    assert("text"@.len() == 4);
    assert("reply_markup"@.len() == 12);
}

/// An edit goes to its message in its chat, with the new text as it is and with its buttons, where
/// it has any.
pub proof fn law_edit_goes_to_its_message(
    chat_id: i64,
    message_id: i64,
    shown: &str,
    markup: Option<Json>,
    res: Json,
)
    requires
        call_ensures(edit_message_payload, (chat_id, message_id, shown, markup), res),
    ensures
        json::i64_in(res@.get("chat_id"@)) == Some(chat_id),
        json::i64_in(res@.get("message_id"@)) == Some(message_id),
        res@.get("text"@) == Some(JsonView::Str(shown@)),
        markup matches Some(markup) ==> res@.get("reply_markup"@) == Some(markup@),
        markup is None ==> res@.get("reply_markup"@) is None,
        json::has_only(res@, set!["chat_id"@, "message_id"@, "text"@, "reply_markup"@]),
{
    reveal_strlit("chat_id");
    reveal_strlit("message_id");
    reveal_strlit("text");
    reveal_strlit("reply_markup");
    assert("chat_id"@.len() == 7);
    assert("message_id"@.len() == 10);
    assert("text"@.len() == 4);
    assert("reply_markup"@.len() == 12);
}

/// A message is deleted from its chat by its id.
pub proof fn law_message_is_deleted_by_its_id(chat_id: i64, message_id: i64, res: Json)
    requires
        call_ensures(delete_message_payload, (chat_id, message_id), res),
    ensures
        json::i64_in(res@.get("chat_id"@)) == Some(chat_id),
        json::i64_in(res@.get("message_id"@)) == Some(message_id),
        json::has_only(res@, set!["chat_id"@, "message_id"@]),
{
    reveal_strlit("chat_id");
    reveal_strlit("message_id");
    assert("chat_id"@.len() == 7);
    assert("message_id"@.len() == 10);
}

/// An old keyboard is taken away from the chat by a message.
pub proof fn law_old_keyboard_is_taken_away(chat_id: i64, res: Json)
    requires
        call_ensures(remove_keyboard_payload, (chat_id,), res),
    ensures
        json::i64_in(res@.get("chat_id"@)) == Some(chat_id),
        res@.get("text"@) == Some(JsonView::Str("正在打开菜单。"@)),
        json::member(res@.get("reply_markup"@), "remove_keyboard"@) == Some(JsonView::Bool(true)),
{
    reveal_strlit("chat_id");
    reveal_strlit("text");
    reveal_strlit("reply_markup");
    assert("chat_id"@.len() == 7);
    assert("text"@.len() == 4);
    assert("reply_markup"@.len() == 12);
}

/// A button is answered by the id under which it was reported.
pub proof fn law_button_is_answered_by_its_id(callback_query_id: &str, res: Json)
    requires
        call_ensures(answer_callback_payload, (callback_query_id,), res),
    ensures
        res@.get("callback_query_id"@) == Some(JsonView::Str(callback_query_id@)),
        json::has_only(res@, set!["callback_query_id"@]),
{
}

/// A call is in order exactly where the answer came with success and says so; what is reported
/// otherwise names the method and what the answer says, or its status.
pub proof fn law_call_is_in_order_where_both_say_so(
    method: &str,
    reply: &TelegramReply,
    res: Result<(), String>,
)
    requires
        call_ensures(telegram_outcome, (method, reply), res),
    ensures
        match *reply {
            TelegramReply::NotSent(error) => res matches Err(said) && said@
                == "请求 Telegram API 失败："@ + error@,
            TelegramReply::Unreadable(error) => res matches Err(said) && said@
                == "解析 Telegram API 响应失败："@ + error@,
            TelegramReply::Answer { success, status, ok, description } => {
                &&& res is Ok <==> success && ok
                &&& res matches Err(said) ==> said@ == "Telegram API "@ + method@ + " 失败："@ + (
                match description {
                    Some(description) => description@,
                    None => status@,
                })
            },
        },
{
}

/// An edit that changes nothing is no error; every other error stays.
pub proof fn law_unchanged_message_is_no_error(
    outcome: Result<(), String>,
    res: Result<(), String>,
)
    requires
        call_ensures(edit_outcome, (outcome,), res),
    ensures
        outcome is Ok ==> res is Ok,
        outcome matches Err(error) ==> {
            &&& text::has_part(error@, "message is not modified"@) ==> res is Ok
            &&& !text::has_part(error@, "message is not modified"@) ==> (res matches Err(said)
                && said@ == error@)
        },
{
}

/// A message that was sent is known by the id in the answer.
pub proof fn law_sent_message_is_known(message_id: Option<i64>, res: Result<i64, String>)
    requires
        call_ensures(sent_message, (message_id,), res),
    ensures
        message_id matches Some(id) ==> (res matches Ok(found) && found == id),
        message_id is None ==> res is Err,
{
}

} // verus!
