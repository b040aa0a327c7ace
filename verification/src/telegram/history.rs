//! The history of a thread, as it is shown in a chat.
use vstd::prelude::*;

use crate::app_server::replies;
use crate::json;
use crate::json::{Json, JsonView};
use crate::telegram::labels;
use crate::text;

verus! {

/// The first text among the parts of a content.
pub open spec fn first_part_text(parts: Seq<JsonView>) -> Option<Seq<char>>
    decreases parts.len(),
{
    if parts.len() == 0 {
        None
    } else if json::text_at(parts[0], "text"@) is Some {
        json::text_at(parts[0], "text"@)
    } else {
        first_part_text(parts.skip(1))
    }
}

/// The text of an item.
pub open spec fn item_text(item: JsonView) -> Option<Seq<char>> {
    let plain = json::text_in(
        if item.get_either("text"@, "content"@) is Some {
            item.get_either("text"@, "content"@)
        } else {
            item.get("message"@)
        },
    );
    if plain is Some {
        plain
    } else {
        match item.get("content"@) {
            Some(JsonView::Array(parts)) => first_part_text(parts),
            _ => None,
        }
    }
}

/// A member that is a string, or nothing.
pub open spec fn text_or_none(item: JsonView, key: Seq<char>) -> Seq<char> {
    match json::text_at(item, key) {
        Some(s) => s,
        None => seq![],
    }
}

/// Who an item is of.
pub open spec fn speaker(item: JsonView) -> Option<Seq<char>> {
    let role = text_or_none(item, "role"@);
    let kind = text_or_none(item, "type"@);
    if role == "user"@ || text::has_part(kind, "user"@) {
        Some("你"@)
    } else if role == "assistant"@ || role == "agent"@ || text::has_part(kind, "agent"@)
        || text::has_part(kind, "assistant"@) {
        Some("Codex"@)
    } else {
        None
    }
}

/// Who an item is of, and its text, where it is not blank.
pub open spec fn summary(item: JsonView) -> Option<(Seq<char>, Seq<char>)> {
    match item_text(item) {
        Some(s) => if text::trim(s).len() == 0 {
            None
        } else {
            match speaker(item) {
                Some(who) => Some((who, s)),
                None => None,
            }
        },
        None => None,
    }
}

/// The first text among the parts of a content.
fn first_text<'a>(parts: &'a Vec<Json>) -> (res: Option<&'a str>)
    ensures
        text::opt_str(res) == first_part_text(json::array_view(parts@)),
{
    let ghost views = json::array_view(parts@);
    let mut i: usize = 0;
    assert(views.skip(0) =~= views);
    while i < parts.len()
        invariant
            i <= parts@.len(),
            views == json::array_view(parts@),
            first_part_text(views) == first_part_text(views.skip(i as int)),
        decreases parts.len() - i,
    {
        assert(views.skip(i as int)[0] == parts@[i as int]@);
        assert(views.skip(i as int).skip(1) =~= views.skip(i + 1));
        if let Some(found) = json::str_in(parts[i].get("text")) {
            return Some(found);
        }
        i += 1;
    }
    None
}

/// The text of an item.
fn text_of_item<'a>(item: &'a Json) -> (res: Option<&'a str>)
    ensures
        text::opt_str(res) == item_text(item@),
{
    let plain = match item.get_either("text", "content") {
        Some(found) => Some(found),
        None => item.get("message"),
    };
    if let Some(found) = json::str_in(plain) {
        return Some(found);
    }
    match item.get("content") {
        Some(content) => match content.as_array() {
            Some(parts) => first_text(parts),
            None => None,
        },
        None => None,
    }
}

/// A member that is a string, or nothing.
fn member_text<'a>(item: &'a Json, key: &str) -> (res: &'a str)
    ensures
        res@ == text_or_none(item@, key@),
{
    match json::str_in(item.get(key)) {
        Some(s) => s,
        None => {
            proof {
                reveal_strlit("");
                assert(""@ =~= seq![]);
            }
            ""
        },
    }
}

/// Who an item is of, and its text.
pub fn summarize_history_item<'a>(item: &'a Json) -> (res: Option<(&'static str, &'a str)>)
    ensures
        match res {
            Some((who, s)) => summary(item@) == Some((who@, s@)),
            None => summary(item@) is None,
        },
{
    let found = match text_of_item(item) {
        Some(found) => found,
        None => {
            return None;
        },
    };
    if text::trimmed(found).is_empty() {
        return None;
    }
    let role = member_text(item, "role");
    let kind = member_text(item, "type");
    if text::eq(role, "user") || text::holds_part(kind, "user") {
        Some(("你", found))
    } else if text::eq(role, "assistant") || text::eq(role, "agent") || text::holds_part(
        kind,
        "agent",
    ) || text::holds_part(kind, "assistant") {
        Some(("Codex", found))
    } else {
        None
    }
}

/// The line of an item: who it is of, and its text, cut to size.
pub open spec fn line(item: JsonView) -> Option<Seq<char>> {
    match summary(item) {
        Some((who, s)) => {
            let shown = labels::cut(text::trim(s), 700);
            if shown.len() > 0 {
                Some(who + "："@ + shown)
            } else {
                None
            }
        },
        None => None,
    }
}

/// The line of an item.
fn line_of(item: &Json) -> (res: Option<String>)
    ensures
        text::opt_text(res) == line(item@),
{
    match summarize_history_item(item) {
        Some((who, s)) => {
            let shown = labels::truncate(text::trimmed(s), 700);
            if shown.as_str().is_empty() {
                None
            } else {
                Some(text::cat3(who, "：", shown.as_str()))
            }
        },
        None => None,
    }
}

/// The items of a turn; a turn without a list of them is its own item.
pub open spec fn turn_items(turn: JsonView) -> Seq<JsonView> {
    match turn.get_either("items"@, "messages"@) {
        Some(JsonView::Array(items)) => items,
        _ => seq![turn],
    }
}

/// The lines of some items.
pub open spec fn lines_of_items(items: Seq<JsonView>) -> Seq<Seq<char>>
    decreases items.len(),
{
    if items.len() == 0 {
        seq![]
    } else {
        let before = lines_of_items(items.drop_last());
        match line(items.last()) {
            Some(found) => before.push(found),
            None => before,
        }
    }
}

/// The lines of some turns.
pub open spec fn lines_of_turns(turns: Seq<JsonView>) -> Seq<Seq<char>>
    decreases turns.len(),
{
    if turns.len() == 0 {
        seq![]
    } else {
        lines_of_turns(turns.drop_last()) + lines_of_items(turn_items(turns.last()))
    }
}

/// The text of some turns.
pub open spec fn history_text(turns: Seq<JsonView>) -> Seq<char> {
    text::join(lines_of_turns(turns), "\n\n"@)
}

/// Adds the lines of some items.
fn add_lines(lines: &mut Vec<String>, items: &Vec<Json>)
    ensures
        text::texts(final(lines)@) == text::texts(old(lines)@) + lines_of_items(
            json::array_view(items@),
        ),
{
    let ghost before = text::texts(lines@);
    let ghost views = json::array_view(items@);
    let mut i: usize = 0;
    assert(views.take(0) =~= Seq::<JsonView>::empty());
    assert(before + Seq::<Seq<char>>::empty() =~= before);
    while i < items.len()
        invariant
            i <= items@.len(),
            views == json::array_view(items@),
            text::texts(lines@) == before + lines_of_items(views.take(i as int)),
        decreases items.len() - i,
    {
        proof {
            assert(views.take(i + 1).drop_last() =~= views.take(i as int));
            assert(views.take(i + 1).last() == items@[i as int]@);
        }
        if let Some(found) = line_of(&items[i]) {
            let ghost now = lines@;
            let ghost view = found@;
            lines.push(found);
            assert(text::texts(lines@) =~= text::texts(now).push(view));
            assert(text::texts(lines@) =~= before + lines_of_items(views.take(i + 1)));
        }
        i += 1;
    }
    assert(views.take(views.len() as int) =~= views);
}

/// Adds the line of a turn that is its own item.
fn add_line(lines: &mut Vec<String>, turn: &Json)
    ensures
        text::texts(final(lines)@) == text::texts(old(lines)@) + lines_of_items(seq![turn@]),
{
    let ghost before = text::texts(lines@);
    proof {
        assert(seq![turn@].drop_last() =~= Seq::<JsonView>::empty());
        assert(lines_of_items(Seq::<JsonView>::empty()) == Seq::<Seq<char>>::empty());
        assert(seq![turn@].last() == turn@);
    }
    match line_of(turn) {
        Some(found) => {
            let ghost view = found@;
            lines.push(found);
            assert(text::texts(lines@) =~= before + lines_of_items(seq![turn@]));
        },
        None => {
            assert(text::texts(lines@) =~= before + lines_of_items(seq![turn@]));
        },
    }
}

/// The text of some turns, the oldest first.
pub fn format_turn_history(turns: &Vec<Json>) -> (res: String)
    ensures
        res@ == history_text(json::array_view(turns@)),
{
    let ghost views = json::array_view(turns@);
    let mut lines: Vec<String> = Vec::new();
    let mut i: usize = 0;
    assert(views.take(0) =~= Seq::<JsonView>::empty());
    assert(text::texts(lines@) =~= Seq::<Seq<char>>::empty());
    while i < turns.len()
        invariant
            i <= turns@.len(),
            views == json::array_view(turns@),
            text::texts(lines@) == lines_of_turns(views.take(i as int)),
        decreases turns.len() - i,
    {
        proof {
            assert(views.take(i + 1).drop_last() =~= views.take(i as int));
            assert(views.take(i + 1).last() == turns@[i as int]@);
        }
        let turn = &turns[i];
        let found = match turn.get_either("items", "messages") {
            Some(found) => found.as_array(),
            None => None,
        };
        match found {
            Some(items) => add_lines(&mut lines, items),
            None => add_line(&mut lines, turn),
        }
        i += 1;
    }
    assert(views.take(views.len() as int) =~= views);
    text::joined(&lines, "\n\n")
}

/// The page of the latest turns, given the reply to the request for them, which is newest first.
pub open spec fn history_page(reply: JsonView) -> Result<Seq<char>, Seq<char>> {
    match replies::turns_reply(reply) {
        Ok(turns) => {
            let body = history_text(turns.reverse());
            if text::trim(body).len() == 0 {
                Ok("最近聊天记录：\n暂无可显示内容。"@)
            } else {
                Ok("最近聊天记录：\n"@ + body)
            }
        },
        Err(message) => Err(message),
    }
}

/// The turns in the opposite order.
fn reversed(turns: Vec<Json>) -> (res: Vec<Json>)
    ensures
        json::array_view(res@) == json::array_view(turns@).reverse(),
{
    let mut res: Vec<Json> = Vec::new();
    let mut i: usize = turns.len();
    while i > 0
        invariant
            i <= turns@.len(),
            res@.len() == turns@.len() - i,
            forall|k: int|
                0 <= k < res@.len() ==> (#[trigger] res@[k])@ == turns@[turns@.len() - 1 - k]@,
        decreases i,
    {
        i -= 1;
        res.push(json::copy_of(&turns[i]));
    }
    assert(json::array_view(res@) =~= json::array_view(turns@).reverse());
    res
}

/// The page of the latest turns, given the reply to the request for them.
pub fn thread_history_text(reply: Json) -> (res: Result<String, String>)
    ensures
        text::result_text(res) == history_page(reply@),
{
    let turns = match replies::parse_thread_turns_list_result(reply) {
        Ok(turns) => turns,
        Err(message) => {
            return Err(message);
        },
    };
    let body = format_turn_history(&reversed(turns));
    if text::trimmed(body.as_str()).is_empty() {
        Ok("最近聊天记录：\n暂无可显示内容。".to_owned())
    } else {
        Ok(text::cat("最近聊天记录：\n", body.as_str()))
    }
}

// ---------------------------------------------------------------------------
// Laws
// ---------------------------------------------------------------------------

/// Whether an item says a text: as its text, as its content, as its message, or as the first text
/// among the parts of its content.
pub open spec fn item_says(item: JsonView, said: Seq<char>) -> bool {
    ||| item.get("text"@) == Some(JsonView::Str(said))
    ||| item.get("text"@) is None && item.get("content"@) == Some(JsonView::Str(said))
    ||| item.get("text"@) is None && item.get("content"@) is None && item.get("message"@) == Some(
        JsonView::Str(said),
    )
    ||| item.get("text"@) is None && (item.get("content"@) matches Some(JsonView::Array(parts))
        && parts.len() > 0 && parts[0].get("text"@) == Some(JsonView::Str(said)))
}

/// What an item says is told as it is, in the name of the user or of the agent by the role of the
/// item; what is blank, or of neither, is not told.
pub proof fn law_item_is_told_in_its_name<'a>(
    item: &'a Json,
    said: Seq<char>,
    res: Option<(&'static str, &'a str)>,
)
    requires
        call_ensures(summarize_history_item, (item,), res),
        item_says(item@, said),
    ensures
        text::is_blank(said) ==> res is None,
        item@.get("role"@) == Some(JsonView::Str("user"@)) && !text::is_blank(said) ==> (
        res matches Some((who, told)) && who@ == "你"@ && told@ == said),
        (item@.get("role"@) == Some(JsonView::Str("assistant"@)) || item@.get("role"@) == Some(
            JsonView::Str("agent"@),
        )) && item@.get("type"@) is None && !text::is_blank(said) ==> (res matches Some((who, told))
            && who@ == "Codex"@ && told@ == said),
        item@.get("role"@) is None && item@.get("type"@) is None ==> res is None,
        item@.get("role"@) is None && item@.get("type"@) == Some(JsonView::Str("userMessage"@))
            && !text::is_blank(said) ==> (res matches Some((who, told)) && who@ == "你"@ && told@
            == said),
        item@.get("role"@) is None && item@.get("type"@) == Some(JsonView::Str("agentMessage"@))
            && !text::is_blank(said) ==> (res matches Some((who, told)) && who@ == "Codex"@ && told@
            == said),
{
    text::lemma_trim_blank(said);
    reveal_strlit("user");
    reveal_strlit("assistant");
    reveal_strlit("agent");
    reveal_strlit("userMessage");
    reveal_strlit("agentMessage");
    assert("user"@.len() == 4);
    assert("assistant"@.len() == 9);
    assert("agent"@.len() == 5);
    assert("userMessage"@.len() == 11);
    assert("agentMessage"@.len() == 12);
    assert("userMessage"@.subrange(0, 4) =~= "user"@);
    assert(text::occurs_at("userMessage"@, "user"@, 0));
    assert("agentMessage"@.subrange(0, 5) =~= "agent"@);
    assert(text::occurs_at("agentMessage"@, "agent"@, 0));
    let none = Seq::<char>::empty();
    if text::has_part(none, "user"@) {
        let at = choose|at: int| text::occurs_at(none, "user"@, at);
    }
    if text::has_part(none, "agent"@) {
        let at = choose|at: int| text::occurs_at(none, "agent"@, at);
    }
    if text::has_part(none, "assistant"@) {
        let at = choose|at: int| text::occurs_at(none, "assistant"@, at);
    }
    if text::has_part("agentMessage"@, "user"@) {
        let at = choose|at: int| text::occurs_at("agentMessage"@, "user"@, at);
        let part = "agentMessage"@.subrange(at, at + 4);
        assert(part[0] == "agentMessage"@[at]);
        assert("user"@[0] == 'u');
        assert(at == 0 || at == 1 || at == 2 || at == 3 || at == 4 || at == 5 || at == 6 || at == 7
            || at == 8);
    }
}

/// What an item says where it has a type that names the user or the agent is told in that name.
pub proof fn law_speaker_is_named_by_the_type(item: JsonView, kind: Seq<char>)
    requires
        item.get("role"@) is None,
        item.get("type"@) == Some(JsonView::Str(kind)),
    ensures
        text::has_part(kind, "user"@) ==> speaker(item) == Some("你"@),
        !text::has_part(kind, "user"@) && (text::has_part(kind, "agent"@) || text::has_part(
            kind,
            "assistant"@,
        )) ==> speaker(item) == Some("Codex"@),
        !text::has_part(kind, "user"@) && !text::has_part(kind, "agent"@) && !text::has_part(
            kind,
            "assistant"@,
        ) ==> speaker(item) is None,
{
    reveal_strlit("user");
    reveal_strlit("assistant");
    reveal_strlit("agent");
    assert("user"@.len() == 4);
    assert("assistant"@.len() == 9);
    assert("agent"@.len() == 5);
}

/// The line of an item is who it is of and what it says, trimmed and cut to size.
proof fn lemma_line(item: JsonView)
    ensures
        line(item) is Some <==> summary(item) is Some,
        summary(item) matches Some((who, said)) ==> line(item) == Some(
            who + "："@ + labels::cut(text::trim(said), 700),
        ),
{
    if let Some((who, said)) = summary(item) {
        reveal_strlit("...");
        assert(labels::cut(text::trim(said), 700).len() > 0);
    }
}

/// The lines of items that all have one are these, in order.
proof fn lemma_lines(items: Seq<JsonView>, lines: Seq<Seq<char>>)
    requires
        items.len() == lines.len(),
        forall|i: int| 0 <= i < items.len() ==> line(#[trigger] items[i]) == Some(lines[i]),
    ensures
        lines_of_items(items) == lines,
    decreases items.len(),
{
    if items.len() > 0 {
        let front = items.drop_last();
        assert forall|i: int| 0 <= i < front.len() implies line(#[trigger] front[i]) == Some(
            lines.drop_last()[i],
        ) by {
            assert(front[i] == items[i]);
        }
        lemma_lines(front, lines.drop_last());
        assert(line(items[items.len() - 1]) == Some(lines[items.len() - 1]));
    }
    assert(lines_of_items(items) =~= lines);
}

/// The history of a turn tells its items in order, each in the name it is of and with what it
/// says, trimmed and cut to size, with an empty line between them.
pub proof fn law_turn_is_told_item_by_item(
    turns: &Vec<Json>,
    items: Seq<JsonView>,
    who: Seq<Seq<char>>,
    said: Seq<Seq<char>>,
    res: String,
)
    requires
        call_ensures(format_turn_history, (turns,), res),
        turns@.len() == 1,
        turns@[0]@.get("items"@) == Some(JsonView::Array(items)) || turns@[0]@.get("items"@) is None
            && turns@[0]@.get("messages"@) == Some(JsonView::Array(items)),
        who.len() == items.len(),
        said.len() == items.len(),
        forall|i: int|
            0 <= i < items.len() ==> summary(#[trigger] items[i]) == Some((who[i], said[i])),
    ensures
        res@ == text::join(
            Seq::new(
                items.len(),
                |i: int| who[i] + "："@ + labels::cut(text::trim(said[i]), 700),
            ),
            "\n\n"@,
        ),
{
    let views = json::array_view(turns@);
    let lines = Seq::new(
        items.len(),
        |i: int| who[i] + "："@ + labels::cut(text::trim(said[i]), 700),
    );
    assert forall|i: int| 0 <= i < items.len() implies line(#[trigger] items[i]) == Some(
        lines[i],
    ) by {
        lemma_line(items[i]);
    }
    lemma_lines(items, lines);
    assert(views.drop_last() =~= Seq::<JsonView>::empty());
    assert(views.last() == turns@[0]@);
    assert(lines_of_turns(views.drop_last()) == Seq::<Seq<char>>::empty());
    assert(lines_of_turns(views) =~= lines);
}

/// The lines of joined lists of turns are those of the lists, joined.
proof fn lemma_lines_joined(a: Seq<JsonView>, b: Seq<JsonView>)
    ensures
        lines_of_turns(a + b) == lines_of_turns(a) + lines_of_turns(b),
    decreases b.len(),
{
    if b.len() == 0 {
        assert(a + b =~= a);
        assert(lines_of_turns(a) + lines_of_turns(b) =~= lines_of_turns(a));
    } else {
        lemma_lines_joined(a, b.drop_last());
        assert((a + b).drop_last() =~= a + b.drop_last());
        assert((a + b).last() == b.last());
        assert(lines_of_turns(a + b) =~= lines_of_turns(a) + lines_of_turns(b));
    }
}

/// Joining joined lists joins what they join to.
proof fn lemma_join_joined(a: Seq<Seq<char>>, b: Seq<Seq<char>>, sep: Seq<char>)
    requires
        a.len() > 0,
        b.len() > 0,
    ensures
        text::join(a + b, sep) == text::join(a, sep) + sep + text::join(b, sep),
    decreases b.len(),
{
    assert((a + b).drop_last() =~= a + b.drop_last());
    assert((a + b).last() == b.last());
    if b.len() == 1 {
        assert(a + b.drop_last() =~= a);
        assert(text::join(a + b, sep) =~= text::join(a, sep) + sep + text::join(b, sep));
    } else {
        lemma_join_joined(a, b.drop_last(), sep);
        assert(text::join(a + b, sep) =~= text::join(a, sep) + sep + text::join(b, sep));
    }
}

/// The history of some turns and of those after them is the one history after the other, with an
/// empty line between them.
pub proof fn law_histories_follow_each_other(
    first: &Vec<Json>,
    second: &Vec<Json>,
    both: &Vec<Json>,
    a: String,
    b: String,
    res: String,
)
    requires
        call_ensures(format_turn_history, (first,), a),
        call_ensures(format_turn_history, (second,), b),
        call_ensures(format_turn_history, (both,), res),
        json::array_view(both@) == json::array_view(first@) + json::array_view(second@),
    ensures
        a@.len() > 0 && b@.len() > 0 ==> res@ == a@ + "\n\n"@ + b@,
{
    let x = json::array_view(first@);
    let y = json::array_view(second@);
    lemma_lines_joined(x, y);
    if lines_of_turns(x).len() > 0 && lines_of_turns(y).len() > 0 {
        lemma_join_joined(lines_of_turns(x), lines_of_turns(y), "\n\n"@);
    }
}

/// The page of the latest turns tells them from the oldest to the newest, though the reply lists
/// the newest first, under its title; a page without anything to tell says so.
pub proof fn law_page_tells_the_oldest_first(
    reply: Json,
    listed: Result<Vec<Json>, String>,
    turns: &Vec<Json>,
    body: String,
    res: Result<String, String>,
)
    requires
        call_ensures(thread_history_text, (reply,), res),
        call_ensures(replies::parse_thread_turns_list_result, (reply,), listed),
        listed matches Ok(found) ==> json::array_view(turns@) == json::array_view(
            found@,
        ).reverse(),
        call_ensures(format_turn_history, (turns,), body),
    ensures
        match listed {
            Ok(_) => res matches Ok(page) && page@ == "最近聊天记录：\n"@ + (if text::is_blank(
                body@,
            ) {
                "暂无可显示内容。"@
            } else {
                body@
            }),
            Err(message) => res matches Err(said) && said@ == message@,
        },
{
    text::lemma_trim_blank(body@);
    reveal_strlit("最近聊天记录：\n");
    reveal_strlit("暂无可显示内容。");
    reveal_strlit("最近聊天记录：\n暂无可显示内容。");
    assert("最近聊天记录：\n"@ + "暂无可显示内容。"@ =~= "最近聊天记录：\n暂无可显示内容。"@);
}

/// A part of a content that has no text does not matter before others.
pub proof fn law_parts_without_text_are_passed_over<'a>(
    with: &'a Json,
    without: &'a Json,
    members: Map<Seq<char>, JsonView>,
    part: JsonView,
    rest: Seq<JsonView>,
    a: Option<(&'static str, &'a str)>,
    b: Option<(&'static str, &'a str)>,
)
    requires
        call_ensures(summarize_history_item, (with,), a),
        call_ensures(summarize_history_item, (without,), b),
        with@ == JsonView::Object(
            members.insert("content"@, JsonView::Array(seq![part] + rest)),
        ),
        without@ == JsonView::Object(members.insert("content"@, JsonView::Array(rest))),
        !(part.get("text"@) matches Some(JsonView::Str(_))),
    ensures
        a is Some <==> b is Some,
        a matches Some((who, said)) ==> (b matches Some((other, told)) && who@ == other@ && said@
            == told@),
{
    reveal_strlit("content");
    reveal_strlit("text");
    reveal_strlit("message");
    reveal_strlit("role");
    reveal_strlit("type");
    assert("content"@.len() == 7);
    assert("text"@.len() == 4);
    assert("message"@.len() == 7);
    assert("role"@.len() == 4);
    assert("type"@.len() == 4);
    assert("content"@[0] == 'c');
    assert("text"@[0] == 't');
    assert("text"@[1] == 'e');
    assert("message"@[0] == 'm');
    assert("role"@[0] == 'r');
    assert("type"@[0] == 't');
    assert("type"@[1] == 'y');
    assert((seq![part] + rest).skip(1) =~= rest);
    assert((seq![part] + rest)[0] == part);
}

} // verus!
