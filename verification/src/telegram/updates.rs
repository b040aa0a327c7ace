//! Updates that Telegram sends: what they hold, and what the bot makes of them.
use vstd::prelude::*;

use crate::telegram::bot::{BotModel, BotState, BotStep, StepModel};
use crate::telegram::config::as_opt_str;
use crate::text;

verus! {

/// A message, as far as the bot looks at it.
#[derive(Debug, Clone, PartialEq, Eq)]
pub struct Message {
    pub chat_id: i64,
    pub message_id: i64,
    pub from: Option<i64>,
    pub text: Option<String>,
}

/// A button that was pressed: who pressed it, the chat and the message that it is in, and its
/// data.
#[derive(Debug, Clone, PartialEq, Eq)]
pub struct CallbackQuery {
    pub id: String,
    pub from: i64,
    pub message: Option<(i64, i64)>,
    pub data: Option<String>,
}

/// An update.
#[derive(Debug, Clone, PartialEq, Eq)]
pub struct Update {
    pub update_id: i64,
    pub message: Option<Message>,
    pub edited_message: Option<Message>,
    pub callback_query: Option<CallbackQuery>,
}

/// The offset from which updates are asked for after one with the given id.
pub fn next_offset(update_id: i64) -> (res: i64)
    requires
        update_id < i64::MAX,
    ensures
        res == update_id + 1,
{
    update_id + 1
}

/// The button that an update is about: none where the update is about a message.
pub open spec fn pressed(update: Update) -> Option<CallbackQuery> {
    if update.message is Some || update.edited_message is Some {
        None
    } else {
        update.callback_query
    }
}

/// The id under which Telegram is told that a button was noticed, before anything else is done
/// about an update.
pub fn callback_to_answer(update: &Update) -> (res: Option<String>)
    ensures
        text::opt_text(res) == match pressed(*update) {
            Some(callback) => Some(callback.id@),
            None => None,
        },
{
    if update.message.is_some() || update.edited_message.is_some() {
        return None;
    }
    match &update.callback_query {
        Some(callback) => Some(callback.id.clone()),
        None => None,
    }
}

impl BotModel {
    /// What is remembered and done about an update: a message counts before a message that was
    /// edited, and both count before a button.
    pub open spec fn on_update(self, update: Update, task_finished: bool) -> (
        BotModel,
        StepModel,
    ) {
        match (update.message, update.edited_message, update.callback_query) {
            (Some(message), _, _) => self.on_message(
                message.from,
                message.chat_id,
                message.message_id,
                text::opt_text(message.text),
                task_finished,
            ),
            (None, Some(message), _) => self.on_edited_message(
                message.from,
                message.chat_id,
                message.message_id,
                text::opt_text(message.text),
                task_finished,
            ),
            (None, None, Some(callback)) => self.on_callback(
                callback.from,
                callback.message,
                text::opt_text(callback.data),
                task_finished,
            ),
            (None, None, None) => (self, StepModel::Nothing),
        }
    }
}

impl BotState {
    /// Decides about an update.
    pub fn on_update(&mut self, update: &Update, task_finished: bool) -> (res: BotStep)
        ensures
            (final(self)@, res@) == old(self)@.on_update(*update, task_finished),
    {
        if let Some(message) = &update.message {
            return self.on_message(
                message.from,
                message.chat_id,
                message.message_id,
                as_opt_str(&message.text),
                task_finished,
            );
        }
        if let Some(message) = &update.edited_message {
            return self.on_edited_message(
                message.from,
                message.chat_id,
                message.message_id,
                as_opt_str(&message.text),
                task_finished,
            );
        }
        if let Some(callback) = &update.callback_query {
            return self.on_callback(
                callback.from,
                callback.message,
                as_opt_str(&callback.data),
                task_finished,
            );
        }
        BotStep::Nothing
    }
}

// ---------------------------------------------------------------------------
// Laws
// ---------------------------------------------------------------------------

/// No update is asked for twice, and none is left out.
pub proof fn law_next_update_follows(update_id: i64, res: i64)
    requires
        call_ensures(next_offset, (update_id,), res),
    ensures
        res == update_id + 1,
{
}

/// A button is answered where the update is about it and not about a message.
pub proof fn law_button_alone_is_answered(update: &Update, res: Option<String>)
    requires
        call_ensures(callback_to_answer, (update,), res),
    ensures
        update.message is Some || update.edited_message is Some ==> res is None,
        update.message is None && update.edited_message is None ==> text::opt_text(res)
            == match update.callback_query {
            Some(callback) => Some(callback.id@),
            None => None,
        },
{
}

/// An update with a message is that message, whatever else it holds.
pub proof fn law_update_with_a_message_is_the_message(
    bot: &mut BotState,
    again: &mut BotState,
    update: &Update,
    message: Message,
    sent: Option<&str>,
    task_finished: bool,
    res: BotStep,
    step: BotStep,
)
    requires
        call_ensures(BotState::on_update, (bot, update, task_finished), res),
        update.message == Some(message),
        text::opt_str(sent) == text::opt_text(message.text),
        call_ensures(
            BotState::on_message,
            (again, message.from, message.chat_id, message.message_id, sent, task_finished),
            step,
        ),
        old(bot)@ == old(again)@,
    ensures
        res@ == step@,
        final(bot)@ == final(again)@,
{
}

/// An update without a message and with an edited one is that edited one.
pub proof fn law_update_with_an_edit_is_the_edit(
    bot: &mut BotState,
    again: &mut BotState,
    update: &Update,
    message: Message,
    sent: Option<&str>,
    task_finished: bool,
    res: BotStep,
    step: BotStep,
)
    requires
        call_ensures(BotState::on_update, (bot, update, task_finished), res),
        update.message is None,
        update.edited_message == Some(message),
        text::opt_str(sent) == text::opt_text(message.text),
        call_ensures(
            BotState::on_edited_message,
            (again, message.from, message.chat_id, message.message_id, sent, task_finished),
            step,
        ),
        old(bot)@ == old(again)@,
    ensures
        res@ == step@,
        final(bot)@ == final(again)@,
{
}

/// An update with a button alone is that button, and one with nothing does nothing.
pub proof fn law_update_with_a_button_is_the_button(
    bot: &mut BotState,
    again: &mut BotState,
    update: &Update,
    callback: CallbackQuery,
    data: Option<&str>,
    task_finished: bool,
    res: BotStep,
    step: BotStep,
)
    requires
        call_ensures(BotState::on_update, (bot, update, task_finished), res),
        update.message is None,
        update.edited_message is None,
        text::opt_str(data) == text::opt_text(callback.data),
        call_ensures(
            BotState::on_callback,
            (again, callback.from, callback.message, data, task_finished),
            step,
        ),
        old(bot)@ == old(again)@,
    ensures
        update.callback_query == Some(callback) ==> res@ == step@ && final(bot)@ == final(again)@,
        update.callback_query is None ==> res@ == StepModel::Nothing && final(bot)@ == old(bot)@,
{
}

} // verus!
