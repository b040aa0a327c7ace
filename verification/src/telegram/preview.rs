//! The preview of an answer while it is written: when the message is brought up to date.
use vstd::prelude::*;

use crate::app_server::events::{ProgressModel, TurnProgress};
use crate::telegram::labels;
use crate::text;

verus! {

/// The state of a preview.
#[derive(Debug, Clone, PartialEq, Eq)]
pub struct StreamPreviewState {
    interval_ms: u64,
    min_delta_chars: usize,
    max_chars: usize,
    full_text: String,
    last_sent_text: String,
    last_sent_at_ms: Option<u64>,
}

/// What is known of a preview: how often and after how much it is sent, how long it may be,
/// the text so far, and what was sent last and when.
#[verifier::ext_equal]
pub struct PreviewModel {
    pub interval_ms: u64,
    pub min_delta_chars: nat,
    pub max_chars: nat,
    pub full_text: Seq<char>,
    pub last_sent_text: Seq<char>,
    pub last_sent_at_ms: Option<u64>,
}

impl View for StreamPreviewState {
    type V = PreviewModel;

    closed spec fn view(&self) -> PreviewModel {
        PreviewModel {
            interval_ms: self.interval_ms,
            min_delta_chars: self.min_delta_chars as nat,
            max_chars: self.max_chars as nat,
            full_text: self.full_text@,
            last_sent_text: self.last_sent_text@,
            last_sent_at_ms: self.last_sent_at_ms,
        }
    }
}

impl PreviewModel {
    /// What the preview shows.
    pub open spec fn shown(self) -> Seq<char> {
        labels::cut(self.full_text, self.max_chars)
    }

    /// Whether enough has come, or enough time has passed, since the preview was sent.
    pub open spec fn is_due(self, now_ms: u64) -> bool {
        ||| self.shown().len() - self.last_sent_text.len() >= self.min_delta_chars
        ||| self.min_delta_chars == 0
        ||| self.last_sent_at_ms matches Some(last) && if now_ms < last {
            self.interval_ms == 0
        } else {
            now_ms - last >= self.interval_ms
        }
    }

    /// Whether there is anything new to show.
    pub open spec fn is_new(self) -> bool {
        self.shown() != self.last_sent_text && text::trim(self.shown()).len() > 0
    }

    /// The preview with more text.
    pub open spec fn with(self, delta: Seq<char>) -> PreviewModel {
        PreviewModel { full_text: self.full_text + delta, ..self }
    }
}

impl StreamPreviewState {
    /// A preview of which nothing was sent.
    pub fn new(interval_ms: u64, min_delta_chars: usize, max_chars: usize) -> (res: Self)
        ensures
            res@ == (PreviewModel {
                interval_ms,
                min_delta_chars: min_delta_chars as nat,
                max_chars: max_chars as nat,
                full_text: seq![],
                last_sent_text: seq![],
                last_sent_at_ms: None,
            }),
    {
        let res = StreamPreviewState {
            interval_ms,
            min_delta_chars,
            max_chars,
            full_text: String::new(),
            last_sent_text: String::new(),
            last_sent_at_ms: None,
        };
        assert(res@.full_text =~= seq![]);
        assert(res@.last_sent_text =~= seq![]);
        res
    }

    /// Adds text, and tells what is to be sent now, if anything.
    pub fn push(&mut self, delta: &str, now_ms: u64) -> (res: Option<String>)
        ensures
            ({
                let longer = old(self)@.with(delta@);
                if longer.is_due(now_ms) && longer.is_new() {
                    &&& text::opt_text(res) == Some(longer.shown())
                    &&& final(self)@ == (PreviewModel {
                        last_sent_text: longer.shown(),
                        last_sent_at_ms: Some(now_ms),
                        ..longer
                    })
                } else {
                    &&& res is None
                    &&& final(self)@ == longer
                }
            }),
    {
        self.full_text.append(delta);
        let ghost longer = self@;
        assert(longer =~= old(self)@.with(delta@));
        let shown = labels::truncate(self.full_text.as_str(), self.max_chars);
        let shown_chars = text::chars_of(shown.as_str()).len();
        let sent_chars = text::chars_of(self.last_sent_text.as_str()).len();
        let delta_chars: usize = if shown_chars < sent_chars {
            0
        } else {
            shown_chars - sent_chars
        };
        let interval_elapsed = match self.last_sent_at_ms {
            Some(last) => {
                let passed: u64 = if now_ms < last {
                    0
                } else {
                    now_ms - last
                };
                passed >= self.interval_ms
            },
            None => false,
        };
        if delta_chars < self.min_delta_chars && !interval_elapsed {
            return None;
        }
        if text::eq(shown.as_str(), self.last_sent_text.as_str()) || text::trimmed(
            shown.as_str(),
        ).is_empty() {
            return None;
        }
        self.last_sent_text = shown.clone();
        self.last_sent_at_ms = Some(now_ms);
        Some(shown)
    }
}

/// The preview of a turn in a chat.
pub fn turn_preview() -> (res: StreamPreviewState)
    ensures
        res@ == (PreviewModel {
            interval_ms: 1500,
            min_delta_chars: 40,
            max_chars: 1800,
            full_text: seq![],
            last_sent_text: seq![],
            last_sent_at_ms: None,
        }),
{
    StreamPreviewState::new(1500, 40, 1800)
}

/// The text that progress adds to the preview.
pub open spec fn preview_delta(progress: ProgressModel) -> Option<Seq<char>> {
    match progress {
        ProgressModel::Delta(delta) => Some(delta),
        _ => None,
    }
}

/// Takes progress of a turn into its preview, and tells the text that the message is to have
/// now, if it is to be brought up to date.
pub fn on_progress(preview: &mut StreamPreviewState, progress: &TurnProgress, now_ms: u64) -> (res:
    Option<String>)
    ensures
        match preview_delta(progress@) {
            Some(delta) => {
                let longer = old(preview)@.with(delta);
                if longer.is_due(now_ms) && longer.is_new() {
                    &&& text::opt_text(res) == Some("正在处理...\n\n"@ + longer.shown())
                    &&& final(preview)@ == (PreviewModel {
                        last_sent_text: longer.shown(),
                        last_sent_at_ms: Some(now_ms),
                        ..longer
                    })
                } else {
                    &&& res is None
                    &&& final(preview)@ == longer
                }
            },
            None => res is None && final(preview)@ == old(preview)@,
        },
{
    match progress {
        TurnProgress::Delta(delta) => match preview.push(delta.as_str(), now_ms) {
            Some(shown) => Some(text::cat("正在处理...\n\n", shown.as_str())),
            None => None,
        },
        _ => None,
    }
}

// ---------------------------------------------------------------------------
// Laws
// ---------------------------------------------------------------------------

/// What is sent is never longer than the preview may be, three dots aside.
pub proof fn law_preview_fits(preview: PreviewModel)
    ensures
        preview.shown().len() <= if preview.max_chars < 3 { 3 } else { preview.max_chars },
{
    labels::law_cut_fits(preview.full_text, preview.max_chars);
}

/// After a preview was sent nothing is sent again at any time, unless text comes.
pub proof fn law_nothing_is_sent_twice(preview: PreviewModel, sent_at: u64, now_ms: u64)
    ensures
        ({
            let sent = PreviewModel {
                last_sent_text: preview.shown(),
                last_sent_at_ms: Some(sent_at),
                ..preview
            };
            !(sent.with(seq![]).is_due(now_ms) && sent.with(seq![]).is_new())
        }),
{
    assert(preview.full_text + Seq::<char>::empty() =~= preview.full_text);
}

/// A preview that is new has no text, and nothing of it was sent; that of a turn is sent again
/// after 1500 milliseconds or 40 characters, and shows 1800 at most.
pub proof fn law_new_preview_is_empty(
    interval_ms: u64,
    min_delta_chars: usize,
    max_chars: usize,
    any: StreamPreviewState,
    of_turn: StreamPreviewState,
)
    requires
        call_ensures(StreamPreviewState::new, (interval_ms, min_delta_chars, max_chars), any),
        call_ensures(turn_preview, (), of_turn),
    ensures
        any@.interval_ms == interval_ms,
        any@.min_delta_chars == min_delta_chars,
        any@.max_chars == max_chars,
        any@.full_text.len() == 0,
        any@.last_sent_text.len() == 0,
        any@.last_sent_at_ms is None,
        of_turn@.interval_ms == 1500,
        of_turn@.min_delta_chars == 40,
        of_turn@.max_chars == 1800,
        of_turn@.full_text.len() == 0,
        of_turn@.last_sent_text.len() == 0,
        of_turn@.last_sent_at_ms is None,
{
}

/// Text is added to the preview as it is. It is sent, cut to size, where it is not blank, differs
/// from what was sent last, and is longer by enough or late enough; and not otherwise.
pub proof fn law_preview_is_sent_when_due(
    preview: &mut StreamPreviewState,
    delta: &str,
    now_ms: u64,
    full: &str,
    max: usize,
    shown: String,
    res: Option<String>,
)
    requires
        call_ensures(StreamPreviewState::push, (preview, delta, now_ms), res),
        full@ == old(preview)@.full_text + delta@,
        max == old(preview)@.max_chars,
        call_ensures(labels::truncate, (full, max), shown),
    ensures
        ({
            let before = old(preview)@;
            let after = final(preview)@;
            let enough = shown@.len() >= before.last_sent_text.len() + before.min_delta_chars;
            let late = match before.last_sent_at_ms {
                Some(sent) => now_ms >= sent + before.interval_ms || before.interval_ms == 0,
                None => false,
            };
            let fresh = shown@ != before.last_sent_text && !text::is_blank(shown@);
            &&& after.full_text == before.full_text + delta@
            &&& (enough || late || before.min_delta_chars == 0) && fresh ==> text::opt_text(res)
                == Some(shown@) && after.last_sent_text == shown@ && after.last_sent_at_ms == Some(
                now_ms,
            )
            &&& !((enough || late || before.min_delta_chars == 0) && fresh) ==> res is None
                && after.last_sent_text == before.last_sent_text && after.last_sent_at_ms
                == before.last_sent_at_ms
            &&& after.interval_ms == before.interval_ms
            &&& after.min_delta_chars == before.min_delta_chars
            &&& after.max_chars == before.max_chars
        }),
{
    text::lemma_trim_blank(shown@);
}

/// Only text that is added goes into the preview, and what is sent stands under the words that the
/// turn is being worked on.
pub proof fn law_only_text_goes_into_the_preview(
    preview: &mut StreamPreviewState,
    again: &mut StreamPreviewState,
    progress: &TurnProgress,
    delta: &str,
    now_ms: u64,
    pushed: Option<String>,
    res: Option<String>,
)
    requires
        call_ensures(on_progress, (preview, progress, now_ms), res),
        call_ensures(StreamPreviewState::push, (again, delta, now_ms), pushed),
        old(preview)@ == old(again)@,
        progress@ matches ProgressModel::Delta(text) ==> delta@ == text,
    ensures
        progress@ is Delta ==> final(preview)@ == final(again)@ && text::opt_text(res)
            == match pushed {
            Some(shown) => Some("正在处理...\n\n"@ + shown@),
            None => None,
        },
        !(progress@ is Delta) ==> res is None && final(preview)@ == old(preview)@,
{
}

} // verus!
