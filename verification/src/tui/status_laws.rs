//! Which messages are shown, how, and for how long; how typed text is told from
//! pasted text.

use vstd::prelude::*;

use crate::compaction::request_laws::lemma_contains_middle;
use crate::text::{ascii_lowercase, contains_text};
use crate::text_laws::{all_blank, trimming_takes_outer_blanks};
use crate::tui::app::statuses::{active_of, without_expired, StatusModel};
use crate::tui::app::{App, StatusState};
use crate::tui::paste_burst::{elapsed, PasteBurstModel};
use crate::tui::recall::last_of;
use crate::tui::status::{status_class, StatusToastLevel, ToastModel};

verus! {

// ---------------------------------------------------------------------------
// How messages are shown
// ---------------------------------------------------------------------------

/// Words that ask for lasting attention.
pub open spec fn is_lasting_word(word: Seq<char>) -> bool {
    word == "offline mode"@ || word == "context critical"@
}

/// Words that report a failure.
pub open spec fn is_failure_word(word: Seq<char>) -> bool {
    word == "error"@ || word == "failed"@ || word == "denied"@ || word == "timeout"@ || word
        == "aborted"@ || word == "critical"@
}

/// Words that report a success.
pub open spec fn is_success_word(word: Seq<char>) -> bool {
    word == "saved"@ || word == "loaded"@ || word == "queued"@ || word == "found"@ || word
        == "enabled"@ || word == "completed"@
}

/// Words of warning.
pub open spec fn is_warning_word(word: Seq<char>) -> bool {
    word == "cancelled"@ || word == "warning"@
}

/// A text holds a word, in whatever case.
pub open spec fn says(text: Seq<char>, word: Seq<char>) -> bool {
    contains_text(ascii_lowercase(text), word)
}

proof fn lemma_says(before: Seq<char>, written: Seq<char>, behind: Seq<char>)
    ensures
        says(before + written + behind, ascii_lowercase(written)),
{
    let all = before + written + behind;
    assert(ascii_lowercase(all) =~= ascii_lowercase(before) + ascii_lowercase(written)
        + ascii_lowercase(behind));
    lemma_contains_middle(
        ascii_lowercase(before),
        ascii_lowercase(written),
        ascii_lowercase(behind),
    );
}

/// Words that ask for lasting attention make a message stick without end,
/// wherever they stand and in whatever case.
pub proof fn lasting_words_stick(before: Seq<char>, written: Seq<char>, behind: Seq<char>)
    requires
        is_lasting_word(ascii_lowercase(written)),
    ensures
        ({
            let class = status_class(before + written + behind);
            class.level == StatusToastLevel::Warning && class.ttl_ms is None && class.sticky
        }),
{
    lemma_says(before, written, behind);
}

/// Words that report a failure make a message an error that sticks for fifteen
/// seconds, unless others ask for lasting attention.
pub proof fn failures_stick_for_a_while(before: Seq<char>, written: Seq<char>, behind: Seq<char>)
    requires
        is_failure_word(ascii_lowercase(written)),
        forall|w: Seq<char>| is_lasting_word(w) ==> !says(before + written + behind, w),
    ensures
        ({
            let class = status_class(before + written + behind);
            class.level == StatusToastLevel::Error && class.ttl_ms == Some(15_000u64)
                && class.sticky
        }),
{
    lemma_says(before, written, behind);
    assert(is_lasting_word("offline mode"@) && is_lasting_word("context critical"@));
}

/// Words that report a success make a message pass after five seconds, unless
/// a failure is reported too.
pub proof fn successes_pass(before: Seq<char>, written: Seq<char>, behind: Seq<char>)
    requires
        is_success_word(ascii_lowercase(written)),
        forall|w: Seq<char>|
            is_lasting_word(w) || is_failure_word(w) ==> !says(before + written + behind, w),
    ensures
        ({
            let class = status_class(before + written + behind);
            class.level == StatusToastLevel::Success && class.ttl_ms == Some(5_000u64)
                && !class.sticky
        }),
{
    lemma_says(before, written, behind);
    lemma_all_words();
}

/// Words of warning make a message a warning that passes after five seconds,
/// unless it says more than that.
pub proof fn warnings_pass(before: Seq<char>, written: Seq<char>, behind: Seq<char>)
    requires
        is_warning_word(ascii_lowercase(written)),
        forall|w: Seq<char>|
            is_lasting_word(w) || is_failure_word(w) || is_success_word(w) ==> !says(
                before + written + behind,
                w,
            ),
    ensures
        ({
            let class = status_class(before + written + behind);
            class.level == StatusToastLevel::Warning && class.ttl_ms == Some(5_000u64)
                && !class.sticky
        }),
{
    lemma_says(before, written, behind);
    lemma_all_words();
}

/// Other messages are for information and pass after four seconds.
pub proof fn other_messages_inform(text: Seq<char>)
    requires
        forall|w: Seq<char>|
            is_lasting_word(w) || is_failure_word(w) || is_success_word(w) || is_warning_word(w)
                ==> !says(text, w),
    ensures
        status_class(text).level == StatusToastLevel::Info,
        status_class(text).ttl_ms == Some(4_000u64),
        !status_class(text).sticky,
{
    lemma_all_words();
    assert(is_warning_word("cancelled"@) && is_warning_word("warning"@));
    assert(!says(text, "cancelled"@) && !says(text, "warning"@));
}

proof fn lemma_all_words()
    ensures
        is_lasting_word("offline mode"@) && is_lasting_word("context critical"@),
        is_failure_word("error"@) && is_failure_word("failed"@) && is_failure_word("denied"@),
        is_failure_word("timeout"@) && is_failure_word("aborted"@) && is_failure_word("critical"@),
        is_success_word("saved"@) && is_success_word("loaded"@) && is_success_word("queued"@),
        is_success_word("found"@) && is_success_word("enabled"@) && is_success_word("completed"@),
{
}

/// A message expires when its time has passed since it was made, not before;
/// one without a time stays.
pub proof fn messages_expire_on_time(toast: ToastModel, ttl: u64, now: u64)
    ensures
        toast.ttl_ms == Some(ttl) && ttl > 0 && now < toast.created_at + ttl
            ==> !toast.has_expired(now),
        toast.ttl_ms == Some(ttl) && now >= toast.created_at + ttl ==> toast.has_expired(now),
        toast.ttl_ms is None ==> !toast.has_expired(now),
{
}

// ---------------------------------------------------------------------------
// The status line
// ---------------------------------------------------------------------------

/// What the status line says is taken up where it is new and not blank: as the
/// sticky message or as the latest one, made now, with its own text.
pub proof fn news_is_taken_up(status: StatusModel, text: Seq<char>, now: u64)
    requires
        status.message == Some(text),
        status.last_seen != Some(text),
        !all_blank(text),
    ensures
        ({
            let r = status.taken_up(now);
            let class = status_class(text);
            &&& r.message == Some(text)
            &&& r.last_seen == Some(text)
            &&& class.sticky ==> (r.sticky matches Some(t) && t.text == text && t.created_at == now
                && t.level == class.level && t.ttl_ms == class.ttl_ms) && r.toasts == status.toasts
            &&& !class.sticky ==> r.toasts.len() > 0 && r.toasts.last().text == text
                && r.toasts.last().created_at == now && r.toasts.last().level == class.level
                && r.toasts.last().ttl_ms == class.ttl_ms
        }),
{
    trimming_takes_outer_blanks(text);
}

/// What was taken up, and what is blank, is not taken up again.
pub proof fn old_news_is_left(status: StatusModel, now: u64)
    requires
        status.message == status.last_seen || (status.message matches Some(text) && all_blank(
            text,
        )) || status.message is None,
    ensures
        status.taken_up(now).toasts == status.toasts,
        status.taken_up(now).sticky == status.sticky,
        status.taken_up(now).last_seen == status.message,
{
    if let Some(text) = status.message {
        trimming_takes_outer_blanks(text);
    }
}

/// A sticky message stays until another one comes or, where it is an error, a
/// success is reported.
pub proof fn successes_end_sticky_errors(status: StatusModel, text: Seq<char>, now: u64)
    requires
        status.message == Some(text),
        status.last_seen != Some(text),
        !all_blank(text),
        !status_class(text).sticky,
    ensures
        (status.sticky matches Some(t) && t.level == StatusToastLevel::Error) && status_class(
            text,
        ).level == StatusToastLevel::Success ==> status.taken_up(now).sticky is None,
        !((status.sticky matches Some(t) && t.level == StatusToastLevel::Error) && status_class(
            text,
        ).level == StatusToastLevel::Success) ==> status.taken_up(now).sticky == status.sticky,
{
    trimming_takes_outer_blanks(text);
}

/// A new message is the last one; the others keep their order, and the oldest
/// ones leave where there are more than twenty-four.
pub proof fn the_oldest_messages_leave(status: StatusModel, toast: ToastModel)
    ensures
        ({
            let r = status.toasted(toast).toasts;
            &&& r.last() == toast
            &&& status.toasts.len() < 24 ==> r == status.toasts.push(toast)
            &&& status.toasts.len() >= 24 ==> r.len() == 24 && forall|i: int|
                0 <= i < 23 ==> r[i] == status.toasts[status.toasts.len() - 23 + i]
        }),
{
}

proof fn lemma_expired_front(toasts: Seq<ToastModel>, now: u64) -> (n: int)
    ensures
        0 <= n <= toasts.len(),
        without_expired(toasts, now) == toasts.skip(n),
        forall|i: int| 0 <= i < n ==> (#[trigger] toasts[i]).has_expired(now),
        n < toasts.len() ==> !toasts[n].has_expired(now),
    decreases toasts.len(),
{
    if toasts.len() > 0 && toasts[0].has_expired(now) {
        let rest = toasts.skip(1);
        let n = lemma_expired_front(rest, now);
        assert(rest.skip(n) =~= toasts.skip(n + 1));
        assert forall|i: int| 0 <= i < n + 1 implies (#[trigger] toasts[i]).has_expired(now) by {
            if i > 0 {
                assert(toasts[i] == rest[i - 1]);
            }
        }
        if n + 1 < toasts.len() {
            assert(rest[n] == toasts[n + 1]);
        }
        n + 1
    } else {
        assert(toasts.skip(0) =~= toasts);
        0
    }
}

/// Aging drops the expired messages at the front up to the first that is still
/// active, and an expired sticky one. Nothing that is active is dropped.
pub proof fn aging_drops_expired_messages_only(status: StatusModel, now: u64)
    ensures
        exists|n: int|
            0 <= n <= status.toasts.len() && status.aged(now).toasts == #[trigger]
                status.toasts.skip(n) && (forall|i: int|
                0 <= i < n ==> (#[trigger] status.toasts[i]).has_expired(now)) && (n
                < status.toasts.len() ==> !status.toasts[n].has_expired(now)),
        status.sticky matches Some(t) ==> if t.has_expired(now) {
            status.aged(now).sticky is None
        } else {
            status.aged(now).sticky == Some(t)
        },
        status.aged(now).message == status.message,
        status.aged(now).last_seen == status.last_seen,
{
    let n = lemma_expired_front(status.toasts, now);
}

/// The sticky message is shown first, and there is always room for it; the
/// others that are shown are the latest of those that have not expired.
pub proof fn the_latest_messages_are_shown(status: StatusModel, limit: nat, now: u64)
    requires
        limit > 0,
    ensures
        status.sticky matches Some(t) ==> status.shown(limit, now).len() > 0 && status.shown(
            limit,
            now,
        )[0] == t,
        status.sticky is None && status.toasts.len() > 0 && !status.toasts.last().has_expired(now)
            ==> status.shown(limit, now).len() > 0 && status.shown(limit, now).last()
            == status.toasts.last(),
        status.sticky is Some && limit > 1 && status.toasts.len() > 0
            && !status.toasts.last().has_expired(now) ==> status.shown(limit, now).last()
            == status.toasts.last(),
        (forall|i: int|
            0 <= i < status.toasts.len() ==> !(#[trigger] status.toasts[i]).has_expired(now))
            && status.toasts.len() < limit ==> status.shown(limit, now) == (
        match status.sticky {
            Some(t) => seq![t] + status.toasts,
            None => status.toasts,
        }),
{
    let active = active_of(status.toasts, now);
    lemma_active(status.toasts, now);
    if forall|i: int| 0 <= i < status.toasts.len() ==> !(#[trigger] status.toasts[i]).has_expired(
        now,
    ) {
        assert(active == status.toasts);
        assert(last_of(active, limit as int) =~= if active.len() <= limit {
            active
        } else {
            last_of(active, limit as int)
        });
    }
}

proof fn lemma_active(toasts: Seq<ToastModel>, now: u64)
    ensures
        toasts.len() > 0 && !toasts.last().has_expired(now) ==> active_of(toasts, now).len() > 0
            && active_of(toasts, now).last() == toasts.last(),
        (forall|i: int| 0 <= i < toasts.len() ==> !(#[trigger] toasts[i]).has_expired(now))
            ==> active_of(toasts, now) == toasts,
    decreases toasts.len(),
{
    reveal(Seq::filter);
    if toasts.len() > 0 {
        let front = toasts.drop_last();
        lemma_active(front, now);
        if forall|i: int| 0 <= i < toasts.len() ==> !(#[trigger] toasts[i]).has_expired(now) {
            assert forall|i: int| 0 <= i < front.len() implies !(
            #[trigger] front[i]).has_expired(now) by {
                assert(front[i] == toasts[i]);
            }
            assert(!toasts[toasts.len() - 1].has_expired(now));
            assert(active_of(toasts, now) =~= toasts);
        }
    } else {
        assert(active_of(toasts, now) =~= toasts);
    }
}

/// The one message to show is the sticky one, else the latest.
pub proof fn one_message_is_shown(status: StatusModel)
    ensures
        status.sticky is Some ==> status.shown_one() == status.sticky,
        status.sticky is None && status.toasts.len() > 0 ==> status.shown_one() == Some(
            status.toasts[status.toasts.len() - 1],
        ),
        status.sticky is None && status.toasts.len() == 0 ==> status.shown_one() is None,
{
}

// ---------------------------------------------------------------------------
// Pastes
// ---------------------------------------------------------------------------

/// The delay until a flush tells when something is due: not before it has
/// passed, and right after. It is eight milliseconds behind a single character
/// and sixty behind a burst.
pub proof fn flushes_are_due_after_the_delay(burst: PasteBurstModel, then: u64, now: u64, at: u64)
    requires
        burst.last_plain_char_time == Some(then),
        burst.holds_text(),
        then <= now <= u64::MAX - 200,
        now <= at,
    ensures
        burst.flush_delay(now) is Some,
        at <= now + burst.flush_delay(now)->0 && !burst.is_due(now) ==> !burst.is_due(at),
        at > now + burst.flush_delay(now)->0 ==> burst.is_due(at),
        burst.flush_delay(then) == Some(
            if burst.active || burst.buffer.len() > 0 {
                60u64
            } else {
                8u64
            },
        ),
{
}

/// Nothing is due while nothing was typed, and nothing is waited for while
/// nothing is held back.
pub proof fn nothing_held_is_nothing_due(burst: PasteBurstModel, now: u64)
    ensures
        burst.last_plain_char_time is None ==> !burst.is_due(now) && burst.flushed(now) == burst,
        !burst.active && burst.buffer.len() == 0 && burst.pending_first_char is None
            ==> burst.flush_delay(now) is None && !burst.holds_text(),
{
}

/// A flush that is due empties what it hands over and keeps the rest: a burst
/// with its buffer, or else the first character.
pub proof fn flushes_hand_over_once(burst: PasteBurstModel, now: u64)
    ensures
        burst.is_due(now) && (burst.active || burst.buffer.len() > 0) ==> burst.flushed(
            now,
        ).buffer.len() == 0 && !burst.flushed(now).active && burst.flushed(now).pending_first_char
            == burst.pending_first_char,
        burst.is_due(now) && !burst.active && burst.buffer.len() == 0 ==> burst.flushed(
            now,
        ).pending_first_char is None,
        !burst.is_due(now) ==> burst.flushed(now) == burst,
        !burst.handed_over().holds_text(),
        burst.holds_text() == (burst.active || burst.held_text().len() > 0),
{
}

/// An Enter key belongs to a paste while something is held back, and for a
/// hundred and twenty milliseconds behind it.
pub proof fn the_window_closes(burst: PasteBurstModel, now: u64, at: u64)
    requires
        now <= u64::MAX - 200,
    ensures
        burst.holds_text() ==> burst.absorbs_enter(at),
        !burst.holds_text() && at <= now + 120 ==> burst.with_window(now).absorbs_enter(at),
        !burst.holds_text() && at > now + 120 ==> !burst.with_window(now).absorbs_enter(at),
        !PasteBurstModel::idle().absorbs_enter(at),
{
}

/// Time runs from the earlier to the later moment.
pub proof fn time_runs_forward(then: u64, ms: u64)
    requires
        then + ms <= u64::MAX,
    ensures
        elapsed((then + ms) as u64, then) == ms,
        elapsed(then, (then + ms) as u64) == 0,
{
}

/// A new status asks for the screen to be drawn again where it is told to, and
/// never takes such a request back.
pub proof fn requests_to_draw_are_kept(app: App, status: StatusState, redraw: bool)
    ensures
        app.with_status(status, redraw).status == status,
        redraw || app.needs_redraw ==> app.with_status(status, redraw).needs_redraw,
        !redraw && !app.needs_redraw ==> !app.with_status(status, redraw).needs_redraw,
        app.with_status(status, redraw).composer == app.composer,
{
}

/// Something has aged exactly where aging drops something.
pub proof fn aging_is_noticed(status: StatusModel, now: u64)
    ensures
        status.has_aged(now) <==> status.aged(now) != status,
{
    let n = lemma_expired_front(status.toasts, now);
    let rest = status.aged(now);
    assert(rest.toasts.len() == status.toasts.len() - n);
    if n == 0 {
        assert(rest.toasts =~= status.toasts);
        if status.toasts.len() > 0 {
            assert(!status.toasts[0].has_expired(now));
        }
    } else {
        assert(status.toasts[0].has_expired(now));
    }
}

} // verus!
