//! What is said in the status line, and for how long.

use vstd::prelude::*;

use crate::text::{is_blank, opt_text, same_text, trimmed};
use crate::tui::app::{App, StatusState};
use crate::tui::recall::last_of;
use crate::tui::status::{
    classify_status_text, status_class, toast_model, toast_models, StatusToast, StatusToastLevel,
    ToastModel, MAX_STATUS_TOASTS,
};

verus! {

/// The mathematical form of a [`StatusState`].
#[verifier::ext_equal]
pub struct StatusModel {
    pub message: Option<Seq<char>>,
    pub toasts: Seq<ToastModel>,
    pub sticky: Option<ToastModel>,
    pub last_seen: Option<Seq<char>>,
}

impl View for StatusState {
    type V = StatusModel;

    open spec fn view(&self) -> StatusModel {
        StatusModel {
            message: opt_text(self.status_message),
            toasts: toast_models(self.status_toasts@),
            sticky: toast_model(self.sticky_status),
            last_seen: opt_text(self.last_status_message_seen),
        }
    }
}

/// Messages without the expired ones at their front.
pub open spec fn without_expired(toasts: Seq<ToastModel>, now: u64) -> Seq<ToastModel>
    decreases toasts.len(),
{
    if toasts.len() > 0 && toasts[0].has_expired(now) {
        without_expired(toasts.skip(1), now)
    } else {
        toasts
    }
}

/// Those of the messages that have not expired, in their order.
pub open spec fn active_of(toasts: Seq<ToastModel>, now: u64) -> Seq<ToastModel> {
    toasts.filter(|t: ToastModel| !t.has_expired(now))
}

impl StatusModel {
    /// The status line says something.
    pub open spec fn saying(self, text: Seq<char>) -> StatusModel {
        StatusModel { message: Some(text), ..self }
    }

    /// A message is added. The oldest ones give way beyond the limit.
    pub open spec fn toasted(self, toast: ToastModel) -> StatusModel {
        StatusModel { toasts: last_of(self.toasts.push(toast), MAX_STATUS_TOASTS as int), ..self }
    }

    /// The status line says something that was not yet taken up as a message.
    pub open spec fn has_news(self) -> bool {
        self.last_seen != self.message && (self.message matches Some(text) && trimmed(text).len()
            > 0)
    }

    /// What the status line says is taken up as a message, once. It sticks or
    /// passes by its words; a success ends a sticky error.
    pub open spec fn taken_up(self, now: u64) -> StatusModel {
        let seen = StatusModel { last_seen: self.message, ..self };
        if !self.has_news() {
            seen
        } else {
            let text = self.message->0;
            let class = status_class(text);
            let toast = ToastModel {
                text,
                level: class.level,
                created_at: now,
                ttl_ms: class.ttl_ms,
            };
            if class.sticky {
                StatusModel { sticky: Some(toast), ..seen }
            } else if class.level == StatusToastLevel::Success && (seen.sticky matches Some(t)
                && t.level == StatusToastLevel::Error) {
                (StatusModel { sticky: None, ..seen }).toasted(toast)
            } else {
                seen.toasted(toast)
            }
        }
    }

    /// Expired messages are dropped from the front, and an expired sticky one.
    pub open spec fn aged(self, now: u64) -> StatusModel {
        StatusModel {
            toasts: without_expired(self.toasts, now),
            sticky: match self.sticky {
                Some(t) => if t.has_expired(now) {
                    None
                } else {
                    Some(t)
                },
                None => None,
            },
            ..self
        }
    }

    /// Something is dropped by age.
    pub open spec fn has_aged(self, now: u64) -> bool {
        ||| self.toasts.len() > 0 && self.toasts[0].has_expired(now)
        ||| self.sticky matches Some(t) && t.has_expired(now)
    }

    /// At most `limit` messages to show: the sticky one, then the latest of
    /// those that have not expired, in their order.
    pub open spec fn shown(self, limit: nat, now: u64) -> Seq<ToastModel> {
        if limit == 0 {
            Seq::empty()
        } else {
            match self.sticky {
                Some(t) => seq![t] + last_of(active_of(self.toasts, now), limit - 1),
                None => last_of(active_of(self.toasts, now), limit as int),
            }
        }
    }

    /// The one message to show: the sticky one, or the latest.
    pub open spec fn shown_one(self) -> Option<ToastModel> {
        match self.sticky {
            Some(t) => Some(t),
            None => if self.toasts.len() > 0 {
                Some(self.toasts.last())
            } else {
                None
            },
        }
    }
}

/// The messages that wait keep within their limit.
pub proof fn toasts_are_bounded(status: StatusModel, toast: ToastModel, now: u64)
    requires
        status.toasts.len() <= MAX_STATUS_TOASTS,
    ensures
        status.toasted(toast).toasts.len() <= MAX_STATUS_TOASTS,
        status.taken_up(now).toasts.len() <= MAX_STATUS_TOASTS,
        status.aged(now).toasts.len() <= MAX_STATUS_TOASTS,
{
    lemma_without_expired(status.toasts, now);
}

/// What the status line says is taken up once only.
pub proof fn status_is_taken_up_once(status: StatusModel, now: u64, later: u64)
    ensures
        status.taken_up(now).taken_up(later) == status.taken_up(now),
{
}

/// No expired message is left at the front.
pub proof fn aging_drops_expired(status: StatusModel, now: u64)
    ensures
        !status.aged(now).has_aged(now),
{
    lemma_without_expired(status.toasts, now);
}

/// At most `limit` messages are shown, and none of them has expired.
pub proof fn shown_messages_are_active(status: StatusModel, limit: nat, now: u64)
    ensures
        status.aged(now).shown(limit, now).len() <= limit,
        forall|i: int|
            0 <= i < status.aged(now).shown(limit, now).len() ==> !(#[trigger] status.aged(
                now,
            ).shown(limit, now)[i]).has_expired(now),
{
    let aged = status.aged(now);
    let active = active_of(aged.toasts, now);
    assert forall|i: int| 0 <= i < active.len() implies !(#[trigger] active[i]).has_expired(now) by {
        aged.toasts.lemma_filter_pred(|t: ToastModel| !t.has_expired(now), i);
    }
}

proof fn lemma_without_expired(toasts: Seq<ToastModel>, now: u64)
    ensures
        without_expired(toasts, now).len() <= toasts.len(),
        without_expired(toasts, now).len() > 0 ==> !without_expired(toasts, now)[0].has_expired(
            now,
        ),
    decreases toasts.len(),
{
    if toasts.len() > 0 && toasts[0].has_expired(now) {
        lemma_without_expired(toasts.skip(1), now);
    }
}

proof fn lemma_toasts_push(toasts: Seq<StatusToast>, toast: StatusToast)
    ensures
        toast_models(toasts.push(toast)) == toast_models(toasts).push(toast@),
{
    assert(toast_models(toasts.push(toast)) =~= toast_models(toasts).push(toast@));
}

impl StatusState {
    /// Makes the status line say something.
    pub fn say(&mut self, text: String)
        ensures
            final(self)@ == old(self)@.saying(text@),
    {
        self.status_message = Some(text);
    }

    /// Adds a message.
    pub fn push_toast(&mut self, toast: StatusToast)
        ensures
            final(self)@ == old(self)@.toasted(toast@),
    {
        proof { lemma_toasts_push(self.status_toasts@, toast); }
        self.status_toasts.push_back(toast);
        let ghost full = toast_models(self.status_toasts@);
        let ghost before = self@;
        let ghost mut dropped: int = 0;
        proof { assert(full.skip(0) =~= full); }
        while self.status_toasts.len() > MAX_STATUS_TOASTS
            invariant
                0 <= dropped <= full.len(),
                toast_models(self.status_toasts@) == full.skip(dropped),
                dropped > 0 ==> self.status_toasts@.len() >= MAX_STATUS_TOASTS,
                self@ == (StatusModel { toasts: full.skip(dropped), ..before }),
            decreases self.status_toasts@.len(),
        {
            let ghost queue = self.status_toasts@;
            let _ = self.status_toasts.pop_front();
            proof {
                assert(self.status_toasts@ =~= queue.skip(1));
                assert(toast_models(self.status_toasts@) =~= toast_models(queue).skip(1));
                assert(full.skip(dropped).skip(1) =~= full.skip(dropped + 1));
                dropped = dropped + 1;
            }
        }
        proof { assert(self@.toasts =~= last_of(full, MAX_STATUS_TOASTS as int)); }
    }

    /// Takes up what the status line says as a message. Returns whether there
    /// was anything new.
    pub fn take_up_message(&mut self, now: u64) -> (res: bool)
        ensures
            final(self)@ == old(self)@.taken_up(now),
            res == old(self)@.has_news(),
    {
        let seen = match (&self.last_status_message_seen, &self.status_message) {
            (Some(a), Some(b)) => same_text(a.as_str(), b.as_str()),
            (None, None) => true,
            _ => false,
        };
        if seen {
            return false;
        }
        match &self.status_message {
            None => {
                self.last_status_message_seen = None;
                false
            },
            Some(message) => {
                let text = message.clone();
                self.last_status_message_seen = Some(text.clone());
                if is_blank(text.as_str()) {
                    return false;
                }
                let class = classify_status_text(text.as_str());
                let toast = StatusToast::new(text, class.level, class.ttl_ms, now);
                if class.sticky {
                    self.sticky_status = Some(toast);
                } else {
                    let ends_error = match (&self.sticky_status, class.level) {
                        (Some(t), StatusToastLevel::Success) => t.level == StatusToastLevel::Error,
                        _ => false,
                    };
                    if ends_error {
                        self.sticky_status = None;
                    }
                    self.push_toast(toast);
                }
                true
            },
        }
    }

    /// Drops expired messages. Returns whether any was dropped.
    pub fn drop_expired(&mut self, now: u64) -> (res: bool)
        ensures
            final(self)@ == old(self)@.aged(now),
            res == old(self)@.has_aged(now),
    {
        let ghost all = toast_models(self.status_toasts@);
        let ghost before = self@;
        let mut removed = false;
        while self.status_toasts.len() > 0 && self.status_toasts[0].is_expired(now)
            invariant
                without_expired(toast_models(self.status_toasts@), now) == without_expired(all, now),
                self@ == (StatusModel { toasts: toast_models(self.status_toasts@), ..before }),
                self.sticky_status == old(self).sticky_status,
                removed == (toast_models(self.status_toasts@) != all),
                removed ==> all.len() > 0 && all[0].has_expired(now),
                toast_models(self.status_toasts@).len() <= all.len(),
            decreases self.status_toasts@.len(),
        {
            let ghost queue = self.status_toasts@;
            proof { assert(toast_models(queue)[0] == queue[0]@); }
            let _ = self.status_toasts.pop_front();
            proof {
                assert(self.status_toasts@ =~= queue.skip(1));
                assert(toast_models(self.status_toasts@) =~= toast_models(queue).skip(1));
            }
            removed = true;
        }
        proof {
            if self.status_toasts@.len() > 0 {
                assert(toast_models(self.status_toasts@)[0] == self.status_toasts@[0]@);
            }
        }
        let sticky_expired = match &self.sticky_status {
            Some(t) => t.is_expired(now),
            None => false,
        };
        if sticky_expired {
            self.sticky_status = None;
            removed = true;
        }
        removed
    }

    /// The messages that wait and have not expired.
    fn active(&self, now: u64) -> (res: Vec<StatusToast>)
        ensures
            toast_models(res@) == active_of(self@.toasts, now),
    {
        let ghost all = toast_models(self.status_toasts@);
        let total: usize = self.status_toasts.len();
        let mut out: Vec<StatusToast> = Vec::new();
        let mut i: usize = 0;
        proof {
            reveal(Seq::filter);
            assert(toast_models(out@) =~= active_of(all.take(0), now));
        }
        while i < total
            invariant
                i <= total == self.status_toasts@.len() == all.len(),
                all == toast_models(self.status_toasts@),
                toast_models(out@) == active_of(all.take(i as int), now),
            decreases total - i,
        {
            proof {
                reveal(Seq::filter);
                assert(all.take(i + 1).drop_last() =~= all.take(i as int));
                assert(all.take(i + 1).last() == self.status_toasts@[i as int]@);
            }
            if !self.status_toasts[i].is_expired(now) {
                let toast = self.status_toasts[i].clone();
                proof { lemma_toasts_push(out@, toast); }
                out.push(toast);
            }
            i += 1;
        }
        proof { assert(all.take(i as int) =~= all); }
        out
    }

    /// At most `limit` messages to show.
    pub fn visible(&self, limit: usize, now: u64) -> (res: Vec<StatusToast>)
        ensures
            toast_models(res@) == self@.shown(limit as nat, now),
    {
        let mut out: Vec<StatusToast> = Vec::new();
        if limit == 0 {
            proof { assert(toast_models(out@) =~= Seq::empty()); }
            return out;
        }
        let mut room: usize = limit;
        if let Some(sticky) = &self.sticky_status {
            out.push(sticky.clone());
            room = limit - 1;
        }
        let active = self.active(now);
        let ghost head = toast_models(out@);
        let ghost all = toast_models(active@);
        let total: usize = active.len();
        let start: usize = if total > room {
            total - room
        } else {
            0
        };
        let mut i: usize = start;
        proof { assert(head =~= head + all.subrange(start as int, start as int)); }
        while i < total
            invariant
                start <= i <= total == active@.len() == all.len(),
                all == toast_models(active@),
                toast_models(out@) =~= head + all.subrange(start as int, i as int),
            decreases total - i,
        {
            let toast = active[i].clone();
            proof {
                lemma_toasts_push(out@, toast);
                assert(all.subrange(start as int, i + 1) =~= all.subrange(
                    start as int,
                    i as int,
                ).push(toast@));
            }
            out.push(toast);
            i += 1;
        }
        proof {
            assert(all.subrange(start as int, total as int) =~= last_of(all, room as int));
            assert(toast_models(out@) =~= self@.shown(limit as nat, now));
        }
        out
    }

    /// The one message to show.
    pub fn visible_one(&self) -> (res: Option<StatusToast>)
        ensures
            toast_model(res) == self@.shown_one(),
    {
        match &self.sticky_status {
            Some(t) => Some(t.clone()),
            None => {
                let total: usize = self.status_toasts.len();
                if total > 0 {
                    proof {
                        assert(toast_models(self.status_toasts@)[total - 1]
                            == self.status_toasts@[total - 1]@);
                    }
                    Some(self.status_toasts[total - 1].clone())
                } else {
                    None
                }
            },
        }
    }
}

impl App {
    /// The application with this status. `redraw` asks for the screen to be
    /// drawn again.
    pub open spec fn with_status(self, status: StatusState, redraw: bool) -> App {
        App { status, needs_redraw: self.needs_redraw || redraw, ..self }
    }

    /// Adds a message that passes with time.
    pub fn push_status_toast(
        &mut self,
        text: String,
        level: StatusToastLevel,
        ttl_ms: Option<u64>,
        now: u64,
    )
        ensures
            final(self).status@ == old(self).status@.toasted(
                ToastModel { text: text@, level, created_at: now, ttl_ms },
            ),
            *final(self) == old(self).with_status(final(self).status, true),
    {
        self.status.push_toast(StatusToast::new(text, level, ttl_ms, now));
        self.needs_redraw = true;
    }

    /// Sets the message that stays above the others.
    pub fn set_sticky_status(
        &mut self,
        text: String,
        level: StatusToastLevel,
        ttl_ms: Option<u64>,
        now: u64,
    )
        ensures
            final(self).status@ == (StatusModel {
                sticky: Some(ToastModel { text: text@, level, created_at: now, ttl_ms }),
                ..old(self).status@
            }),
            *final(self) == old(self).with_status(final(self).status, true),
    {
        self.status.sticky_status = Some(StatusToast::new(text, level, ttl_ms, now));
        self.needs_redraw = true;
    }

    /// Ends the message that stays above the others.
    pub fn clear_sticky_status(&mut self)
        ensures
            final(self).status@ == (StatusModel { sticky: None, ..old(self).status@ }),
            *final(self) == (App { status: final(self).status, ..*old(self) }),
    {
        self.status.sticky_status = None;
    }

    /// Takes up what the status line says as a message, once.
    pub fn sync_status_message_to_toasts(&mut self, now: u64)
        ensures
            final(self).status@ == old(self).status@.taken_up(now),
            *final(self) == old(self).with_status(
                final(self).status,
                old(self).status@.has_news(),
            ),
    {
        let news = self.status.take_up_message(now);
        self.redraw_if(news);
    }

    /// At most `limit` messages that have not expired: the sticky one, then the
    /// others with the latest last. Expired ones are dropped from the front.
    pub fn active_status_toasts(&mut self, limit: usize, now: u64) -> (res: Vec<StatusToast>)
        ensures
            final(self).status@ == old(self).status@.taken_up(now).aged(now),
            *final(self) == old(self).with_status(
                final(self).status,
                old(self).status@.has_news() || old(self).status@.taken_up(now).has_aged(now),
            ),
            toast_models(res@) == final(self).status@.shown(limit as nat, now),
            res@.len() <= limit,
            forall|i: int| 0 <= i < res@.len() ==> !(#[trigger] res@[i])@.has_expired(now),
    {
        let news = self.status.take_up_message(now);
        let ghost taken = self.status@;
        let removed = self.status.drop_expired(now);
        self.redraw_if(news || removed);
        let res = self.status.visible(limit, now);
        proof {
            shown_messages_are_active(taken, limit as nat, now);
            assert forall|i: int| 0 <= i < res@.len() implies !(#[trigger] res@[i])@.has_expired(
                now,
            ) by {
                assert(toast_models(res@)[i] == res@[i]@);
            }
        }
        res
    }

    /// The one message to show. Expired ones are dropped first.
    pub fn active_status_toast(&mut self, now: u64) -> (res: Option<StatusToast>)
        ensures
            final(self).status@ == old(self).status@.taken_up(now).aged(now),
            *final(self) == old(self).with_status(
                final(self).status,
                old(self).status@.has_news() || old(self).status@.taken_up(now).has_aged(now),
            ),
            toast_model(res) == final(self).status@.shown_one(),
    {
        let news = self.status.take_up_message(now);
        let removed = self.status.drop_expired(now);
        self.redraw_if(news || removed);
        self.status.visible_one()
    }
}

} // verus!
