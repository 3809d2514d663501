//! The reminder record, the events it raises, and the rule by which the
//! timer fires it.

use vstd::prelude::*;

verus! {

/// How long the timer waits after start before it first looks at the
/// reminders, in seconds.
pub const FIRST_POLL_AFTER_SECS: u64 = 1;

/// How long the timer waits between two looks at the reminders, in seconds.
pub const POLL_EVERY_SECS: u64 = 5;

/// The colour scheme of an alert window.
#[derive(Clone, Copy, Debug, PartialEq, Eq, Structural)]
pub enum Theme {
    Dark,
    Light,
}

/// What the timer asks of the window loop.
#[derive(Clone, Debug, PartialEq, Eq)]
pub enum CustomEvents {
    /// Show an alert with this text in this theme.
    CreateAlert(String, Theme),
}

/// A request to show an alert, as a plain value.
pub struct AlertRequest {
    pub text: Seq<char>,
    pub theme: Theme,
}

impl View for CustomEvents {
    type V = AlertRequest;

    open spec fn view(&self) -> AlertRequest {
        match self {
            CustomEvents::CreateAlert(text, theme) => AlertRequest { text: text@, theme: *theme },
        }
    }
}

/// A scheduled text notification.
#[derive(Clone, Debug, PartialEq, Eq)]
pub struct Reminder {
    /// The message to show.
    pub string: String,
    /// Whether the reminder fires again after it has fired.
    pub repeating: bool,
    /// Whether the reminder is spent and fires no more.
    pub triggered: bool,
    /// The interval in seconds.
    pub every: u32,
    /// The time since start, in whole seconds, after which it fires next.
    pub duration_until: u64,
}

/// A reminder as a mathematical value.
pub struct ReminderView {
    pub string: Seq<char>,
    pub repeating: bool,
    pub triggered: bool,
    pub every: nat,
    pub duration_until: nat,
}

impl ReminderView {
    /// A registered reminder has a positive interval and is never due before
    /// one interval has passed.
    pub open spec fn wf(self) -> bool {
        self.every > 0 && self.duration_until >= self.every
    }

    /// A reminder as it is registered: not spent, due after one interval.
    pub open spec fn fresh(string: Seq<char>, repeating: bool, every: nat) -> ReminderView {
        ReminderView { string, repeating, triggered: false, every, duration_until: every }
    }

    /// Whether the reminder fires when `secs` seconds and `nanos` nanoseconds
    /// have passed since start: it is not spent and its time lies strictly
    /// in the past.
    pub open spec fn due(self, secs: nat, nanos: nat) -> bool {
        !self.triggered && (secs > self.duration_until || (secs == self.duration_until && nanos
            > 0))
    }

    /// The reminder after it has fired: due one interval later, and spent
    /// unless it repeats.
    pub open spec fn fired(self) -> ReminderView {
        ReminderView {
            triggered: self.triggered || !self.repeating,
            duration_until: self.duration_until + self.every,
            ..self
        }
    }

    /// The reminder after the timer has looked at it.
    pub open spec fn polled(self, secs: nat, nanos: nat) -> ReminderView {
        if self.due(secs, nanos) {
            self.fired()
        } else {
            self
        }
    }
}

impl View for Reminder {
    type V = ReminderView;

    open spec fn view(&self) -> ReminderView {
        ReminderView {
            string: self.string@,
            repeating: self.repeating,
            triggered: self.triggered,
            every: self.every as nat,
            duration_until: self.duration_until as nat,
        }
    }
}

/// The views of a sequence of reminders.
pub open spec fn reminder_views(reminders: Seq<Reminder>) -> Seq<ReminderView> {
    Seq::new(reminders.len(), |i: int| reminders[i]@)
}

/// The views of a sequence of events.
pub open spec fn event_views(events: Seq<CustomEvents>) -> Seq<AlertRequest> {
    Seq::new(events.len(), |i: int| events[i]@)
}

/// The alerts that a look at `reminders` raises: one for each due reminder,
/// in the order of the reminders.
pub open spec fn alerts_of(reminders: Seq<ReminderView>, secs: nat, nanos: nat, theme: Theme) -> Seq<
    AlertRequest,
> {
    reminders.filter(|r: ReminderView| r.due(secs, nanos)).map_values(
        |r: ReminderView| AlertRequest { text: r.string, theme },
    )
}

impl Reminder {
    /// Whether the reminder keeps the invariant of a registered reminder.
    pub open spec fn wf(&self) -> bool {
        self@.wf()
    }

    /// Registers a reminder; one with interval 0 is not registered.
    pub fn new(string: String, repeating: bool, every: u32) -> (r: Option<Reminder>)
        ensures
            every == 0 <==> r is None,
            r matches Some(reminder) ==> reminder@ == ReminderView::fresh(
                string@,
                repeating,
                every as nat,
            ) && reminder.wf(),
    {
        if every == 0 {
            None
        } else {
            Some(Reminder { string, repeating, triggered: false, every, duration_until: every as u64 })
        }
    }

    /// The message.
    pub fn text(&self) -> (s: &str)
        ensures
            s@ == self@.string,
    {
        self.string.as_str()
    }

    /// Whether the reminder fires at the given time since start.
    pub fn is_due(&self, elapsed_secs: u64, elapsed_subsec_nanos: u32) -> (due: bool)
        ensures
            due == self@.due(elapsed_secs as nat, elapsed_subsec_nanos as nat),
    {
        !self.triggered && (elapsed_secs > self.duration_until || (elapsed_secs
            == self.duration_until && elapsed_subsec_nanos > 0))
    }

    /// Whether the next firing time still fits the clock.
    pub fn can_fire(&self) -> (fits: bool)
        ensures
            fits == (self.duration_until + self.every <= u64::MAX),
    {
        self.duration_until <= u64::MAX - self.every as u64
    }

    /// Marks the reminder as fired.
    pub fn fire(&mut self)
        requires
            old(self).duration_until + old(self).every <= u64::MAX,
        ensures
            final(self)@ == old(self)@.fired(),
            old(self).wf() ==> final(self).wf(),
    {
        self.duration_until = self.duration_until + self.every as u64;
        if !self.repeating {
            self.triggered = true;
        }
    }
}

/// Whether every reminder that is due at the given time can be fired.
pub open spec fn can_tick(reminders: Seq<Reminder>, secs: nat, nanos: nat) -> bool {
    forall|i: int|
        0 <= i < reminders.len() && (#[trigger] reminders[i])@.due(secs, nanos)
            ==> reminders[i].duration_until + reminders[i].every <= u64::MAX
}

/// One look of the timer at the reminders, at the given time since start:
/// fires each reminder that is due and returns one alert request for each,
/// in order.
pub fn tick(
    reminders: &mut Vec<Reminder>,
    elapsed_secs: u64,
    elapsed_subsec_nanos: u32,
    theme: Theme,
) -> (events: Vec<CustomEvents>)
    requires
        can_tick(old(reminders)@, elapsed_secs as nat, elapsed_subsec_nanos as nat),
    ensures
        final(reminders)@.len() == old(reminders)@.len(),
        forall|i: int|
            0 <= i < old(reminders)@.len() ==> (#[trigger] final(reminders)@[i])@
                == old(reminders)@[i]@.polled(elapsed_secs as nat, elapsed_subsec_nanos as nat),
        forall|i: int|
            0 <= i < old(reminders)@.len() && old(reminders)@[i].wf()
                ==> (#[trigger] final(reminders)@[i]).wf(),
        event_views(events@) == alerts_of(
            reminder_views(old(reminders)@),
            elapsed_secs as nat,
            elapsed_subsec_nanos as nat,
            theme,
        ),
{
    let ghost before = reminders@;
    let ghost secs = elapsed_secs as nat;
    let ghost nanos = elapsed_subsec_nanos as nat;
    let mut events: Vec<CustomEvents> = Vec::new();
    let n: usize = reminders.len();
    let mut i: usize = 0;
    proof {
        reveal(Seq::filter);
        assert(reminder_views(before).take(0) =~= Seq::<ReminderView>::empty());
        assert(event_views(events@) =~= alerts_of(reminder_views(before).take(0), secs, nanos, theme));
    }
    while i < n
        invariant
            i <= n,
            n == before.len(),
            reminders@.len() == n,
            secs == elapsed_secs as nat,
            nanos == elapsed_subsec_nanos as nat,
            can_tick(before, secs, nanos),
            forall|j: int| 0 <= j < i ==> (#[trigger] reminders@[j])@ == before[j]@.polled(secs, nanos),
            forall|j: int| i <= j < n ==> #[trigger] reminders@[j] == before[j],
            event_views(events@) == alerts_of(
                reminder_views(before).take(i as int),
                secs,
                nanos,
                theme,
            ),
        decreases n - i,
    {
        proof {
            lemma_alerts_step(reminder_views(before), i as int, secs, nanos, theme);
        }
        let ghost seen = event_views(events@);
        if reminders[i].is_due(elapsed_secs, elapsed_subsec_nanos) {
            assert(before[i as int]@.due(secs, nanos));
            events.push(CustomEvents::CreateAlert(reminders[i].string.clone(), theme));
            reminders[i].fire();
            assert(event_views(events@) =~= seen.push(
                AlertRequest { text: before[i as int]@.string, theme },
            ));
        }
        i = i + 1;
    }
    assert(reminder_views(before).take(n as int) =~= reminder_views(before));
    events
}

/// How the alerts of a prefix grow with one more reminder.
pub proof fn lemma_alerts_step(
    reminders: Seq<ReminderView>,
    i: int,
    secs: nat,
    nanos: nat,
    theme: Theme,
)
    requires
        0 <= i < reminders.len(),
    ensures
        alerts_of(reminders.take(i + 1), secs, nanos, theme) == if reminders[i].due(secs, nanos) {
            alerts_of(reminders.take(i), secs, nanos, theme).push(
                AlertRequest { text: reminders[i].string, theme },
            )
        } else {
            alerts_of(reminders.take(i), secs, nanos, theme)
        },
{
    reveal(Seq::filter);
    assert(reminders.take(i + 1).drop_last() =~= reminders.take(i));
    assert(reminders.take(i + 1).last() == reminders[i]);
    let due = |r: ReminderView| r.due(secs, nanos);
    let alert = |r: ReminderView| AlertRequest { text: r.string, theme };
    let kept = reminders.take(i).filter(due);
    if reminders[i].due(secs, nanos) {
        assert(reminders.take(i + 1).filter(due) == kept.push(reminders[i]));
        assert(kept.push(reminders[i]).map_values(alert) =~= kept.map_values(alert).push(
            alert(reminders[i]),
        ));
    } else {
        assert(reminders.take(i + 1).filter(due) == kept);
    }
}

/// A reminder that does not repeat fires at most once: after it has fired
/// it is never due again.
pub proof fn lemma_one_shot_fires_once(r: ReminderView, secs: nat, nanos: nat)
    requires
        !r.repeating,
    ensures
        !r.fired().due(secs, nanos),
        r.fired().polled(secs, nanos) == r.fired(),
{
}

/// A spent reminder is never due, and a look of the timer leaves it as it is.
pub proof fn lemma_spent_stays(r: ReminderView, secs: nat, nanos: nat)
    requires
        r.triggered,
    ensures
        !r.due(secs, nanos),
        r.polled(secs, nanos) == r,
{
}

/// Firing keeps a registered reminder registered, keeps its text, interval
/// and recurrence, and moves its time forward by exactly one interval.
pub proof fn lemma_fired_keeps_invariant(r: ReminderView)
    requires
        r.wf(),
    ensures
        r.fired().wf(),
        r.fired().string == r.string,
        r.fired().every == r.every,
        r.fired().repeating == r.repeating,
        r.fired().duration_until == r.duration_until + r.every,
        r.fired().duration_until > r.duration_until,
{
}

/// A repeating reminder that has fired at some time is due again at every
/// time more than one interval later.
pub proof fn lemma_repeating_fires_again(r: ReminderView, secs: nat, nanos: nat, later: nat)
    requires
        r.repeating,
        r.due(secs, nanos),
        later > r.duration_until + r.every,
    ensures
        r.fired().due(later, 0),
{
}

/// A reminder as it is registered keeps the invariant and is not due before
/// its interval has passed in full.
pub proof fn lemma_fresh_waits_one_interval(
    string: Seq<char>,
    repeating: bool,
    every: nat,
    secs: nat,
    nanos: nat,
)
    requires
        every > 0,
    ensures
        ReminderView::fresh(string, repeating, every).wf(),
        ReminderView::fresh(string, repeating, every).due(secs, nanos) <==> (secs > every || (secs
            == every && nanos > 0)),
{
}

} // verus!
