//! One call over a stream of lines: a request is written and lines are read until the response
//! under its number is a final one. Progress is passed on, responses under other numbers are
//! skipped, and a deadline ends the call whatever arrives. The caller performs each action and
//! hands back what came of it, with the time and whether the call was cancelled by then.

use vstd::prelude::*;
use crate::json::{Json, JsonView};
use crate::live::link::{LinkError, LinkErrorView};
use crate::live::protocol::{Request, Response};
use crate::live::temporal::NANOS_PER_MS;
use crate::text;

verus! {

/// How many responses under other numbers one call skips.
pub const MAX_ID_MISMATCH: u32 = 256;

/// How many reads in a row may time out before the connection is given up.
pub const MAX_CONSECUTIVE_TIMEOUTS: u32 = 3;

/// A request that asks the adapter to stop.
#[derive(Debug)]
pub struct AbortRequest {
    pub method: String,
    pub params: Json,
}

/// What one call is to do. Times are in nanoseconds.
#[derive(Debug)]
pub struct CallPlan {
    pub method: String,
    pub params: Json,
    /// The timeout of a single read or write.
    pub timeout: u64,
    /// The time that any call has.
    pub deferred_deadline: u64,
    /// The time that this call has, where it is given less.
    pub max_host: Option<u64>,
    /// Whether progress is passed on.
    pub observed: bool,
    /// How to ask the adapter to stop.
    pub abort: Option<AbortRequest>,
}

/// What a plan holds.
pub struct PlanView {
    pub method: Seq<char>,
    pub params: JsonView,
    pub timeout: u64,
    pub deferred_deadline: u64,
    pub max_host: Option<u64>,
    pub observed: bool,
    pub abort: Option<(Seq<char>, JsonView)>,
}

impl View for CallPlan {
    type V = PlanView;

    open spec fn view(&self) -> PlanView {
        PlanView {
            method: self.method@,
            params: self.params@,
            timeout: self.timeout,
            deferred_deadline: self.deferred_deadline,
            max_host: self.max_host,
            observed: self.observed,
            abort: match self.abort {
                Some(a) => Some((a.method@, a.params@)),
                None => None,
            },
        }
    }
}

/// Where a call stands.
#[derive(Debug)]
pub enum ExchangeStage {
    Writing,
    /// A line is awaited; `clamped` says that the deadline comes before the timeout of a read.
    Reading { clamped: bool },
    Observing,
    Aborting,
    /// The adapter is asked to stop because of an error, which ends the call in any case.
    AbortingAfter(LinkError),
    Ended,
}

/// What a stage holds.
pub enum StageView {
    Writing,
    Reading { clamped: bool },
    Observing,
    Aborting,
    AbortingAfter(LinkErrorView),
    Ended,
}

impl View for ExchangeStage {
    type V = StageView;

    open spec fn view(&self) -> StageView {
        match *self {
            ExchangeStage::Writing => StageView::Writing,
            ExchangeStage::Reading { clamped } => StageView::Reading { clamped },
            ExchangeStage::Observing => StageView::Observing,
            ExchangeStage::Aborting => StageView::Aborting,
            ExchangeStage::AbortingAfter(e) => StageView::AbortingAfter(e@),
            ExchangeStage::Ended => StageView::Ended,
        }
    }
}

/// The state of a call, with the state of its link that outlives it: the number of the next
/// request and the reads that timed out in a row.
#[derive(Debug)]
pub struct Exchange {
    pub stage: ExchangeStage,
    pub id: u64,
    pub mismatches: u32,
    pub abort_sent: bool,
    pub deadline: u64,
    pub next_id: u64,
    pub consecutive_timeouts: u32,
}

/// What the state of a call holds.
pub struct ExchangeView {
    pub stage: StageView,
    pub id: u64,
    pub mismatches: u32,
    pub abort_sent: bool,
    pub deadline: u64,
    pub next_id: u64,
    pub consecutive_timeouts: u32,
}

impl View for Exchange {
    type V = ExchangeView;

    open spec fn view(&self) -> ExchangeView {
        ExchangeView {
            stage: self.stage@,
            id: self.id,
            mismatches: self.mismatches,
            abort_sent: self.abort_sent,
            deadline: self.deadline,
            next_id: self.next_id,
            consecutive_timeouts: self.consecutive_timeouts,
        }
    }
}

/// What to do next.
#[derive(Debug)]
pub enum ExchangeAction {
    /// Write the request, with a timeout.
    Write { request: Request, timeout: u64 },
    /// Read a line, with a timeout.
    Read { timeout: u64 },
    /// Pass progress on.
    Observe { progress: Json },
    /// Write the request to stop.
    Abort { request: Request },
    /// Give this result; the connection stays.
    Finish { result: Json },
    /// Give this error, and drop the connection where `drop` says so.
    Refuse { error: LinkError, drop: bool },
}

/// What an action holds.
pub enum ActionView {
    Write { id: u64, method: Seq<char>, params: JsonView, timeout: u64 },
    Read { timeout: u64 },
    Observe { progress: JsonView },
    Abort { id: u64, method: Seq<char>, params: JsonView },
    Finish { result: JsonView },
    Refuse { error: LinkErrorView, drop: bool },
}

impl View for ExchangeAction {
    type V = ActionView;

    open spec fn view(&self) -> ActionView {
        match *self {
            ExchangeAction::Write { request, timeout } => ActionView::Write {
                id: request.id,
                method: request.method@,
                params: request.params@,
                timeout,
            },
            ExchangeAction::Read { timeout } => ActionView::Read { timeout },
            ExchangeAction::Observe { progress } => ActionView::Observe { progress: progress@ },
            ExchangeAction::Abort { request } => ActionView::Abort {
                id: request.id,
                method: request.method@,
                params: request.params@,
            },
            ExchangeAction::Finish { result } => ActionView::Finish { result: result@ },
            ExchangeAction::Refuse { error, drop } => ActionView::Refuse { error: error@, drop },
        }
    }
}

/// What came of an action. A write may also have timed out, and so may a read.
#[derive(Debug)]
pub enum ExchangeEvent {
    Written,
    /// A line was read: a response, or what is wrong with it.
    Line(Result<Response, String>),
    Closed,
    TimedOut,
    Failed(LinkError),
    /// The timeout could not be set, and nothing was written or read.
    Unset(LinkError),
    Observed(Result<(), LinkError>),
}

/// What an event holds.
pub enum EventView {
    Written,
    Line(Result<ReplyView, Seq<char>>),
    Closed,
    TimedOut,
    Failed(LinkErrorView),
    Unset(LinkErrorView),
    Observed(Result<(), LinkErrorView>),
}

/// What a response holds.
pub struct ReplyView {
    pub id: u64,
    pub ok: bool,
    pub result: Option<JsonView>,
    pub error: Option<(Seq<char>, Seq<char>)>,
}

/// What a response holds.
pub open spec fn reply_of(response: Response) -> ReplyView {
    ReplyView {
        id: response.id,
        ok: response.ok,
        result: match response.result {
            Some(v) => Some(v@),
            None => None,
        },
        error: match response.error {
            Some(e) => Some((e.kind@, e.message@)),
            None => None,
        },
    }
}

impl View for ExchangeEvent {
    type V = EventView;

    open spec fn view(&self) -> EventView {
        match *self {
            ExchangeEvent::Written => EventView::Written,
            ExchangeEvent::Line(Ok(response)) => EventView::Line(Ok(reply_of(response))),
            ExchangeEvent::Line(Err(m)) => EventView::Line(Err(m@)),
            ExchangeEvent::Closed => EventView::Closed,
            ExchangeEvent::TimedOut => EventView::TimedOut,
            ExchangeEvent::Failed(e) => EventView::Failed(e@),
            ExchangeEvent::Unset(e) => EventView::Unset(e@),
            ExchangeEvent::Observed(Ok(())) => EventView::Observed(Ok(())),
            ExchangeEvent::Observed(Err(e)) => EventView::Observed(Err(e@)),
        }
    }
}

/// A sum, brought down to the largest that 64 bits hold.
pub open spec fn capped_sum(a: u64, b: u64) -> u64 {
    if a + b > u64::MAX {
        u64::MAX
    } else {
        (a + b) as u64
    }
}

/// The moment at which a call that starts now is over.
pub open spec fn deadline_of(plan: PlanView, now: u64) -> u64 {
    let own = match plan.max_host {
        Some(n) => n,
        None => plan.deferred_deadline,
    };
    capped_sum(
        now,
        if own < plan.deferred_deadline {
            own
        } else {
            plan.deferred_deadline
        },
    )
}

/// The timeout of a read or write: its own, but no more than is left, and no less than one
/// millisecond.
pub open spec fn io_timeout(plan: PlanView, deadline: u64, now: u64) -> u64 {
    let left = if deadline > now {
        (deadline - now) as u64
    } else {
        0
    };
    let least = if left < plan.timeout {
        left
    } else {
        plan.timeout
    };
    if least < NANOS_PER_MS {
        NANOS_PER_MS
    } else {
        least
    }
}

/// Ending with an error.
pub open spec fn refuse(e: ExchangeView, error: LinkErrorView, drop: bool) -> (
    ExchangeView,
    ActionView,
) {
    (ExchangeView { stage: StageView::Ended, ..e }, ActionView::Refuse { error, drop })
}

/// Awaiting the next line, unless the call is over.
pub open spec fn turn(e: ExchangeView, plan: PlanView, now: u64, cancelled: bool) -> (
    ExchangeView,
    ActionView,
) {
    if now >= e.deadline {
        refuse(
            ExchangeView { consecutive_timeouts: 0, ..e },
            if cancelled {
                LinkErrorView::Cancelled
            } else {
                LinkErrorView::Timeout
            },
            true,
        )
    } else {
        (
            ExchangeView {
                stage: StageView::Reading { clamped: e.deadline - now <= plan.timeout },
                ..e
            },
            ActionView::Read { timeout: io_timeout(plan, e.deadline, now) },
        )
    }
}

/// Asking the adapter to stop, in a stage that awaits that.
pub open spec fn ask_to_stop(e: ExchangeView, abort: (Seq<char>, JsonView), stage: StageView) -> (
    ExchangeView,
    ActionView,
) {
    (
        ExchangeView { stage, next_id: capped_sum(e.next_id, 1), ..e },
        ActionView::Abort { id: e.next_id, method: abort.0, params: abort.1 },
    )
}

/// Asking the adapter to stop once the call is cancelled; without a way to ask, the call ends.
pub open spec fn stop(e: ExchangeView, plan: PlanView) -> (ExchangeView, ActionView) {
    match plan.abort {
        None => refuse(e, LinkErrorView::Cancelled, true),
        Some(abort) => ask_to_stop(e, abort, StageView::Aborting),
    }
}

/// Going on after progress.
pub open spec fn after_progress(e: ExchangeView, plan: PlanView, now: u64, cancelled: bool) -> (
    ExchangeView,
    ActionView,
) {
    if !e.abort_sent && cancelled {
        stop(e, plan)
    } else {
        turn(e, plan, now, cancelled)
    }
}

/// The value of a response that succeeded.
pub open spec fn result_of(reply: ReplyView) -> JsonView {
    match reply.result {
        Some(v) => v,
        None => JsonView::Null,
    }
}

/// Whether a value only reports progress.
pub open spec fn is_working(result: JsonView) -> bool {
    result.text_field("status"@) == Some("working"@)
}

/// After a line was read.
pub open spec fn after_line(
    e: ExchangeView,
    plan: PlanView,
    now: u64,
    cancelled: bool,
    line: Result<ReplyView, Seq<char>>,
) -> (ExchangeView, ActionView) {
    let heard = ExchangeView { consecutive_timeouts: 0, ..e };
    match line {
        Err(m) => refuse(heard, LinkErrorView::Protocol(m), true),
        Ok(reply) => if reply.id != e.id {
            if e.mismatches >= MAX_ID_MISMATCH {
                refuse(
                    heard,
                    LinkErrorView::Protocol(
                        "too many frames with a mismatched id; stream desynchronized"@,
                    ),
                    true,
                )
            } else {
                turn(
                    ExchangeView { mismatches: (e.mismatches + 1) as u32, ..heard },
                    plan,
                    now,
                    cancelled,
                )
            }
        } else if !reply.ok {
            refuse(
                heard,
                match reply.error {
                    Some((kind, message)) => LinkErrorView::Emulator { kind, message },
                    None => LinkErrorView::Protocol("response returned ok=false without an error"@),
                },
                false,
            )
        } else if is_working(result_of(reply)) {
            if plan.observed {
                (
                    ExchangeView { stage: StageView::Observing, ..heard },
                    ActionView::Observe { progress: result_of(reply) },
                )
            } else {
                after_progress(heard, plan, now, cancelled)
            }
        } else {
            (
                ExchangeView { stage: StageView::Ended, ..heard },
                ActionView::Finish { result: result_of(reply) },
            )
        },
    }
}

/// After a read timed out.
pub open spec fn after_timeout(
    e: ExchangeView,
    plan: PlanView,
    now: u64,
    cancelled: bool,
    clamped: bool,
) -> (ExchangeView, ActionView) {
    if !e.abort_sent && cancelled {
        stop(e, plan)
    } else if clamped {
        if now < e.deadline {
            turn(e, plan, now, cancelled)
        } else {
            refuse(
                ExchangeView { consecutive_timeouts: 0, ..e },
                LinkErrorView::Timeout,
                true,
            )
        }
    } else if e.consecutive_timeouts + 1 >= MAX_CONSECUTIVE_TIMEOUTS {
        refuse(ExchangeView { consecutive_timeouts: 0, ..e }, LinkErrorView::Timeout, true)
    } else {
        refuse(
            ExchangeView { consecutive_timeouts: (e.consecutive_timeouts + 1) as u32, ..e },
            LinkErrorView::Timeout,
            false,
        )
    }
}

/// What follows an event.
pub open spec fn next(
    e: ExchangeView,
    plan: PlanView,
    now: u64,
    cancelled: bool,
    event: EventView,
) -> (ExchangeView, ActionView) {
    match (e.stage, event) {
        (StageView::Writing, EventView::Written) => turn(e, plan, now, cancelled),
        (StageView::Writing, EventView::TimedOut) => refuse(e, LinkErrorView::Timeout, true),
        (StageView::Writing, EventView::Failed(f)) => refuse(e, f, true),
        (StageView::Writing, EventView::Unset(f)) => refuse(
            ExchangeView { next_id: e.id, ..e },
            f,
            false,
        ),
        (StageView::Reading { .. }, EventView::Line(line)) => after_line(
            e,
            plan,
            now,
            cancelled,
            line,
        ),
        (StageView::Reading { .. }, EventView::Closed) => refuse(
            e,
            LinkErrorView::NotConnected,
            true,
        ),
        (StageView::Reading { clamped }, EventView::TimedOut) => after_timeout(
            e,
            plan,
            now,
            cancelled,
            clamped,
        ),
        (StageView::Reading { .. }, EventView::Failed(f)) => refuse(e, f, true),
        (StageView::Reading { .. }, EventView::Unset(f)) => refuse(e, f, false),
        (StageView::Observing, EventView::Observed(Ok(()))) => after_progress(
            e,
            plan,
            now,
            cancelled,
        ),
        (StageView::Observing, EventView::Observed(Err(f))) => match plan.abort {
            None => refuse(e, f, true),
            Some(abort) => ask_to_stop(e, abort, StageView::AbortingAfter(f)),
        },
        (StageView::Aborting, EventView::Written) => turn(
            ExchangeView { abort_sent: true, ..e },
            plan,
            now,
            cancelled,
        ),
        (StageView::Aborting, EventView::TimedOut) => refuse(e, LinkErrorView::Timeout, true),
        (StageView::Aborting, EventView::Failed(f)) => refuse(e, f, true),
        (StageView::AbortingAfter(f), _) => refuse(e, f, true),
        _ => refuse(e, LinkErrorView::Protocol("call step out of order"@), true),
    }
}

/// The first state of a call, and its first action.
pub open spec fn first(
    plan: PlanView,
    connected: bool,
    next_id: u64,
    consecutive_timeouts: u32,
    now: u64,
) -> (ExchangeView, ActionView) {
    let e = ExchangeView {
        stage: StageView::Writing,
        id: next_id,
        mismatches: 0,
        abort_sent: false,
        deadline: deadline_of(plan, now),
        next_id,
        consecutive_timeouts,
    };
    if !connected {
        refuse(e, LinkErrorView::NotConnected, false)
    } else {
        (
            ExchangeView { next_id: capped_sum(next_id, 1), ..e },
            ActionView::Write {
                id: next_id,
                method: plan.method,
                params: plan.params,
                timeout: io_timeout(plan, deadline_of(plan, now), now),
            },
        )
    }
}

fn timeout_for(plan: &CallPlan, deadline: u64, now: u64) -> (r: u64)
    ensures
        r == io_timeout(plan@, deadline, now),
{
    let left: u64 = if deadline > now {
        deadline - now
    } else {
        0
    };
    let least: u64 = if left < plan.timeout {
        left
    } else {
        plan.timeout
    };
    if least < NANOS_PER_MS {
        NANOS_PER_MS
    } else {
        least
    }
}

fn worker_reports(result: &Json) -> (r: bool)
    ensures
        r == is_working(result@),
{
    match result.get_str("status") {
        Some(s) => text::same(s, "working"),
        None => false,
    }
}

impl Exchange {
    /// Starts a call.
    pub fn begin(
        plan: &CallPlan,
        connected: bool,
        next_id: u64,
        consecutive_timeouts: u32,
        now: u64,
    ) -> (r: (Exchange, ExchangeAction))
        ensures
            (r.0@, r.1@) == first(plan@, connected, next_id, consecutive_timeouts, now),
    {
        let own: u64 = match plan.max_host {
            Some(n) => n,
            None => plan.deferred_deadline,
        };
        let budget: u64 = if own < plan.deferred_deadline {
            own
        } else {
            plan.deferred_deadline
        };
        let deadline: u64 = now.saturating_add(budget);
        let e = Exchange {
            stage: ExchangeStage::Writing,
            id: next_id,
            mismatches: 0,
            abort_sent: false,
            deadline,
            next_id,
            consecutive_timeouts,
        };
        if !connected {
            return e.refuse(LinkError::NotConnected, false);
        }
        let request = Request {
            id: next_id,
            method: plan.method.clone(),
            params: plan.params.clone(),
        };
        let timeout: u64 = timeout_for(plan, deadline, now);
        (
            Exchange { next_id: next_id.saturating_add(1), ..e },
            ExchangeAction::Write { request, timeout },
        )
    }

    fn refuse(self, error: LinkError, drop: bool) -> (r: (Exchange, ExchangeAction))
        ensures
            (r.0@, r.1@) == refuse(self@, error@, drop),
    {
        (
            Exchange { stage: ExchangeStage::Ended, ..self },
            ExchangeAction::Refuse { error, drop },
        )
    }

    fn turn(self, plan: &CallPlan, now: u64, cancelled: bool) -> (r: (Exchange, ExchangeAction))
        ensures
            (r.0@, r.1@) == turn(self@, plan@, now, cancelled),
    {
        if now >= self.deadline {
            let quiet = Exchange { consecutive_timeouts: 0, ..self };
            if cancelled {
                quiet.refuse(LinkError::Cancelled, true)
            } else {
                quiet.refuse(LinkError::Timeout, true)
            }
        } else {
            let clamped = self.deadline - now <= plan.timeout;
            let timeout: u64 = timeout_for(plan, self.deadline, now);
            (
                Exchange { stage: ExchangeStage::Reading { clamped }, ..self },
                ExchangeAction::Read { timeout },
            )
        }
    }

    fn ask_to_stop(self, abort: &AbortRequest, stage: ExchangeStage) -> (r: (
        Exchange,
        ExchangeAction,
    ))
        ensures
            (r.0@, r.1@) == ask_to_stop(self@, (abort.method@, abort.params@), stage@),
    {
        let request = Request {
            id: self.next_id,
            method: abort.method.clone(),
            params: abort.params.clone(),
        };
        let next_id: u64 = self.next_id.saturating_add(1);
        (Exchange { stage, next_id, ..self }, ExchangeAction::Abort { request })
    }

    fn stop(self, plan: &CallPlan) -> (r: (Exchange, ExchangeAction))
        ensures
            (r.0@, r.1@) == stop(self@, plan@),
    {
        match &plan.abort {
            None => self.refuse(LinkError::Cancelled, true),
            Some(abort) => self.ask_to_stop(abort, ExchangeStage::Aborting),
        }
    }

    fn after_progress(self, plan: &CallPlan, now: u64, cancelled: bool) -> (r: (
        Exchange,
        ExchangeAction,
    ))
        ensures
            (r.0@, r.1@) == after_progress(self@, plan@, now, cancelled),
    {
        if !self.abort_sent && cancelled {
            self.stop(plan)
        } else {
            self.turn(plan, now, cancelled)
        }
    }

    fn after_line(
        self,
        plan: &CallPlan,
        now: u64,
        cancelled: bool,
        line: Result<Response, String>,
    ) -> (r: (Exchange, ExchangeAction))
        ensures
            (r.0@, r.1@) == after_line(
                self@,
                plan@,
                now,
                cancelled,
                match line {
                    Ok(response) => Ok(reply_of(response)),
                    Err(m) => Err(m@),
                },
            ),
    {
        let heard = Exchange { consecutive_timeouts: 0, ..self };
        let response = match line {
            Ok(response) => response,
            Err(m) => {
                return heard.refuse(LinkError::Protocol(m), true);
            },
        };
        if response.id != heard.id {
            if heard.mismatches >= MAX_ID_MISMATCH {
                return heard.refuse(
                    LinkError::protocol(
                        "too many frames with a mismatched id; stream desynchronized",
                    ),
                    true,
                );
            }
            let mismatches: u32 = heard.mismatches + 1;
            return Exchange { mismatches, ..heard }.turn(plan, now, cancelled);
        }
        if !response.ok {
            return match response.error {
                Some(e) => heard.refuse(
                    LinkError::Emulator { kind: e.kind, message: e.message },
                    false,
                ),
                None => heard.refuse(
                    LinkError::protocol("response returned ok=false without an error"),
                    false,
                ),
            };
        }
        let result = match response.result {
            Some(v) => v,
            None => Json::Null,
        };
        if worker_reports(&result) {
            if plan.observed {
                return (
                    Exchange { stage: ExchangeStage::Observing, ..heard },
                    ExchangeAction::Observe { progress: result },
                );
            }
            return heard.after_progress(plan, now, cancelled);
        }
        (Exchange { stage: ExchangeStage::Ended, ..heard }, ExchangeAction::Finish { result })
    }

    fn after_timeout(self, plan: &CallPlan, now: u64, cancelled: bool, clamped: bool) -> (r: (
        Exchange,
        ExchangeAction,
    ))
        ensures
            (r.0@, r.1@) == after_timeout(self@, plan@, now, cancelled, clamped),
    {
        if !self.abort_sent && cancelled {
            return self.stop(plan);
        }
        if clamped {
            if now < self.deadline {
                return self.turn(plan, now, cancelled);
            }
            return Exchange { consecutive_timeouts: 0, ..self }.refuse(LinkError::Timeout, true);
        }
        if self.consecutive_timeouts >= MAX_CONSECUTIVE_TIMEOUTS - 1 {
            return Exchange { consecutive_timeouts: 0, ..self }.refuse(LinkError::Timeout, true);
        }
        let count: u32 = self.consecutive_timeouts + 1;
        Exchange { consecutive_timeouts: count, ..self }.refuse(LinkError::Timeout, false)
    }

    /// Goes on after an event.
    pub fn advance(self, plan: &CallPlan, now: u64, cancelled: bool, event: ExchangeEvent) -> (r: (
        Exchange,
        ExchangeAction,
    ))
        ensures
            (r.0@, r.1@) == next(self@, plan@, now, cancelled, event@),
    {
        let stage = self.stage;
        let e = Exchange { stage: ExchangeStage::Ended, ..self };
        match (stage, event) {
            (ExchangeStage::Writing, ExchangeEvent::Written) => e.turn(plan, now, cancelled),
            (ExchangeStage::Writing, ExchangeEvent::TimedOut) => e.refuse(LinkError::Timeout, true),
            (ExchangeStage::Writing, ExchangeEvent::Failed(f)) => e.refuse(f, true),
            (ExchangeStage::Writing, ExchangeEvent::Unset(f)) => Exchange {
                next_id: e.id,
                ..e
            }.refuse(f, false),
            (ExchangeStage::Reading { .. }, ExchangeEvent::Line(line)) => e.after_line(
                plan,
                now,
                cancelled,
                line,
            ),
            (ExchangeStage::Reading { .. }, ExchangeEvent::Closed) => e.refuse(
                LinkError::NotConnected,
                true,
            ),
            (ExchangeStage::Reading { clamped }, ExchangeEvent::TimedOut) => e.after_timeout(
                plan,
                now,
                cancelled,
                clamped,
            ),
            (ExchangeStage::Reading { .. }, ExchangeEvent::Failed(f)) => e.refuse(f, true),
            (ExchangeStage::Reading { .. }, ExchangeEvent::Unset(f)) => e.refuse(f, false),
            (ExchangeStage::Observing, ExchangeEvent::Observed(Ok(()))) => e.after_progress(
                plan,
                now,
                cancelled,
            ),
            (ExchangeStage::Observing, ExchangeEvent::Observed(Err(f))) => match &plan.abort {
                None => e.refuse(f, true),
                Some(abort) => e.ask_to_stop(abort, ExchangeStage::AbortingAfter(f)),
            },
            (ExchangeStage::Aborting, ExchangeEvent::Written) => Exchange {
                abort_sent: true,
                ..e
            }.turn(plan, now, cancelled),
            (ExchangeStage::Aborting, ExchangeEvent::TimedOut) => e.refuse(
                LinkError::Timeout,
                true,
            ),
            (ExchangeStage::Aborting, ExchangeEvent::Failed(f)) => e.refuse(f, true),
            (ExchangeStage::AbortingAfter(f), _) => e.refuse(f, true),
            _ => e.refuse(LinkError::protocol("call step out of order"), true),
        }
    }
}

/// A call ends well only by a final response under its own number: one that succeeded and does
/// not merely report progress.
pub proof fn results_answer_the_request(
    e: ExchangeView,
    plan: PlanView,
    now: u64,
    cancelled: bool,
    event: EventView,
)
    requires
        next(e, plan, now, cancelled, event).1 is Finish,
    ensures
        event matches EventView::Line(Ok(reply)) && reply.id == e.id && reply.ok && !is_working(
            result_of(reply),
        ) && next(e, plan, now, cancelled, event).1 == (ActionView::Finish {
            result: result_of(reply),
        }),
{
}

/// No line is awaited at the deadline or after it, and none for longer than until the deadline,
/// except for the millisecond that a socket takes at least. The deadline stays where it is.
pub proof fn reads_end_by_the_deadline(
    e: ExchangeView,
    plan: PlanView,
    now: u64,
    cancelled: bool,
    event: EventView,
)
    ensures
        next(e, plan, now, cancelled, event).0.deadline == e.deadline,
        next(e, plan, now, cancelled, event).1 matches ActionView::Read { timeout } ==> now
            < e.deadline && (now + timeout <= e.deadline || timeout == NANOS_PER_MS),
{
}

/// Responses under other numbers are skipped only so often: their count stays within its bound,
/// and grows with each of them that is skipped.
pub proof fn skipped_responses_are_bounded(
    e: ExchangeView,
    plan: PlanView,
    now: u64,
    cancelled: bool,
    event: EventView,
)
    requires
        e.mismatches <= MAX_ID_MISMATCH,
    ensures
        next(e, plan, now, cancelled, event).0.mismatches <= MAX_ID_MISMATCH,
        e.stage is Reading && (event matches EventView::Line(Ok(reply)) && reply.id != e.id) ==> {
            ||| next(e, plan, now, cancelled, event).1 is Refuse
            ||| next(e, plan, now, cancelled, event).0.mismatches == e.mismatches + 1
        },
{
}

/// A connection on which a request may have been written in part is never used again: whatever
/// goes wrong with a write drops it.
pub proof fn partial_writes_poison_the_connection(
    e: ExchangeView,
    plan: PlanView,
    now: u64,
    cancelled: bool,
    event: EventView,
)
    requires
        e.stage is Writing || e.stage is Aborting,
        event is TimedOut || event is Failed,
    ensures
        next(e, plan, now, cancelled, event).1 matches ActionView::Refuse { drop, .. } && drop,
{
}

/// A cancelled call asks the adapter to stop at most once.
pub proof fn stop_is_asked_once(
    e: ExchangeView,
    plan: PlanView,
    now: u64,
    cancelled: bool,
    event: EventView,
)
    requires
        e.abort_sent,
    ensures
        next(e, plan, now, cancelled, event).0.abort_sent,
        next(e, plan, now, cancelled, event).1 is Abort ==> (event matches EventView::Observed(
            Err(_),
        )),
{
}

} // verus!
