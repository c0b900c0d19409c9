//! Service levels of support tickets: business time between instants,
//! breaches of response and resolution limits, escalation, and the
//! escalation webhook request.
use vstd::prelude::*;
use vstd::string::StringExecFns;
use crate::text::{nat_text, usize_text};
use crate::time::{
    Span, Timestamp, add_minute, utc_now, elapsed, elapsed_between, epoch_day, hour_of, span_lt, span_sub,
    ts_before, weekday_of,
};

verus! {

/// How urgent a ticket is.
#[derive(Clone, Copy, Debug, PartialEq, Eq, Hash, Structural)]
pub enum TicketPriority {
    Low,
    Medium,
    High,
    Urgent,
}

/// Where a ticket stands.
#[derive(Clone, Copy, Debug, PartialEq, Eq, Structural)]
pub enum TicketStatus {
    Open,
    Replied,
    Resolved,
    Closed,
}

/// How far a breached ticket is escalated.
#[derive(Clone, Copy, Debug, PartialEq, Eq, Structural)]
pub enum EscalationLevel {
    /// Not escalated.
    NotEscalated,
    Level1,
    Level2,
    Level3,
}

/// A support ticket.
#[derive(Clone, Debug)]
pub struct SupportTicket {
    pub id: String,
    pub priority: TicketPriority,
    pub status: TicketStatus,
    pub created_at: Timestamp,
    pub assigned_at: Option<Timestamp>,
    pub resolved_at: Option<Timestamp>,
    pub first_responded_at: Option<Timestamp>,
    pub escalated_level: u32,
    pub subject: String,
    pub body: String,
    pub attachments: Vec<String>,
}

/// The limits of a priority, measured in business time.
#[derive(Clone, Copy, Debug)]
pub struct SLAPolicy {
    pub response_time_limit: Span,
    pub resolution_time_limit: Span,
}

/// The limits of the legacy check, measured in elapsed time.
#[derive(Clone, Copy, Debug)]
pub struct SLAConfig {
    pub response_time_limit: Span,
    pub resolution_time_limit: Span,
}

/// A day of the proleptic Gregorian calendar.
#[derive(Clone, Copy, Debug, PartialEq, Eq, Structural)]
pub struct CalendarDate {
    pub year: i32,
    pub month: u32,
    pub day: u32,
}

/// Working hours, `work_hours_start` up to `work_hours_end` (hours of the
/// day, UTC), on weekdays that are not holidays.
#[derive(Clone, Debug)]
pub struct HolidaySchedule {
    pub holidays: Vec<CalendarDate>,
    pub work_hours_start: u32,
    pub work_hours_end: u32,
}

/// The outcome of an SLA check.
#[derive(Clone, Copy, Debug, PartialEq, Eq, Structural)]
pub struct SLAStatus {
    pub response_breached: bool,
    pub resolution_breached: bool,
    pub escalation: EscalationLevel,
}

/// What `NaiveDate::from_ymd_opt(year, month, day)` and `to_epoch_days` give:
/// the date's day since 1970-01-01, `None` for a date that does not exist.
pub uninterp spec fn calendar_epoch_day(year: i32, month: u32, day: u32) -> Option<i64>;

/// `NaiveDate::from_ymd_opt(year, month, day).map(|d| d.to_epoch_days())`:
/// the days from 1970-01-01 to the date, `None` for a date that does not exist.
#[verifier::external_body]
fn epoch_day_of_date(year: i32, month: u32, day: u32) -> (r: Option<i64>)
    ensures
        r == calendar_epoch_day(year, month, day),
{
    chrono::NaiveDate::from_ymd_opt(year, month, day).map(|d| d.to_epoch_days() as i64)
}

/// The days since the epoch of the holidays.
pub open spec fn holiday_days(holidays: Seq<CalendarDate>) -> Seq<Option<i64>> {
    holidays.map_values(|d: CalendarDate| calendar_epoch_day(d.year, d.month, d.day))
}

/// Whether day `day` is among the holidays.
pub open spec fn is_holiday(days: Seq<Option<i64>>, day: int) -> bool {
    exists|i: int| 0 <= i < days.len() && #[trigger] days[i] == Some(day as i64)
}

/// Whether the minute that starts at `t` is working time: a weekday, not a
/// holiday, within the working hours.
pub open spec fn is_business_minute(t: Timestamp, days: Seq<Option<i64>>, start_hour: u32, end_hour: u32) -> bool {
    &&& weekday_of(t) != 5
    &&& weekday_of(t) != 6
    &&& !is_holiday(days, epoch_day(t.secs as int))
    &&& start_hour <= hour_of(t)
    &&& hour_of(t) < end_hour
}

/// The business seconds counted from `t` on, minute by minute, until `end`
/// is reached or a million minutes have been counted from the start (`ticks`
/// of them already); `None` where a minute would pass the latest instant.
pub open spec fn business_seconds_from(
    t: Timestamp,
    end: Timestamp,
    days: Seq<Option<i64>>,
    start_hour: u32,
    end_hour: u32,
    ticks: nat,
) -> Option<nat>
    decreases 1_000_000 - ticks,
{
    if ts_before(t, end) && ticks < 1_000_000 {
        match add_minute(t) {
            None => None,
            Some(next) => match business_seconds_from(next, end, days, start_hour, end_hour, ticks + 1) {
                Some(rest) => Some(
                    rest + if is_business_minute(t, days, start_hour, end_hour) {
                        60nat
                    } else {
                        0nat
                    },
                ),
                None => None,
            },
        }
    } else {
        Some(0)
    }
}

/// The business time from `start` to `end`: zero unless `start` is before
/// `end`, else sixty seconds for each working minute that starts in between
/// (a million minutes at most).
pub open spec fn business_duration(start: Timestamp, end: Timestamp, schedule: HolidaySchedule) -> Option<Span> {
    if !ts_before(start, end) {
        Some(Span { secs: 0, nanos: 0 })
    } else {
        match business_seconds_from(
            start,
            end,
            holiday_days(schedule.holidays@),
            schedule.work_hours_start,
            schedule.work_hours_end,
            0,
        ) {
            Some(s) => Some(Span { secs: s as u64, nanos: 0 }),
            None => None,
        }
    }
}

proof fn lemma_business_seconds_bound(
    t: Timestamp,
    end: Timestamp,
    days: Seq<Option<i64>>,
    start_hour: u32,
    end_hour: u32,
    ticks: nat,
)
    requires
        ticks <= 1_000_000,
    ensures
        business_seconds_from(t, end, days, start_hour, end_hour, ticks) matches Some(s) ==> s <= 60 * (
        1_000_000 - ticks),
    decreases 1_000_000 - ticks,
{
    if ts_before(t, end) && ticks < 1_000_000 {
        if let Some(next) = add_minute(t) {
            lemma_business_seconds_bound(next, end, days, start_hour, end_hour, ticks + 1);
        }
    }
}

proof fn lemma_business_seconds_no_hours(
    t: Timestamp,
    end: Timestamp,
    days: Seq<Option<i64>>,
    start_hour: u32,
    end_hour: u32,
    ticks: nat,
)
    requires
        ticks <= 1_000_000,
        start_hour >= end_hour,
    ensures
        business_seconds_from(t, end, days, start_hour, end_hour, ticks) matches Some(s) ==> s == 0,
    decreases 1_000_000 - ticks,
{
    if ts_before(t, end) && ticks < 1_000_000 {
        if let Some(next) = add_minute(t) {
            lemma_business_seconds_no_hours(next, end, days, start_hour, end_hour, ticks + 1);
        }
    }
}

/// A working day without working hours (the end hour not after the start
/// hour) gives no business time.
pub proof fn lemma_no_working_hours_no_business_time(start: Timestamp, end: Timestamp, schedule: HolidaySchedule)
    requires
        schedule.work_hours_start >= schedule.work_hours_end,
    ensures
        business_duration(start, end, schedule) matches Some(d) ==> d == (Span { secs: 0, nanos: 0 }),
{
    lemma_business_seconds_no_hours(
        start,
        end,
        holiday_days(schedule.holidays@),
        schedule.work_hours_start,
        schedule.work_hours_end,
        0,
    );
}

proof fn lemma_business_seconds_more_holidays(
    t: Timestamp,
    end: Timestamp,
    days: Seq<Option<i64>>,
    more: Seq<Option<i64>>,
    start_hour: u32,
    end_hour: u32,
    ticks: nat,
)
    requires
        ticks <= 1_000_000,
        forall|d: int| #[trigger] is_holiday(days, d) ==> is_holiday(more, d),
    ensures
        business_seconds_from(t, end, days, start_hour, end_hour, ticks) is None <==> business_seconds_from(
            t,
            end,
            more,
            start_hour,
            end_hour,
            ticks,
        ) is None,
        business_seconds_from(t, end, days, start_hour, end_hour, ticks) matches Some(a) ==> (
        business_seconds_from(t, end, more, start_hour, end_hour, ticks) matches Some(b) && b <= a),
    decreases 1_000_000 - ticks,
{
    if ts_before(t, end) && ticks < 1_000_000 {
        if let Some(next) = add_minute(t) {
            lemma_business_seconds_more_holidays(next, end, days, more, start_hour, end_hour, ticks + 1);
            assert(is_holiday(days, epoch_day(t.secs as int)) ==> is_holiday(more, epoch_day(t.secs as int)));
        }
    }
}

/// Adding holidays never adds business time: where one schedule's holidays
/// are all among another's, with the same working hours, the other gives no
/// more business time (and fails exactly where the first does).
pub proof fn lemma_holidays_never_add_business_time(
    start: Timestamp,
    end: Timestamp,
    schedule: HolidaySchedule,
    more: HolidaySchedule,
)
    requires
        more.work_hours_start == schedule.work_hours_start,
        more.work_hours_end == schedule.work_hours_end,
        forall|i: int|
            0 <= i < schedule.holidays@.len() ==> exists|j: int|
                0 <= j < more.holidays@.len() && #[trigger] more.holidays@[j] == #[trigger] schedule.holidays@[i],
    ensures
        business_duration(start, end, schedule) is None <==> business_duration(start, end, more) is None,
        business_duration(start, end, schedule) matches Some(a) ==> (business_duration(
            start,
            end,
            more,
        ) matches Some(b) && b.secs <= a.secs),
{
    let days = holiday_days(schedule.holidays@);
    let mdays = holiday_days(more.holidays@);
    assert forall|d: int| #[trigger] is_holiday(days, d) implies is_holiday(mdays, d) by {
        let i = choose|i: int| 0 <= i < days.len() && #[trigger] days[i] == Some(d as i64);
        assert(0 <= i < schedule.holidays@.len());
        let j = choose|j: int|
            0 <= j < more.holidays@.len() && #[trigger] more.holidays@[j] == #[trigger] schedule.holidays@[i];
        assert(mdays[j] == days[i]);
    }
    lemma_business_seconds_more_holidays(
        start,
        end,
        days,
        mdays,
        schedule.work_hours_start,
        schedule.work_hours_end,
        0,
    );
    lemma_business_seconds_bound(start, end, days, schedule.work_hours_start, schedule.work_hours_end, 0);
    lemma_business_seconds_bound(start, end, mdays, schedule.work_hours_start, schedule.work_hours_end, 0);
}

proof fn lemma_business_seconds_minutes(
    t: Timestamp,
    end: Timestamp,
    days: Seq<Option<i64>>,
    start_hour: u32,
    end_hour: u32,
    ticks: nat,
)
    requires
        ticks <= 1_000_000,
    ensures
        business_seconds_from(t, end, days, start_hour, end_hour, ticks) matches Some(s) ==> (if ts_before(
            t,
            end,
        ) {
            s <= 60 * ((end.secs - t.secs) / 60 + 1)
        } else {
            s == 0
        }),
    decreases 1_000_000 - ticks,
{
    if ts_before(t, end) && ticks < 1_000_000 {
        if let Some(next) = add_minute(t) {
            lemma_business_seconds_minutes(next, end, days, start_hour, end_hour, ticks + 1);
            assert(next.secs == t.secs + 60);
            if ts_before(next, end) {
                assert((end.secs - next.secs) / 60 + 1 == (end.secs - t.secs) / 60);
            }
        }
    }
}

/// Business time counts whole minutes that start before the end: it is at
/// most sixty seconds for each minute begun between start and end.
pub proof fn lemma_business_time_at_most_minutes_begun(start: Timestamp, end: Timestamp, schedule: HolidaySchedule)
    ensures
        business_duration(start, end, schedule) matches Some(d) ==> d.nanos == 0 && (if ts_before(start, end) {
            d.secs <= 60 * ((end.secs - start.secs) / 60 + 1)
        } else {
            d.secs == 0
        }),
{
    let days = holiday_days(schedule.holidays@);
    lemma_business_seconds_minutes(start, end, days, schedule.work_hours_start, schedule.work_hours_end, 0);
    lemma_business_seconds_bound(start, end, days, schedule.work_hours_start, schedule.work_hours_end, 0);
}

/// The escalation level never falls as the resolution time exceeds its limit
/// by more.
pub proof fn lemma_escalation_grows_with_excess(less: Span, more: Span)
    requires
        !span_lt(more, less),
    ensures
        level_number(escalation_for(less)) <= level_number(escalation_for(more)),
{
}

/// A ticket's SLA status escalates exactly when its resolution is breached,
/// to level 1 within two hours over the limit, to level 2 within four, and
/// to level 3 beyond.
pub proof fn lemma_ticket_escalation(ticket: SupportTicket, policy: SLAPolicy, schedule: HolidaySchedule, now: Timestamp)
    ensures
        ticket_sla(ticket, policy, schedule, now) matches Some(st) ==> {
            &&& (st.escalation == EscalationLevel::NotEscalated <==> !st.resolution_breached)
            &&& st.resolution_breached ==> {
                let over = span_sub(
                    business_duration(ticket.created_at, or_now(ticket.resolved_at, now), schedule).unwrap(),
                    policy.resolution_time_limit,
                );
                &&& st.escalation == EscalationLevel::Level1 <==> !span_lt(Span { secs: 7200, nanos: 0 }, over)
                &&& st.escalation == EscalationLevel::Level3 <==> span_lt(Span { secs: 14400, nanos: 0 }, over)
            }
        },
{
}

fn is_holiday_exec(days: &Vec<Option<i64>>, day: i64) -> (r: bool)
    ensures
        r == is_holiday(days@, day as int),
{
    let mut i: usize = 0;
    while i < days.len()
        invariant
            i <= days.len(),
            forall|k: int| 0 <= k < i ==> days@[k] != Some(day),
        decreases days.len() - i,
    {
        if let Some(d) = days[i] {
            if d == day {
                return true;
            }
        }
        i += 1;
    }
    false
}

fn is_business_minute_exec(t: Timestamp, days: &Vec<Option<i64>>, start_hour: u32, end_hour: u32) -> (r: bool)
    ensures
        r == is_business_minute(t, days@, start_hour, end_hour),
{
    let (day, second) = crate::time::day_and_second(t.secs);
    let weekday = (day % 7 + 7 + 3) % 7;
    proof {
        assert(weekday == (day + 3) % 7) by (nonlinear_arith)
            requires
                weekday == (day % 7 + 7 + 3) % 7,
        {
            vstd::arithmetic::div_mod::lemma_mod_add_multiples_vanish((day + 3) as int, 7);
        }
    }
    let hour = second / 3600;
    weekday != 5 && weekday != 6 && !is_holiday_exec(days, day) && start_hour as i64 <= hour && hour
        < end_hour as i64
}

/// The business time from `start` to `end`; `None` where a minute step would
/// pass the latest instant a `DateTime` can hold.
pub fn checked_calculate_business_duration(start: Timestamp, end: Timestamp, schedule: &HolidaySchedule) -> (r:
    Option<Span>)
    ensures
        r == business_duration(start, end, *schedule),
{
    if !start.before(&end) {
        return Some(Span { secs: 0, nanos: 0 });
    }
    let ghost hd = holiday_days(schedule.holidays@);
    let mut days: Vec<Option<i64>> = Vec::new();
    let mut i: usize = 0;
    while i < schedule.holidays.len()
        invariant
            i <= schedule.holidays.len(),
            hd == holiday_days(schedule.holidays@),
            days@ == hd.take(i as int),
        decreases schedule.holidays.len() - i,
    {
        let d = schedule.holidays[i];
        days.push(epoch_day_of_date(d.year, d.month, d.day));
        proof {
            assert(hd.take(i + 1) =~= hd.take(i as int).push(hd[i as int]));
        }
        i += 1;
    }
    proof {
        assert(hd.take(schedule.holidays@.len() as int) =~= hd);
    }
    let sh = schedule.work_hours_start;
    let eh = schedule.work_hours_end;
    let mut current = start;
    let mut seconds: u64 = 0;
    let mut ticks: u32 = 0;
    proof {
        lemma_business_seconds_bound(start, end, hd, sh, eh, 0);
    }
    while current.before(&end) && ticks < 1_000_000
        invariant
            ticks <= 1_000_000,
            days@ == hd,
            hd == holiday_days(schedule.holidays@),
            sh == schedule.work_hours_start,
            eh == schedule.work_hours_end,
            ts_before(start, end),
            seconds <= 60 * ticks,
            business_seconds_from(start, end, hd, sh, eh, 0) == match business_seconds_from(
                current,
                end,
                hd,
                sh,
                eh,
                ticks as nat,
            ) {
                Some(rest) => Some((rest + seconds) as nat),
                None => None,
            },
        decreases 1_000_000 - ticks,
    {
        if is_business_minute_exec(current, &days, sh, eh) {
            seconds = seconds + 60;
        }
        match current.plus_minute() {
            None => {
                proof {
                    assert(business_seconds_from(current, end, hd, sh, eh, ticks as nat) is None);
                }
                return None;
            },
            Some(next) => {
                current = next;
            },
        }
        ticks = ticks + 1;
    }
    Some(Span { secs: seconds, nanos: 0 })
}

/// Calculates the business time between two instants, excluding weekends,
/// holidays and hours outside the working hours: each minute from `start`
/// that is still before `end` counts sixty seconds when it starts in working
/// time (at most a million minutes are looked at).
pub fn calculate_business_duration(start: Timestamp, end: Timestamp, schedule: &HolidaySchedule) -> (r: Span)
    requires
        business_duration(start, end, *schedule) is Some,
    ensures
        Some(r) == business_duration(start, end, *schedule),
        r.nanos == 0,
        r.secs % 60 == 0,
        r.secs <= 60_000_000,
{
    let r = checked_calculate_business_duration(start, end, schedule).unwrap();
    proof {
        if ts_before(start, end) {
            lemma_business_seconds_bound(
                start,
                end,
                holiday_days(schedule.holidays@),
                schedule.work_hours_start,
                schedule.work_hours_end,
                0,
            );
            lemma_business_seconds_multiple_of_minute(
                start,
                end,
                holiday_days(schedule.holidays@),
                schedule.work_hours_start,
                schedule.work_hours_end,
                0,
            );
        }
    }
    r
}

proof fn lemma_business_seconds_multiple_of_minute(
    t: Timestamp,
    end: Timestamp,
    days: Seq<Option<i64>>,
    start_hour: u32,
    end_hour: u32,
    ticks: nat,
)
    ensures
        business_seconds_from(t, end, days, start_hour, end_hour, ticks) matches Some(s) ==> s % 60 == 0,
    decreases 1_000_000 - ticks,
{
    if ts_before(t, end) && ticks < 1_000_000 {
        if let Some(next) = add_minute(t) {
            lemma_business_seconds_multiple_of_minute(next, end, days, start_hour, end_hour, ticks + 1);
        }
    }
}

/// The escalation for a resolution limit exceeded by `exceeded` business
/// time: level 1 up to two hours, level 2 up to four hours, level 3 beyond.
pub open spec fn escalation_for(exceeded: Span) -> EscalationLevel {
    if !span_lt(Span { secs: 7200, nanos: 0 }, exceeded) {
        EscalationLevel::Level1
    } else if !span_lt(Span { secs: 14400, nanos: 0 }, exceeded) {
        EscalationLevel::Level2
    } else {
        EscalationLevel::Level3
    }
}

/// An instant, or `now` in its place.
pub open spec fn or_now(t: Option<Timestamp>, now: Timestamp) -> Timestamp {
    match t {
        Some(x) => x,
        None => now,
    }
}

/// The SLA status of a ticket at `now` under a policy: response and
/// resolution are breached when their business time (until the first
/// response, or the resolution, or else `now`) exceeds the limit; a breached
/// resolution escalates by how far it exceeds the limit.
pub open spec fn ticket_sla(ticket: SupportTicket, policy: SLAPolicy, schedule: HolidaySchedule, now: Timestamp) -> Option<
    SLAStatus,
> {
    match (
        business_duration(ticket.created_at, or_now(ticket.first_responded_at, now), schedule),
        business_duration(ticket.created_at, or_now(ticket.resolved_at, now), schedule),
    ) {
        (Some(response), Some(resolution)) => {
            let resolution_breached = span_lt(policy.resolution_time_limit, resolution);
            Some(
                SLAStatus {
                    response_breached: span_lt(policy.response_time_limit, response),
                    resolution_breached,
                    escalation: if resolution_breached {
                        escalation_for(span_sub(resolution, policy.resolution_time_limit))
                    } else {
                        EscalationLevel::NotEscalated
                    },
                },
            )
        },
        _ => None,
    }
}

/// The SLA status of a ticket at `now`; `None` where a business time cannot
/// be counted.
pub fn checked_check_ticket_sla_at(
    ticket: &SupportTicket,
    policy: &SLAPolicy,
    schedule: &HolidaySchedule,
    now: Timestamp,
) -> (r: Option<SLAStatus>)
    requires
        policy.resolution_time_limit.nanos < 1_000_000_000,
    ensures
        r == ticket_sla(*ticket, *policy, *schedule, now),
        r is Some <==> business_duration(ticket.created_at, or_now(ticket.first_responded_at, now), *schedule)
            is Some && business_duration(ticket.created_at, or_now(ticket.resolved_at, now), *schedule) is Some,
        r matches Some(st) ==> st.response_breached == span_lt(
            policy.response_time_limit,
            business_duration(ticket.created_at, or_now(ticket.first_responded_at, now), *schedule).unwrap(),
        ),
        r matches Some(st) ==> st.resolution_breached == span_lt(
            policy.resolution_time_limit,
            business_duration(ticket.created_at, or_now(ticket.resolved_at, now), *schedule).unwrap(),
        ),
        r matches Some(st) ==> (st.escalation == EscalationLevel::NotEscalated <==> !st.resolution_breached),
        r matches Some(st) ==> (st.resolution_breached ==> st.escalation == escalation_for(
            span_sub(
                business_duration(ticket.created_at, or_now(ticket.resolved_at, now), *schedule).unwrap(),
                policy.resolution_time_limit,
            ),
        )),
{
    let response_end = match ticket.first_responded_at {
        Some(t) => t,
        None => now,
    };
    let response = match checked_calculate_business_duration(ticket.created_at, response_end, schedule) {
        Some(d) => d,
        None => {
            return None;
        },
    };
    let resolution_end = match ticket.resolved_at {
        Some(t) => t,
        None => now,
    };
    let resolution = match checked_calculate_business_duration(ticket.created_at, resolution_end, schedule) {
        Some(d) => d,
        None => {
            return None;
        },
    };
    let response_breached = policy.response_time_limit.lt(&response);
    let resolution_breached = policy.resolution_time_limit.lt(&resolution);
    let mut escalation = EscalationLevel::NotEscalated;
    if resolution_breached {
        let exceeded = resolution.minus(&policy.resolution_time_limit);
        if !Span::from_secs(2 * 3600).lt(&exceeded) {
            escalation = EscalationLevel::Level1;
        } else if !Span::from_secs(4 * 3600).lt(&exceeded) {
            escalation = EscalationLevel::Level2;
        } else {
            escalation = EscalationLevel::Level3;
        }
    }
    Some(SLAStatus { response_breached, resolution_breached, escalation })
}

/// A ticket's response is breached exactly when the business time from its
/// creation to its first response (or to `now`, without one) exceeds the
/// response limit, and its resolution exactly when the business time to its
/// resolution (or `now`) exceeds the resolution limit.
pub proof fn lemma_sla_breaches(ticket: SupportTicket, policy: SLAPolicy, schedule: HolidaySchedule, now: Timestamp)
    ensures
        ticket_sla(ticket, policy, schedule, now) matches Some(st) ==> {
            let to_response = business_duration(ticket.created_at, or_now(ticket.first_responded_at, now), schedule);
            let to_resolution = business_duration(ticket.created_at, or_now(ticket.resolved_at, now), schedule);
            &&& to_response is Some && to_resolution is Some
            &&& st.response_breached == span_lt(policy.response_time_limit, to_response.unwrap())
            &&& st.resolution_breached == span_lt(policy.resolution_time_limit, to_resolution.unwrap())
        },
{
}

/// The response breach depends only on when the ticket was created and first
/// answered: two tickets that agree on those (whatever their resolution
/// times) get the same response verdict, and likewise the resolution breach
/// depends only on the creation and resolution times.
pub proof fn lemma_response_breach_ignores_resolution(
    t1: SupportTicket,
    t2: SupportTicket,
    policy: SLAPolicy,
    schedule: HolidaySchedule,
    now: Timestamp,
)
    requires
        t1.created_at == t2.created_at,
    ensures
        t1.first_responded_at == t2.first_responded_at ==> (ticket_sla(t1, policy, schedule, now) matches Some(a)
            ==> (ticket_sla(t2, policy, schedule, now) matches Some(b) ==> a.response_breached
            == b.response_breached)),
        t1.resolved_at == t2.resolved_at ==> (ticket_sla(t1, policy, schedule, now) matches Some(a) ==> (
        ticket_sla(t2, policy, schedule, now) matches Some(b) ==> a.resolution_breached == b.resolution_breached
            && a.escalation == b.escalation)),
{
    lemma_sla_breaches(t1, policy, schedule, now);
    lemma_sla_breaches(t2, policy, schedule, now);
}

/// Evaluates a ticket's SLA at `now` under its priority's policy and the
/// business hours schedule.
pub fn check_ticket_sla_at(ticket: &SupportTicket, policy: &SLAPolicy, schedule: &HolidaySchedule, now: Timestamp) -> (r:
    SLAStatus)
    requires
        policy.resolution_time_limit.nanos < 1_000_000_000,
        ticket_sla(*ticket, *policy, *schedule, now) is Some,
    ensures
        Some(r) == ticket_sla(*ticket, *policy, *schedule, now),
{
    checked_check_ticket_sla_at(ticket, policy, schedule, now).unwrap()
}

/// Evaluates a ticket's SLA now; `None` where a business time cannot be
/// counted.
pub fn check_ticket_sla(ticket: &SupportTicket, policy: &SLAPolicy, schedule: &HolidaySchedule) -> (r: Option<
    SLAStatus,
>)
    requires
        policy.resolution_time_limit.nanos < 1_000_000_000,
    ensures
        exists|now: Timestamp| r == #[trigger] ticket_sla(*ticket, *policy, *schedule, now),
{
    let now = utc_now();
    checked_check_ticket_sla_at(ticket, policy, schedule, now)
}

/// A span, or zero in its place.
pub open spec fn or_zero(s: Option<Span>) -> Span {
    match s {
        Some(x) => x,
        None => Span { secs: 0, nanos: 0 },
    }
}

/// The legacy SLA status at `now`: elapsed (not business) time from creation
/// to assignment (or `now`) and to resolution (or `now`), a negative time
/// counting as zero; a breached resolution escalates to level 1 up to a day
/// over the limit (in whole seconds), level 2 up to two days, level 3 beyond.
pub open spec fn legacy_sla(ticket: SupportTicket, sla: SLAConfig, now: Timestamp) -> SLAStatus {
    let response = or_zero(elapsed(or_now(ticket.assigned_at, now), ticket.created_at));
    let resolution = or_zero(elapsed(or_now(ticket.resolved_at, now), ticket.created_at));
    let resolution_breached = span_lt(sla.resolution_time_limit, resolution);
    let exceeded = span_sub(resolution, sla.resolution_time_limit).secs;
    SLAStatus {
        response_breached: span_lt(sla.response_time_limit, response),
        resolution_breached,
        escalation: if !resolution_breached {
            EscalationLevel::NotEscalated
        } else if exceeded <= 86400 {
            EscalationLevel::Level1
        } else if exceeded <= 172800 {
            EscalationLevel::Level2
        } else {
            EscalationLevel::Level3
        },
    }
}

/// In the legacy status, escalation comes exactly with a breached
/// resolution: level 1 within a day of elapsed time over the limit, level 2
/// within two days, level 3 beyond; and it never falls as the excess grows.
pub proof fn lemma_legacy_escalation(ticket: SupportTicket, sla: SLAConfig, now: Timestamp)
    ensures
        ({
            let st = legacy_sla(ticket, sla, now);
            let resolution = or_zero(elapsed(or_now(ticket.resolved_at, now), ticket.created_at));
            let over = span_sub(resolution, sla.resolution_time_limit).secs;
            &&& (st.escalation == EscalationLevel::NotEscalated <==> !st.resolution_breached)
            &&& st.resolution_breached ==> (st.escalation == EscalationLevel::Level1 <==> over <= 86400)
            &&& st.resolution_breached ==> (st.escalation == EscalationLevel::Level3 <==> over > 172800)
        }),
{
}

/// The legacy SLA status of a ticket at `now`.
pub fn calculate_sla_status_at(ticket: &SupportTicket, sla: &SLAConfig, now: Timestamp) -> (r: SLAStatus)
    requires
        sla.resolution_time_limit.nanos < 1_000_000_000,
    ensures
        r == legacy_sla(*ticket, *sla, now),
{
    let assigned = match ticket.assigned_at {
        Some(t) => t,
        None => now,
    };
    let response = match elapsed_between(assigned, ticket.created_at) {
        Some(s) => s,
        None => Span { secs: 0, nanos: 0 },
    };
    let resolved = match ticket.resolved_at {
        Some(t) => t,
        None => now,
    };
    let resolution = match elapsed_between(resolved, ticket.created_at) {
        Some(s) => s,
        None => Span { secs: 0, nanos: 0 },
    };
    let response_breached = sla.response_time_limit.lt(&response);
    let resolution_breached = sla.resolution_time_limit.lt(&resolution);
    let mut escalation = EscalationLevel::NotEscalated;
    if resolution_breached {
        let exceeded = resolution.minus(&sla.resolution_time_limit);
        if exceeded.secs <= 86400 {
            escalation = EscalationLevel::Level1;
        } else if exceeded.secs <= 172800 {
            escalation = EscalationLevel::Level2;
        } else {
            escalation = EscalationLevel::Level3;
        }
    }
    SLAStatus { response_breached, resolution_breached, escalation }
}

/// The legacy SLA status of a ticket now, by elapsed time.
pub fn calculate_sla_status(ticket: &SupportTicket, sla: &SLAConfig) -> (r: SLAStatus)
    requires
        sla.resolution_time_limit.nanos < 1_000_000_000,
    ensures
        exists|now: Timestamp| r == #[trigger] legacy_sla(*ticket, *sla, now),
{
    let now = utc_now();
    calculate_sla_status_at(ticket, sla, now)
}

/// The priority as `Debug` writes it.
pub open spec fn priority_text(p: TicketPriority) -> Seq<char> {
    match p {
        TicketPriority::Low => "Low"@,
        TicketPriority::Medium => "Medium"@,
        TicketPriority::High => "High"@,
        TicketPriority::Urgent => "Urgent"@,
    }
}

fn priority_str(p: TicketPriority) -> (r: &'static str)
    ensures
        r@ == priority_text(p),
{
    match p {
        TicketPriority::Low => "Low",
        TicketPriority::Medium => "Medium",
        TicketPriority::High => "High",
        TicketPriority::Urgent => "Urgent",
    }
}

/// `s` with every leading copy of `p` removed (`str::trim_start_matches`).
pub open spec fn strip_all_prefix(s: Seq<char>, p: Seq<char>) -> Seq<char>
    decreases s.len(),
{
    if p.len() > 0 && crate::chars::starts_with(s, p) {
        strip_all_prefix(s.skip(p.len() as int), p)
    } else {
        s
    }
}

fn chars_strip_all_prefix(s: &Vec<char>, p: &Vec<char>) -> (r: Vec<char>)
    ensures
        r@ == strip_all_prefix(s@, p@),
{
    let mut rest = crate::chars::slice_chars(s, 0, s.len());
    proof {
        assert(rest@ =~= s@);
    }
    while p.len() > 0 && crate::chars::chars_start_with(&rest, p)
        invariant
            strip_all_prefix(s@, p@) == strip_all_prefix(rest@, p@),
        decreases rest.len(),
    {
        let next = crate::chars::slice_chars(&rest, p.len(), rest.len());
        proof {
            assert(next@ =~= rest@.skip(p@.len() as int));
        }
        rest = next;
    }
    rest
}

/// The value of a run of decimal digits.
pub open spec fn digits_value(s: Seq<char>) -> nat
    decreases s.len(),
{
    if s.len() == 0 {
        0
    } else {
        digits_value(s.drop_last()) * 10 + ((s.last() as u32) - ('0' as u32)) as nat
    }
}

/// Whether every character is an ASCII digit.
pub open spec fn all_digits(s: Seq<char>) -> bool {
    forall|i: int| 0 <= i < s.len() ==> '0' <= #[trigger] s[i] && s[i] <= '9'
}

/// `str::parse::<u16>`: decimal digits after an optional `+`, at most 65535.
pub open spec fn parse_u16(s: Seq<char>) -> Option<u16> {
    let d = if s.len() > 0 && s[0] == '+' {
        s.skip(1)
    } else {
        s
    };
    if d.len() > 0 && all_digits(d) && digits_value(d) <= 65535 {
        Some(digits_value(d) as u16)
    } else {
        None
    }
}

proof fn lemma_digits_value_grows(s: Seq<char>, k: nat)
    requires
        k <= s.len(),
        all_digits(s),
    ensures
        digits_value(s.take(k as int)) <= digits_value(s),
    decreases s.len() - k,
{
    if k < s.len() {
        lemma_digits_value_grows(s, k + 1);
        let t = s.take((k + 1) as int);
        assert(t.drop_last() =~= s.take(k as int));
        assert(digits_value(t) >= digits_value(t.drop_last()) * 10);
    } else {
        assert(s.take(k as int) =~= s);
    }
}

fn chars_parse_u16(s: &Vec<char>) -> (r: Option<u16>)
    ensures
        r == parse_u16(s@),
{
    let d = if s.len() > 0 && s[0] == '+' {
        crate::chars::slice_chars(s, 1, s.len())
    } else {
        crate::chars::slice_chars(s, 0, s.len())
    };
    proof {
        if s@.len() > 0 && s@[0] == '+' {
            assert(d@ =~= s@.skip(1));
        } else {
            assert(d@ =~= s@);
        }
    }
    if d.len() == 0 {
        return None;
    }
    let ghost ds = if s@.len() > 0 && s@[0] == '+' {
        s@.skip(1)
    } else {
        s@
    };
    let mut value: u32 = 0;
    let mut i: usize = 0;
    while i < d.len()
        invariant
            d@ == ds,
            ds == (if s@.len() > 0 && s@[0] == '+' {
                s@.skip(1)
            } else {
                s@
            }),
            i <= d.len(),
            forall|k: int| 0 <= k < i ==> '0' <= #[trigger] d@[k] && d@[k] <= '9',
            value == digits_value(d@.take(i as int)),
            value <= 65535,
        decreases d.len() - i,
    {
        let c = d[i];
        if c < '0' || c > '9' {
            proof {
                assert(!all_digits(d@));
            }
            return None;
        }
        let next = value * 10 + (c as u32 - '0' as u32);
        proof {
            assert(d@.take(i + 1).drop_last() =~= d@.take(i as int));
            assert(d@.take(i + 1).last() == c);
            assert(next == digits_value(d@.take(i + 1)));
        }
        if next > 65535 {
            proof {
                if all_digits(d@) {
                    lemma_digits_value_grows(d@, (i + 1) as nat);
                }
            }
            return None;
        }
        value = next;
        i += 1;
    }
    proof {
        assert(d@.take(d.len() as int) =~= d@);
    }
    Some(value as u16)
}

/// An HTTP request to send: the address to connect to, and the request text.
#[derive(Clone, Debug)]
pub struct WebhookRequest {
    pub address: String,
    pub http_request: String,
}

/// The JSON payload of an escalation.
pub open spec fn escalation_payload(ticket_id: Seq<char>, priority: TicketPriority, level: u32) -> Seq<char> {
    "{\n  \"ticket_id\": \""@ + ticket_id + "\",\n  \"priority\": \""@ + priority_text(priority)
        + "\",\n  \"escalation_level\": "@ + nat_text(level as nat)
        + ",\n  \"message\": \"SLA breached\"\n}"@
}

/// The parts of a webhook URL: the host, the port (80 where none is given or
/// it does not parse) and the path (`/` and whatever follows the first `/`).
pub open spec fn url_parts(url: Seq<char>) -> (Seq<char>, nat, Seq<char>) {
    let rest = strip_all_prefix(strip_all_prefix(url, "http://"@), "https://"@);
    let (host_port, path) = match crate::chars::find_char(rest, '/') {
        Some(i) => (rest.take(i as int), "/"@ + rest.skip((i + 1) as int)),
        None => (rest, "/"@),
    };
    match crate::chars::find_char(host_port, ':') {
        Some(i) => (
            host_port.take(i as int),
            match parse_u16(host_port.skip((i + 1) as int)) {
                Some(p) => p as nat,
                None => 80,
            },
            path,
        ),
        None => (host_port, 80, path),
    }
}

/// The escalation webhook request: a JSON `POST` of the ticket, its priority
/// and the escalation level to the URL's path, to be sent to `host:port`.
pub open spec fn escalation_request(
    url: Seq<char>,
    ticket_id: Seq<char>,
    priority: TicketPriority,
    level: u32,
) -> (Seq<char>, Seq<char>) {
    let (host, port, path) = url_parts(url);
    let payload = escalation_payload(ticket_id, priority, level);
    (
        host + ":"@ + nat_text(port),
        "POST "@ + path + " HTTP/1.1\r\nHost: "@ + host
            + "\r\nContent-Type: application/json\r\nContent-Length: "@ + nat_text(
            (vstd::utf8::encode_utf8(payload).len() as usize) as nat,
        ) + "\r\nConnection: close\r\n\r\n"@ + payload,
    )
}

/// Builds the request that reports an SLA escalation to a webhook.
pub fn escalation_webhook_request(webhook_url: &str, ticket_id: &str, priority: TicketPriority, level: u32) -> (r:
    WebhookRequest)
    ensures
        (r.address@, r.http_request@) == escalation_request(webhook_url@, ticket_id@, priority, level),
{
    let url = crate::text::str_chars(webhook_url);
    let http = crate::text::str_chars("http://");
    let https = crate::text::str_chars("https://");
    let rest0 = chars_strip_all_prefix(&url, &http);
    let rest = chars_strip_all_prefix(&rest0, &https);
    let slash: Vec<char> = vec!['/'];
    let colon: Vec<char> = vec![':'];
    proof {
        assert(slash@ =~= seq!['/']);
        assert(colon@ =~= seq![':']);
    }
    let (host_port, path) = match crate::chars::chars_find(&rest, &slash) {
        Some(i) => {
            proof {
                crate::chars::lemma_find_from_bound(rest@, slash@, 0);
                assert(crate::chars::find_from(rest@, slash@, 0) == Some(i as nat));
                assert(slash@.len() == 1);
                assert(i + 1 <= rest@.len());
            }
            let n = rest.len();
            let hp = crate::chars::slice_chars(&rest, 0, i);
            let tail = crate::chars::slice_chars(&rest, i + 1, n);
            let mut path = String::from_str("/");
            path.append(crate::text::string_of(&tail).as_str());
            proof {
                assert(hp@ =~= rest@.take(i as int));
                assert(tail@ =~= rest@.skip(i + 1));
            }
            (hp, path)
        },
        None => (rest, String::from_str("/")),
    };
    let (host, port) = match crate::chars::chars_find(&host_port, &colon) {
        Some(i) => {
            proof {
                crate::chars::lemma_find_from_bound(host_port@, colon@, 0);
                assert(i + 1 <= host_port@.len());
            }
            let h = crate::chars::slice_chars(&host_port, 0, i);
            let p = crate::chars::slice_chars(&host_port, i + 1, host_port.len());
            proof {
                assert(h@ =~= host_port@.take(i as int));
                assert(p@ =~= host_port@.skip(i + 1));
            }
            let port: u16 = match chars_parse_u16(&p) {
                Some(v) => v,
                None => 80,
            };
            (h, port)
        },
        None => (host_port, 80u16),
    };
    let host_text = crate::text::string_of(&host);
    let mut address = crate::text::string_of(&host);
    address.append(":");
    address.append(usize_text(port as usize).as_str());
    let mut payload = String::from_str("{\n  \"ticket_id\": \"");
    payload.append(ticket_id);
    payload.append("\",\n  \"priority\": \"");
    payload.append(priority_str(priority));
    payload.append("\",\n  \"escalation_level\": ");
    payload.append(usize_text(level as usize).as_str());
    payload.append(",\n  \"message\": \"SLA breached\"\n}");
    let mut request = String::from_str("POST ");
    request.append(path.as_str());
    request.append(" HTTP/1.1\r\nHost: ");
    request.append(host_text.as_str());
    request.append("\r\nContent-Type: application/json\r\nContent-Length: ");
    request.append(usize_text(payload.as_str().len()).as_str());
    request.append("\r\nConnection: close\r\n\r\n");
    request.append(payload.as_str());
    proof {
        let (sh, sp, spath) = url_parts(webhook_url@);
        assert(rest@ == strip_all_prefix(strip_all_prefix(webhook_url@, "http://"@), "https://"@));
        assert(host@ == sh);
        assert(port as nat == sp);
        assert(path@ == spath);
        assert(payload@ == escalation_payload(ticket_id@, priority, level));
    }
    WebhookRequest { address, http_request: request }
}

/// The policies by priority; a priority may have none.
#[derive(Clone, Copy, Debug)]
pub struct PolicyTable {
    pub low: Option<SLAPolicy>,
    pub medium: Option<SLAPolicy>,
    pub high: Option<SLAPolicy>,
    pub urgent: Option<SLAPolicy>,
}

/// The policy of a priority.
pub open spec fn policy_for(t: PolicyTable, p: TicketPriority) -> Option<SLAPolicy> {
    match p {
        TicketPriority::Low => t.low,
        TicketPriority::Medium => t.medium,
        TicketPriority::High => t.high,
        TicketPriority::Urgent => t.urgent,
    }
}

impl PolicyTable {
    /// The policy of a priority.
    pub fn get(&self, p: TicketPriority) -> (r: Option<SLAPolicy>)
        ensures
            r == policy_for(*self, p),
    {
        match p {
            TicketPriority::Low => self.low,
            TicketPriority::Medium => self.medium,
            TicketPriority::High => self.high,
            TicketPriority::Urgent => self.urgent,
        }
    }
}

/// Whether every policy's resolution limit is a valid duration.
pub open spec fn policies_valid(t: PolicyTable) -> bool {
    forall|p: TicketPriority|
        #[trigger] policy_for(t, p) matches Some(pol) ==> pol.resolution_time_limit.nanos < 1_000_000_000
}

/// The number of an escalation level.
pub open spec fn level_number(e: EscalationLevel) -> u32 {
    match e {
        EscalationLevel::NotEscalated => 0,
        EscalationLevel::Level1 => 1,
        EscalationLevel::Level2 => 2,
        EscalationLevel::Level3 => 3,
    }
}

/// An escalation to report: the ticket, its priority and its new level.
#[derive(Clone, Debug)]
pub struct EscalationNotice {
    pub ticket_id: String,
    pub priority: TicketPriority,
    pub level: u32,
}

/// What one round of monitoring does to a ticket: an open ticket with a
/// policy whose SLA status has a higher level than it was escalated to is
/// raised to that level and reported; others stay as they are.  `None` where
/// the status cannot be computed.
pub open spec fn monitor_ticket(t: SupportTicket, policies: PolicyTable, schedule: HolidaySchedule, now: Timestamp) -> Option<
    (u32, bool),
> {
    if t.status == TicketStatus::Resolved || t.status == TicketStatus::Closed {
        Some((t.escalated_level, false))
    } else {
        match policy_for(policies, t.priority) {
            None => Some((t.escalated_level, false)),
            Some(policy) => match ticket_sla(t, policy, schedule, now) {
                None => None,
                Some(status) => {
                    let level = level_number(status.escalation);
                    if level > t.escalated_level {
                        Some((level, true))
                    } else {
                        Some((t.escalated_level, false))
                    }
                },
            },
        }
    }
}

/// The notices of the first `k` tickets that one round raises.
pub open spec fn monitor_notices(
    tickets: Seq<SupportTicket>,
    policies: PolicyTable,
    schedule: HolidaySchedule,
    now: Timestamp,
    k: nat,
) -> Seq<(Seq<char>, TicketPriority, u32)>
    decreases k,
{
    if k == 0 || k > tickets.len() {
        Seq::empty()
    } else {
        let prev = monitor_notices(tickets, policies, schedule, now, (k - 1) as nat);
        let t = tickets[k - 1];
        match monitor_ticket(t, policies, schedule, now) {
            Some((level, true)) => prev.push((t.id@, t.priority, level)),
            _ => prev,
        }
    }
}

/// The notices as plain values.
pub open spec fn notice_views(n: Seq<EscalationNotice>) -> Seq<(Seq<char>, TicketPriority, u32)> {
    n.map_values(|x: EscalationNotice| (x.ticket_id@, x.priority, x.level))
}

/// One round of SLA monitoring at `now`: every open ticket with a policy is
/// checked, raised to its new escalation level where that is higher, and
/// reported for the escalation webhook.  `None`, with the tickets in an
/// unspecified state, where a status cannot be computed.
pub fn sla_monitor_step(
    tickets: &mut Vec<SupportTicket>,
    policies: &PolicyTable,
    schedule: &HolidaySchedule,
    now: Timestamp,
) -> (r: Option<Vec<EscalationNotice>>)
    requires
        policies_valid(*policies),
    ensures
        r matches Some(notices) ==> {
            &&& final(tickets)@.len() == old(tickets)@.len()
            &&& forall|i: int|
                0 <= i < old(tickets)@.len() ==> {
                    let t = old(tickets)@[i];
                    &&& monitor_ticket(t, *policies, *schedule, now) matches Some((level, _))
                    &&& #[trigger] final(tickets)@[i] == SupportTicket { escalated_level: level, ..t }
                }
            &&& notice_views(notices@) == monitor_notices(
                old(tickets)@,
                *policies,
                *schedule,
                now,
                old(tickets)@.len(),
            )
        },
        r is None ==> exists|i: int|
            0 <= i < old(tickets)@.len() && #[trigger] monitor_ticket(
                old(tickets)@[i],
                *policies,
                *schedule,
                now,
            ) is None,
{
    let ghost orig = tickets@;
    let mut notices: Vec<EscalationNotice> = Vec::new();
    let mut i: usize = 0;
    proof {
        assert(notice_views(notices@) =~= Seq::<(Seq<char>, TicketPriority, u32)>::empty());
    }
    while i < tickets.len()
        invariant
            orig == old(tickets)@,
            tickets@.len() == orig.len(),
            i <= tickets.len(),
            policies_valid(*policies),
            forall|j: int|
                0 <= j < i ==> {
                    let t = orig[j];
                    &&& monitor_ticket(t, *policies, *schedule, now) matches Some((level, _))
                    &&& #[trigger] tickets@[j] == SupportTicket { escalated_level: level, ..t }
                },
            forall|j: int| i <= j < orig.len() ==> #[trigger] tickets@[j] == orig[j],
            notice_views(notices@) == monitor_notices(orig, *policies, *schedule, now, i as nat),
        decreases tickets.len() - i,
    {
        let t = &tickets[i];
        proof {
            assert(*t == orig[i as int]);
        }
        let mut raise: Option<u32> = None;
        if t.status != TicketStatus::Resolved && t.status != TicketStatus::Closed {
            match policies.get(t.priority) {
                None => {},
                Some(policy) => {
                    proof {
                        assert(policy_for(*policies, t.priority) == Some(policy));
                    }
                    match checked_check_ticket_sla_at(t, &policy, schedule, now) {
                        None => {
                            proof {
                                assert(monitor_ticket(orig[i as int], *policies, *schedule, now) is None);
                            }
                            return None;
                        },
                        Some(status) => {
                            let level: u32 = match status.escalation {
                                EscalationLevel::NotEscalated => 0,
                                EscalationLevel::Level1 => 1,
                                EscalationLevel::Level2 => 2,
                                EscalationLevel::Level3 => 3,
                            };
                            if level > t.escalated_level {
                                raise = Some(level);
                            }
                        },
                    }
                },
            }
        }
        match raise {
            None => {},
            Some(level) => {
                let mut updated = tickets.remove(i);
                let id = updated.id.clone();
                let priority = updated.priority;
                updated.escalated_level = level;
                let ghost before = notices@;
                notices.push(EscalationNotice { ticket_id: id, priority, level });
                proof {
                    assert(notice_views(notices@) =~= notice_views(before).push((orig[i as int].id@, priority, level)));
                }
                tickets.insert(i, updated);
            },
        }
        i += 1;
    }
    Some(notices)
}

} // verus!
