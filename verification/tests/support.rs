use chrono::TimeZone;
use erpnext_domain::support::email::{checked_parse_raw_email_at, extract_boundary, parse_raw_email, parse_raw_email_at};
use erpnext_domain::support::intake::{ticket_from_email, ticket_from_email_with_id, ImapConfig, ImapConnection};
use erpnext_domain::support::sla::{
    calculate_business_duration, calculate_sla_status_at, check_ticket_sla_at, escalation_webhook_request,
    sla_monitor_step, CalendarDate, EscalationLevel, HolidaySchedule, PolicyTable, SLAConfig, SLAPolicy,
    SupportTicket, TicketPriority, TicketStatus,
};
use erpnext_domain::time::{Span, Timestamp};

fn at(y: i32, mo: u32, d: u32, h: u32, mi: u32) -> Timestamp {
    let t = chrono::Utc.with_ymd_and_hms(y, mo, d, h, mi, 0).unwrap();
    Timestamp::new(t.timestamp(), t.timestamp_subsec_nanos())
}

fn schedule() -> HolidaySchedule {
    HolidaySchedule {
        holidays: vec![CalendarDate { year: 2026, month: 6, day: 11 }],
        work_hours_start: 9,
        work_hours_end: 17,
    }
}

#[test]
fn test_business_duration_calculation() {
    let start = at(2026, 6, 10, 8, 0); // Wednesday 08:00
    let end = at(2026, 6, 15, 18, 0); // Monday 18:00
    // Wednesday, Friday and Monday count 8 hours each; Thursday is a
    // holiday and the weekend is excluded.
    let duration = calculate_business_duration(start, end, &schedule());
    assert_eq!(duration.secs, 24 * 3600);
}

#[test]
fn business_duration_is_zero_unless_start_is_before_end() {
    let t = at(2026, 6, 10, 10, 0);
    assert_eq!(calculate_business_duration(t, t, &schedule()), Span { secs: 0, nanos: 0 });
    assert_eq!(calculate_business_duration(at(2026, 6, 10, 12, 0), t, &schedule()), Span { secs: 0, nanos: 0 });
    assert_eq!(calculate_business_duration(t, at(2026, 6, 10, 10, 1), &schedule()).secs, 60);
    assert_eq!(calculate_business_duration(t, Timestamp::new(t.secs + 1, 0), &schedule()).secs, 60);
}

fn ticket(created: Timestamp) -> SupportTicket {
    SupportTicket {
        id: "TKT-1".to_string(),
        priority: TicketPriority::High,
        status: TicketStatus::Open,
        created_at: created,
        assigned_at: None,
        resolved_at: None,
        first_responded_at: None,
        escalated_level: 0,
        subject: "s".to_string(),
        body: "b".to_string(),
        attachments: vec![],
    }
}

#[test]
fn ticket_sla_escalates_by_business_hours_over_the_limit() {
    let policy = SLAPolicy { response_time_limit: Span::from_secs(3600), resolution_time_limit: Span::from_secs(3600) };
    let t = ticket(at(2026, 6, 10, 9, 0));
    // 3 business hours by 12:00: 2 over the limit.
    let s = check_ticket_sla_at(&t, &policy, &schedule(), at(2026, 6, 10, 12, 0));
    assert!(s.response_breached && s.resolution_breached);
    assert_eq!(s.escalation, EscalationLevel::Level1);
    let s = check_ticket_sla_at(&t, &policy, &schedule(), at(2026, 6, 10, 14, 0));
    assert_eq!(s.escalation, EscalationLevel::Level2);
    let s = check_ticket_sla_at(&t, &policy, &schedule(), at(2026, 6, 12, 12, 0));
    assert_eq!(s.escalation, EscalationLevel::Level3);
    let mut answered = ticket(at(2026, 6, 10, 9, 0));
    answered.first_responded_at = Some(at(2026, 6, 10, 9, 30));
    answered.resolved_at = Some(at(2026, 6, 10, 9, 45));
    let s = check_ticket_sla_at(&answered, &policy, &schedule(), at(2026, 6, 20, 0, 0));
    assert!(!s.response_breached && !s.resolution_breached);
    assert_eq!(s.escalation, EscalationLevel::NotEscalated);
}

#[test]
fn legacy_sla_uses_elapsed_days() {
    let sla = SLAConfig { response_time_limit: Span::from_secs(3600), resolution_time_limit: Span::from_secs(3600) };
    let t = ticket(at(2026, 6, 10, 0, 0));
    let s = calculate_sla_status_at(&t, &sla, at(2026, 6, 11, 1, 0));
    assert_eq!(s.escalation, EscalationLevel::Level1);
    let s = calculate_sla_status_at(&t, &sla, at(2026, 6, 11, 1, 1));
    assert_eq!(s.escalation, EscalationLevel::Level2);
    let s = calculate_sla_status_at(&t, &sla, at(2026, 6, 13, 0, 0));
    assert_eq!(s.escalation, EscalationLevel::Level3);
    let mut early = ticket(at(2026, 6, 10, 0, 0));
    early.assigned_at = Some(at(2026, 6, 9, 0, 0));
    let s = calculate_sla_status_at(&early, &sla, at(2026, 6, 10, 0, 30));
    assert!(!s.response_breached);
}

#[test]
fn monitor_raises_and_reports_escalations_once() {
    let policy = SLAPolicy { response_time_limit: Span::from_secs(3600), resolution_time_limit: Span::from_secs(3600) };
    let policies = PolicyTable { low: None, medium: None, high: Some(policy), urgent: None };
    let mut closed = ticket(at(2026, 6, 10, 9, 0));
    closed.status = TicketStatus::Closed;
    closed.id = "TKT-2".to_string();
    let mut low = ticket(at(2026, 6, 10, 9, 0));
    low.priority = TicketPriority::Low;
    low.id = "TKT-3".to_string();
    let mut tickets = vec![ticket(at(2026, 6, 10, 9, 0)), closed, low];
    let now = at(2026, 6, 10, 12, 0);
    let notices = sla_monitor_step(&mut tickets, &policies, &schedule(), now).unwrap();
    assert_eq!(notices.len(), 1);
    assert_eq!(notices[0].ticket_id, "TKT-1");
    assert_eq!(notices[0].level, 1);
    assert_eq!(tickets[0].escalated_level, 1);
    assert_eq!(tickets[1].escalated_level, 0);
    let again = sla_monitor_step(&mut tickets, &policies, &schedule(), now).unwrap();
    assert_eq!(again.len(), 0);
}

const RAW: &[u8] = b"From: support@example.com\r\n\
To: helpdesk@company.com\r\n\
Subject: System Down\r\n\
Date: Wed, 10 Jun 2026 15:00:00 +0000\r\n\
Content-Type: multipart/mixed; boundary=\"boundary123\"\r\n\r\n\
--boundary123\r\n\
Content-Type: text/plain\r\n\r\n\
Please help, system is down.\r\n\
--boundary123\r\n\
Content-Disposition: attachment; filename=\"log.txt\"\r\n\
Content-Type: text/plain\r\n\
Content-Transfer-Encoding: base64\r\n\r\n\
aGVsbG8gd29ybGQ=\r\n\
--boundary123--\r\n";

#[test]
fn test_multipart_email_parsing() {
    let parsed = parse_raw_email(RAW).unwrap();
    assert_eq!(parsed.from, "support@example.com");
    assert_eq!(parsed.to, "helpdesk@company.com");
    assert_eq!(parsed.subject, "System Down");
    assert_eq!(parsed.body, "Please help, system is down.");
    assert_eq!(parsed.attachments.len(), 1);
    assert_eq!(parsed.attachments[0].0, "log.txt");
    assert_eq!(parsed.attachments[0].1, "text/plain");
    assert_eq!(parsed.attachments[0].2, b"hello world".to_vec());
    assert_eq!(parsed.date, at(2026, 6, 10, 15, 0));
}

#[test]
fn emails_without_a_date_are_dated_now_and_without_a_blank_line_are_refused() {
    let now = Timestamp::new(12345, 0);
    let e = parse_raw_email_at(b"subject: Hi\n\n  plain body  ", now).unwrap();
    assert_eq!(e.subject, "Hi");
    assert_eq!(e.body, "plain body");
    assert_eq!(e.date, now);
    assert!(e.attachments.is_empty());
    assert!(matches!(checked_parse_raw_email_at(b"From: a\r\nno blank line", now), Some(None)));
}

#[test]
fn attachments_without_base64_keep_their_bytes() {
    let raw = b"Content-Type: multipart/mixed; boundary=XY\n\n--XY\nContent-Disposition: attachment; filename=notes.md\n\n# Notes \xc3\xa9\n--XY--\n";
    let e = parse_raw_email_at(raw, Timestamp::new(0, 0)).unwrap();
    assert_eq!(e.attachments.len(), 1);
    assert_eq!(e.attachments[0].0, "notes.md");
    assert_eq!(e.attachments[0].1, "");
    assert_eq!(e.attachments[0].2, "# Notes \u{e9}".as_bytes().to_vec());
    assert_eq!(e.body, "");
}

#[test]
fn boundaries_are_read_quoted_or_bare() {
    assert_eq!(extract_boundary("multipart/mixed; boundary=\"b1\""), Some("b1".to_string()));
    assert_eq!(extract_boundary("multipart/mixed; boundary=b2; charset=x"), Some("b2".to_string()));
    assert_eq!(extract_boundary("multipart/mixed; boundary=  b3 "), Some("b3".to_string()));
    assert_eq!(extract_boundary("multipart/mixed; boundary=\"open"), None);
    assert_eq!(extract_boundary("text/plain"), None);
}

#[test]
fn test_webhook_escalation_dispatch() {
    let webhook_url = format!("http://127.0.0.1:{}", 40123);
    let req = escalation_webhook_request(&webhook_url, "TKT-123", TicketPriority::Urgent, 2);
    assert_eq!(req.address, "127.0.0.1:40123");
    let request = req.http_request;
    assert!(request.contains("POST / HTTP/1.1"));
    assert!(request.contains("\"ticket_id\": \"TKT-123\""));
    assert!(request.contains("\"priority\": \"Urgent\""));
    assert!(request.contains("\"escalation_level\": 2"));
}

#[test]
fn webhook_urls_with_paths_and_bad_ports() {
    let req = escalation_webhook_request("https://hooks.example.com:x/a/b", "T", TicketPriority::Low, 1);
    assert_eq!(req.address, "hooks.example.com:80");
    assert!(req.http_request.starts_with("POST /a/b HTTP/1.1\r\nHost: hooks.example.com\r\n"));
    let payload = "{\n  \"ticket_id\": \"T\",\n  \"priority\": \"Low\",\n  \"escalation_level\": 1,\n  \"message\": \"SLA breached\"\n}";
    assert!(req.http_request.ends_with(&format!("Content-Length: {}\r\nConnection: close\r\n\r\n{}", payload.len(), payload)));
    let plain = escalation_webhook_request("example.org", "T", TicketPriority::High, 3);
    assert_eq!(plain.address, "example.org:80");
    let port = escalation_webhook_request("http://h:+8080/x", "T", TicketPriority::High, 3);
    assert_eq!(port.address, "h:8080");
}

#[test]
fn mailbox_queues_and_hands_out_messages() {
    let config = ImapConfig {
        server: "imap.example.com".to_string(),
        username: "support".to_string(),
        tenant_id: "t1".to_string(),
        storage_root: "/tmp/store".to_string(),
    };
    let mut conn = ImapConnection::new(config);
    conn.add_mock_message(RAW.to_vec());
    conn.add_mock_message(b"x".to_vec());
    assert_eq!(conn.config().tenant_id, "t1");
    let taken = conn.take_messages();
    assert_eq!(taken.len(), 2);
    assert_eq!(taken[1], b"x".to_vec());
    assert!(conn.take_messages().is_empty());
}

#[test]
fn tickets_from_email_are_open_medium_and_named_by_uuid() {
    let email = parse_raw_email_at(RAW, Timestamp::new(0, 0)).unwrap();
    let t = ticket_from_email_with_id(email, vec!["hash1".to_string()], "0123abcd-0000-4000-8000-000000000000");
    assert_eq!(t.id, "TKT-0123abcd");
    assert_eq!(t.priority, TicketPriority::Medium);
    assert_eq!(t.status, TicketStatus::Open);
    assert_eq!(t.subject, "System Down");
    assert_eq!(t.attachments, vec!["hash1".to_string()]);
    let email2 = parse_raw_email_at(RAW, Timestamp::new(0, 0)).unwrap();
    let fresh = ticket_from_email(email2, vec![]);
    assert_eq!(fresh.id.len(), 12);
    assert!(fresh.id.starts_with("TKT-"));
}

#[test]
fn no_working_hours_give_no_business_time() {
    let closed = HolidaySchedule { holidays: vec![], work_hours_start: 17, work_hours_end: 9 };
    let d = calculate_business_duration(at(2026, 6, 10, 8, 0), at(2026, 6, 15, 18, 0), &closed);
    assert_eq!(d, Span { secs: 0, nanos: 0 });
}

#[test]
fn another_holiday_never_adds_business_time() {
    let start = at(2026, 6, 10, 8, 0);
    let end = at(2026, 6, 15, 18, 0);
    let base = calculate_business_duration(start, end, &schedule());
    let mut more = schedule();
    more.holidays.push(CalendarDate { year: 2026, month: 6, day: 12 });
    let fewer = calculate_business_duration(start, end, &more);
    assert_eq!(fewer.secs, 16 * 3600);
    assert!(fewer.secs <= base.secs);
}

#[test]
fn a_minute_later_and_the_time_between() {
    let t = at(2026, 6, 10, 10, 0);
    assert_eq!(t.plus_minute(), Some(Timestamp::new(t.secs + 60, 0)));
    assert_eq!(
        erpnext_domain::time::elapsed_between(Timestamp::new(t.secs + 90, 5), t),
        Some(Span { secs: 90, nanos: 5 })
    );
    assert_eq!(erpnext_domain::time::elapsed_between(t, Timestamp::new(t.secs + 1, 0)), None);
}
