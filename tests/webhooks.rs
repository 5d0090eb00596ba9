use tts_startup::webhooks::{GatherStep, WebhookGather, WebhookSlot};

fn run(events: Vec<(WebhookSlot, Result<u32, &'static str>)>) -> GatherStep<u32, &'static str> {
    let mut g = WebhookGather::new();
    for (slot, outcome) in events {
        match g.record(slot, outcome) {
            GatherStep::Pending(next) => g = next,
            done => return done,
        }
    }
    GatherStep::Pending(g)
}

#[test]
fn all_three_succeed() {
    match run(vec![
        (WebhookSlot::DmLogs, Ok(3)),
        (WebhookSlot::Logs, Ok(1)),
        (WebhookSlot::Errors, Ok(2)),
    ]) {
        GatherStep::Complete(c) => {
            assert_eq!((c.logs, c.errors, c.dm_logs), (1, 2, 3));
        },
        _ => panic!("expected a complete configuration"),
    }
}

#[test]
fn second_webhook_failure_is_returned() {
    for order in [
        [WebhookSlot::Logs, WebhookSlot::Errors, WebhookSlot::DmLogs],
        [WebhookSlot::Errors, WebhookSlot::Logs, WebhookSlot::DmLogs],
        [WebhookSlot::DmLogs, WebhookSlot::Logs, WebhookSlot::Errors],
    ] {
        let events = order
            .iter()
            .map(|s| (*s, if *s == WebhookSlot::Errors { Err("errors webhook") } else { Ok(7) }))
            .collect();
        assert!(matches!(run(events), GatherStep::Failed("errors webhook")));
    }
}

#[test]
fn first_failure_wins() {
    let outcome = run(vec![
        (WebhookSlot::Logs, Ok(1)),
        (WebhookSlot::DmLogs, Err("dm")),
        (WebhookSlot::Errors, Err("errors")),
    ]);
    assert!(matches!(outcome, GatherStep::Failed("dm")));
}

#[test]
fn two_of_three_is_pending() {
    match run(vec![(WebhookSlot::Logs, Ok(1)), (WebhookSlot::Errors, Ok(2))]) {
        GatherStep::Pending(g) => {
            assert_eq!(g.logs, Some(1));
            assert_eq!(g.errors, Some(2));
            assert_eq!(g.dm_logs, None);
        },
        _ => panic!("expected pending"),
    }
}
