//! Gathering the three notification webhooks: each resolution is handed in
//! as it finishes, the first failure ends the gathering, and a configuration
//! exists only once all three have succeeded.
use vstd::prelude::*;

verus! {

/// Which of the three webhooks a resolution is for.
#[derive(Clone, Copy, Debug, PartialEq, Eq, Structural)]
pub enum WebhookSlot {
    Logs,
    Errors,
    DmLogs,
}

/// The three resolved webhooks.
pub struct WebhookConfig<W> {
    pub logs: W,
    pub errors: W,
    pub dm_logs: W,
}

/// The webhooks resolved so far.
pub struct WebhookGather<W> {
    pub logs: Option<W>,
    pub errors: Option<W>,
    pub dm_logs: Option<W>,
}

/// What a gathering is after one more resolution: still waiting, done, or failed.
pub enum GatherStep<W, E> {
    Pending(WebhookGather<W>),
    Complete(WebhookConfig<W>),
    Failed(E),
}

impl<W> WebhookGather<W> {
    /// This gathering with `w` stored in `slot`.
    pub open spec fn with_slot(self, slot: WebhookSlot, w: W) -> Self {
        match slot {
            WebhookSlot::Logs => WebhookGather { logs: Some(w), ..self },
            WebhookSlot::Errors => WebhookGather { errors: Some(w), ..self },
            WebhookSlot::DmLogs => WebhookGather { dm_logs: Some(w), ..self },
        }
    }

    /// The step that one resolution of `slot` leads to.
    pub open spec fn step<E>(self, slot: WebhookSlot, outcome: Result<W, E>) -> GatherStep<W, E> {
        match outcome {
            Err(e) => GatherStep::Failed(e),
            Ok(w) => {
                let g = self.with_slot(slot, w);
                if g.logs is Some && g.errors is Some && g.dm_logs is Some {
                    GatherStep::Complete(
                        WebhookConfig {
                            logs: g.logs.unwrap(),
                            errors: g.errors.unwrap(),
                            dm_logs: g.dm_logs.unwrap(),
                        },
                    )
                } else {
                    GatherStep::Pending(g)
                }
            },
        }
    }

    /// A gathering with nothing resolved yet.
    pub fn new() -> (r: Self)
        ensures
            r.logs is None,
            r.errors is None,
            r.dm_logs is None,
    {
        WebhookGather { logs: None, errors: None, dm_logs: None }
    }

    /// Takes in the resolution of `slot`: a failure ends the gathering with
    /// that error; a success is stored, and completes the configuration when
    /// it was the last one missing.
    pub fn record<E>(self, slot: WebhookSlot, outcome: Result<W, E>) -> (r: GatherStep<W, E>)
        ensures
            r == self.step(slot, outcome),
    {
        match outcome {
            Err(e) => GatherStep::Failed(e),
            Ok(w) => {
                let mut g = self;
                match slot {
                    WebhookSlot::Logs => g.logs = Some(w),
                    WebhookSlot::Errors => g.errors = Some(w),
                    WebhookSlot::DmLogs => g.dm_logs = Some(w),
                }
                match g {
                    WebhookGather { logs: Some(logs), errors: Some(errors), dm_logs: Some(dm_logs) } => {
                        GatherStep::Complete(WebhookConfig { logs, errors, dm_logs })
                    },
                    _ => GatherStep::Pending(g),
                }
            },
        }
    }
}

/// Where a gathering ends up after the given resolutions, in the order in
/// which they finished; resolutions after the end are not looked at.
pub open spec fn run_gather<W, E>(
    g: WebhookGather<W>,
    events: Seq<(WebhookSlot, Result<W, E>)>,
) -> GatherStep<W, E>
    decreases events.len(),
{
    if events.len() == 0 {
        GatherStep::Pending(g)
    } else {
        match g.step(events[0].0, events[0].1) {
            GatherStep::Pending(next) => run_gather(next, events.skip(1)),
            done => done,
        }
    }
}

/// When the three webhooks each resolve once, in any order, and the errors
/// webhook fails while the two others succeed, the gathering ends with that
/// failure: no configuration comes out.
pub proof fn lemma_failed_errors_webhook<W, E>(events: Seq<(WebhookSlot, Result<W, E>)>, e: E)
    requires
        events.len() == 3,
        forall|i: int, j: int| 0 <= i < j < 3 ==> events[i].0 != events[j].0,
        forall|i: int|
            0 <= i < 3 ==> (#[trigger] events[i].0 == WebhookSlot::Errors <==> events[i].1
                == Err::<W, E>(e)),
        forall|i: int| 0 <= i < 3 && events[i].0 != WebhookSlot::Errors ==> (#[trigger] events[i].1) is Ok,
    ensures
        run_gather(WebhookGather { logs: None, errors: None, dm_logs: None }, events)
            == GatherStep::<W, E>::Failed(e),
{
    let g0 = WebhookGather::<W> { logs: None, errors: None, dm_logs: None };
    let e1 = events.skip(1);
    let e2 = e1.skip(1);
    assert(e1[0] == events[1]);
    assert(e2[0] == events[2]);
    assert(e2.skip(1).len() == 0);
    if events[0].0 == WebhookSlot::Errors {
        assert(run_gather(g0, events) == GatherStep::<W, E>::Failed(e));
    } else {
        let g1 = g0.with_slot(events[0].0, events[0].1->Ok_0);
        assert(run_gather(g0, events) == run_gather(g1, e1));
        if events[1].0 == WebhookSlot::Errors {
            assert(run_gather(g1, e1) == GatherStep::<W, E>::Failed(e));
        } else {
            let g2 = g1.with_slot(events[1].0, events[1].1->Ok_0);
            assert(g2.errors is None);
            assert(run_gather(g1, e1) == run_gather(g2, e2));
            assert(events[2].0 == WebhookSlot::Errors);
            assert(run_gather(g2, e2) == GatherStep::<W, E>::Failed(e));
        }
    }
}

} // verus!
