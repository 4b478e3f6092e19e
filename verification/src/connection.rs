//! One exchange with the compositor: connecting, sending, and trying once more
//! over a new connection where sending fails.

use vstd::prelude::*;

verus! {

/// What an exchange waits for.
#[derive(Debug, Clone, Copy, PartialEq, Eq, Structural)]
pub enum ExchangePhase {
    /// The outcome of connecting.
    Connecting,
    /// The outcome of sending.
    Sending,
    /// Nothing: it is over.
    Over,
}

/// Where an exchange stands.
#[derive(Debug, Clone, Copy, PartialEq, Eq, Structural)]
pub struct Exchange {
    pub phase: ExchangePhase,
    /// Whether sending has failed before.
    pub retried: bool,
}

/// What came of a step.
#[derive(Debug, Clone, Copy, PartialEq, Eq, Structural)]
pub enum ExchangeEvent {
    Connected,
    ConnectFailed,
    /// The compositor did what it was asked.
    Answered,
    /// The compositor refused.
    Refused,
    /// No answer could be had.
    SendFailed,
}

/// What to do next.
#[derive(Debug, Clone, Copy, PartialEq, Eq, Structural)]
pub enum ExchangeStep {
    /// Make a new connection in place of any other.
    Connect,
    /// Send the request over the connection.
    Send,
    /// Hand out the answer.
    Succeed,
    /// Report the failure that was met last.
    Fail,
}

impl Exchange {
    /// Whether an event is one that the exchange waits for.
    pub open spec fn expects(self, event: ExchangeEvent) -> bool {
        match self.phase {
            ExchangePhase::Connecting => event == ExchangeEvent::Connected || event
                == ExchangeEvent::ConnectFailed,
            ExchangePhase::Sending => event == ExchangeEvent::Answered || event
                == ExchangeEvent::Refused || event == ExchangeEvent::SendFailed,
            ExchangePhase::Over => false,
        }
    }

    /// Where the exchange stands after an event.
    pub open spec fn after(self, event: ExchangeEvent) -> Exchange {
        match event {
            ExchangeEvent::Connected => Exchange {
                phase: ExchangePhase::Sending,
                retried: self.retried,
            },
            ExchangeEvent::SendFailed => if self.retried {
                Exchange { phase: ExchangePhase::Over, retried: true }
            } else {
                Exchange { phase: ExchangePhase::Connecting, retried: true }
            },
            _ => Exchange { phase: ExchangePhase::Over, retried: self.retried },
        }
    }

    /// The step that an event leads to.
    pub open spec fn step_after(self, event: ExchangeEvent) -> ExchangeStep {
        match event {
            ExchangeEvent::Connected => ExchangeStep::Send,
            ExchangeEvent::ConnectFailed => ExchangeStep::Fail,
            ExchangeEvent::Answered => ExchangeStep::Succeed,
            ExchangeEvent::Refused => ExchangeStep::Fail,
            ExchangeEvent::SendFailed => if self.retried {
                ExchangeStep::Fail
            } else {
                ExchangeStep::Connect
            },
        }
    }

    /// Begins an exchange: over the connection at hand, else over a new one.
    pub fn begin(connected: bool) -> (r: (Exchange, ExchangeStep))
        ensures
            !r.0.retried,
            connected ==> r.0.phase == ExchangePhase::Sending && r.1 == ExchangeStep::Send,
            !connected ==> r.0.phase == ExchangePhase::Connecting && r.1 == ExchangeStep::Connect,
    {
        if connected {
            (Exchange { phase: ExchangePhase::Sending, retried: false }, ExchangeStep::Send)
        } else {
            (Exchange { phase: ExchangePhase::Connecting, retried: false }, ExchangeStep::Connect)
        }
    }

    /// Takes an event in and says what to do next.
    pub fn next(&mut self, event: ExchangeEvent) -> (r: ExchangeStep)
        requires
            old(self).expects(event),
        ensures
            *final(self) == old(self).after(event),
            r == old(self).step_after(event),
    {
        match event {
            ExchangeEvent::Connected => {
                self.phase = ExchangePhase::Sending;
                ExchangeStep::Send
            },
            ExchangeEvent::ConnectFailed => {
                self.phase = ExchangePhase::Over;
                ExchangeStep::Fail
            },
            ExchangeEvent::Answered => {
                self.phase = ExchangePhase::Over;
                ExchangeStep::Succeed
            },
            ExchangeEvent::Refused => {
                self.phase = ExchangePhase::Over;
                ExchangeStep::Fail
            },
            ExchangeEvent::SendFailed => {
                if self.retried {
                    self.phase = ExchangePhase::Over;
                    ExchangeStep::Fail
                } else {
                    self.phase = ExchangePhase::Connecting;
                    self.retried = true;
                    ExchangeStep::Connect
                }
            },
        }
    }

    /// The steps that a run of events leads to, up to the first event that the
    /// exchange does not wait for.
    pub open spec fn steps(self, events: Seq<ExchangeEvent>) -> Seq<ExchangeStep>
        decreases events.len(),
    {
        if events.len() == 0 || !self.expects(events[0]) {
            seq![]
        } else {
            seq![self.step_after(events[0])] + self.after(events[0]).steps(events.drop_first())
        }
    }
}

/// How often a step occurs in a row of steps.
pub open spec fn occurrences(steps: Seq<ExchangeStep>, step: ExchangeStep) -> nat
    decreases steps.len(),
{
    if steps.len() == 0 {
        0
    } else {
        occurrences(steps.drop_first(), step) + (if steps[0] == step {
            1nat
        } else {
            0nat
        })
    }
}

proof fn lemma_steps_bound(e: Exchange, events: Seq<ExchangeEvent>)
    ensures
        occurrences(e.steps(events), ExchangeStep::Send) + (if e.phase == ExchangePhase::Sending {
            1nat
        } else {
            0nat
        }) <= (if e.retried {
            1nat
        } else {
            2nat
        }),
        occurrences(e.steps(events), ExchangeStep::Connect) <= (if e.retried {
            0nat
        } else {
            1nat
        }),
    decreases events.len(),
{
    if events.len() > 0 && e.expects(events[0]) {
        let n = e.after(events[0]);
        let rest = events.drop_first();
        lemma_steps_bound(n, rest);
        assert(e.steps(events).drop_first() =~= n.steps(rest));
        assert(e.steps(events)[0] == e.step_after(events[0]));
        if n.phase == ExchangePhase::Over {
            assert(n.steps(rest) =~= seq![]);
            assert(occurrences(n.steps(rest), ExchangeStep::Send) == 0);
            assert(occurrences(n.steps(rest), ExchangeStep::Connect) == 0);
        }
    }
}

/// Whatever happens, a request is sent at most twice, and at most one
/// connection is made after it was sent first.
pub proof fn retried_at_most_once(events: Seq<ExchangeEvent>)
    ensures
        ({
            let connected = Exchange { phase: ExchangePhase::Sending, retried: false };
            &&& 1 + occurrences(connected.steps(events), ExchangeStep::Send) <= 2
            &&& occurrences(connected.steps(events), ExchangeStep::Connect) <= 1
        }),
        ({
            let unconnected = Exchange { phase: ExchangePhase::Connecting, retried: false };
            &&& occurrences(unconnected.steps(events), ExchangeStep::Send) <= 2
            &&& 1 + occurrences(unconnected.steps(events), ExchangeStep::Connect) <= 2
        }),
{
    lemma_steps_bound(Exchange { phase: ExchangePhase::Sending, retried: false }, events);
    lemma_steps_bound(Exchange { phase: ExchangePhase::Connecting, retried: false }, events);
}

/// A request that the compositor refuses is not sent again.
pub proof fn refusal_is_final(e: Exchange, events: Seq<ExchangeEvent>)
    requires
        e.phase == ExchangePhase::Sending,
        events.len() > 0,
        events[0] == ExchangeEvent::Refused,
    ensures
        e.steps(events) == seq![ExchangeStep::Fail],
{
    let n = e.after(events[0]);
    assert(n.steps(events.drop_first()) =~= seq![]);
    assert(e.steps(events) =~= seq![ExchangeStep::Fail]);
}

/// A request whose sending fails is sent once more over a new connection, and
/// what comes of that is final.
pub proof fn failed_request_is_sent_once_more(e: Exchange, outcome: ExchangeEvent)
    requires
        e.phase == ExchangePhase::Sending,
        !e.retried,
        outcome == ExchangeEvent::Answered || outcome == ExchangeEvent::Refused || outcome
            == ExchangeEvent::SendFailed,
    ensures
        e.steps(seq![ExchangeEvent::SendFailed, ExchangeEvent::Connected, outcome]) == seq![
            ExchangeStep::Connect,
            ExchangeStep::Send,
            if outcome == ExchangeEvent::Answered {
                ExchangeStep::Succeed
            } else {
                ExchangeStep::Fail
            },
        ],
        e.steps(seq![ExchangeEvent::SendFailed, ExchangeEvent::ConnectFailed]) == seq![
            ExchangeStep::Connect,
            ExchangeStep::Fail,
        ],
{
    let one = seq![outcome];
    let two = seq![ExchangeEvent::Connected, outcome];
    let all = seq![ExchangeEvent::SendFailed, ExchangeEvent::Connected, outcome];
    let failed = seq![ExchangeEvent::SendFailed, ExchangeEvent::ConnectFailed];
    assert(all.drop_first() =~= two);
    assert(two.drop_first() =~= one);
    assert(one.drop_first() =~= Seq::<ExchangeEvent>::empty());
    assert(failed.drop_first() =~= seq![ExchangeEvent::ConnectFailed]);
    assert(seq![ExchangeEvent::ConnectFailed].drop_first() =~= Seq::<ExchangeEvent>::empty());
    reveal_with_fuel(Exchange::steps, 4);
    assert(e.steps(all) =~= seq![
        ExchangeStep::Connect,
        ExchangeStep::Send,
        if outcome == ExchangeEvent::Answered {
            ExchangeStep::Succeed
        } else {
            ExchangeStep::Fail
        },
    ]);
    assert(e.steps(failed) =~= seq![ExchangeStep::Connect, ExchangeStep::Fail]);
}

/// An answer ends an exchange at once, and a new exchange without a connection
/// sends as soon as it has one.
pub proof fn answer_ends_the_exchange(e: Exchange)
    ensures
        e.phase == ExchangePhase::Sending ==> e.steps(seq![ExchangeEvent::Answered]) == seq![
            ExchangeStep::Succeed,
        ],
        e.phase == ExchangePhase::Connecting ==> e.steps(
            seq![ExchangeEvent::Connected, ExchangeEvent::Answered],
        ) == seq![ExchangeStep::Send, ExchangeStep::Succeed],
        e.phase == ExchangePhase::Connecting ==> e.steps(seq![ExchangeEvent::ConnectFailed])
            == seq![ExchangeStep::Fail],
        e.phase == ExchangePhase::Over ==> forall|event: ExchangeEvent| !e.expects(event),
{
    let answered = seq![ExchangeEvent::Answered];
    let both = seq![ExchangeEvent::Connected, ExchangeEvent::Answered];
    assert(both.drop_first() =~= answered);
    assert(answered.drop_first() =~= Seq::<ExchangeEvent>::empty());
    assert(seq![ExchangeEvent::ConnectFailed].drop_first() =~= Seq::<ExchangeEvent>::empty());
    reveal_with_fuel(Exchange::steps, 3);
    if e.phase == ExchangePhase::Sending {
        assert(e.steps(answered) =~= seq![ExchangeStep::Succeed]);
    }
    if e.phase == ExchangePhase::Connecting {
        assert(e.steps(both) =~= seq![ExchangeStep::Send, ExchangeStep::Succeed]);
        assert(e.steps(seq![ExchangeEvent::ConnectFailed]) =~= seq![ExchangeStep::Fail]);
    }
}

} // verus!
