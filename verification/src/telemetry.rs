//! Counters, and the page on which they are shown.
use vstd::prelude::*;

use crate::text::{
    contains, contains_str, decimal, decimal_of, find_from, join, join_strings, lemma_find_from,
    matches_at, views,
};

verus! {

#[derive(Clone, Copy, Debug)]
pub struct RuntimeMetrics {
    pub turns_started: u64,
    pub turns_completed: u64,
    pub turns_failed: u64,
    pub turns_cancelled: u64,
    pub model_calls: u64,
    pub model_errors: u64,
    pub model_latency_ms_sum: u64,
    pub tool_calls: u64,
    pub tool_errors: u64,
    pub tool_latency_ms_sum: u64,
    pub store_appends: u64,
    pub store_errors: u64,
    pub sse_replay_events: u64,
    pub sse_lag_recoveries: u64,
    pub queue_waiters: u64,
}

impl Default for RuntimeMetrics {
    fn default() -> (r: Self)
        ensures
            r.turns_started == 0,
            r.turns_completed == 0,
            r.turns_failed == 0,
            r.turns_cancelled == 0,
            r.model_calls == 0,
            r.model_errors == 0,
            r.model_latency_ms_sum == 0,
            r.tool_calls == 0,
            r.tool_errors == 0,
            r.tool_latency_ms_sum == 0,
            r.store_appends == 0,
            r.store_errors == 0,
            r.sse_replay_events == 0,
            r.sse_lag_recoveries == 0,
            r.queue_waiters == 0,
    {
        RuntimeMetrics {
            turns_started: 0,
            turns_completed: 0,
            turns_failed: 0,
            turns_cancelled: 0,
            model_calls: 0,
            model_errors: 0,
            model_latency_ms_sum: 0,
            tool_calls: 0,
            tool_errors: 0,
            tool_latency_ms_sum: 0,
            store_appends: 0,
            store_errors: 0,
            sse_replay_events: 0,
            sse_lag_recoveries: 0,
            queue_waiters: 0,
        }
    }
}

/// A count after `value` more, which starts anew where it runs out.
pub open spec fn counted(count: u64, value: u64) -> int {
    (count + value) % 0x1_0000_0000_0000_0000
}

impl RuntimeMetrics {
    pub fn inc(counter: &mut u64)
        ensures
            *final(counter) == counted(*old(counter), 1),
    {
        *counter = counter.wrapping_add(1);
    }

    pub fn add(counter: &mut u64, value: u64)
        ensures
            *final(counter) == counted(*old(counter), value),
    {
        *counter = counter.wrapping_add(value);
    }

    pub fn set_queue_waiters(&mut self, value: u64)
        ensures
            *final(self) == (RuntimeMetrics { queue_waiters: value, ..*old(self) }),
    {
        self.queue_waiters = value;
    }

    /// The lines of the page; the last one is empty.
    pub open spec fn lines(&self) -> Seq<Seq<char>> {
        seq![
            "# HELP opscodex_turns_total Agent turns by terminal status."@,
            "# TYPE opscodex_turns_total counter"@,
            "opscodex_turns_total{status=\"started\"} "@ + decimal(self.turns_started as nat),
            "opscodex_turns_total{status=\"completed\"} "@ + decimal(self.turns_completed as nat),
            "opscodex_turns_total{status=\"failed\"} "@ + decimal(self.turns_failed as nat),
            "opscodex_turns_total{status=\"cancelled\"} "@ + decimal(self.turns_cancelled as nat),
            "# HELP opscodex_model_calls_total Model completions."@,
            "# TYPE opscodex_model_calls_total counter"@,
            "opscodex_model_calls_total{status=\"ok\"} "@ + decimal(self.model_calls as nat),
            "opscodex_model_calls_total{status=\"error\"} "@ + decimal(self.model_errors as nat),
            "# HELP opscodex_model_latency_ms_sum Model completion latency."@,
            "# TYPE opscodex_model_latency_ms_sum counter"@,
            "opscodex_model_latency_ms_sum "@ + decimal(self.model_latency_ms_sum as nat),
            "# HELP opscodex_tool_calls_total Tool executions."@,
            "# TYPE opscodex_tool_calls_total counter"@,
            "opscodex_tool_calls_total{status=\"ok\"} "@ + decimal(self.tool_calls as nat),
            "opscodex_tool_calls_total{status=\"error\"} "@ + decimal(self.tool_errors as nat),
            "# HELP opscodex_tool_latency_ms_sum Tool execution latency."@,
            "# TYPE opscodex_tool_latency_ms_sum counter"@,
            "opscodex_tool_latency_ms_sum "@ + decimal(self.tool_latency_ms_sum as nat),
            "# HELP opscodex_store_appends_total Event store appends."@,
            "# TYPE opscodex_store_appends_total counter"@,
            "opscodex_store_appends_total{status=\"ok\"} "@ + decimal(self.store_appends as nat),
            "opscodex_store_appends_total{status=\"error\"} "@ + decimal(self.store_errors as nat),
            "# HELP opscodex_sse_replay_events_total Events replayed to SSE clients."@,
            "# TYPE opscodex_sse_replay_events_total counter"@,
            "opscodex_sse_replay_events_total "@ + decimal(self.sse_replay_events as nat),
            "# HELP opscodex_sse_lag_recoveries_total SSE lag recoveries from the event store."@,
            "# TYPE opscodex_sse_lag_recoveries_total counter"@,
            "opscodex_sse_lag_recoveries_total "@ + decimal(self.sse_lag_recoveries as nat),
            "# HELP opscodex_queue_waiters Current waiters for a global turn slot."@,
            "# TYPE opscodex_queue_waiters gauge"@,
            "opscodex_queue_waiters "@ + decimal(self.queue_waiters as nat),
            Seq::empty(),
        ]
    }

    /// The page.
    pub open spec fn page(&self) -> Seq<char> {
        join(self.lines(), "\n"@)
    }

    pub fn render_prometheus(&self) -> (r: String)
        ensures
            r@ == self.page(),
    {
        let mut lines: Vec<String> = Vec::new();
        lines.push("# HELP opscodex_turns_total Agent turns by terminal status.".to_owned());
        lines.push("# TYPE opscodex_turns_total counter".to_owned());
        lines.push(metric("opscodex_turns_total{status=\"started\"} ", self.turns_started));
        lines.push(metric("opscodex_turns_total{status=\"completed\"} ", self.turns_completed));
        lines.push(metric("opscodex_turns_total{status=\"failed\"} ", self.turns_failed));
        lines.push(metric("opscodex_turns_total{status=\"cancelled\"} ", self.turns_cancelled));
        lines.push("# HELP opscodex_model_calls_total Model completions.".to_owned());
        lines.push("# TYPE opscodex_model_calls_total counter".to_owned());
        lines.push(metric("opscodex_model_calls_total{status=\"ok\"} ", self.model_calls));
        lines.push(metric("opscodex_model_calls_total{status=\"error\"} ", self.model_errors));
        lines.push("# HELP opscodex_model_latency_ms_sum Model completion latency.".to_owned());
        lines.push("# TYPE opscodex_model_latency_ms_sum counter".to_owned());
        lines.push(metric("opscodex_model_latency_ms_sum ", self.model_latency_ms_sum));
        lines.push("# HELP opscodex_tool_calls_total Tool executions.".to_owned());
        lines.push("# TYPE opscodex_tool_calls_total counter".to_owned());
        lines.push(metric("opscodex_tool_calls_total{status=\"ok\"} ", self.tool_calls));
        lines.push(metric("opscodex_tool_calls_total{status=\"error\"} ", self.tool_errors));
        lines.push("# HELP opscodex_tool_latency_ms_sum Tool execution latency.".to_owned());
        lines.push("# TYPE opscodex_tool_latency_ms_sum counter".to_owned());
        lines.push(metric("opscodex_tool_latency_ms_sum ", self.tool_latency_ms_sum));
        lines.push("# HELP opscodex_store_appends_total Event store appends.".to_owned());
        lines.push("# TYPE opscodex_store_appends_total counter".to_owned());
        lines.push(metric("opscodex_store_appends_total{status=\"ok\"} ", self.store_appends));
        lines.push(metric("opscodex_store_appends_total{status=\"error\"} ", self.store_errors));
        lines.push("# HELP opscodex_sse_replay_events_total Events replayed to SSE clients.".to_owned());
        lines.push("# TYPE opscodex_sse_replay_events_total counter".to_owned());
        lines.push(metric("opscodex_sse_replay_events_total ", self.sse_replay_events));
        lines.push("# HELP opscodex_sse_lag_recoveries_total SSE lag recoveries from the event store.".to_owned());
        lines.push("# TYPE opscodex_sse_lag_recoveries_total counter".to_owned());
        lines.push(metric("opscodex_sse_lag_recoveries_total ", self.sse_lag_recoveries));
        lines.push("# HELP opscodex_queue_waiters Current waiters for a global turn slot.".to_owned());
        lines.push("# TYPE opscodex_queue_waiters gauge".to_owned());
        lines.push(metric("opscodex_queue_waiters ", self.queue_waiters));
        lines.push(String::new());
        assert(views(lines@) =~= self.lines());
        join_strings(&lines, "\n")
    }

    /// The page tells a thread, a turn or a piece of evidence apart.
    pub open spec fn tells_identities(&self) -> bool {
        contains(self.page(), "thread_id="@) || contains(self.page(), "turn_id="@) || contains(
            self.page(),
            "evidence_id="@,
        )
    }

    pub fn uses_high_cardinality_labels(&self) -> (r: bool)
        ensures
            r == self.tells_identities(),
            !r,
    {
        let rendered = self.render_prometheus();
        proof {
            law_page_tells_no_identities(*self);
        }
        contains_str(rendered.as_str(), "thread_id=") || contains_str(
            rendered.as_str(),
            "turn_id=",
        ) || contains_str(rendered.as_str(), "evidence_id=")
    }
}

fn metric(name: &str, value: u64) -> (r: String)
    ensures
        r@ == name@ + decimal(value as nat),
{
    let mut line = name.to_owned();
    line.append(decimal_of(value).as_str());
    line
}

/// Every label is a status: an equals sign stands only behind an `s`.
pub open spec fn only_status(text: Seq<char>) -> bool {
    forall|i: int| 0 <= i < text.len() && #[trigger] text[i] == '=' ==> i > 0 && text[i - 1] == 's'
}

proof fn lemma_joined_status(a: Seq<char>, b: Seq<char>)
    requires
        only_status(a),
        only_status(b),
    ensures
        only_status(a + b),
{
    let t = a + b;
    assert forall|i: int| 0 <= i < t.len() && #[trigger] t[i] == '=' implies i > 0 && t[i - 1]
        == 's' by {
        if i < a.len() {
            assert(a[i] == '=');
        } else {
            assert(b[i - a.len()] == '=');
            assert(b[i - a.len() - 1] == 's');
        }
    }
}

proof fn lemma_decimal_status(n: nat)
    ensures
        only_status(decimal(n)),
    decreases n,
{
    if n >= 10 {
        lemma_decimal_status(n / 10);
        let rest = decimal(n / 10);
        assert(decimal(n) =~= rest.push(crate::text::digit(n % 10)));
        let t = decimal(n);
        assert forall|i: int| 0 <= i < t.len() && #[trigger] t[i] == '=' implies i > 0 && t[i - 1]
            == 's' by {
            if i < rest.len() {
                assert(rest[i] == '=');
            }
        }
    }
}

proof fn lemma_metric_status(name: Seq<char>, value: u64)
    requires
        only_status(name),
    ensures
        only_status(name + decimal(value as nat)),
{
    lemma_decimal_status(value as nat);
    lemma_joined_status(name, decimal(value as nat));
}

proof fn lemma_page_status(lines: Seq<Seq<char>>)
    requires
        forall|i: int| 0 <= i < lines.len() ==> only_status(#[trigger] lines[i]),
    ensures
        only_status(join(lines, "\n"@)),
    decreases lines.len(),
{
    reveal_strlit("\n");
    if lines.len() > 1 {
        let rest = lines.drop_last();
        assert forall|i: int| 0 <= i < rest.len() implies only_status(#[trigger] rest[i]) by {
            assert(rest[i] == lines[i]);
        }
        lemma_page_status(rest);
        lemma_joined_status(join(rest, "\n"@), "\n"@);
        lemma_joined_status(join(rest, "\n"@) + "\n"@, lines[lines.len() - 1]);
    }
}

proof fn lemma_lines_status(metrics: RuntimeMetrics)
    ensures
        forall|i: int|
            0 <= i < metrics.lines().len() ==> only_status(#[trigger] metrics.lines()[i]),
{
    assert(only_status("# HELP opscodex_turns_total Agent turns by terminal status."@)) by {
        reveal_strlit("# HELP opscodex_turns_total Agent turns by terminal status.");
    }
    assert(only_status("# TYPE opscodex_turns_total counter"@)) by {
        reveal_strlit("# TYPE opscodex_turns_total counter");
    }
    assert(only_status("opscodex_turns_total{status=\"started\"} "@)) by {
        reveal_strlit("opscodex_turns_total{status=\"started\"} ");
    }
    lemma_metric_status("opscodex_turns_total{status=\"started\"} "@, metrics.turns_started);
    assert(only_status("opscodex_turns_total{status=\"completed\"} "@)) by {
        reveal_strlit("opscodex_turns_total{status=\"completed\"} ");
    }
    lemma_metric_status("opscodex_turns_total{status=\"completed\"} "@, metrics.turns_completed);
    assert(only_status("opscodex_turns_total{status=\"failed\"} "@)) by {
        reveal_strlit("opscodex_turns_total{status=\"failed\"} ");
    }
    lemma_metric_status("opscodex_turns_total{status=\"failed\"} "@, metrics.turns_failed);
    assert(only_status("opscodex_turns_total{status=\"cancelled\"} "@)) by {
        reveal_strlit("opscodex_turns_total{status=\"cancelled\"} ");
    }
    lemma_metric_status("opscodex_turns_total{status=\"cancelled\"} "@, metrics.turns_cancelled);
    assert(only_status("# HELP opscodex_model_calls_total Model completions."@)) by {
        reveal_strlit("# HELP opscodex_model_calls_total Model completions.");
    }
    assert(only_status("# TYPE opscodex_model_calls_total counter"@)) by {
        reveal_strlit("# TYPE opscodex_model_calls_total counter");
    }
    assert(only_status("opscodex_model_calls_total{status=\"ok\"} "@)) by {
        reveal_strlit("opscodex_model_calls_total{status=\"ok\"} ");
    }
    lemma_metric_status("opscodex_model_calls_total{status=\"ok\"} "@, metrics.model_calls);
    assert(only_status("opscodex_model_calls_total{status=\"error\"} "@)) by {
        reveal_strlit("opscodex_model_calls_total{status=\"error\"} ");
    }
    lemma_metric_status("opscodex_model_calls_total{status=\"error\"} "@, metrics.model_errors);
    assert(only_status("# HELP opscodex_model_latency_ms_sum Model completion latency."@)) by {
        reveal_strlit("# HELP opscodex_model_latency_ms_sum Model completion latency.");
    }
    assert(only_status("# TYPE opscodex_model_latency_ms_sum counter"@)) by {
        reveal_strlit("# TYPE opscodex_model_latency_ms_sum counter");
    }
    assert(only_status("opscodex_model_latency_ms_sum "@)) by {
        reveal_strlit("opscodex_model_latency_ms_sum ");
    }
    lemma_metric_status("opscodex_model_latency_ms_sum "@, metrics.model_latency_ms_sum);
    assert(only_status("# HELP opscodex_tool_calls_total Tool executions."@)) by {
        reveal_strlit("# HELP opscodex_tool_calls_total Tool executions.");
    }
    assert(only_status("# TYPE opscodex_tool_calls_total counter"@)) by {
        reveal_strlit("# TYPE opscodex_tool_calls_total counter");
    }
    assert(only_status("opscodex_tool_calls_total{status=\"ok\"} "@)) by {
        reveal_strlit("opscodex_tool_calls_total{status=\"ok\"} ");
    }
    lemma_metric_status("opscodex_tool_calls_total{status=\"ok\"} "@, metrics.tool_calls);
    assert(only_status("opscodex_tool_calls_total{status=\"error\"} "@)) by {
        reveal_strlit("opscodex_tool_calls_total{status=\"error\"} ");
    }
    lemma_metric_status("opscodex_tool_calls_total{status=\"error\"} "@, metrics.tool_errors);
    assert(only_status("# HELP opscodex_tool_latency_ms_sum Tool execution latency."@)) by {
        reveal_strlit("# HELP opscodex_tool_latency_ms_sum Tool execution latency.");
    }
    assert(only_status("# TYPE opscodex_tool_latency_ms_sum counter"@)) by {
        reveal_strlit("# TYPE opscodex_tool_latency_ms_sum counter");
    }
    assert(only_status("opscodex_tool_latency_ms_sum "@)) by {
        reveal_strlit("opscodex_tool_latency_ms_sum ");
    }
    lemma_metric_status("opscodex_tool_latency_ms_sum "@, metrics.tool_latency_ms_sum);
    assert(only_status("# HELP opscodex_store_appends_total Event store appends."@)) by {
        reveal_strlit("# HELP opscodex_store_appends_total Event store appends.");
    }
    assert(only_status("# TYPE opscodex_store_appends_total counter"@)) by {
        reveal_strlit("# TYPE opscodex_store_appends_total counter");
    }
    assert(only_status("opscodex_store_appends_total{status=\"ok\"} "@)) by {
        reveal_strlit("opscodex_store_appends_total{status=\"ok\"} ");
    }
    lemma_metric_status("opscodex_store_appends_total{status=\"ok\"} "@, metrics.store_appends);
    assert(only_status("opscodex_store_appends_total{status=\"error\"} "@)) by {
        reveal_strlit("opscodex_store_appends_total{status=\"error\"} ");
    }
    lemma_metric_status("opscodex_store_appends_total{status=\"error\"} "@, metrics.store_errors);
    assert(only_status("# HELP opscodex_sse_replay_events_total Events replayed to SSE clients."@)) by {
        reveal_strlit("# HELP opscodex_sse_replay_events_total Events replayed to SSE clients.");
    }
    assert(only_status("# TYPE opscodex_sse_replay_events_total counter"@)) by {
        reveal_strlit("# TYPE opscodex_sse_replay_events_total counter");
    }
    assert(only_status("opscodex_sse_replay_events_total "@)) by {
        reveal_strlit("opscodex_sse_replay_events_total ");
    }
    lemma_metric_status("opscodex_sse_replay_events_total "@, metrics.sse_replay_events);
    assert(only_status("# HELP opscodex_sse_lag_recoveries_total SSE lag recoveries from the event store."@)) by {
        reveal_strlit("# HELP opscodex_sse_lag_recoveries_total SSE lag recoveries from the event store.");
    }
    assert(only_status("# TYPE opscodex_sse_lag_recoveries_total counter"@)) by {
        reveal_strlit("# TYPE opscodex_sse_lag_recoveries_total counter");
    }
    assert(only_status("opscodex_sse_lag_recoveries_total "@)) by {
        reveal_strlit("opscodex_sse_lag_recoveries_total ");
    }
    lemma_metric_status("opscodex_sse_lag_recoveries_total "@, metrics.sse_lag_recoveries);
    assert(only_status("# HELP opscodex_queue_waiters Current waiters for a global turn slot."@)) by {
        reveal_strlit("# HELP opscodex_queue_waiters Current waiters for a global turn slot.");
    }
    assert(only_status("# TYPE opscodex_queue_waiters gauge"@)) by {
        reveal_strlit("# TYPE opscodex_queue_waiters gauge");
    }
    assert(only_status("opscodex_queue_waiters "@)) by {
        reveal_strlit("opscodex_queue_waiters ");
    }
    lemma_metric_status("opscodex_queue_waiters "@, metrics.queue_waiters);
}

/// The page tells no thread, turn or piece of evidence apart, whatever was
/// counted.
pub proof fn law_page_tells_no_identities(metrics: RuntimeMetrics)
    ensures
        !metrics.tells_identities(),
{
    lemma_lines_status(metrics);
    lemma_page_status(metrics.lines());
    reveal_strlit("thread_id=");
    reveal_strlit("turn_id=");
    reveal_strlit("evidence_id=");
    lemma_no_label(metrics.page(), "thread_id="@, 9);
    lemma_no_label(metrics.page(), "turn_id="@, 7);
    lemma_no_label(metrics.page(), "evidence_id="@, 11);
}

proof fn lemma_no_label(text: Seq<char>, label: Seq<char>, at: int)
    requires
        only_status(text),
        0 < at < label.len(),
        label[at] == '=',
        label[at - 1] == 'd',
    ensures
        !contains(text, label),
{
    lemma_find_from(text, label, 0);
    if let Some(p) = find_from(text, label, 0) {
        assert(matches_at(text, label, p));
        assert(text.subrange(p, p + label.len())[at] == text[p + at]);
        assert(text.subrange(p, p + label.len())[at - 1] == text[p + at - 1]);
    }
}

} // verus!
