//! A summary of a stretch of a log, made without a model.
use vstd::prelude::*;

use crate::runtime::envelope::{log_view, EnvelopeView, EventEnvelope};
use crate::runtime::event::{EventView, RuntimeEvent};
use crate::text::{join, join_strings, same, views};

verus! {

pub const MAX_CONSTRAINTS: usize = 8;

/// What a summary gathers from a log.
#[verifier::ext_equal]
pub struct Gathered {
    pub last_user: Option<Seq<char>>,
    pub constraints: Seq<Seq<char>>,
    pub evidence_ids: Seq<Seq<char>>,
    pub failures: Seq<Seq<char>>,
    pub approvals: Seq<Seq<char>>,
}

/// What an event adds. A message that was there before is no new constraint.
pub open spec fn gather(before: Gathered, event: EventView) -> Gathered {
    match event {
        EventView::UserMessage { content, .. } => Gathered {
            last_user: Some(content),
            constraints: if before.constraints.contains(content) {
                before.constraints
            } else {
                before.constraints.push(content)
            },
            ..before
        },
        EventView::ToolCompleted { tool, success, evidence, .. } => Gathered {
            evidence_ids: match evidence.evidence_id {
                Some(id) => before.evidence_ids.push(id.text()),
                None => before.evidence_ids,
            },
            failures: if success {
                before.failures
            } else {
                before.failures.push(tool)
            },
            ..before
        },
        EventView::ApprovalResolved { approved, .. } => Gathered {
            approvals: before.approvals.push(
                if approved {
                    "approved"@
                } else {
                    "rejected"@
                },
            ),
            ..before
        },
        _ => before,
    }
}

pub open spec fn gathered(events: Seq<EnvelopeView>) -> Gathered
    decreases events.len(),
{
    if events.len() == 0 {
        Gathered {
            last_user: None,
            constraints: Seq::empty(),
            evidence_ids: Seq::empty(),
            failures: Seq::empty(),
            approvals: Seq::empty(),
        }
    } else {
        gather(gathered(events.drop_last()), events.last().event)
    }
}

/// A line for a list, or no line where the list is empty.
pub open spec fn list_line(label: Seq<char>, texts: Seq<Seq<char>>, separator: Seq<char>) -> Seq<
    Seq<char>,
> {
    if texts.len() == 0 {
        Seq::empty()
    } else {
        seq![label + join(texts, separator)]
    }
}

/// At most the first `n` texts.
pub open spec fn at_most(texts: Seq<Seq<char>>, n: nat) -> Seq<Seq<char>> {
    if texts.len() <= n {
        texts
    } else {
        texts.take(n as int)
    }
}

impl Gathered {
    /// The lines of the summary.
    pub open spec fn lines(self) -> Seq<Seq<char>> {
        seq!["Compacted investigation context. Original events are retained."@] + (
        match self.last_user {
            Some(user) => seq!["Unresolved user request: "@ + user],
            None => Seq::empty(),
        }) + list_line(
            "User constraints: "@,
            at_most(self.constraints, MAX_CONSTRAINTS as nat),
            " | "@,
        ) + list_line("Key evidence IDs: "@, self.evidence_ids, ", "@) + list_line(
            "Tool failures: "@,
            self.failures,
            ", "@,
        ) + list_line("Approval results: "@, self.approvals, ", "@)
    }
}

struct Gathering {
    last_user: Option<String>,
    constraints: Vec<String>,
    evidence_ids: Vec<String>,
    failures: Vec<String>,
    approvals: Vec<String>,
}

impl Gathering {
    spec fn view(&self) -> Gathered {
        Gathered {
            last_user: crate::json::string_view(self.last_user),
            constraints: views(self.constraints@),
            evidence_ids: views(self.evidence_ids@),
            failures: views(self.failures@),
            approvals: views(self.approvals@),
        }
    }
}

fn push_text(texts: &mut Vec<String>, text: &str)
    ensures
        views(final(texts)@) == views(old(texts)@).push(text@),
{
    texts.push(text.to_owned());
    assert(views(texts@) =~= views(old(texts)@).push(text@));
}

fn holds(texts: &Vec<String>, text: &str) -> (r: bool)
    ensures
        r == views(texts@).contains(text@),
{
    let mut i: usize = 0;
    while i < texts.len()
        invariant
            i <= texts@.len(),
            forall|k: int| 0 <= k < i ==> (#[trigger] texts@[k])@ != text@,
        decreases texts@.len() - i,
    {
        if same(texts[i].as_str(), text) {
            assert(views(texts@)[i as int] == text@);
            return true;
        }
        i += 1;
    }
    assert forall|k: int| 0 <= k < views(texts@).len() implies views(texts@)[k] != text@ by {
        assert(texts@[k]@ != text@);
    }
    false
}

fn push_list(lines: &mut Vec<String>, label: &str, texts: &Vec<String>, separator: &str)
    ensures
        views(final(lines)@) == views(old(lines)@) + list_line(label@, views(texts@), separator@),
{
    if texts.len() > 0 {
        let mut line = label.to_owned();
        line.append(join_strings(texts, separator).as_str());
        push_text(lines, line.as_str());
    }
    assert(views(lines@) =~= views(old(lines)@) + list_line(label@, views(texts@), separator@));
}

fn gather_event(found: &mut Gathering, event: &RuntimeEvent)
    ensures
        final(found)@ == gather(old(found)@, event@),
{
    match event {
        RuntimeEvent::UserMessage { content, .. } => {
            found.last_user = Some(content.clone());
            if !holds(&found.constraints, content.as_str()) {
                push_text(&mut found.constraints, content.as_str());
            }
        },
        RuntimeEvent::ToolCompleted { tool, success, evidence, .. } => {
            if let Some(id) = &evidence.evidence_id {
                push_text(&mut found.evidence_ids, id.to_string().as_str());
            }
            if !*success {
                push_text(&mut found.failures, tool.as_str());
            }
        },
        RuntimeEvent::ApprovalResolved { approved, .. } => {
            if *approved {
                push_text(&mut found.approvals, "approved");
            } else {
                push_text(&mut found.approvals, "rejected");
            }
        },
        _ => {},
    }
}

/// Sums up a log: the request, the constraints, the evidence and what failed
/// or was decided.
pub fn local_summary(events: &Vec<EventEnvelope>) -> (r: String)
    ensures
        r@ == join(gathered(log_view(events@)).lines(), "\n"@),
{
    let mut found = Gathering {
        last_user: None,
        constraints: Vec::new(),
        evidence_ids: Vec::new(),
        failures: Vec::new(),
        approvals: Vec::new(),
    };
    let ghost log = log_view(events@);
    let mut i: usize = 0;
    assert(found@ =~= gathered(log.take(0)));
    while i < events.len()
        invariant
            i <= events@.len(),
            log == log_view(events@),
            found@ == gathered(log.take(i as int)),
        decreases events@.len() - i,
    {
        gather_event(&mut found, &events[i].event);
        i += 1;
        assert(log.take(i as int).drop_last() =~= log.take(i - 1));
        assert(log.take(i as int).last() == events@[i - 1]@);
    }
    assert(log.take(i as int) =~= log);
    let mut lines: Vec<String> = Vec::new();
    push_text(&mut lines, "Compacted investigation context. Original events are retained.");
    assert(views(lines@) =~= seq![
        "Compacted investigation context. Original events are retained."@,
    ]);
    let ghost first = views(lines@);
    if let Some(user) = &found.last_user {
        let mut line = "Unresolved user request: ".to_owned();
        line.append(user.as_str());
        push_text(&mut lines, line.as_str());
    }
    assert(views(lines@) =~= first + (match found@.last_user {
        Some(user) => seq!["Unresolved user request: "@ + user],
        None => Seq::empty(),
    }));
    let mut kept: Vec<String> = Vec::new();
    let mut k: usize = 0;
    while k < found.constraints.len() && k < MAX_CONSTRAINTS
        invariant
            k <= found.constraints@.len(),
            k <= MAX_CONSTRAINTS,
            views(kept@) == views(found.constraints@).take(k as int),
        decreases found.constraints@.len() - k,
    {
        push_text(&mut kept, found.constraints[k].as_str());
        k += 1;
        assert(views(kept@) =~= views(found.constraints@).take(k as int));
    }
    assert(views(kept@) =~= at_most(views(found.constraints@), MAX_CONSTRAINTS as nat));
    push_list(&mut lines, "User constraints: ", &kept, " | ");
    push_list(&mut lines, "Key evidence IDs: ", &found.evidence_ids, ", ");
    push_list(&mut lines, "Tool failures: ", &found.failures, ", ");
    push_list(&mut lines, "Approval results: ", &found.approvals, ", ");
    join_strings(&lines, "\n")
}

} // verus!
