//! Which extensions, skills and runbooks there are, told by what is configured and
//! found.
use vstd::prelude::*;
use vstd::utf8::encode_utf8;

use crate::config::{ExtensionConfigEntry, ExtensionsConfig, SkillConfigEntry};
use crate::digest::sha256_text;
use crate::error::{ErrorView, OpsResult};
use crate::extensions::capability::{CapabilityEffect, RecoveryMode};
use crate::extensions::catalog::{
    configured_effect, configured_recovery, covers, is_disabled_summary, places_for, plan_of,
    PlanView,
};
use crate::extensions::lifecycle::ExtensionSummary;
use crate::extensions::mcp::mcp_url_error;
use crate::extensions::skill::{
    available_skills, is_selected, is_selection, is_skill, loaded_skills, selected_at, shown,
    skill_error, skill_keys, skill_parts, Skill, SkillFront,
};
use crate::front_matter::closed;
use crate::order::{is_order, shown_before};
use crate::runbook::{
    found_at, found_keys, is_found, is_latest, is_runbook, is_search, runbook_error, runbook_parts,
    Runbook, RunbookFront, RunbookMeta,
};
use crate::text::{
    contains, find_from, join, lemma_find_from, lower, matches_at, split, starts_with, text_before,
    trim, trim_start, views,
};

verus! {

// ---------------------------------------------------------------------------
// Extensions
// ---------------------------------------------------------------------------
/// What is made of an extension by its kind. A custom tool is read where custom tools
/// are allowed, it is trusted and has a path; a server is started where this is no
/// production, it has a command and runs in a directory that leads nowhere else; one
/// behind HTTP is spoken to where its address is taken. Other kinds are refused.
pub proof fn law_extensions_are_planned(policy: ExtensionsConfig, entry: ExtensionConfigEntry)
    ensures
        entry.kind@ == "custom"@ ==> {
            &&& plan_of(policy, entry) is Ok <==> !policy.production_safe
                && policy.allow_custom_tools && entry.trusted_local && entry.path is Some
            &&& plan_of(policy, entry) matches Ok(plan) ==> plan == PlanView::Custom(entry.path->0@)
        },
        entry.kind@ == "mcp"@ ==> {
            &&& plan_of(policy, entry) is Ok <==> !policy.production_safe && entry.command is Some
                && (entry.cwd matches Some(cwd) ==> !cwd@.contains('\0') && !split(
                cwd@,
                '/',
            ).contains(".."@))
            &&& plan_of(policy, entry) matches Ok(plan) ==> (plan matches PlanView::Stdio(
                command,
                restarts,
            ) && command == entry.command->0@ && restarts <= 5 && (entry.max_restarts is None
                ==> restarts == 2) && (entry.max_restarts matches Some(n) ==> n <= 5 ==> restarts
                == n))
        },
        entry.kind@ == "mcp_http"@ ==> {
            &&& plan_of(policy, entry) is Ok <==> entry.url is Some && !(policy.production_safe
                && entry.allowlist_hosts@.len() == 0) && mcp_url_error(
                entry.url->0@,
                views(entry.allowlist_hosts@),
            ) is None
            &&& plan_of(policy, entry) matches Ok(plan) ==> plan is Http
        },
        entry.kind@ != "custom"@ && entry.kind@ != "mcp"@ && entry.kind@ != "mcp_http"@ ==> plan_of(
            policy,
            entry,
        ) is Err,
{
    reveal_strlit("custom");
    reveal_strlit("mcp");
    reveal_strlit("mcp_http");
    assert("custom"@.len() == 6 && "mcp"@.len() == 3 && "mcp_http"@.len() == 8);
}

/// The effect of a server's tools and the way to recover from them are those that the
/// configuration names, and have to be named.
pub proof fn law_servers_need_local_metadata(entry: ExtensionConfigEntry)
    ensures
        entry.effect is None ==> configured_effect(entry) is Err,
        entry.effect matches Some(text) ==> {
            &&& configured_effect(entry) == Ok::<CapabilityEffect, ErrorView>(
                CapabilityEffect::Observe,
            ) <==> text@ == "observe"@
            &&& configured_effect(entry) == Ok::<CapabilityEffect, ErrorView>(
                CapabilityEffect::ChangeReversible,
            ) <==> text@ == "change_reversible"@
            &&& configured_effect(entry) == Ok::<CapabilityEffect, ErrorView>(
                CapabilityEffect::ChangeIrreversible,
            ) <==> text@ == "change_irreversible"@
            &&& configured_effect(entry) == Ok::<CapabilityEffect, ErrorView>(
                CapabilityEffect::ExternalSideEffect,
            ) <==> text@ == "external_side_effect"@
        },
        entry.recovery is None ==> configured_recovery(entry) is Err,
        entry.recovery matches Some(text) ==> {
            &&& configured_recovery(entry) == Ok::<RecoveryMode, ErrorView>(
                RecoveryMode::NoneNeeded,
            ) <==> text@ == "none_needed"@ || text@ == "none"@
            &&& configured_recovery(entry) == Ok::<RecoveryMode, ErrorView>(
                RecoveryMode::Idempotent,
            ) <==> text@ == "idempotent"@
            &&& configured_recovery(entry) == Ok::<RecoveryMode, ErrorView>(
                RecoveryMode::NeedsReconciliation,
            ) <==> text@ == "needs_reconciliation"@
        },
{
    reveal_strlit("observe");
    reveal_strlit("change_reversible");
    reveal_strlit("change_irreversible");
    reveal_strlit("external_side_effect");
    assert("observe"@.len() == 7 && "change_reversible"@.len() == 17);
    assert("change_irreversible"@.len() == 19 && "external_side_effect"@.len() == 20);
    reveal_strlit("none_needed");
    reveal_strlit("none");
    reveal_strlit("idempotent");
    reveal_strlit("needs_reconciliation");
    assert("none_needed"@.len() == 11 && "none"@.len() == 4 && "idempotent"@.len() == 10);
    assert("needs_reconciliation"@.len() == 20);
}

/// An extension that could not be set up is listed as disabled, with the reason and
/// without a capability.
pub proof fn law_failed_extensions_are_listed(
    r: ExtensionSummary,
    entry: ExtensionConfigEntry,
    workspace_id: Seq<char>,
    error: ErrorView,
)
    requires
        is_disabled_summary(r, entry, workspace_id, error),
    ensures
        !r.enabled,
        r.health.state is Disabled,
        r.health.detail matches Some(detail) && detail@ == error.text(),
        r.id@ == entry.id@,
        r.kind@ == entry.kind@,
        r.capabilities@.len() == 0,
        entry.workspaces@.len() == 0 ==> views(r.workspaces@) == seq![workspace_id],
        entry.workspaces@.len() > 0 ==> views(r.workspaces@) == views(entry.workspaces@),
{
}

/// What a workspace sees of the extensions is, in order, what is for every workspace or
/// names this one.
pub proof fn law_workspaces_see_their_extensions(
    summaries: Seq<ExtensionSummary>,
    workspace_id: Seq<char>,
    n: int,
)
    requires
        0 <= n <= summaries.len(),
    ensures
        forall|k: int|
            0 <= k < places_for(summaries, workspace_id, n).len() ==> 0 <= #[trigger] places_for(
                summaries,
                workspace_id,
                n,
            )[k] < n,
        forall|k: int, l: int|
            0 <= k < l < places_for(summaries, workspace_id, n).len() ==> #[trigger] places_for(
                summaries,
                workspace_id,
                n,
            )[k] < #[trigger] places_for(summaries, workspace_id, n)[l],
        forall|i: int|
            0 <= i < n ==> (places_for(summaries, workspace_id, n).contains(i) <==> (
            #[trigger] summaries[i]).workspaces@.len() == 0 || exists|j: int|
                0 <= j < summaries[i].workspaces@.len() && #[trigger] summaries[i].workspaces@[j]@
                    == workspace_id),
    decreases n,
{
    if n > 0 {
        law_workspaces_see_their_extensions(summaries, workspace_id, n - 1);
        let before = places_for(summaries, workspace_id, n - 1);
        let after = places_for(summaries, workspace_id, n);
        assert forall|i: int| 0 <= i < n implies (after.contains(i) <==> covers(
            views((#[trigger] summaries[i]).workspaces@),
            workspace_id,
        )) by {
            lemma_named(summaries[i].workspaces@, workspace_id);
            if i < n - 1 {
                if before.contains(i) {
                    let k = before.index_of(i);
                    assert(after[k] == i);
                }
                if after.contains(i) {
                    let k = after.index_of(i);
                    assert(before[k] == i);
                }
            } else {
                if after.contains(i) {
                    let k = after.index_of(i);
                    if k < before.len() {
                        assert(before[k] == i);
                    }
                }
                if covers(views(summaries[i].workspaces@), workspace_id) {
                    assert(after[before.len() as int] == i);
                }
            }
        }
        assert forall|i: int| 0 <= i < n implies (after.contains(i) <==> (
        #[trigger] summaries[i]).workspaces@.len() == 0 || exists|j: int|
            0 <= j < summaries[i].workspaces@.len() && #[trigger] summaries[i].workspaces@[j]@
                == workspace_id) by {
            lemma_named(summaries[i].workspaces@, workspace_id);
        }
    }
}

proof fn lemma_named(workspaces: Seq<String>, workspace_id: Seq<char>)
    ensures
        covers(views(workspaces), workspace_id) <==> workspaces.len() == 0 || exists|j: int|
            0 <= j < workspaces.len() && #[trigger] workspaces[j]@ == workspace_id,
{
    let texts = views(workspaces);
    assert(texts.len() == workspaces.len());
    assert forall|j: int| 0 <= j < workspaces.len() implies texts[j]
        == #[trigger] workspaces[j]@ by {}
    if exists|j: int| 0 <= j < workspaces.len() && #[trigger] workspaces[j]@ == workspace_id {
        let j = choose|j: int| 0 <= j < workspaces.len() && #[trigger] workspaces[j]@ == workspace_id;
        assert(texts[j] == workspace_id);
    }
    if texts.contains(workspace_id) {
        let j = texts.index_of(workspace_id);
        assert(workspaces[j]@ == workspace_id);
    }
}

// ---------------------------------------------------------------------------
// Skills
// ---------------------------------------------------------------------------
proof fn lemma_closed(front: Seq<char>, body: Seq<char>)
    requires
        forall|i: int| !matches_at(front, "\n---"@, i),
    ensures
        closed(front + "\n---"@ + body) == Some((front, body)),
{
    let mark = "\n---"@;
    reveal_strlit("\n---");
    let s = front + mark + body;
    let n = front.len() as int;
    assert(s.subrange(n, n + 4) =~= mark);
    assert(matches_at(s, mark, n));
    assert forall|i: int| 0 <= i < n implies !matches_at(s, mark, i) by {
        if matches_at(s, mark, i) {
            let found = s.subrange(i, i + 4);
            if i + 4 <= n {
                assert(front.subrange(i, i + 4) =~= found);
                assert(matches_at(front, mark, i));
            } else {
                assert(found[n - i] == s[n]);
                assert(s[n] == mark[0]);
                assert(mark[n - i] == '-');
            }
        }
    }
    lemma_find_from(s, mark, 0);
    assert(find_from(s, mark, 0) == Some(n));
    assert(s.take(n) =~= front);
    assert(s.skip(n + 4) =~= body);
}

/// The head of a skill or of a runbook is what stands between its two lines of dashes,
/// and its body what stands behind them.
pub proof fn law_heads_and_bodies_are_told_apart(front: Seq<char>, body: Seq<char>)
    requires
        front.len() > 0,
        front[0] != '\n',
        front[0] != '\r',
        forall|i: int| !matches_at(front, "\n---"@, i),
    ensures
        skill_parts("---"@ + (front + "\n---"@ + body)) == Ok::<(Seq<char>, Seq<char>), ErrorView>(
            (front, trim(body)),
        ),
        runbook_parts("---"@ + (front + "\n---"@ + body)) == Ok::<
            (Seq<char>, Seq<char>),
            ErrorView,
        >((trim(front), trim(body))),
        !starts_with(body, "---"@) ==> skill_parts(body) is Err,
{
    reveal_strlit("---");
    let rest = front + "\n---"@ + body;
    let source = "---"@ + rest;
    assert(source.subrange(0, 3) =~= "---"@);
    assert(source.skip(3) =~= rest);
    assert(rest[0] == front[0]);
    assert(source[0] == '-');
    assert(trim_start(source) == source);
    lemma_closed(front, body);
}

/// A skill says what its head says, holds the body behind it, and carries the hash of
/// its name, version and body.
pub proof fn law_skills_are_read(skill: Skill, source: Seq<char>, front: SkillFront)
    requires
        is_skill(skill, source, front),
        skill_error(source, Ok(front)) is None,
    ensures
        skill.meta.id == front.id,
        skill.meta.title == front.title,
        skill.meta.version == front.version,
        skill.meta.services == front.services,
        skill.meta.tags == front.tags,
        skill.meta.required_tools == front.required_tools,
        !contains(front.id@, ".."@),
        !front.id@.contains('/'),
        !front.id@.contains('\\'),
        skill.meta.hash@ == sha256_text(
            encode_utf8(front.id@) + encode_utf8(front.version@) + encode_utf8(skill.body@),
        ),
        front.max_context_bytes is None ==> skill.meta.max_context_bytes == 4096,
        front.max_context_bytes matches Some(n) ==> n >= 256 ==> skill.meta.max_context_bytes == n,
        skill.meta.max_context_bytes >= 256,
{
}

/// Skills are loaded where they are enabled for the workspace. Loading succeeds only
/// where all of those could be read, and gives just them, in order.
pub proof fn law_enabled_skills_are_loaded(
    entries: Seq<SkillConfigEntry>,
    workspace: Seq<char>,
    loaded: Seq<OpsResult<Skill>>,
    n: int,
    skills: Seq<Skill>,
)
    requires
        0 <= n <= entries.len(),
        entries.len() == loaded.len(),
        loaded_skills(entries, workspace, loaded, n) == Ok::<Seq<Skill>, ErrorView>(skills),
    ensures
        forall|i: int|
            0 <= i < n && (#[trigger] entries[i]).enabled && (entries[i].workspaces@.len() == 0
                || exists|j: int|
                0 <= j < entries[i].workspaces@.len() && #[trigger] entries[i].workspaces@[j]@
                    == workspace) ==> loaded[i] is Ok && skills.contains(loaded[i]->Ok_0),
        forall|k: int|
            #![trigger skills[k]]
            0 <= k < skills.len() ==> exists|i: int|
                0 <= i < n && #[trigger] loaded[i] == Ok::<Skill, crate::error::OpsCodexError>(
                    skills[k],
                ) && entries[i].enabled,
        available_skills(entries, workspace, loaded, n) == skills,
    decreases n,
{
    if n > 0 {
        let before = loaded_skills(entries, workspace, loaded, n - 1)->Ok_0;
        law_enabled_skills_are_loaded(entries, workspace, loaded, n - 1, before);
        assert forall|i: int|
            0 <= i < n && (#[trigger] entries[i]).enabled && (entries[i].workspaces@.len() == 0
                || exists|j: int|
                0 <= j < entries[i].workspaces@.len() && #[trigger] entries[i].workspaces@[j]@
                    == workspace) implies loaded[i] is Ok && skills.contains(
            loaded[i]->Ok_0,
        ) by {
            lemma_named(entries[i].workspaces@, workspace);
            if i < n - 1 {
                let k = before.index_of(loaded[i]->Ok_0);
                assert(skills[k] == loaded[i]->Ok_0);
            } else {
                assert(skills[before.len() as int] == loaded[i]->Ok_0);
            }
        }
        assert forall|k: int|
            #![trigger skills[k]]
            0 <= k < skills.len() implies exists|i: int|
            0 <= i < n && #[trigger] loaded[i] == Ok::<Skill, crate::error::OpsCodexError>(
                skills[k],
            ) && entries[i].enabled by {
            if k < before.len() {
                assert(before[k] == skills[k]);
                let i = choose|i: int|
                    0 <= i < n - 1 && #[trigger] loaded[i] == Ok::<
                        Skill,
                        crate::error::OpsCodexError,
                    >(before[k]) && entries[i].enabled;
                assert(loaded[i] == Ok::<Skill, crate::error::OpsCodexError>(skills[k]));
            } else {
                assert(loaded[n - 1] == Ok::<Skill, crate::error::OpsCodexError>(skills[k]));
            }
        }
    }
}

/// The skill is for the service, whatever the case of its letters, and is called or
/// tagged by what is looked for.
proof fn lemma_selected(skill: Skill, service: Option<Seq<char>>, query: Seq<char>)
    ensures
        is_selected(skill, service, query) <==> {
            &&& service matches Some(service) ==> exists|i: int|
                0 <= i < skill.meta.services@.len() && lower(
                    (#[trigger] skill.meta.services@[i])@,
                ) == lower(service)
            &&& {
                ||| query.len() == 0
                ||| contains(lower(skill.meta.id@), lower(query))
                ||| contains(lower(skill.meta.title@), lower(query))
                ||| exists|i: int|
                    0 <= i < skill.meta.tags@.len() && contains(
                        lower((#[trigger] skill.meta.tags@[i])@),
                        lower(query),
                    )
            }
        },
{
    let services = views(skill.meta.services@);
    let tags = views(skill.meta.tags@);
    assert(services.len() == skill.meta.services@.len() && tags.len() == skill.meta.tags@.len());
    assert forall|i: int| 0 <= i < services.len() implies #[trigger] services[i]
        == skill.meta.services@[i]@ by {}
    assert forall|i: int| 0 <= i < tags.len() implies #[trigger] tags[i]
        == skill.meta.tags@[i]@ by {}
    if let Some(service) = service {
        if exists|i: int|
            0 <= i < skill.meta.services@.len() && lower((#[trigger] skill.meta.services@[i])@)
                == lower(service) {
            let i = choose|i: int|
                0 <= i < skill.meta.services@.len() && lower((#[trigger] skill.meta.services@[i])@)
                    == lower(service);
            assert(lower(services[i]) == lower(service));
        }
    }
    if exists|i: int|
        0 <= i < skill.meta.tags@.len() && contains(
            lower((#[trigger] skill.meta.tags@[i])@),
            lower(query),
        ) {
        let i = choose|i: int|
            0 <= i < skill.meta.tags@.len() && contains(
                lower((#[trigger] skill.meta.tags@[i])@),
                lower(query),
            );
        assert(contains(lower(tags[i]), lower(query)));
    }
    assert(lower(query).len() == query.len());
}

proof fn lemma_selected_at(
    skills: Seq<Skill>,
    service: Option<Seq<char>>,
    query: Seq<char>,
    n: int,
)
    requires
        0 <= n <= skills.len(),
    ensures
        forall|k: int|
            0 <= k < selected_at(skills, service, query, n).len() ==> 0 <= #[trigger] selected_at(
                skills,
                service,
                query,
                n,
            )[k] < n && is_selected(skills[selected_at(skills, service, query, n)[k]], service, query),
        forall|i: int|
            0 <= i < n && is_selected(#[trigger] skills[i], service, query) ==> selected_at(
                skills,
                service,
                query,
                n,
            ).contains(i),
    decreases n,
{
    if n > 0 {
        lemma_selected_at(skills, service, query, n - 1);
        let before = selected_at(skills, service, query, n - 1);
        let after = selected_at(skills, service, query, n);
        assert forall|i: int|
            0 <= i < n && is_selected(#[trigger] skills[i], service, query) implies after.contains(
            i,
        ) by {
            if i < n - 1 {
                let k = before.index_of(i);
                assert(after[k] == i);
            } else {
                assert(after[before.len() as int] == i);
            }
        }
    }
}

/// The skills that are selected are just those for the service that are called or
/// tagged by what is looked for, whatever the case of the letters, in the order of
/// their names.
pub proof fn law_skills_are_selected(
    selected: Seq<Skill>,
    skills: Seq<Skill>,
    service: Option<Seq<char>>,
    query: Seq<char>,
)
    requires
        is_selection(selected, skills, service, query),
    ensures
        forall|i: int|
            0 <= i < skills.len() ==> (selected.contains(#[trigger] skills[i]) <==> {
                &&& service matches Some(service) ==> exists|j: int|
                    0 <= j < skills[i].meta.services@.len() && lower(
                        (#[trigger] skills[i].meta.services@[j])@,
                    ) == lower(service)
                &&& {
                    ||| query.len() == 0
                    ||| contains(lower(skills[i].meta.id@), lower(query))
                    ||| contains(lower(skills[i].meta.title@), lower(query))
                    ||| exists|j: int|
                        0 <= j < skills[i].meta.tags@.len() && contains(
                            lower((#[trigger] skills[i].meta.tags@[j])@),
                            lower(query),
                        )
                }
            }),
        forall|k: int| 0 <= k < selected.len() ==> skills.contains(#[trigger] selected[k]),
        forall|k: int, l: int|
            0 <= k < l < selected.len() ==> (#[trigger] selected[k]).meta.id@ == (
            #[trigger] selected[l]).meta.id@ || text_before(
                selected[k].meta.id@,
                selected[l].meta.id@,
            ),
{
    let n = skills.len() as int;
    let found = selected_at(skills, service, query, n);
    let order = choose|order: Seq<int>|
        {
            &&& #[trigger] is_order(skill_keys(skills, found), order)
            &&& selected == Seq::new(order.len(), |k: int| skills[found[order[k]]])
        };
    lemma_selected_at(skills, service, query, n);
    let keys = skill_keys(skills, found);
    assert forall|k: int| 0 <= k < selected.len() implies #[trigger] selected[k]
        == skills[found[order[k]]] && skills.contains(selected[k]) && is_selected(
        selected[k],
        service,
        query,
    ) by {
        assert(0 <= order[k] < keys.len());
        assert(0 <= found[order[k]] < n);
    }
    assert forall|k: int, l: int| 0 <= k < l < selected.len() implies (
    #[trigger] selected[k]).meta.id@ == (#[trigger] selected[l]).meta.id@ || text_before(
        selected[k].meta.id@,
        selected[l].meta.id@,
    ) by {
        assert(shown_before(keys, order[k], order[l]));
        assert(keys[order[k]] == (0usize, selected[k].meta.id@));
        assert(keys[order[l]] == (0usize, selected[l].meta.id@));
    }
    assert forall|i: int| 0 <= i < n implies (selected.contains(#[trigger] skills[i])
        <==> is_selected(skills[i], service, query)) by {
        if is_selected(skills[i], service, query) {
            let p = found.index_of(i);
            assert(found.contains(i));
            assert(order.contains(p));
            let k = order.index_of(p);
            assert(selected[k] == skills[i]);
        }
        if selected.contains(skills[i]) {
            let k = selected.index_of(skills[i]);
            assert(selected[k] == skills[i]);
        }
    }
    assert forall|i: int| 0 <= i < n implies (selected.contains(#[trigger] skills[i]) <==> {
        &&& service matches Some(service) ==> exists|j: int|
            0 <= j < skills[i].meta.services@.len() && lower(
                (#[trigger] skills[i].meta.services@[j])@,
            ) == lower(service)
        &&& {
            ||| query.len() == 0
            ||| contains(lower(skills[i].meta.id@), lower(query))
            ||| contains(lower(skills[i].meta.title@), lower(query))
            ||| exists|j: int|
                0 <= j < skills[i].meta.tags@.len() && contains(
                    lower((#[trigger] skills[i].meta.tags@[j])@),
                    lower(query),
                )
        }
    }) by {
        lemma_selected(skills[i], service, query);
    }
}

/// A skill is shown with its name, its version, its hash and its whole body where that
/// is within its own limit and there is room for it, and the next behind it.
pub proof fn law_skills_are_shown(selected: Seq<Skill>, room: int)
    requires
        selected.len() > 0,
        encode_utf8(
            "\n### skill "@ + selected[0].meta.id@ + "@"@ + selected[0].meta.version@ + " ("@
                + selected[0].meta.hash@ + ")\n"@ + selected[0].body@ + "\n"@,
        ).len() <= selected[0].meta.max_context_bytes,
    ensures
        ({
            let text = "\n### skill "@ + selected[0].meta.id@ + "@"@ + selected[0].meta.version@
                + " ("@ + selected[0].meta.hash@ + ")\n"@ + selected[0].body@ + "\n"@;
            if encode_utf8(text).len() <= room {
                shown(selected, room) == text + shown(
                    selected.skip(1),
                    room - encode_utf8(text).len(),
                )
            } else {
                shown(selected, room).len() == 0
            }
        }),
{
}

// ---------------------------------------------------------------------------
// Runbooks
// ---------------------------------------------------------------------------
/// A runbook says what its head says, holds the body behind it, and carries the hash of
/// its whole source. It has a name and a title.
pub proof fn law_runbooks_are_read(runbook: Runbook, source: Seq<char>, front: RunbookFront)
    requires
        is_runbook(runbook, source, front),
        runbook_error(source, Ok(front)) is None,
    ensures
        runbook.meta.id@ == front.id@,
        runbook.meta.title@ == front.title@,
        views(runbook.meta.services@) == views(front.services@),
        views(runbook.meta.signals@) == views(front.signals@),
        views(runbook.meta.tags@) == views(front.tags@),
        front.version > 0 ==> runbook.meta.version == front.version,
        runbook.meta.version > 0,
        runbook.meta.hash@ == sha256_text(encode_utf8(source)),
        trim(front.id@).len() > 0,
        trim(front.title@).len() > 0,
{
}

proof fn lemma_found_at(
    runbooks: Seq<Runbook>,
    query: Seq<char>,
    service: Option<Seq<char>>,
    n: int,
)
    requires
        0 <= n <= runbooks.len(),
    ensures
        forall|k: int|
            0 <= k < found_at(runbooks, query, service, n).len() ==> 0 <= #[trigger] found_at(
                runbooks,
                query,
                service,
                n,
            )[k] < n && is_found(runbooks[found_at(runbooks, query, service, n)[k]], query, service),
        forall|i: int|
            0 <= i < n && is_found(#[trigger] runbooks[i], query, service) ==> found_at(
                runbooks,
                query,
                service,
                n,
            ).contains(i),
    decreases n,
{
    if n > 0 {
        lemma_found_at(runbooks, query, service, n - 1);
        let before = found_at(runbooks, query, service, n - 1);
        let after = found_at(runbooks, query, service, n);
        assert forall|i: int|
            0 <= i < n && is_found(#[trigger] runbooks[i], query, service) implies after.contains(
            i,
        ) by {
            if i < n - 1 {
                let k = before.index_of(i);
                assert(after[k] == i);
            } else {
                assert(after[before.len() as int] == i);
            }
        }
    }
}

proof fn lemma_found(runbook: Runbook, query: Seq<char>, service: Option<Seq<char>>)
    ensures
        is_found(runbook, query, service) <==> {
            &&& service matches Some(name) ==> exists|j: int|
                0 <= j < runbook.meta.services@.len() && lower(
                    (#[trigger] runbook.meta.services@[j])@,
                ) == lower(name)
            &&& query.len() == 0 || contains(
                lower(
                    runbook.meta.id@ + " "@ + runbook.meta.title@ + " "@ + join(
                        views(runbook.meta.tags@),
                        " "@,
                    ) + " "@ + join(views(runbook.meta.signals@), " "@),
                ),
                lower(query),
            )
        },
{
    let services = views(runbook.meta.services@);
    assert(services.len() == runbook.meta.services@.len());
    assert forall|i: int| 0 <= i < services.len() implies #[trigger] services[i]
        == runbook.meta.services@[i]@ by {}
    if let Some(name) = service {
        if exists|i: int|
            0 <= i < runbook.meta.services@.len() && lower((#[trigger] runbook.meta.services@[i])@)
                == lower(name) {
            let i = choose|i: int|
                0 <= i < runbook.meta.services@.len() && lower(
                    (#[trigger] runbook.meta.services@[i])@,
                ) == lower(name);
            assert(lower(services[i]) == lower(name));
        }
    }
    assert(lower(query).len() == query.len());
}

/// A search gives just the runbooks for the service whose name, title, tags or signals
/// hold what is looked for, whatever the case of the letters, each once. The places are
/// those of the runbooks that are found.
pub proof fn law_runbooks_are_found(
    metas: Seq<RunbookMeta>,
    runbooks: Seq<Runbook>,
    query: Seq<char>,
    service: Option<Seq<char>>,
) -> (places: Seq<int>)
    requires
        is_search(metas, runbooks, query, service),
    ensures
        places.len() == metas.len(),
        forall|k: int|
            0 <= k < places.len() ==> 0 <= #[trigger] places[k] < runbooks.len() && metas[k]@
                == runbooks[places[k]].meta@,
        forall|i: int|
            0 <= i < runbooks.len() ==> (places.contains(i) <==> {
                &&& service matches Some(name) ==> exists|j: int|
                    0 <= j < (#[trigger] runbooks[i]).meta.services@.len() && lower(
                        (#[trigger] runbooks[i].meta.services@[j])@,
                    ) == lower(name)
                &&& query.len() == 0 || contains(
                    lower(
                        runbooks[i].meta.id@ + " "@ + runbooks[i].meta.title@ + " "@ + join(
                            views(runbooks[i].meta.tags@),
                            " "@,
                        ) + " "@ + join(views(runbooks[i].meta.signals@), " "@),
                    ),
                    lower(query),
                )
            }),
{
    let n = runbooks.len() as int;
    let found = found_at(runbooks, query, service, n);
    let keys = found_keys(runbooks, found, lower(query));
    let order = choose|order: Seq<int>|
        {
            &&& #[trigger] is_order(keys, order)
            &&& metas.len() == order.len()
            &&& forall|k: int|
                0 <= k < metas.len() ==> (#[trigger] metas[k])@ == runbooks[found[order[k]]].meta@
        };
    lemma_found_at(runbooks, query, service, n);
    let places = Seq::new(order.len(), |k: int| found[order[k]]);
    assert forall|k: int| 0 <= k < places.len() implies 0 <= #[trigger] places[k] < n && metas[k]@
        == runbooks[places[k]].meta@ && is_found(runbooks[places[k]], query, service) by {
        assert(0 <= order[k] < keys.len());
    }
    assert forall|i: int| 0 <= i < n implies (places.contains(i) <==> is_found(
        #[trigger] runbooks[i],
        query,
        service,
    )) by {
        if is_found(runbooks[i], query, service) {
            assert(found.contains(i));
            let p = found.index_of(i);
            assert(order.contains(p));
            let k = order.index_of(p);
            assert(places[k] == i);
        }
        if places.contains(i) {
            let k = places.index_of(i);
            assert(places[k] == i);
        }
    }
    assert forall|i: int| 0 <= i < n implies (places.contains(i) <==> {
        &&& service matches Some(name) ==> exists|j: int|
            0 <= j < (#[trigger] runbooks[i]).meta.services@.len() && lower(
                (#[trigger] runbooks[i].meta.services@[j])@,
            ) == lower(name)
        &&& query.len() == 0 || contains(
            lower(
                runbooks[i].meta.id@ + " "@ + runbooks[i].meta.title@ + " "@ + join(
                    views(runbooks[i].meta.tags@),
                    " "@,
                ) + " "@ + join(views(runbooks[i].meta.signals@), " "@),
            ),
            lower(query),
        )
    }) by {
        lemma_found(runbooks[i], query, service);
    }
    places
}

/// The runbook that is read has the name and, where one is given, the version that is
/// asked for, and there is no later one of that name and version.
pub proof fn law_the_latest_runbook_is_read(
    runbooks: Seq<Runbook>,
    id: Seq<char>,
    version: Option<u32>,
    i: int,
)
    requires
        is_latest(runbooks, id, version, i),
    ensures
        0 <= i < runbooks.len(),
        runbooks[i].meta.id@ == id,
        version matches Some(v) ==> runbooks[i].meta.version == v,
        version is None ==> forall|k: int|
            0 <= k < runbooks.len() && (#[trigger] runbooks[k]).meta.id@ == id
                ==> runbooks[k].meta.version <= runbooks[i].meta.version,
{
}

} // verus!
