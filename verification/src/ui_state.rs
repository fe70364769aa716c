//! The state behind the terminal UI and how each message changes it: the
//! scrolling log, one progress line per running agent (in the order the
//! agents registered), the status bar and a pending confirmation.
//! Drawing the state and delivering a confirmation's answer belong to the
//! binary.

use vstd::prelude::*;

use crate::projects::{first_index, is_first, lemma_first_index_is, lemma_first_index_some_contains};
use crate::format::{bold_intent_style, dim_style, plain_style, Intent, LineV, Span, Style, StyledLine, lines_view};
use crate::text::{chars_of, decimal, extend_str, lines, lines_of, push_decimal, str_eq, string_of, views};
use crate::types::StatusInfo;

verus! {

/// The live line of one agent.
pub struct AgentProgress {
    pub header: String,
    pub progress: Option<String>,
}

/// A question waiting for a yes/no answer.
pub struct ConfirmState {
    pub message: String,
}

pub enum UIMessage {
    Progress { agent_id: String, text: String },
    Persist { agent_id: String, text: String },
    AgentDone { agent_id: String },
    Log(String),
    RegisterAgent { agent_id: String, header: String },
    SetStatus(StatusInfo),
    Confirm { message: String },
    Suspend,
    Resume,
    Quit,
}

pub struct AppState {
    pub log_lines: Vec<String>,
    pub progress_groups: Vec<(String, AgentProgress)>,
    pub status: Option<StatusInfo>,
    pub confirm_prompt: Option<ConfirmState>,
}

pub open spec fn opt_text(o: Option<String>) -> Option<Seq<char>> {
    match o {
        Some(s) => Some(s@),
        None => None,
    }
}

/// A progress group as plain values: (agent id, header, progress line).
pub open spec fn group_view(g: (String, AgentProgress)) -> (Seq<char>, Seq<char>, Option<Seq<char>>) {
    (g.0@, g.1.header@, opt_text(g.1.progress))
}

pub open spec fn groups_view(gs: Seq<(String, AgentProgress)>) -> Seq<(Seq<char>, Seq<char>, Option<Seq<char>>)> {
    gs.map_values(|g: (String, AgentProgress)| group_view(g))
}

pub open spec fn group_ids(gs: Seq<(Seq<char>, Seq<char>, Option<Seq<char>>)>) -> Seq<Seq<char>> {
    gs.map_values(|g: (Seq<char>, Seq<char>, Option<Seq<char>>)| g.0)
}

pub open spec fn texts(v: Seq<String>) -> Seq<Seq<char>> {
    v.map_values(|s: String| s@)
}

/// Each agent has at most one progress group.
pub open spec fn ids_distinct(gs: Seq<(Seq<char>, Seq<char>, Option<Seq<char>>)>) -> bool {
    forall|i: int, j: int| 0 <= i < j < gs.len() ==> gs[i].0 != gs[j].0
}

/// The groups after `id` registers with `header`: a known agent keeps its
/// place and gets the new header and no progress; a new one goes last.
pub open spec fn registered(
    gs: Seq<(Seq<char>, Seq<char>, Option<Seq<char>>)>,
    id: Seq<char>,
    header: Seq<char>,
) -> Seq<(Seq<char>, Seq<char>, Option<Seq<char>>)> {
    match first_index(group_ids(gs), id) {
        Some(i) => gs.update(i, (id, header, None)),
        None => gs.push((id, header, None)),
    }
}

/// The groups after progress `text` from `id` (ignored from an unknown agent).
pub open spec fn progressed(
    gs: Seq<(Seq<char>, Seq<char>, Option<Seq<char>>)>,
    id: Seq<char>,
    text: Seq<char>,
) -> Seq<(Seq<char>, Seq<char>, Option<Seq<char>>)> {
    match first_index(group_ids(gs), id) {
        Some(i) => gs.update(i, (id, gs[i].1, Some(text))),
        None => gs,
    }
}

/// The groups after `id` is done: its group leaves, the others keep their order.
pub open spec fn finished(gs: Seq<(Seq<char>, Seq<char>, Option<Seq<char>>)>, id: Seq<char>) -> Seq<
    (Seq<char>, Seq<char>, Option<Seq<char>>),
> {
    match first_index(group_ids(gs), id) {
        Some(i) => gs.remove(i),
        None => gs,
    }
}

impl AppState {
    /// The state is well formed: one progress group per agent.
    pub open spec fn wf(&self) -> bool {
        ids_distinct(groups_view(self.progress_groups@))
    }

    pub fn new() -> (r: AppState)
        ensures
            r.wf(),
            r.log_lines@.len() == 0,
            r.progress_groups@.len() == 0,
            r.status is None,
            r.confirm_prompt is None,
    {
        AppState { log_lines: Vec::new(), progress_groups: Vec::new(), status: None, confirm_prompt: None }
    }

    /// Apply one message.
    pub fn handle_message(&mut self, msg: UIMessage)
        requires
            old(self).wf(),
        ensures
            final(self).wf(),
            ({
                let log0 = texts(old(self).log_lines@);
                let log1 = texts(final(self).log_lines@);
                let gs0 = groups_view(old(self).progress_groups@);
                let gs1 = groups_view(final(self).progress_groups@);
                match msg {
                    UIMessage::Log(text) => log1 == log0 + lines(text@) && gs1 == gs0,
                    UIMessage::Persist { agent_id: _, text } => log1 == log0 + lines(text@) && gs1 == gs0,
                    UIMessage::RegisterAgent { agent_id, header } => log1 == log0 && gs1 == registered(
                        gs0,
                        agent_id@,
                        header@,
                    ),
                    UIMessage::Progress { agent_id, text } => log1 == log0 && gs1 == progressed(gs0, agent_id@, text@),
                    UIMessage::AgentDone { agent_id } => log1 == log0 && gs1 == finished(gs0, agent_id@),
                    _ => log1 == log0 && gs1 == gs0,
                }
            }),
            match msg {
                UIMessage::SetStatus(s) => final(self).status == Some(s),
                _ => final(self).status == old(self).status,
            },
            match msg {
                UIMessage::Confirm { message } => final(self).confirm_prompt matches Some(c) && c.message@ == message@,
                _ => final(self).confirm_prompt == old(self).confirm_prompt,
            },
    {
        match msg {
            UIMessage::Log(text) => {
                append_lines(&mut self.log_lines, text.as_str());
            },
            UIMessage::Persist { agent_id: _, text } => {
                append_lines(&mut self.log_lines, text.as_str());
            },
            UIMessage::RegisterAgent { agent_id, header } => {
                register(&mut self.progress_groups, agent_id, header);
            },
            UIMessage::Progress { agent_id, text } => {
                set_progress(&mut self.progress_groups, agent_id.as_str(), text);
            },
            UIMessage::AgentDone { agent_id } => {
                remove_group(&mut self.progress_groups, agent_id.as_str());
            },
            UIMessage::SetStatus(status) => {
                self.status = Some(status);
            },
            UIMessage::Confirm { message } => {
                self.confirm_prompt = Some(ConfirmState { message });
            },
            UIMessage::Suspend => {},
            UIMessage::Resume => {},
            UIMessage::Quit => {},
        }
    }
}

fn append_lines(log: &mut Vec<String>, text: &str)
    ensures
        texts(final(log)@) == texts(old(log)@) + lines(text@),
{
    let ls = lines_of(&chars_of(text));
    let ghost start = texts(log@);
    let mut i: usize = 0;
    while i < ls.len()
        invariant
            i <= ls.len(),
            views(ls@) == lines(text@),
            texts(log@) == start + views(ls@).take(i as int),
        decreases ls.len() - i,
    {
        let ghost before = texts(log@);
        log.push(string_of(&ls[i]));
        assert(texts(log@) =~= before.push(ls@[i as int]@));
        assert(views(ls@).take(i + 1) =~= views(ls@).take(i as int).push(ls@[i as int]@));
        i += 1;
    }
    assert(views(ls@).take(ls.len() as int) =~= views(ls@));
}

fn group_position(gs: &Vec<(String, AgentProgress)>, id: &str) -> (r: Option<usize>)
    ensures
        match r {
            Some(i) => i < gs@.len() && first_index(group_ids(groups_view(gs@)), id@) == Some(i as int),
            None => first_index(group_ids(groups_view(gs@)), id@) is None,
        },
{
    let ghost ids = group_ids(groups_view(gs@));
    let mut i: usize = 0;
    while i < gs.len()
        invariant
            i <= gs.len(),
            ids == group_ids(groups_view(gs@)),
            forall|j: int| 0 <= j < i ==> ids[j] != id@,
        decreases gs.len() - i,
    {
        assert(ids[i as int] == gs@[i as int].0@);
        if str_eq(gs[i].0.as_str(), id) {
            proof {
                assert(is_first(ids, id@, i as int));
                lemma_first_index_is(ids, id@, i as int);
            }
            return Some(i);
        }
        i += 1;
    }
    None
}

proof fn lemma_update_keeps_distinct(
    gs: Seq<(Seq<char>, Seq<char>, Option<Seq<char>>)>,
    i: int,
    g: (Seq<char>, Seq<char>, Option<Seq<char>>),
)
    requires
        ids_distinct(gs),
        0 <= i < gs.len(),
        g.0 == gs[i].0,
    ensures
        ids_distinct(gs.update(i, g)),
{
    assert forall|a: int, b: int| 0 <= a < b < gs.update(i, g).len() implies gs.update(i, g)[a].0 != gs.update(
        i,
        g,
    )[b].0 by {
        assert(gs.update(i, g)[a].0 == gs[a].0);
        assert(gs.update(i, g)[b].0 == gs[b].0);
    }
}

fn register(gs: &mut Vec<(String, AgentProgress)>, id: String, header: String)
    requires
        ids_distinct(groups_view(old(gs)@)),
    ensures
        ids_distinct(groups_view(final(gs)@)),
        groups_view(final(gs)@) == registered(groups_view(old(gs)@), id@, header@),
{
    let ghost gv = groups_view(gs@);
    match group_position(gs, id.as_str()) {
        Some(i) => {
            proof {
                assert(gv[i as int].0 == id@);
                lemma_update_keeps_distinct(gv, i as int, (id@, header@, None));
            }
            gs.set(i, (id, AgentProgress { header, progress: None }));
            assert(groups_view(gs@) =~= gv.update(i as int, (id@, header@, None)));
        },
        None => {
            let ghost g = (id@, header@, Option::<Seq<char>>::None);
            gs.push((id, AgentProgress { header, progress: None }));
            proof {
                assert(groups_view(gs@) =~= gv.push(g));
                assert forall|j: int| 0 <= j < gv.len() implies gv[j].0 != g.0 by {
                    assert(group_ids(gv)[j] == gv[j].0);
                    if gv[j].0 == g.0 {
                        lemma_first_index_some_contains(group_ids(gv), id@);
                    }
                }
            }
        },
    }
}

fn set_progress(gs: &mut Vec<(String, AgentProgress)>, id: &str, text: String)
    requires
        ids_distinct(groups_view(old(gs)@)),
    ensures
        ids_distinct(groups_view(final(gs)@)),
        groups_view(final(gs)@) == progressed(groups_view(old(gs)@), id@, text@),
{
    let ghost gv = groups_view(gs@);
    match group_position(gs, id) {
        Some(i) => {
            let header = crate::text::clone_string(&gs[i].1.header);
            let key = crate::text::clone_string(&gs[i].0);
            proof {
                assert(gv[i as int].0 == id@);
                lemma_update_keeps_distinct(gv, i as int, (id@, gv[i as int].1, Some(text@)));
            }
            gs.set(i, (key, AgentProgress { header, progress: Some(text) }));
            assert(groups_view(gs@) =~= gv.update(i as int, (id@, gv[i as int].1, Some(text@))));
        },
        None => {},
    }
}

fn remove_group(gs: &mut Vec<(String, AgentProgress)>, id: &str)
    requires
        ids_distinct(groups_view(old(gs)@)),
    ensures
        ids_distinct(groups_view(final(gs)@)),
        groups_view(final(gs)@) == finished(groups_view(old(gs)@), id@),
{
    let ghost gv = groups_view(gs@);
    match group_position(gs, id) {
        Some(i) => {
            let ghost pre = gs@;
            gs.remove(i);
            proof {
                assert(gs@ == pre.remove(i as int));
                assert(groups_view(gs@) =~= gv.remove(i as int));
                assert forall|a: int, b: int| 0 <= a < b < gv.remove(i as int).len() implies gv.remove(
                    i as int,
                )[a].0 != gv.remove(i as int)[b].0 by {
                    let a0 = if a < i { a } else { a + 1 };
                    let b0 = if b < i { b } else { b + 1 };
                    assert(gv.remove(i as int)[a] == gv[a0]);
                    assert(gv.remove(i as int)[b] == gv[b0]);
                }
            }
        },
        None => {},
    }
}

/// The status bar: project, plan, phase and agent (and the cycle, when
/// known), or the program's name before any status arrived.
pub open spec fn status_line(status: Option<StatusInfo>) -> Seq<char> {
    match status {
        Some(s) => " "@ + s.project@ + " · "@ + s.plan@ + " · "@ + s.phase@ + " · "@ + s.agent@ + match s.cycle {
            Some(c) => " · cycle "@ + decimal(c as nat),
            None => seq![],
        },
        None => " raveloop"@,
    }
}

pub fn status_text(status: &Option<StatusInfo>) -> (r: String)
    ensures
        r@ == status_line(*status),
{
    let mut v: Vec<char> = Vec::new();
    match status {
        Some(s) => {
            extend_str(&mut v, " ");
            extend_str(&mut v, s.project.as_str());
            extend_str(&mut v, " · ");
            extend_str(&mut v, s.plan.as_str());
            extend_str(&mut v, " · ");
            extend_str(&mut v, s.phase.as_str());
            extend_str(&mut v, " · ");
            extend_str(&mut v, s.agent.as_str());
            match s.cycle {
                Some(c) => {
                    extend_str(&mut v, " · cycle ");
                    push_decimal(&mut v, c as u64);
                },
                None => {},
            }
        },
        None => extend_str(&mut v, " raveloop"),
    }
    string_of(&v)
}

/// The lines of one progress group: its header, then its progress line
/// (dim, indented) or a blank line.
pub open spec fn group_lines(g: (Seq<char>, Seq<char>, Option<Seq<char>>)) -> Seq<LineV> {
    seq![
        seq![(g.1, plain_style())],
        match g.2 {
            Some(p) => seq![("      "@ + p, dim_style())],
            None => seq![(seq![], plain_style())],
        },
    ]
}

pub open spec fn groups_lines(gs: Seq<(Seq<char>, Seq<char>, Option<Seq<char>>)>) -> Seq<LineV>
    decreases gs.len(),
{
    if gs.len() == 0 {
        seq![]
    } else {
        groups_lines(gs.drop_last()) + group_lines(gs.last())
    }
}

/// The live area under the log: each agent's group, then the pending
/// question, if any.
pub open spec fn live_area(gs: Seq<(Seq<char>, Seq<char>, Option<Seq<char>>)>, confirm: Option<Seq<char>>) -> Seq<LineV> {
    groups_lines(gs) + match confirm {
        Some(m) => seq![seq![(seq![], plain_style())], seq![("  ▶  "@ + m + " [Y/n] "@, bold_intent_style(Intent::Changed))]],
        None => seq![],
    }
}

pub fn live_lines(state: &AppState) -> (r: Vec<StyledLine>)
    ensures
        lines_view(r@) == live_area(
            groups_view(state.progress_groups@),
            match state.confirm_prompt {
                Some(c) => Some(c.message@),
                None => None,
            },
        ),
{
    let ghost gv = groups_view(state.progress_groups@);
    let mut out: Vec<StyledLine> = Vec::new();
    let mut i: usize = 0;
    while i < state.progress_groups.len()
        invariant
            i <= state.progress_groups.len(),
            gv == groups_view(state.progress_groups@),
            lines_view(out@) == groups_lines(gv.take(i as int)),
        decreases state.progress_groups.len() - i,
    {
        let g = &state.progress_groups[i];
        let ghost before = lines_view(out@);
        out.push(StyledLine::plain(crate::text::clone_string(&g.1.header)));
        match &g.1.progress {
            Some(p) => {
                let mut v: Vec<char> = Vec::new();
                extend_str(&mut v, "      ");
                extend_str(&mut v, p.as_str());
                let mut spans: Vec<Span> = Vec::new();
                spans.push(Span::dim(string_of(&v)));
                let l = StyledLine(spans);
                assert(l@ =~= seq![("      "@ + p@, dim_style())]);
                out.push(l);
            },
            None => {
                out.push(StyledLine::plain(String::new()));
            },
        }
        proof {
            assert(gv.take(i + 1).drop_last() =~= gv.take(i as int));
            assert(gv.take(i + 1).last() == gv[i as int]);
            assert(lines_view(out@) =~= before + group_lines(gv[i as int]));
        }
        i += 1;
    }
    assert(gv.take(i as int) =~= gv);
    match &state.confirm_prompt {
        Some(c) => {
            let ghost before = lines_view(out@);
            out.push(StyledLine::plain(String::new()));
            let mut v: Vec<char> = Vec::new();
            extend_str(&mut v, "  ▶  ");
            extend_str(&mut v, c.message.as_str());
            extend_str(&mut v, " [Y/n] ");
            let mut spans: Vec<Span> = Vec::new();
            spans.push(Span::styled(string_of(&v), Style::bold_intent(Intent::Changed)));
            let l = StyledLine(spans);
            assert(l@ =~= seq![("  ▶  "@ + c.message@ + " [Y/n] "@, bold_intent_style(Intent::Changed))]);
            out.push(l);
            assert(lines_view(out@) =~= before + seq![
                seq![(seq![], plain_style())],
                seq![("  ▶  "@ + c.message@ + " [Y/n] "@, bold_intent_style(Intent::Changed))],
            ]);
        },
        None => {
            assert(lines_view(out@) =~= groups_lines(gv) + Seq::<LineV>::empty());
        },
    }
    out
}

} // verus!
