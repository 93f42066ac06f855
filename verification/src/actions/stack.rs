//! Stacks: the ones Portainer manages and the compose projects it does not,
//! their listing, their details, and the requests that change them.
use vstd::prelude::*;
use crate::json::{Json, str_in, u64_in, array_in, is_null_in, member_keys, lemma_at_members, distinct, push_member, take_member, text_value};
use crate::render::{views, or_else, row, text_or, u64_or_zero, labelled, labelled_number, push_line, block, push_block};
use crate::text::{copy_str, str_eq, repeat, rule, dec, append_decimal};
use crate::actions::endpoint::{EndpointRef, ref_views, name_for_id, endpoint_name_for, items_or_empty, text_or_unknown, num_or_zero};

verus! {

/// The compose project a container belongs to: its
/// `com.docker.compose.project` label.
pub open spec fn project_of(c: Json) -> Option<Seq<char>> {
    c.at("Labels"@).at("com.docker.compose.project"@).str_of()
}

/// Whether a container's `State` is `running`.
pub open spec fn is_running(c: Json) -> bool {
    c.at("State"@).str_of() == Some("running"@)
}

/// Whether Portainer manages a stack named `p`.
pub open spec fn is_managed(stacks: Seq<Json>, p: Seq<char>) -> bool {
    exists|k: int| 0 <= k < stacks.len() && #[trigger] stacks[k].at("Name"@).str_of() == Some(p)
}

/// Whether some container of project `p` is running.
pub open spec fn project_running(cs: Seq<Json>, p: Seq<char>) -> bool {
    exists|k: int| 0 <= k < cs.len() && project_of(#[trigger] cs[k]) == Some(p) && is_running(cs[k])
}

/// The compose projects of a list of containers that Portainer does not
/// manage, each once, in the order in which their first container comes.
pub open spec fn new_projects(cs: Seq<Json>, stacks: Seq<Json>) -> Seq<Seq<char>>
    decreases cs.len(),
{
    if cs.len() == 0 {
        Seq::empty()
    } else {
        let prev = new_projects(cs.drop_last(), stacks);
        match project_of(cs.last()) {
            Some(p) => if is_managed(stacks, p) || prev.contains(p) {
                prev
            } else {
                prev.push(p)
            },
            None => prev,
        }
    }
}

/// The stacks that `stack ls` reports as external for one endpoint: each
/// project with whether it runs and the endpoint's name.
pub open spec fn external_of(cs: Seq<Json>, stacks: Seq<Json>, ep: Seq<char>) -> Seq<(Seq<char>, bool, Seq<char>)> {
    new_projects(cs, stacks).map_values(|p: Seq<char>| (p, project_running(cs, p), ep))
}

/// A compose project found on an endpoint that Portainer does not manage.
pub struct ExternalStack {
    pub name: String,
    pub active: bool,
    pub endpoint: String,
}

impl View for ExternalStack {
    type V = (Seq<char>, bool, Seq<char>);

    open spec fn view(&self) -> (Seq<char>, bool, Seq<char>) {
        (self.name@, self.active, self.endpoint@)
    }
}

/// The views of a list of external stacks.
pub open spec fn external_views(v: Seq<ExternalStack>) -> Seq<(Seq<char>, bool, Seq<char>)> {
    v.map_values(|e: ExternalStack| e@)
}

/// The project label of a container, if it has one.
fn project_label<'a>(c: &'a Json) -> (r: Option<&'a String>)
    ensures
        r is Some == project_of(*c) is Some,
        r is Some ==> r->0@ == project_of(*c)->0,
{
    let labels = c.get("Labels");
    let v = crate::json::get_in(labels, "com.docker.compose.project");
    str_in(v)
}

/// Whether Portainer manages a stack named `p`.
pub fn managed_contains(stacks: &Vec<Json>, p: &str) -> (r: bool)
    ensures
        r == is_managed(stacks@, p@),
{
    let mut i: usize = 0;
    while i < stacks.len()
        invariant
            i <= stacks@.len(),
            forall|k: int| 0 <= k < i ==> #[trigger] stacks@[k].at("Name"@).str_of() != Some(p@),
        decreases stacks.len() - i,
    {
        match str_in(stacks[i].get("Name")) {
            Some(n) => {
                if str_eq(n.as_str(), p) {
                    assert(stacks@[i as int].at("Name"@).str_of() == Some(p@));
                    return true;
                }
            },
            None => {},
        }
        i = i + 1;
    }
    false
}

/// Whether some container of project `p` is running.
fn running_in(cs: &Vec<Json>, p: &str) -> (r: bool)
    ensures
        r == project_running(cs@, p@),
{
    let mut i: usize = 0;
    while i < cs.len()
        invariant
            i <= cs@.len(),
            forall|k: int| 0 <= k < i ==> !(project_of(#[trigger] cs@[k]) == Some(p@) && is_running(cs@[k])),
        decreases cs.len() - i,
    {
        let c = &cs[i];
        let same = match project_label(c) {
            Some(q) => str_eq(q.as_str(), p),
            None => false,
        };
        let running = match str_in(c.get("State")) {
            Some(s) => str_eq(s.as_str(), "running"),
            None => false,
        };
        proof {
            reveal_strlit("running");
        }
        if same && running {
            assert(project_of(cs@[i as int]) == Some(p@) && is_running(cs@[i as int]));
            return true;
        }
        i = i + 1;
    }
    false
}

/// Whether a list of names holds `p`.
fn names_contain(names: &Vec<String>, p: &str) -> (r: bool)
    ensures
        r == views(names@).contains(p@),
{
    let mut i: usize = 0;
    while i < names.len()
        invariant
            i <= names@.len(),
            forall|k: int| 0 <= k < i ==> views(names@)[k] != p@,
        decreases names.len() - i,
    {
        if str_eq(names[i].as_str(), p) {
            assert(views(names@)[i as int] == p@);
            return true;
        }
        i = i + 1;
    }
    false
}

/// The projects that `new_projects` lists are distinct, none is managed by
/// Portainer, each is the project of some container, and every unmanaged
/// project of a container is listed.
pub proof fn lemma_new_projects(cs: Seq<Json>, stacks: Seq<Json>)
    ensures
        distinct(new_projects(cs, stacks)),
        forall|i: int| 0 <= i < new_projects(cs, stacks).len() ==> !is_managed(stacks, #[trigger] new_projects(cs, stacks)[i]),
        forall|i: int| 0 <= i < new_projects(cs, stacks).len() ==>
            exists|k: int| 0 <= k < cs.len() && project_of(#[trigger] cs[k]) == Some(#[trigger] new_projects(cs, stacks)[i]),
        forall|k: int| 0 <= k < cs.len() && project_of(#[trigger] cs[k]) is Some && !is_managed(stacks, project_of(cs[k])->0)
            ==> new_projects(cs, stacks).contains(project_of(cs[k])->0),
    decreases cs.len(),
{
    if cs.len() > 0 {
        let prev_cs = cs.drop_last();
        lemma_new_projects(prev_cs, stacks);
        let prev = new_projects(prev_cs, stacks);
        let cur = new_projects(cs, stacks);
        assert forall|i: int| 0 <= i < cur.len() implies
            exists|k: int| 0 <= k < cs.len() && project_of(#[trigger] cs[k]) == Some(#[trigger] cur[i]) by {
            if i < prev.len() {
                let k = choose|k: int| 0 <= k < prev_cs.len() && project_of(#[trigger] prev_cs[k]) == Some(prev[i]);
                assert(cs[k] == prev_cs[k]);
            } else {
                assert(cs[cs.len() - 1] == cs.last());
            }
        }
        assert forall|k: int| 0 <= k < cs.len() && project_of(#[trigger] cs[k]) is Some && !is_managed(stacks, project_of(cs[k])->0)
            implies cur.contains(project_of(cs[k])->0) by {
            let p = project_of(cs[k])->0;
            if k < cs.len() - 1 {
                assert(prev_cs[k] == cs[k]);
                assert(prev.contains(p));
                let j = choose|j: int| 0 <= j < prev.len() && prev[j] == p;
                assert(cur[j] == p);
            } else {
                assert(cs[k] == cs.last());
                if !prev.contains(p) {
                    assert(cur[cur.len() - 1] == p);
                } else {
                    let j = choose|j: int| 0 <= j < prev.len() && prev[j] == p;
                    assert(cur[j] == p);
                }
            }
        }
    }
}

/// An external stack is reported active exactly when some container of the
/// endpoint, wherever it stands in the list, carries the stack's name as its
/// compose project label and has the state `running`.
pub proof fn lemma_external_active(cs: Seq<Json>, stacks: Seq<Json>, ep: Seq<char>)
    ensures
        forall|i: int| 0 <= i < external_of(cs, stacks, ep).len() ==>
            ((#[trigger] external_of(cs, stacks, ep)[i]).1 <==> exists|k: int| 0 <= k < cs.len()
                && (#[trigger] cs[k]).at("Labels"@).at("com.docker.compose.project"@).str_of() == Some(external_of(cs, stacks, ep)[i].0)
                && cs[k].at("State"@).str_of() == Some("running"@)),
{
    let e = external_of(cs, stacks, ep);
    assert forall|i: int| 0 <= i < e.len() implies
        ((#[trigger] e[i]).1 <==> exists|k: int| 0 <= k < cs.len()
            && (#[trigger] cs[k]).at("Labels"@).at("com.docker.compose.project"@).str_of() == Some(e[i].0)
            && cs[k].at("State"@).str_of() == Some("running"@)) by {
        let p = new_projects(cs, stacks)[i];
        assert(e[i] == (p, project_running(cs, p), ep));
        if e[i].1 {
            let k = choose|k: int| 0 <= k < cs.len() && project_of(#[trigger] cs[k]) == Some(p) && is_running(cs[k]);
            assert(cs[k].at("Labels"@).at("com.docker.compose.project"@).str_of() == Some(e[i].0));
        }
        if exists|k: int| 0 <= k < cs.len()
            && (#[trigger] cs[k]).at("Labels"@).at("com.docker.compose.project"@).str_of() == Some(e[i].0)
            && cs[k].at("State"@).str_of() == Some("running"@) {
            let k = choose|k: int| 0 <= k < cs.len()
                && (#[trigger] cs[k]).at("Labels"@).at("com.docker.compose.project"@).str_of() == Some(e[i].0)
                && cs[k].at("State"@).str_of() == Some("running"@);
            assert(project_of(cs[k]) == Some(p) && is_running(cs[k]));
        }
    }
}

/// A running container whose compose project Portainer does not manage puts
/// that project in the list as an active external stack, whatever the other
/// containers of the project are doing.
pub proof fn lemma_running_container_active(cs: Seq<Json>, stacks: Seq<Json>, ep: Seq<char>, k: int)
    requires
        0 <= k < cs.len(),
        cs[k].at("Labels"@).at("com.docker.compose.project"@).str_of() is Some,
        cs[k].at("State"@).str_of() == Some("running"@),
        !is_managed(stacks, cs[k].at("Labels"@).at("com.docker.compose.project"@).str_of()->0),
    ensures
        external_of(cs, stacks, ep).contains((cs[k].at("Labels"@).at("com.docker.compose.project"@).str_of()->0, true, ep)),
{
    let p = cs[k].at("Labels"@).at("com.docker.compose.project"@).str_of()->0;
    lemma_new_projects(cs, stacks);
    assert(project_of(cs[k]) == Some(p));
    let names = new_projects(cs, stacks);
    assert(names.contains(p));
    let j = choose|j: int| 0 <= j < names.len() && names[j] == p;
    assert(project_running(cs, p));
    assert(external_of(cs, stacks, ep)[j] == (p, true, ep));
}

/// The stacks that `stack ls` reports as external on the endpoint named
/// `ep`, given the containers there (the answer to `GET .../containers/json`;
/// an answer that is no list counts as empty) and the stacks Portainer
/// manages (the answer to `GET stacks`, likewise).  Each unmanaged project
/// comes once, in the order of its first container, and is active when any
/// of its containers runs.
pub fn external_stacks(containers: &Json, stacks: &Json, ep: &str) -> (r: Vec<ExternalStack>)
    ensures
        external_views(r@) == external_of(items_or_empty(*containers), items_or_empty(*stacks), ep@),
        distinct(new_projects(items_or_empty(*containers), items_or_empty(*stacks))),
        forall|i: int| 0 <= i < r@.len() ==> !is_managed(items_or_empty(*stacks), #[trigger] r@[i].name@),
        forall|i: int| 0 <= i < r@.len() ==> (#[trigger] r@[i]).active == project_running(items_or_empty(*containers), r@[i].name@),
{
    let empty_cs: Vec<Json> = Vec::new();
    let empty_st: Vec<Json> = Vec::new();
    let cs = match containers {
        Json::Array(items) => items,
        _ => &empty_cs,
    };
    let st = match stacks {
        Json::Array(items) => items,
        _ => &empty_st,
    };
    let mut seen: Vec<String> = Vec::new();
    let mut i: usize = 0;
    while i < cs.len()
        invariant
            i <= cs@.len(),
            cs@ == items_or_empty(*containers),
            st@ == items_or_empty(*stacks),
            views(seen@) == new_projects(cs@.take(i as int), st@),
        decreases cs.len() - i,
    {
        proof {
            assert(cs@.take(i + 1).drop_last() =~= cs@.take(i as int));
            assert(cs@.take(i + 1).last() == cs@[i as int]);
        }
        match project_label(&cs[i]) {
            Some(p) => {
                if !managed_contains(st, p.as_str()) && !names_contain(&seen, p.as_str()) {
                    let ghost before = views(seen@);
                    seen.push(copy_str(p.as_str()));
                    proof {
                        assert(views(seen@) =~= before.push(p@));
                    }
                }
            },
            None => {},
        }
        i = i + 1;
    }
    proof {
        assert(cs@.take(cs@.len() as int) =~= cs@);
        lemma_new_projects(cs@, st@);
    }
    let ghost names = views(seen@);
    let mut out: Vec<ExternalStack> = Vec::new();
    let mut j: usize = 0;
    while j < seen.len()
        invariant
            j <= seen@.len(),
            names == views(seen@),
            names == new_projects(cs@, st@),
            cs@ == items_or_empty(*containers),
            external_views(out@) == names.take(j as int).map_values(|p: Seq<char>| (p, project_running(cs@, p), ep@)),
        decreases seen.len() - j,
    {
        let active = running_in(cs, seen[j].as_str());
        let ghost before = external_views(out@);
        out.push(ExternalStack { name: copy_str(seen[j].as_str()), active, endpoint: copy_str(ep) });
        proof {
            assert(names[j as int] == seen@[j as int]@);
            assert(external_views(out@) =~= before.push((names[j as int], project_running(cs@, names[j as int]), ep@)));
            assert(names.take(j + 1).map_values(|p: Seq<char>| (p, project_running(cs@, p), ep@))
                =~= names.take(j as int).map_values(|p: Seq<char>| (p, project_running(cs@, p), ep@)).push(
                (names[j as int], project_running(cs@, names[j as int]), ep@)));
        }
        j = j + 1;
    }
    proof {
        assert(names.take(names.len() as int) =~= names);
        assert forall|i: int| 0 <= i < out@.len() implies !is_managed(st@, #[trigger] out@[i].name@)
            && out@[i].active == project_running(cs@, out@[i].name@) by {
            assert(external_views(out@)[i] == out@[i]@);
        }
    }
    out
}

/// The name of a stack status.
pub open spec fn status_text(s: u64) -> Seq<char> {
    if s == 1 {
        "active"@
    } else if s == 2 {
        "inactive"@
    } else {
        "unknown"@
    }
}

/// Names a stack status.
pub fn status_text_exec(s: u64) -> (r: &'static str)
    ensures
        r@ == status_text(s),
{
    if s == 1 {
        "active"
    } else if s == 2 {
        "inactive"
    } else {
        "unknown"
    }
}

/// The name of a stack type.
pub open spec fn stack_kind(t: u64) -> Seq<char> {
    if t == 1 {
        "Swarm"@
    } else if t == 2 {
        "Compose"@
    } else if t == 3 {
        "Kubernetes"@
    } else {
        "Unknown"@
    }
}

/// Names a stack type.
pub fn stack_kind_exec(t: u64) -> (r: &'static str)
    ensures
        r@ == stack_kind(t),
{
    if t == 1 {
        "Swarm"
    } else if t == 2 {
        "Compose"
    } else if t == 3 {
        "Kubernetes"
    } else {
        "Unknown"
    }
}

/// Whether `stack ls` shows a managed stack, given the endpoint it is
/// restricted to, if any.
pub open spec fn in_filter(s: Json, filter: Option<u32>) -> bool {
    match filter {
        Some(eid) => num_or_zero(s.at("EndpointId"@)) == eid as u64,
        None => true,
    }
}

/// The managed stacks that `stack ls` shows, in order.
pub open spec fn shown_stacks(stacks: Seq<Json>, filter: Option<u32>) -> Seq<Json>
    decreases stacks.len(),
{
    if stacks.len() == 0 {
        Seq::empty()
    } else {
        let prev = shown_stacks(stacks.drop_last(), filter);
        if in_filter(stacks.last(), filter) {
            prev.push(stacks.last())
        } else {
            prev
        }
    }
}

/// The column widths of `stack ls`.
pub open spec fn stack_widths() -> Seq<nat> {
    seq![35nat, 12nat, 12nat]
}

/// The row of a managed stack, with the name of its endpoint looked up among
/// `eps`.
pub open spec fn stack_row(s: Json, eps: Seq<(u32, Seq<char>)>) -> Seq<char> {
    row(
        seq![
            text_or_unknown(s.at("Name"@)),
            status_text(num_or_zero(s.at("Status"@))),
            stack_kind(num_or_zero(s.at("Type"@))),
            name_for_id(eps, num_or_zero(s.at("EndpointId"@))),
        ],
        stack_widths(),
    )
}

/// The row of an external stack.
pub open spec fn external_row(e: (Seq<char>, bool, Seq<char>)) -> Seq<char> {
    row(seq![e.0, if e.1 { "active"@ } else { "inactive"@ }, "External"@, e.2], stack_widths())
}

/// What `stack ls` prints: the managed stacks (restricted to one endpoint
/// when `filter` names it), then the external ones.
pub open spec fn stack_list(
    stacks: Seq<Json>,
    filter: Option<u32>,
    eps: Seq<(u32, Seq<char>)>,
    ext: Seq<(Seq<char>, bool, Seq<char>)>,
) -> Seq<Seq<char>> {
    let shown = shown_stacks(stacks, filter);
    if shown.len() == 0 && ext.len() == 0 {
        seq!["No stacks found."@]
    } else {
        seq![row(seq!["NAME"@, "STATUS"@, "TYPE"@, "ENDPOINT"@], stack_widths()), repeat('-', 76)]
            + shown.map_values(|s: Json| stack_row(s, eps))
            + ext.map_values(|e: (Seq<char>, bool, Seq<char>)| external_row(e))
    }
}

/// Four cells as a row of `stack ls`.
fn row4(a: String, b: String, c: String, d: String) -> (r: String)
    ensures
        r@ == row(seq![a@, b@, c@, d@], stack_widths()),
{
    let mut cells = Vec::new();
    cells.push(a);
    cells.push(b);
    cells.push(c);
    cells.push(d);
    let mut widths = Vec::new();
    widths.push(35);
    widths.push(12);
    widths.push(12);
    proof {
        assert(views(cells@) =~= seq![a@, b@, c@, d@]);
        assert(widths@.map_values(|w: usize| w as nat) =~= stack_widths());
    }
    crate::render::row_exec(&cells, &widths)
}

/// Formats `stack ls` from the answer to `GET stacks` (an answer that is no
/// list counts as empty), the endpoint it is restricted to, the endpoints
/// whose names it shows, and the external stacks found.
pub fn stack_list_lines(
    stacks: &Json,
    filter: Option<u32>,
    eps: &Vec<EndpointRef>,
    ext: &Vec<ExternalStack>,
) -> (r: Vec<String>)
    ensures
        views(r@) == stack_list(items_or_empty(*stacks), filter, ref_views(eps@), external_views(ext@)),
{
    let empty: Vec<Json> = Vec::new();
    let st = match stacks {
        Json::Array(items) => items,
        _ => &empty,
    };
    let ghost all = st@;
    let ghost epv = ref_views(eps@);
    let mut rows: Vec<String> = Vec::new();
    let mut i: usize = 0;
    while i < st.len()
        invariant
            i <= st@.len(),
            all == st@,
            all == items_or_empty(*stacks),
            epv == ref_views(eps@),
            views(rows@) == shown_stacks(all.take(i as int), filter).map_values(|s: Json| stack_row(s, epv)),
        decreases st.len() - i,
    {
        let s = &st[i];
        proof {
            assert(all.take(i + 1).drop_last() =~= all.take(i as int));
            assert(all.take(i + 1).last() == all[i as int]);
        }
        let eid = u64_or_zero(s.get("EndpointId"));
        let show = match filter {
            Some(f) => eid == f as u64,
            None => true,
        };
        if show {
            let ghost before = views(rows@);
            let line = row4(
                text_or(s.get("Name"), "(unknown)"),
                copy_str(status_text_exec(u64_or_zero(s.get("Status")))),
                copy_str(stack_kind_exec(u64_or_zero(s.get("Type")))),
                endpoint_name_for(eps, eid),
            );
            push_line(&mut rows, line);
            proof {
                let prev = shown_stacks(all.take(i as int), filter);
                assert(shown_stacks(all.take(i + 1), filter) == prev.push(all[i as int]));
                assert(prev.push(all[i as int]).map_values(|s: Json| stack_row(s, epv))
                    =~= prev.map_values(|s: Json| stack_row(s, epv)).push(stack_row(all[i as int], epv)));
            }
        }
        i = i + 1;
    }
    proof {
        assert(all.take(all.len() as int) =~= all);
    }
    let ghost shown_rows = views(rows@);
    let ghost extv = external_views(ext@);
    let mut ext_rows: Vec<String> = Vec::new();
    let mut j: usize = 0;
    while j < ext.len()
        invariant
            j <= ext@.len(),
            extv == external_views(ext@),
            views(ext_rows@) == extv.take(j as int).map_values(|e: (Seq<char>, bool, Seq<char>)| external_row(e)),
        decreases ext.len() - j,
    {
        let e = &ext[j];
        let ghost before = views(ext_rows@);
        let status = if e.active { "active" } else { "inactive" };
        let line = row4(copy_str(e.name.as_str()), copy_str(status), copy_str("External"), copy_str(e.endpoint.as_str()));
        push_line(&mut ext_rows, line);
        proof {
            assert(extv[j as int] == e@);
            assert(extv.take(j + 1).map_values(|e: (Seq<char>, bool, Seq<char>)| external_row(e))
                =~= extv.take(j as int).map_values(|e: (Seq<char>, bool, Seq<char>)| external_row(e)).push(external_row(extv[j as int])));
        }
        j = j + 1;
    }
    proof {
        assert(extv.take(extv.len() as int) =~= extv);
    }
    let mut lines: Vec<String> = Vec::new();
    if rows.len() == 0 && ext.len() == 0 {
        push_line(&mut lines, copy_str("No stacks found."));
        proof {
            assert(views(lines@) =~= seq!["No stacks found."@]);
        }
        return lines;
    }
    push_line(&mut lines, row4(copy_str("NAME"), copy_str("STATUS"), copy_str("TYPE"), copy_str("ENDPOINT")));
    push_line(&mut lines, rule(76));
    let ghost head = views(lines@);
    let mut k: usize = 0;
    while k < rows.len()
        invariant
            k <= rows@.len(),
            views(lines@) == head + views(rows@).take(k as int),
        decreases rows.len() - k,
    {
        let ghost before = views(lines@);
        push_line(&mut lines, copy_str(rows[k].as_str()));
        proof {
            assert(views(rows@).take(k + 1) =~= views(rows@).take(k as int).push(views(rows@)[k as int]));
        }
        k = k + 1;
    }
    let mut m: usize = 0;
    while m < ext_rows.len()
        invariant
            m <= ext_rows@.len(),
            views(lines@) == head + views(rows@) + views(ext_rows@).take(m as int),
        decreases ext_rows.len() - m,
    {
        push_line(&mut lines, copy_str(ext_rows[m].as_str()));
        proof {
            assert(views(ext_rows@).take(m + 1) =~= views(ext_rows@).take(m as int).push(views(ext_rows@)[m as int]));
        }
        m = m + 1;
    }
    proof {
        assert(views(rows@).take(rows@.len() as int) =~= views(rows@));
        assert(views(ext_rows@).take(ext_rows@.len() as int) =~= views(ext_rows@));
        assert(views(lines@) =~= stack_list(all, filter, epv, extv));
    }
    lines
}

/// The `name=value` entries of a stack's environment, leaving out entries
/// without a text name and value.
pub open spec fn env_entries(envs: Seq<Json>) -> Seq<Seq<char>>
    decreases envs.len(),
{
    if envs.len() == 0 {
        Seq::empty()
    } else {
        let prev = env_entries(envs.drop_last());
        let e = envs.last();
        match (e.at("name"@).str_of(), e.at("value"@).str_of()) {
            (Some(k), Some(v)) => prev.push(k + "="@ + v),
            _ => prev,
        }
    }
}

/// What `stack inspect` prints for stack `id` and the answer to
/// `GET stacks/{id}`.
pub open spec fn stack_details(id: u32, s: Json) -> Seq<Seq<char>> {
    seq![
        "ID:          "@ + dec(id as nat),
        "Name:        "@ + text_or_unknown(s.at("Name"@)),
        "Status:      "@ + status_text(num_or_zero(s.at("Status"@))),
        "Type:        "@ + stack_kind(num_or_zero(s.at("Type"@))),
        "Endpoint ID: "@ + dec(num_or_zero(s.at("EndpointId"@)) as nat),
        "Created by:  "@ + text_or_unknown(s.at("CreatedBy"@)),
        "Updated by:  "@ + text_or_unknown(s.at("UpdatedBy"@)),
    ] + match s.at("Env"@).array_of() {
        Some(envs) => block("Env:"@, env_entries(envs)),
        None => Seq::empty(),
    }
}

/// Collects the `name=value` entries of a stack's environment.
fn env_entries_exec(envs: &Vec<Json>) -> (r: Vec<String>)
    ensures
        views(r@) == env_entries(envs@),
{
    let mut out: Vec<String> = Vec::new();
    let mut i: usize = 0;
    while i < envs.len()
        invariant
            i <= envs@.len(),
            views(out@) == env_entries(envs@.take(i as int)),
        decreases envs.len() - i,
    {
        proof {
            assert(envs@.take(i + 1).drop_last() =~= envs@.take(i as int));
            assert(envs@.take(i + 1).last() == envs@[i as int]);
        }
        let e = &envs[i];
        match (str_in(e.get("name")), str_in(e.get("value"))) {
            (Some(k), Some(v)) => {
                let mut t = copy_str(k.as_str());
                t.append("=");
                t.append(v.as_str());
                push_line(&mut out, t);
            },
            _ => {},
        }
        i = i + 1;
    }
    proof {
        assert(envs@.take(envs@.len() as int) =~= envs@);
    }
    out
}

/// Formats `stack inspect`.
pub fn stack_details_lines(id: u32, s: &Json) -> (r: Vec<String>)
    ensures
        views(r@) == stack_details(id, *s),
{
    let mut lines: Vec<String> = Vec::new();
    push_line(&mut lines, labelled_number("ID:          ", id as u64));
    push_line(&mut lines, labelled("Name:        ", text_or(s.get("Name"), "(unknown)").as_str()));
    push_line(&mut lines, labelled("Status:      ", status_text_exec(u64_or_zero(s.get("Status")))));
    push_line(&mut lines, labelled("Type:        ", stack_kind_exec(u64_or_zero(s.get("Type")))));
    push_line(&mut lines, labelled_number("Endpoint ID: ", u64_or_zero(s.get("EndpointId"))));
    push_line(&mut lines, labelled("Created by:  ", text_or(s.get("CreatedBy"), "(unknown)").as_str()));
    push_line(&mut lines, labelled("Updated by:  ", text_or(s.get("UpdatedBy"), "(unknown)").as_str()));
    match array_in(s.get("Env")) {
        Some(envs) => {
            let entries = env_entries_exec(envs);
            push_block(&mut lines, "Env:", &entries);
        },
        None => {},
    }
    proof {
        assert(views(lines@) =~= stack_details(id, *s));
    }
    lines
}

/// Why a request on a stack cannot be made.
#[derive(PartialEq, Eq, Structural, Clone, Copy, Debug)]
pub enum StackError {
    /// `stack update` on a stack not deployed from git.
    NotFromGit,
    /// `stack edit` on a stack deployed from git.
    FromGit,
    /// The stack names no endpoint.
    NoEndpoint,
}

/// Whether a stack is deployed from a git repository (its `GitConfig` is
/// not null).
pub open spec fn from_git(s: Json) -> bool {
    !(s.at("GitConfig"@) is Null)
}

/// `prefix`, the decimal `id`, `middle`, the endpoint of stack `s`.
pub open spec fn stack_path(prefix: Seq<char>, id: u32, middle: Seq<char>, s: Json) -> Result<Seq<char>, StackError> {
    match s.at("EndpointId"@).u64_of() {
        Some(e) => Ok(prefix + dec(id as nat) + middle + dec(e as nat)),
        None => Err(StackError::NoEndpoint),
    }
}

/// The path that `stack update` sends its redeploy request to.
pub open spec fn redeploy_path(s: Json, id: u32) -> Result<Seq<char>, StackError> {
    if !from_git(s) {
        Err(StackError::NotFromGit)
    } else {
        stack_path("stacks/"@, id, "/git/redeploy?endpointId="@, s)
    }
}

/// The path that `stack edit` sends the edited compose file to.
pub open spec fn edit_path(s: Json, id: u32) -> Result<Seq<char>, StackError> {
    if from_git(s) {
        Err(StackError::FromGit)
    } else {
        stack_path("stacks/"@, id, "?endpointId="@, s)
    }
}

/// The path that `stack rm` deletes.
pub open spec fn removal_path(s: Json, id: u32) -> Result<Seq<char>, StackError> {
    stack_path("stacks/"@, id, "?endpointId="@, s)
}

fn stack_path_exec(prefix: &str, id: u32, middle: &str, s: &Json) -> (r: Result<String, StackError>)
    ensures
        match stack_path(prefix@, id, middle@, *s) {
            Ok(p) => r matches Ok(t) && t@ == p,
            Err(e) => r == Err::<String, StackError>(e),
        },
{
    match u64_in(s.get("EndpointId")) {
        Some(e) => {
            let mut t = labelled_number(prefix, id as u64);
            t.append(middle);
            append_decimal(&mut t, e);
            Ok(t)
        },
        None => Err(StackError::NoEndpoint),
    }
}

/// The path of `stack update`'s redeploy request, from stack `id` and the
/// answer to `GET stacks/{id}`.
pub fn redeploy_request(s: &Json, id: u32) -> (r: Result<String, StackError>)
    ensures
        match redeploy_path(*s, id) {
            Ok(p) => r matches Ok(t) && t@ == p,
            Err(e) => r == Err::<String, StackError>(e),
        },
{
    if is_null_in(s.get("GitConfig")) {
        return Err(StackError::NotFromGit);
    }
    stack_path_exec("stacks/", id, "/git/redeploy?endpointId=", s)
}

/// The body of `stack update`'s redeploy request: `{"pullImage": true}`.
pub fn redeploy_body() -> (r: Json)
    ensures
        member_keys(r) == seq!["pullImage"@],
        r.at("pullImage"@) == Json::Bool(true),
{
    let mut members: Vec<(String, Json)> = Vec::new();
    push_member(&mut members, "pullImage", Json::Bool(true));
    let r = Json::Object(members);
    proof {
        assert(member_keys(r) =~= seq!["pullImage"@]);
        lemma_at_members(r);
    }
    r
}

/// The path that `stack edit` sends the edited file to.
pub fn edit_request(s: &Json, id: u32) -> (r: Result<String, StackError>)
    ensures
        match edit_path(*s, id) {
            Ok(p) => r matches Ok(t) && t@ == p,
            Err(e) => r == Err::<String, StackError>(e),
        },
{
    if !is_null_in(s.get("GitConfig")) {
        return Err(StackError::FromGit);
    }
    stack_path_exec("stacks/", id, "?endpointId=", s)
}

/// The path that `stack rm` deletes.
pub fn removal_request(s: &Json, id: u32) -> (r: Result<String, StackError>)
    ensures
        match removal_path(*s, id) {
            Ok(p) => r matches Ok(t) && t@ == p,
            Err(e) => r == Err::<String, StackError>(e),
        },
{
    stack_path_exec("stacks/", id, "?endpointId=", s)
}

/// The environment that `stack edit` sends back: the stack's `Env` list,
/// moved out of the answer to `GET stacks/{id}` (empty when it is no list).
pub fn stack_env(s: Json) -> (r: Json)
    ensures
        r.array_of() == Some(items_or_empty(s.at("Env"@))),
{
    let env = take_member(s, "Env");
    match env {
        Json::Array(items) => Json::Array(items),
        _ => Json::Array(Vec::new()),
    }
}

/// The compose file of a stack in the answer to `GET stacks/{id}/file`
/// (empty when missing).
pub fn compose_text(data: &Json) -> (r: String)
    ensures
        r@ == or_else(data.at("StackFileContent"@).str_of(), ""@),
{
    text_or(data.get("StackFileContent"), "")
}

/// The body of `stack edit`'s update, or `None` when the file came back
/// from the editor unchanged (then nothing is sent): the new file and the
/// stack's environment.
pub fn edit_body(original: &str, modified: String, env: Json) -> (r: Option<Json>)
    ensures
        r is None <==> original@ == modified@,
        r is Some ==> member_keys(r->0) == seq!["StackFileContent"@, "Env"@],
        r is Some ==> r->0.at("StackFileContent"@).str_of() == Some(modified@),
        r is Some ==> r->0.at("Env"@) == env,
{
    if str_eq(original, modified.as_str()) {
        return None;
    }
    let ghost m = modified@;
    let mut members: Vec<(String, Json)> = Vec::new();
    push_member(&mut members, "StackFileContent", Json::Str(modified));
    push_member(&mut members, "Env", env);
    let r = Json::Object(members);
    proof {
        reveal_strlit("StackFileContent");
        reveal_strlit("Env");
        assert("StackFileContent"@.len() == 16);
        assert("Env"@.len() == 3);
        assert(member_keys(r) =~= seq!["StackFileContent"@, "Env"@]);
        assert(member_keys(r)[0] != member_keys(r)[1]);
        lemma_at_members(r);
    }
    Some(r)
}

/// The path of `stack deploy --file`'s request, for endpoint `eid`.
pub fn file_deploy_path(eid: u32) -> (r: String)
    ensures
        r@ == "stacks?type=2&method=string&endpointId="@ + dec(eid as nat),
{
    labelled_number("stacks?type=2&method=string&endpointId=", eid as u64)
}

/// The body of `stack deploy --file`'s request: the stack's name and its
/// compose file.
pub fn file_deploy_body(name: &str, content: String) -> (r: Json)
    ensures
        member_keys(r) == seq!["Name"@, "StackFileContent"@],
        r.at("Name"@).str_of() == Some(name@),
        r.at("StackFileContent"@).str_of() == Some(content@),
{
    let ghost c = content@;
    let mut members: Vec<(String, Json)> = Vec::new();
    push_member(&mut members, "Name", text_value(name));
    push_member(&mut members, "StackFileContent", Json::Str(content));
    let r = Json::Object(members);
    proof {
        reveal_strlit("Name");
        reveal_strlit("StackFileContent");
        assert("Name"@.len() == 4);
        assert("StackFileContent"@.len() == 16);
        assert(member_keys(r) =~= seq!["Name"@, "StackFileContent"@]);
        assert(member_keys(r)[0] != member_keys(r)[1]);
        lemma_at_members(r);
    }
    r
}

/// The path of `stack deploy --git-url`'s request, for endpoint `eid`.
pub fn git_deploy_path(eid: u32) -> (r: String)
    ensures
        r@ == "stacks?type=2&method=repository&endpointId="@ + dec(eid as nat),
{
    labelled_number("stacks?type=2&method=repository&endpointId=", eid as u64)
}

/// The body of `stack deploy --git-url`'s request: name, repository,
/// reference, compose file, whether credentials come, and the credentials
/// when they do.
pub fn git_deploy_body(
    name: &str,
    git_url: &str,
    git_ref: &str,
    compose_file: &str,
    credentials: Option<(&str, &str)>,
) -> (r: Json)
    ensures
        credentials is None ==> member_keys(r) == seq![
            "Name"@, "RepositoryURL"@, "RepositoryReferenceName"@, "ComposeFile"@, "RepositoryAuthentication"@,
        ],
        credentials is Some ==> member_keys(r) == seq![
            "Name"@, "RepositoryURL"@, "RepositoryReferenceName"@, "ComposeFile"@, "RepositoryAuthentication"@,
            "RepositoryUsername"@, "RepositoryPassword"@,
        ],
        r.at("Name"@).str_of() == Some(name@),
        r.at("RepositoryURL"@).str_of() == Some(git_url@),
        r.at("RepositoryReferenceName"@).str_of() == Some(git_ref@),
        r.at("ComposeFile"@).str_of() == Some(compose_file@),
        r.at("RepositoryAuthentication"@) == Json::Bool(credentials is Some),
        credentials is Some ==> r.at("RepositoryUsername"@).str_of() == Some((credentials->0).0@),
        credentials is Some ==> r.at("RepositoryPassword"@).str_of() == Some((credentials->0).1@),
{
    let mut members: Vec<(String, Json)> = Vec::new();
    push_member(&mut members, "Name", text_value(name));
    push_member(&mut members, "RepositoryURL", text_value(git_url));
    push_member(&mut members, "RepositoryReferenceName", text_value(git_ref));
    push_member(&mut members, "ComposeFile", text_value(compose_file));
    push_member(&mut members, "RepositoryAuthentication", Json::Bool(credentials.is_some()));
    match credentials {
        Some((user, password)) => {
            push_member(&mut members, "RepositoryUsername", text_value(user));
            push_member(&mut members, "RepositoryPassword", text_value(password));
        },
        None => {},
    }
    let r = Json::Object(members);
    proof {
        reveal_strlit("Name");
        reveal_strlit("RepositoryURL");
        reveal_strlit("RepositoryReferenceName");
        reveal_strlit("ComposeFile");
        reveal_strlit("RepositoryAuthentication");
        reveal_strlit("RepositoryUsername");
        reveal_strlit("RepositoryPassword");
        assert("Name"@.len() == 4);
        assert("RepositoryURL"@.len() == 13);
        assert("RepositoryReferenceName"@.len() == 23);
        assert("ComposeFile"@.len() == 11);
        assert("RepositoryAuthentication"@.len() == 24);
        assert("RepositoryUsername"@.len() == 18);
        assert("RepositoryPassword"@.len() == 18);
        assert("RepositoryUsername"@[10] != "RepositoryPassword"@[10]);
        if credentials is Some {
            assert(member_keys(r) =~= seq![
                "Name"@, "RepositoryURL"@, "RepositoryReferenceName"@, "ComposeFile"@, "RepositoryAuthentication"@,
                "RepositoryUsername"@, "RepositoryPassword"@,
            ]);
        lemma_at_members(r);
        } else {
            assert(member_keys(r) =~= seq![
                "Name"@, "RepositoryURL"@, "RepositoryReferenceName"@, "ComposeFile"@, "RepositoryAuthentication"@,
            ]);
        }
        lemma_at_members(r);
    }
    r
}

/// The editor that `stack edit` opens: `$VISUAL`, else `$EDITOR`, else
/// `vi` (each variable as read from the environment, `None` when unset).
pub fn choose_editor(visual: Option<String>, editor: Option<String>) -> (r: String)
    ensures
        r@ == match visual {
            Some(v) => v@,
            None => match editor {
                Some(e) => e@,
                None => "vi"@,
            },
        },
{
    match visual {
        Some(v) => v,
        None => match editor {
            Some(e) => e,
            None => copy_str("vi"),
        },
    }
}

} // verus!
