//! Endpoints: finding one by name, listing them, describing one.
use vstd::prelude::*;
use crate::argparse::first_from;
use crate::json::{Json, u64_in, array_in};
use crate::render::{views, or_else, row, row_exec, text_or, u64_or_zero, labelled, labelled_number, push_line};
use crate::text::{copy_str, str_eq, repeat, rule, dec};

verus! {

/// Why a name could not be resolved.
#[derive(PartialEq, Eq, Structural, Clone, Copy, Debug)]
pub enum LookupError {
    /// The answer is not a list.
    BadFormat,
    /// No item has that name (or the item that has it has no usable ID).
    NotFound,
}

/// The `Name` of an item, `""` when it has none, is `name`.
pub open spec fn name_is(item: Json, name: Seq<char>) -> bool {
    or_else(item.at("Name"@).str_of(), ""@) == name
}

/// The first item named `name`.
pub open spec fn find_named(items: Seq<Json>, name: Seq<char>) -> Option<nat> {
    first_from(items.len(), 0, |i: nat| name_is(items[i as int], name))
}

/// The numeric ID of the first item named `name` in a list, when that ID
/// fits a `u32`.
pub open spec fn id_of_named(data: Json, name: Seq<char>) -> Result<u32, LookupError> {
    match data.array_of() {
        None => Err(LookupError::BadFormat),
        Some(items) => match find_named(items, name) {
            None => Err(LookupError::NotFound),
            Some(i) => match items[i as int].at("Id"@).u64_of() {
                Some(v) => if v <= u32::MAX {
                    Ok(v as u32)
                } else {
                    Err(LookupError::NotFound)
                },
                None => Err(LookupError::NotFound),
            },
        },
    }
}

/// Finds the first item of a list whose `Name` is `name`.
pub fn find_named_exec<'a>(items: &'a Vec<Json>, name: &str) -> (r: Option<usize>)
    ensures
        match r {
            Some(i) => find_named(items@, name@) == Some(i as nat) && i < items@.len(),
            None => find_named(items@, name@) is None,
        },
{
    let mut i: usize = 0;
    while i < items.len()
        invariant
            i <= items@.len(),
            find_named(items@, name@) == first_from(items@.len(), i as nat, |i: nat| name_is(items@[i as int], name@)),
        decreases items.len() - i,
    {
        let n = text_or(items[i].get("Name"), "");
        if str_eq(n.as_str(), name) {
            return Some(i);
        }
        i = i + 1;
    }
    None
}

/// The ID of the endpoint named `name` in the answer to `GET endpoints`.
pub fn endpoint_id(endpoints: &Json, name: &str) -> (r: Result<u32, LookupError>)
    ensures
        r == id_of_named(*endpoints, name@),
{
    id_of_named_exec(endpoints, name)
}

/// The numeric ID of the first item named `name` in a list.
pub fn id_of_named_exec(data: &Json, name: &str) -> (r: Result<u32, LookupError>)
    ensures
        r == id_of_named(*data, name@),
{
    match data {
        Json::Array(items) => {
            match find_named_exec(items, name) {
                None => Err(LookupError::NotFound),
                Some(i) => {
                    match u64_in(items[i].get("Id")) {
                        Some(v) => if v <= 4294967295 {
                            Ok(v as u32)
                        } else {
                            Err(LookupError::NotFound)
                        },
                        None => Err(LookupError::NotFound),
                    }
                },
            }
        },
        _ => Err(LookupError::BadFormat),
    }
}

/// The name of an endpoint type.
pub open spec fn kind_name(t: u64) -> Seq<char> {
    if t == 1 {
        "Docker"@
    } else if t == 2 {
        "Agent"@
    } else if t == 3 {
        "Azure"@
    } else if t == 4 {
        "Edge Agent"@
    } else if t == 5 {
        "Local"@
    } else if t == 6 {
        "Kubernetes"@
    } else {
        "Unknown"@
    }
}

/// Names an endpoint type.
pub fn kind_name_exec(t: u64) -> (r: &'static str)
    ensures
        r@ == kind_name(t),
{
    if t == 1 {
        "Docker"
    } else if t == 2 {
        "Agent"
    } else if t == 3 {
        "Azure"
    } else if t == 4 {
        "Edge Agent"
    } else if t == 5 {
        "Local"
    } else if t == 6 {
        "Kubernetes"
    } else {
        "Unknown"
    }
}

/// The name of an endpoint status.
pub open spec fn status_name(s: u64) -> Seq<char> {
    if s == 1 {
        "up"@
    } else if s == 2 {
        "down"@
    } else {
        "unknown"@
    }
}

/// Names an endpoint status.
pub fn status_name_exec(s: u64) -> (r: &'static str)
    ensures
        r@ == status_name(s),
{
    if s == 1 {
        "up"
    } else if s == 2 {
        "down"
    } else {
        "unknown"
    }
}

/// A number field, `0` when missing.
pub open spec fn num_or_zero(j: Json) -> u64 {
    match j.u64_of() {
        Some(n) => n,
        None => 0,
    }
}

/// A text field, `(unknown)` when missing.
pub open spec fn text_or_unknown(j: Json) -> Seq<char> {
    or_else(j.str_of(), "(unknown)"@)
}

/// The table row of an endpoint.
pub open spec fn endpoint_row(ep: Json) -> Seq<char> {
    row(
        seq![text_or_unknown(ep.at("Name"@)), kind_name(num_or_zero(ep.at("Type"@))), text_or_unknown(ep.at("URL"@))],
        seq![30nat, 15nat],
    )
}

/// What `endpoint ls` prints for the answer to `GET endpoints`.
pub open spec fn endpoint_list(data: Json) -> Result<Seq<Seq<char>>, LookupError> {
    match data.array_of() {
        None => Err(LookupError::BadFormat),
        Some(items) => if items.len() == 0 {
            Ok(seq!["No endpoints found."@])
        } else {
            Ok(
                seq![row(seq!["NAME"@, "TYPE"@, "URL"@], seq![30nat, 15nat]), repeat('-', 64)]
                    + items.map_values(|ep: Json| endpoint_row(ep)),
            )
        },
    }
}

/// Three cells as a row with widths 30 and 15.
fn row3(a: String, b: String, c: String, w1: usize, w2: usize) -> (r: String)
    ensures
        r@ == row(seq![a@, b@, c@], seq![w1 as nat, w2 as nat]),
{
    let mut cells = Vec::new();
    cells.push(a);
    cells.push(b);
    cells.push(c);
    let mut widths = Vec::new();
    widths.push(w1);
    widths.push(w2);
    proof {
        assert(views(cells@) =~= seq![a@, b@, c@]);
        assert(widths@.map_values(|w: usize| w as nat) =~= seq![w1 as nat, w2 as nat]);
    }
    row_exec(&cells, &widths)
}

/// Formats `endpoint ls`.
pub fn endpoint_list_lines(data: &Json) -> (r: Result<Vec<String>, LookupError>)
    ensures
        match endpoint_list(*data) {
            Ok(lines) => r matches Ok(v) && views(v@) == lines,
            Err(e) => r == Err::<Vec<String>, LookupError>(e),
        },
{
    let items = match data {
        Json::Array(items) => items,
        _ => {
            return Err(LookupError::BadFormat);
        },
    };
    let mut lines: Vec<String> = Vec::new();
    if items.len() == 0 {
        push_line(&mut lines, copy_str("No endpoints found."));
        proof {
            assert(views(lines@) =~= seq!["No endpoints found."@]);
        }
        return Ok(lines);
    }
    push_line(&mut lines, row3(copy_str("NAME"), copy_str("TYPE"), copy_str("URL"), 30, 15));
    push_line(&mut lines, rule(64));
    let ghost head = views(lines@);
    let mut i: usize = 0;
    while i < items.len()
        invariant
            i <= items@.len(),
            views(lines@) == head + items@.take(i as int).map_values(|ep: Json| endpoint_row(ep)),
        decreases items.len() - i,
    {
        let ep = &items[i];
        let line = row3(
            text_or(ep.get("Name"), "(unknown)"),
            copy_str(kind_name_exec(u64_or_zero(ep.get("Type")))),
            text_or(ep.get("URL"), "(unknown)"),
            30,
            15,
        );
        push_line(&mut lines, line);
        proof {
            assert(items@.take(i + 1).map_values(|ep: Json| endpoint_row(ep))
                =~= items@.take(i as int).map_values(|ep: Json| endpoint_row(ep)).push(endpoint_row(items@[i as int])));
        }
        i = i + 1;
    }
    proof {
        assert(items@.take(items@.len() as int) =~= items@);
    }
    Ok(lines)
}

/// What `endpoint inspect` prints for endpoint `id` and the answer to
/// `GET endpoints/{id}`.
pub open spec fn endpoint_details(id: u32, ep: Json) -> Seq<Seq<char>> {
    let head = seq![
        "ID:           "@ + dec(id as nat),
        "Name:         "@ + text_or_unknown(ep.at("Name"@)),
        "Type:         "@ + kind_name(num_or_zero(ep.at("Type"@))),
        "URL:          "@ + text_or_unknown(ep.at("URL"@)),
        "Status:       "@ + status_name(num_or_zero(ep.at("Status"@))),
    ];
    match ep.at("Snapshots"@).array_of() {
        Some(snaps) => if snaps.len() > 0 {
            let s = snaps[0];
            head + seq![
                "Docker:       "@ + text_or_unknown(s.at("DockerVersion"@)),
                "Containers:   "@ + dec(num_or_zero(s.at("RunningContainerCount"@)) as nat) + " running / "@
                    + dec(num_or_zero(s.at("StoppedContainerCount"@)) as nat) + " stopped / "@ + dec(
                    num_or_zero(s.at("TotalContainerCount"@)) as nat,
                ) + " total"@,
                "Images:       "@ + dec(num_or_zero(s.at("ImageCount"@)) as nat),
                "Volumes:      "@ + dec(num_or_zero(s.at("VolumeCount"@)) as nat),
                "Stacks:       "@ + dec(num_or_zero(s.at("StackCount"@)) as nat),
            ]
        } else {
            head
        },
        None => head,
    }
}

/// Formats `endpoint inspect`.
pub fn endpoint_details_lines(id: u32, ep: &Json) -> (r: Vec<String>)
    ensures
        views(r@) == endpoint_details(id, *ep),
{
    let mut lines: Vec<String> = Vec::new();
    push_line(&mut lines, labelled_number("ID:           ", id as u64));
    push_line(&mut lines, labelled("Name:         ", text_or(ep.get("Name"), "(unknown)").as_str()));
    push_line(&mut lines, labelled("Type:         ", kind_name_exec(u64_or_zero(ep.get("Type")))));
    push_line(&mut lines, labelled("URL:          ", text_or(ep.get("URL"), "(unknown)").as_str()));
    push_line(&mut lines, labelled("Status:       ", status_name_exec(u64_or_zero(ep.get("Status")))));
    let ghost head = views(lines@);
    match array_in(ep.get("Snapshots")) {
        Some(snaps) => if snaps.len() > 0 {
            let s = &snaps[0];
            push_line(&mut lines, labelled("Docker:       ", text_or(s.get("DockerVersion"), "(unknown)").as_str()));
            let mut c = labelled_number("Containers:   ", u64_or_zero(s.get("RunningContainerCount")));
            c.append(" running / ");
            crate::text::append_decimal(&mut c, u64_or_zero(s.get("StoppedContainerCount")));
            c.append(" stopped / ");
            crate::text::append_decimal(&mut c, u64_or_zero(s.get("TotalContainerCount")));
            c.append(" total");
            push_line(&mut lines, c);
            push_line(&mut lines, labelled_number("Images:       ", u64_or_zero(s.get("ImageCount"))));
            push_line(&mut lines, labelled_number("Volumes:      ", u64_or_zero(s.get("VolumeCount"))));
            push_line(&mut lines, labelled_number("Stacks:       ", u64_or_zero(s.get("StackCount"))));
        },
        None => {},
    }
    proof {
        assert(views(lines@) =~= endpoint_details(id, *ep));
    }
    lines
}

/// One endpoint as the commands that walk all of them see it.
pub struct EndpointRef {
    pub id: u32,
    pub name: String,
}

impl View for EndpointRef {
    type V = (u32, Seq<char>);

    open spec fn view(&self) -> (u32, Seq<char>) {
        (self.id, self.name@)
    }
}

/// The views of a list of endpoint references.
pub open spec fn ref_views(v: Seq<EndpointRef>) -> Seq<(u32, Seq<char>)> {
    v.map_values(|e: EndpointRef| e@)
}

/// The endpoints of a list whose `Id` is a `u64`, each with that ID cut to
/// its low 32 bits (`as u32`) and its `Name` (`(unknown)` when missing): the
/// endpoints that `container ls` and `system prune` walk.
pub open spec fn all_refs(eps: Seq<Json>) -> Seq<(u32, Seq<char>)>
    decreases eps.len(),
{
    if eps.len() == 0 {
        Seq::empty()
    } else {
        let prev = all_refs(eps.drop_last());
        let e = eps.last();
        match e.at("Id"@).u64_of() {
            Some(v) => prev.push((v as u32, text_or_unknown(e.at("Name"@)))),
            None => prev,
        }
    }
}

/// The endpoints of a list whose `Id` is a `u64` that fits a `u32`, each with
/// its `Name` (`""` when missing): the endpoints that `stack ls` scans.
pub open spec fn fitting_refs(eps: Seq<Json>) -> Seq<(u32, Seq<char>)>
    decreases eps.len(),
{
    if eps.len() == 0 {
        Seq::empty()
    } else {
        let prev = fitting_refs(eps.drop_last());
        let e = eps.last();
        match e.at("Id"@).u64_of() {
            Some(v) => if v <= u32::MAX {
                prev.push((v as u32, or_else(e.at("Name"@).str_of(), ""@)))
            } else {
                prev
            },
            None => prev,
        }
    }
}

/// The items of a list answer; an answer that is no list counts as empty.
pub open spec fn items_or_empty(data: Json) -> Seq<Json> {
    match data.array_of() {
        Some(items) => items,
        None => Seq::empty(),
    }
}

/// The endpoints of the answer to `GET endpoints` that `container ls` and
/// `system prune` walk (an answer that is no list gives none).
pub fn all_endpoint_refs(data: &Json) -> (r: Vec<EndpointRef>)
    ensures
        ref_views(r@) == all_refs(items_or_empty(*data)),
{
    endpoint_refs(data, true)
}

/// The endpoints of the answer to `GET endpoints` that `stack ls` scans for
/// compose projects (an answer that is no list gives none).
pub fn fitting_endpoint_refs(data: &Json) -> (r: Vec<EndpointRef>)
    ensures
        ref_views(r@) == fitting_refs(items_or_empty(*data)),
{
    endpoint_refs(data, false)
}

fn endpoint_refs(data: &Json, truncate: bool) -> (r: Vec<EndpointRef>)
    ensures
        truncate ==> ref_views(r@) == all_refs(items_or_empty(*data)),
        !truncate ==> ref_views(r@) == fitting_refs(items_or_empty(*data)),
{
    let mut out: Vec<EndpointRef> = Vec::new();
    let empty: Vec<Json> = Vec::new();
    let items = match data {
        Json::Array(items) => items,
        _ => &empty,
    };
    proof {
        assert(items@ == items_or_empty(*data));
    }
    let mut i: usize = 0;
    while i < items.len()
        invariant
            i <= items@.len(),
            items@ == items_or_empty(*data),
            truncate ==> ref_views(out@) == all_refs(items@.take(i as int)),
            !truncate ==> ref_views(out@) == fitting_refs(items@.take(i as int)),
        decreases items.len() - i,
    {
        let e = &items[i];
        let ghost before = ref_views(out@);
        proof {
            assert(items@.take(i + 1).drop_last() =~= items@.take(i as int));
            assert(items@.take(i + 1).last() == items@[i as int]);
        }
        match u64_in(e.get("Id")) {
            Some(v) => {
                if truncate {
                    #[verifier::truncate]
                    let id = v as u32;
                    out.push(EndpointRef { id, name: text_or(e.get("Name"), "(unknown)") });
                    proof {
                        assert(ref_views(out@) =~= before.push((v as u32, text_or_unknown(e.at("Name"@)))));
                    }
                } else if v <= 4294967295 {
                    out.push(EndpointRef { id: v as u32, name: text_or(e.get("Name"), "") });
                    proof {
                        assert(ref_views(out@) =~= before.push((v as u32, or_else(e.at("Name"@).str_of(), ""@))));
                    }
                }
            },
            None => {},
        }
        i = i + 1;
    }
    proof {
        assert(items@.take(items@.len() as int) =~= items@);
    }
    out
}

/// The name of the first endpoint whose ID, widened, is `id`; `(unknown)`
/// when none is.
pub open spec fn name_for_id(eps: Seq<(u32, Seq<char>)>, id: u64) -> Seq<char>
    decreases eps.len(),
{
    if eps.len() == 0 {
        "(unknown)"@
    } else if eps[0].0 as u64 == id {
        eps[0].1
    } else {
        name_for_id(eps.drop_first(), id)
    }
}

/// Looks up the name of the endpoint with ID `id`.
pub fn endpoint_name_for(eps: &Vec<EndpointRef>, id: u64) -> (r: String)
    ensures
        r@ == name_for_id(ref_views(eps@), id),
{
    let ghost all = ref_views(eps@);
    let mut i: usize = 0;
    assert(all.skip(0) =~= all);
    while i < eps.len()
        invariant
            i <= eps@.len(),
            all == ref_views(eps@),
            name_for_id(all, id) == name_for_id(all.skip(i as int), id),
        decreases eps.len() - i,
    {
        proof {
            assert(all.skip(i as int).drop_first() =~= all.skip(i + 1));
            assert(all.skip(i as int)[0] == eps@[i as int]@);
        }
        if eps[i].id as u64 == id {
            return copy_str(eps[i].name.as_str());
        }
        i = i + 1;
    }
    copy_str("(unknown)")
}

} // verus!
