//! Networks: finding one by name, listing them, describing one, and the
//! bodies and summaries of the requests on them.
use vstd::prelude::*;
use crate::json::{Json, val, get_in, str_in, bool_in, array_in, object_in, member_keys, lemma_at_members, push_member, text_value};
use crate::render::{views, or_else, row, row_exec, text_or, labelled, labelled_number, push_line, block, push_block};
use crate::text::{copy_str, repeat, rule, dec, prefix, take_chars};
use crate::actions::endpoint::{LookupError, find_named, find_named_exec, text_or_unknown};
use crate::actions::container::{docker_path, docker_path_exec};

verus! {

/// The ID of the first network named `name` in the answer to
/// `GET .../networks`.
pub open spec fn network_id(data: Json, name: Seq<char>) -> Result<Seq<char>, LookupError> {
    match data.array_of() {
        None => Err(LookupError::BadFormat),
        Some(items) => match find_named(items, name) {
            None => Err(LookupError::NotFound),
            Some(i) => match items[i as int].at("Id"@).str_of() {
                Some(id) => Ok(id),
                None => Err(LookupError::NotFound),
            },
        },
    }
}

/// Finds the ID of the network named `name`.
pub fn network_id_exec(data: &Json, name: &str) -> (r: Result<String, LookupError>)
    ensures
        match network_id(*data, name@) {
            Ok(id) => r matches Ok(t) && t@ == id,
            Err(e) => r == Err::<String, LookupError>(e),
        },
{
    match data {
        Json::Array(items) => match find_named_exec(items, name) {
            None => Err(LookupError::NotFound),
            Some(i) => match str_in(items[i].get("Id")) {
                Some(id) => Ok(copy_str(id.as_str())),
                None => Err(LookupError::NotFound),
            },
        },
        _ => Err(LookupError::BadFormat),
    }
}

/// The first 12 characters of a text field (`""` when missing).
pub open spec fn short_id(j: Json) -> Seq<char> {
    prefix(or_else(j.str_of(), ""@), 12)
}

/// The row of a network in `network ls`.
pub open spec fn network_row(n: Json) -> Seq<char> {
    row(
        seq![short_id(n.at("Id"@)), text_or_unknown(n.at("Name"@)), text_or_unknown(n.at("Driver"@)), text_or_unknown(n.at("Scope"@))],
        seq![16nat, 30nat, 12nat],
    )
}

/// What `network ls` prints for the answer to `GET .../networks`.
pub open spec fn network_list(data: Json) -> Result<Seq<Seq<char>>, LookupError> {
    match data.array_of() {
        None => Err(LookupError::BadFormat),
        Some(items) => if items.len() == 0 {
            Ok(seq!["No networks found."@])
        } else {
            Ok(
                seq![row(seq!["ID"@, "NAME"@, "DRIVER"@, "SCOPE"@], seq![16nat, 30nat, 12nat]), repeat('-', 72)]
                    + items.map_values(|n: Json| network_row(n)),
            )
        },
    }
}

fn row4(a: String, b: String, c: String, d: String) -> (r: String)
    ensures
        r@ == row(seq![a@, b@, c@, d@], seq![16nat, 30nat, 12nat]),
{
    let mut cells = Vec::new();
    cells.push(a);
    cells.push(b);
    cells.push(c);
    cells.push(d);
    let mut widths = Vec::new();
    widths.push(16);
    widths.push(30);
    widths.push(12);
    proof {
        assert(views(cells@) =~= seq![a@, b@, c@, d@]);
        assert(widths@.map_values(|w: usize| w as nat) =~= seq![16nat, 30nat, 12nat]);
    }
    row_exec(&cells, &widths)
}

/// Formats `network ls`.
pub fn network_list_lines(data: &Json) -> (r: Result<Vec<String>, LookupError>)
    ensures
        match network_list(*data) {
            Ok(lines) => r matches Ok(v) && views(v@) == lines,
            Err(e) => r == Err::<Vec<String>, LookupError>(e),
        },
{
    let items = match data {
        Json::Array(items) => items,
        _ => {
            return Err(LookupError::BadFormat);
        },
    };
    let mut lines: Vec<String> = Vec::new();
    if items.len() == 0 {
        push_line(&mut lines, copy_str("No networks found."));
        proof {
            assert(views(lines@) =~= seq!["No networks found."@]);
        }
        return Ok(lines);
    }
    push_line(&mut lines, row4(copy_str("ID"), copy_str("NAME"), copy_str("DRIVER"), copy_str("SCOPE")));
    push_line(&mut lines, rule(72));
    let ghost head = views(lines@);
    let mut i: usize = 0;
    while i < items.len()
        invariant
            i <= items@.len(),
            views(lines@) == head + items@.take(i as int).map_values(|n: Json| network_row(n)),
        decreases items.len() - i,
    {
        let n = &items[i];
        let line = row4(
            take_chars(text_or(n.get("Id"), "").as_str(), 12),
            text_or(n.get("Name"), "(unknown)"),
            text_or(n.get("Driver"), "(unknown)"),
            text_or(n.get("Scope"), "(unknown)"),
        );
        push_line(&mut lines, line);
        proof {
            assert(items@.take(i + 1).map_values(|n: Json| network_row(n))
                =~= items@.take(i as int).map_values(|n: Json| network_row(n)).push(network_row(items@[i as int])));
        }
        i = i + 1;
    }
    proof {
        assert(items@.take(items@.len() as int) =~= items@);
    }
    Ok(lines)
}

/// `true` or `false` as printed.
pub open spec fn bool_text(b: bool) -> Seq<char> {
    if b {
        "true"@
    } else {
        "false"@
    }
}

/// A flag of a network, `false` when missing.
pub open spec fn flag(j: Json) -> bool {
    match j.bool_of() {
        Some(b) => b,
        None => false,
    }
}

/// The `Subnet` and `Gateway` lines of a list of IPAM configurations.
pub open spec fn ipam_lines(cfgs: Seq<Json>) -> Seq<Seq<char>>
    decreases cfgs.len(),
{
    if cfgs.len() == 0 {
        Seq::empty()
    } else {
        let c = cfgs.last();
        ipam_lines(cfgs.drop_last()) + (match c.at("Subnet"@).str_of() {
            Some(s) => seq!["Subnet:   "@ + s],
            None => Seq::empty(),
        }) + (match c.at("Gateway"@).str_of() {
            Some(g) => seq!["Gateway:  "@ + g],
            None => Seq::empty(),
        })
    }
}

/// The attached containers of a network, as `name (address)`.
pub open spec fn attached(entries: Seq<(String, Json)>) -> Seq<Seq<char>> {
    entries.map_values(
        |m: (String, Json)|
            text_or_unknown(m.1.at("Name"@)) + " ("@ + or_else(m.1.at("IPv4Address"@).str_of(), "(none)"@) + ")"@,
    )
}

/// What `network inspect` prints for the answer to `GET .../networks/{id}`.
pub open spec fn network_details(n: Json) -> Seq<Seq<char>> {
    let head = seq![
        "ID:       "@ + short_id(n.at("Id"@)),
        "Name:     "@ + text_or_unknown(n.at("Name"@)),
        "Driver:   "@ + text_or_unknown(n.at("Driver"@)),
        "Scope:    "@ + text_or_unknown(n.at("Scope"@)),
        "IPv6:     "@ + bool_text(flag(n.at("EnableIPv6"@))),
        "Internal: "@ + bool_text(flag(n.at("Internal"@))),
    ];
    let ipam = match n.at("IPAM"@).at("Config"@).array_of() {
        Some(cfgs) => ipam_lines(cfgs),
        None => Seq::empty(),
    };
    let containers = match n.at("Containers"@).object_of() {
        Some(entries) => block("Containers:"@, attached(entries)),
        None => Seq::empty(),
    };
    head + ipam + containers
}

fn bool_text_exec(b: bool) -> (r: &'static str)
    ensures
        r@ == bool_text(b),
{
    if b {
        "true"
    } else {
        "false"
    }
}

fn flag_exec(o: Option<&Json>) -> (r: bool)
    ensures
        r == flag(val(o)),
{
    match bool_in(o) {
        Some(b) => b,
        None => false,
    }
}

/// Formats `network inspect`.
pub fn network_details_lines(n: &Json) -> (r: Vec<String>)
    ensures
        views(r@) == network_details(*n),
{
    let mut lines: Vec<String> = Vec::new();
    push_line(&mut lines, labelled("ID:       ", take_chars(text_or(n.get("Id"), "").as_str(), 12).as_str()));
    push_line(&mut lines, labelled("Name:     ", text_or(n.get("Name"), "(unknown)").as_str()));
    push_line(&mut lines, labelled("Driver:   ", text_or(n.get("Driver"), "(unknown)").as_str()));
    push_line(&mut lines, labelled("Scope:    ", text_or(n.get("Scope"), "(unknown)").as_str()));
    push_line(&mut lines, labelled("IPv6:     ", bool_text_exec(flag_exec(n.get("EnableIPv6")))));
    push_line(&mut lines, labelled("Internal: ", bool_text_exec(flag_exec(n.get("Internal")))));
    let ghost head = views(lines@);
    match array_in(get_in(n.get("IPAM"), "Config")) {
        Some(cfgs) => {
            let mut i: usize = 0;
            while i < cfgs.len()
                invariant
                    i <= cfgs@.len(),
                    views(lines@) == head + ipam_lines(cfgs@.take(i as int)),
                decreases cfgs.len() - i,
            {
                proof {
                    assert(cfgs@.take(i + 1).drop_last() =~= cfgs@.take(i as int));
                    assert(cfgs@.take(i + 1).last() == cfgs@[i as int]);
                }
                let c = &cfgs[i];
                match str_in(c.get("Subnet")) {
                    Some(s) => push_line(&mut lines, labelled("Subnet:   ", s.as_str())),
                    None => {},
                }
                match str_in(c.get("Gateway")) {
                    Some(g) => push_line(&mut lines, labelled("Gateway:  ", g.as_str())),
                    None => {},
                }
                proof {
                    assert(views(lines@) =~= head + ipam_lines(cfgs@.take(i + 1)));
                }
                i = i + 1;
            }
            proof {
                assert(cfgs@.take(cfgs@.len() as int) =~= cfgs@);
            }
        },
        None => {},
    }
    let ghost with_ipam = views(lines@);
    match object_in(n.get("Containers")) {
        Some(entries) => {
            let mut names: Vec<String> = Vec::new();
            let mut i: usize = 0;
            while i < entries.len()
                invariant
                    i <= entries@.len(),
                    views(names@) == attached(entries@.take(i as int)),
                decreases entries.len() - i,
            {
                let c = &entries[i].1;
                let mut t = text_or(c.get("Name"), "(unknown)");
                t.append(" (");
                t.append(text_or(c.get("IPv4Address"), "(none)").as_str());
                t.append(")");
                push_line(&mut names, t);
                proof {
                    assert(attached(entries@.take(i + 1)) =~= attached(entries@.take(i as int)).push(
                        attached(entries@)[i as int],
                    ));
                }
                i = i + 1;
            }
            proof {
                assert(entries@.take(entries@.len() as int) =~= entries@);
            }
            push_block(&mut lines, "Containers:", &names);
        },
        None => {},
    }
    proof {
        assert(views(lines@) =~= network_details(*n));
    }
    lines
}

/// The body of `network create`: the name, the driver, and a request to
/// refuse a duplicate name.
pub fn create_body(name: &str, driver: &str) -> (r: Json)
    ensures
        member_keys(r) == seq!["Name"@, "Driver"@, "CheckDuplicate"@],
        r.at("Name"@).str_of() == Some(name@),
        r.at("Driver"@).str_of() == Some(driver@),
        r.at("CheckDuplicate"@) == Json::Bool(true),
{
    let mut members: Vec<(String, Json)> = Vec::new();
    push_member(&mut members, "Name", text_value(name));
    push_member(&mut members, "Driver", text_value(driver));
    push_member(&mut members, "CheckDuplicate", Json::Bool(true));
    let r = Json::Object(members);
    proof {
        reveal_strlit("Name");
        reveal_strlit("Driver");
        reveal_strlit("CheckDuplicate");
        assert("Name"@.len() == 4);
        assert("Driver"@.len() == 6);
        assert("CheckDuplicate"@.len() == 14);
        assert(member_keys(r) =~= seq!["Name"@, "Driver"@, "CheckDuplicate"@]);
        lemma_at_members(r);
    }
    r
}

/// The line that `network prune` prints for its answer.
pub fn prune_summary(data: &Json) -> (r: String)
    ensures
        r@ == "Removed "@ + dec(match data.at("NetworksDeleted"@).array_of() {
            Some(a) => a.len(),
            None => 0,
        }) + " network(s)."@,
{
    let count = match array_in(data.get("NetworksDeleted")) {
        Some(a) => a.len(),
        None => 0,
    };
    let mut t = labelled_number("Removed ", count as u64);
    t.append(" network(s).");
    t
}

/// The path of a request on network `id` of endpoint `eid`.
pub fn network_path(eid: u32, id: &str) -> (r: String)
    ensures
        r@ == docker_path(eid, "networks/"@ + id@),
{
    let mut rest = copy_str("networks/");
    rest.append(id);
    docker_path_exec(eid, rest.as_str())
}

} // verus!
