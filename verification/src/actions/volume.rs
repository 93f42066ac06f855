//! Volumes: listing them, describing one, and the paths, bodies and
//! summaries of the requests on them.
use vstd::prelude::*;
use crate::json::{Json, array_in, object_in, member_keys, lemma_at_members, push_member, text_value};
use crate::render::{views, or_else, row, row_exec, text_or, u64_or_zero, labelled, labelled_number, push_line, block, push_block};
use crate::text::{copy_str, repeat, rule, dec};
use crate::units::{fmt_size, size_text};
use crate::encoding::{url_encode, url_encoded};
use crate::actions::endpoint::{text_or_unknown, num_or_zero};
use crate::actions::container::{docker_path, docker_path_exec};

verus! {

/// The path of a request on the volume named `name` of endpoint `eid`
/// (the name percent-encoded).
pub open spec fn volume_path(eid: u32, name: Seq<char>) -> Seq<char> {
    docker_path(eid, "volumes/"@ + url_encoded(name))
}

/// Builds the path of a request on one volume.
pub fn volume_path_exec(eid: u32, name: &str) -> (r: String)
    ensures
        r@ == volume_path(eid, name@),
{
    let mut rest = copy_str("volumes/");
    rest.append(url_encode(name).as_str());
    docker_path_exec(eid, rest.as_str())
}

/// The path that `volume prune` posts to: with `filters={"all":["true"]}`,
/// so that named volumes go too.
pub fn volume_prune_path(eid: u32) -> (r: String)
    ensures
        r@ == docker_path(eid, "volumes/prune?filters=%7B%22all%22%3A%5B%22true%22%5D%7D"@),
{
    docker_path_exec(eid, "volumes/prune?filters=%7B%22all%22%3A%5B%22true%22%5D%7D")
}

/// The row of a volume in `volume ls`.
pub open spec fn volume_row(v: Json) -> Seq<char> {
    row(
        seq![text_or_unknown(v.at("Name"@)), text_or_unknown(v.at("Driver"@)), text_or_unknown(v.at("Mountpoint"@))],
        seq![30nat, 12nat],
    )
}

/// What `volume ls` prints for the answer to `GET .../volumes`.
pub open spec fn volume_list(data: Json) -> Seq<Seq<char>> {
    match data.at("Volumes"@).array_of() {
        Some(vs) => if vs.len() == 0 {
            seq!["No volumes found."@]
        } else {
            seq![row(seq!["NAME"@, "DRIVER"@, "MOUNTPOINT"@], seq![30nat, 12nat]), repeat('-', 80)]
                + vs.map_values(|v: Json| volume_row(v))
        },
        None => seq!["No volumes found."@],
    }
}

fn row3(a: String, b: String, c: String) -> (r: String)
    ensures
        r@ == row(seq![a@, b@, c@], seq![30nat, 12nat]),
{
    let mut cells = Vec::new();
    cells.push(a);
    cells.push(b);
    cells.push(c);
    let mut widths = Vec::new();
    widths.push(30);
    widths.push(12);
    proof {
        assert(views(cells@) =~= seq![a@, b@, c@]);
        assert(widths@.map_values(|w: usize| w as nat) =~= seq![30nat, 12nat]);
    }
    row_exec(&cells, &widths)
}

/// Formats `volume ls`.
pub fn volume_list_lines(data: &Json) -> (r: Vec<String>)
    ensures
        views(r@) == volume_list(*data),
{
    let mut lines: Vec<String> = Vec::new();
    let vs = match array_in(data.get("Volumes")) {
        Some(vs) => vs,
        None => {
            push_line(&mut lines, copy_str("No volumes found."));
            proof {
                assert(views(lines@) =~= seq!["No volumes found."@]);
            }
            return lines;
        },
    };
    if vs.len() == 0 {
        push_line(&mut lines, copy_str("No volumes found."));
        proof {
            assert(views(lines@) =~= seq!["No volumes found."@]);
        }
        return lines;
    }
    push_line(&mut lines, row3(copy_str("NAME"), copy_str("DRIVER"), copy_str("MOUNTPOINT")));
    push_line(&mut lines, rule(80));
    let ghost head = views(lines@);
    let mut i: usize = 0;
    while i < vs.len()
        invariant
            i <= vs@.len(),
            views(lines@) == head + vs@.take(i as int).map_values(|v: Json| volume_row(v)),
        decreases vs.len() - i,
    {
        let v = &vs[i];
        let line = row3(text_or(v.get("Name"), "(unknown)"), text_or(v.get("Driver"), "(unknown)"), text_or(v.get("Mountpoint"), "(unknown)"));
        push_line(&mut lines, line);
        proof {
            assert(vs@.take(i + 1).map_values(|v: Json| volume_row(v))
                =~= vs@.take(i as int).map_values(|v: Json| volume_row(v)).push(volume_row(vs@[i as int])));
        }
        i = i + 1;
    }
    proof {
        assert(vs@.take(vs@.len() as int) =~= vs@);
    }
    lines
}

/// The `key=value` entries of an object (a value that is no text shows as
/// empty).
pub open spec fn pairs(entries: Seq<(String, Json)>) -> Seq<Seq<char>> {
    entries.map_values(|m: (String, Json)| m.0@ + "="@ + or_else(m.1.str_of(), ""@))
}

fn pairs_exec(entries: &Vec<(String, Json)>) -> (r: Vec<String>)
    ensures
        views(r@) == pairs(entries@),
{
    let mut out: Vec<String> = Vec::new();
    let mut i: usize = 0;
    while i < entries.len()
        invariant
            i <= entries@.len(),
            views(out@) == pairs(entries@.take(i as int)),
        decreases entries.len() - i,
    {
        let mut t = copy_str(entries[i].0.as_str());
        t.append("=");
        t.append(text_or(Some(&entries[i].1), "").as_str());
        push_line(&mut out, t);
        proof {
            assert(pairs(entries@.take(i + 1)) =~= pairs(entries@.take(i as int)).push(pairs(entries@)[i as int]));
        }
        i = i + 1;
    }
    proof {
        assert(entries@.take(entries@.len() as int) =~= entries@);
    }
    out
}

/// What `volume inspect` prints for the answer to `GET .../volumes/{name}`.
pub open spec fn volume_details(v: Json) -> Seq<Seq<char>> {
    let head = seq![
        "Name:       "@ + text_or_unknown(v.at("Name"@)),
        "Driver:     "@ + text_or_unknown(v.at("Driver"@)),
        "Scope:      "@ + text_or_unknown(v.at("Scope"@)),
        "Mountpoint: "@ + text_or_unknown(v.at("Mountpoint"@)),
        "Created:    "@ + text_or_unknown(v.at("CreatedAt"@)),
    ];
    let labels = match v.at("Labels"@).object_of() {
        Some(entries) => block("Labels:"@, pairs(entries)),
        None => Seq::empty(),
    };
    let options = match v.at("Options"@).object_of() {
        Some(entries) => block("Options:"@, pairs(entries)),
        None => Seq::empty(),
    };
    head + labels + options
}

/// Formats `volume inspect`.
pub fn volume_details_lines(v: &Json) -> (r: Vec<String>)
    ensures
        views(r@) == volume_details(*v),
{
    let mut lines: Vec<String> = Vec::new();
    push_line(&mut lines, labelled("Name:       ", text_or(v.get("Name"), "(unknown)").as_str()));
    push_line(&mut lines, labelled("Driver:     ", text_or(v.get("Driver"), "(unknown)").as_str()));
    push_line(&mut lines, labelled("Scope:      ", text_or(v.get("Scope"), "(unknown)").as_str()));
    push_line(&mut lines, labelled("Mountpoint: ", text_or(v.get("Mountpoint"), "(unknown)").as_str()));
    push_line(&mut lines, labelled("Created:    ", text_or(v.get("CreatedAt"), "(unknown)").as_str()));
    match object_in(v.get("Labels")) {
        Some(entries) => {
            let p = pairs_exec(entries);
            push_block(&mut lines, "Labels:", &p);
        },
        None => {},
    }
    match object_in(v.get("Options")) {
        Some(entries) => {
            let p = pairs_exec(entries);
            push_block(&mut lines, "Options:", &p);
        },
        None => {},
    }
    proof {
        assert(views(lines@) =~= volume_details(*v));
    }
    lines
}

/// The body of `volume create`: the name and the driver.
pub fn create_body(name: &str, driver: &str) -> (r: Json)
    ensures
        member_keys(r) == seq!["Name"@, "Driver"@],
        r.at("Name"@).str_of() == Some(name@),
        r.at("Driver"@).str_of() == Some(driver@),
{
    let mut members: Vec<(String, Json)> = Vec::new();
    push_member(&mut members, "Name", text_value(name));
    push_member(&mut members, "Driver", text_value(driver));
    let r = Json::Object(members);
    proof {
        reveal_strlit("Name");
        reveal_strlit("Driver");
        assert("Name"@.len() == 4);
        assert("Driver"@.len() == 6);
        assert(member_keys(r) =~= seq!["Name"@, "Driver"@]);
        assert(member_keys(r)[0] != member_keys(r)[1]);
        lemma_at_members(r);
    }
    r
}

/// The line that `volume prune` prints for its answer.
pub fn prune_summary(data: &Json) -> (r: String)
    ensures
        r@ == "Removed "@ + dec(match data.at("VolumesDeleted"@).array_of() {
            Some(a) => a.len(),
            None => 0,
        }) + " volume(s), reclaimed "@ + size_text(num_or_zero(data.at("SpaceReclaimed"@)) as nat) + "."@,
{
    let count = match array_in(data.get("VolumesDeleted")) {
        Some(a) => a.len(),
        None => 0,
    };
    let mut t = labelled_number("Removed ", count as u64);
    t.append(" volume(s), reclaimed ");
    t.append(fmt_size(u64_or_zero(data.get("SpaceReclaimed"))).as_str());
    t.append(".");
    t
}

} // verus!
