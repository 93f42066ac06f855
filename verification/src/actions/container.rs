//! Containers: their listing, details and resource figures, the paths of the
//! requests that act on one, and the bodies of `exec`.
use vstd::prelude::*;
use crate::json::{Json, get_in, str_in, u64_in, array_in, object_in, member_keys, lemma_at_members, push_member, text_value};
use crate::render::{views, or_else, row, row_exec, text_or, u64_or_zero, labelled, labelled_number, push_line, block, push_block, texts, texts_exec};
use crate::text::{copy_str, str_eq, repeat, rule, dec, prefix, strip_leading, take_chars, trim_start_char, join, join_strings};
use crate::units::{fmt_bytes, bytes_text};
use crate::encoding::{url_encode, url_encoded};
use crate::actions::endpoint::{items_or_empty, text_or_unknown, num_or_zero};

verus! {

/// `endpoints/{eid}/docker/containers/{cid}{tail}`: the path of a request on
/// one container.
pub open spec fn container_path(eid: u32, cid: Seq<char>, tail: Seq<char>) -> Seq<char> {
    "endpoints/"@ + dec(eid as nat) + "/docker/containers/"@ + cid + tail
}

/// Builds the path of a request on one container.
pub fn container_path_exec(eid: u32, cid: &str, tail: &str) -> (r: String)
    ensures
        r@ == container_path(eid, cid@, tail@),
{
    let mut t = labelled_number("endpoints/", eid as u64);
    t.append("/docker/containers/");
    t.append(cid);
    t.append(tail);
    t
}

/// `endpoints/{eid}/docker/{rest}`.
pub open spec fn docker_path(eid: u32, rest: Seq<char>) -> Seq<char> {
    "endpoints/"@ + dec(eid as nat) + "/docker/"@ + rest
}

/// Builds `endpoints/{eid}/docker/{rest}`.
pub fn docker_path_exec(eid: u32, rest: &str) -> (r: String)
    ensures
        r@ == docker_path(eid, rest@),
{
    let mut t = labelled_number("endpoints/", eid as u64);
    t.append("/docker/");
    t.append(rest);
    t
}

/// The path that lists every container of an endpoint, stopped ones too.
pub fn containers_json_path(eid: u32) -> (r: String)
    ensures
        r@ == docker_path(eid, "containers/json?all=1"@),
{
    docker_path_exec(eid, "containers/json?all=1")
}

/// The path that fetches a container's logs: both streams, the last `tail`
/// lines, with timestamps and following the output when asked.
pub open spec fn logs_path(eid: u32, cid: Seq<char>, tail: u32, timestamps: bool, follow: bool) -> Seq<char> {
    container_path(
        eid,
        cid,
        "/logs?stdout=1&stderr=1&tail="@ + dec(tail as nat) + "&timestamps="@ + (if timestamps { "1"@ } else { "0"@ })
            + "&follow="@ + (if follow { "1"@ } else { "0"@ }),
    )
}

/// The logs path ends with its two switches, timestamps then follow, each
/// written `1` when asked for and `0` when not; what comes before them does
/// not depend on the switches.
pub proof fn lemma_logs_path_switches(eid: u32, cid: Seq<char>, tail: u32, timestamps: bool, follow: bool, ts2: bool, follow2: bool)
    ensures
        logs_path(eid, cid, tail, timestamps, follow).len() >= 22,
        logs_path(eid, cid, tail, timestamps, follow).len() == logs_path(eid, cid, tail, ts2, follow2).len(),
        logs_path(eid, cid, tail, timestamps, follow).subrange(
            logs_path(eid, cid, tail, timestamps, follow).len() - 22,
            logs_path(eid, cid, tail, timestamps, follow).len() as int,
        ) == "&timestamps="@ + (if timestamps { "1"@ } else { "0"@ }) + "&follow="@ + (if follow { "1"@ } else { "0"@ }),
        logs_path(eid, cid, tail, timestamps, follow).last() == (if follow { '1' } else { '0' }),
        logs_path(eid, cid, tail, timestamps, follow)[logs_path(eid, cid, tail, timestamps, follow).len() - 10] == (if timestamps { '1' } else { '0' }),
        forall|i: int| 0 <= i < logs_path(eid, cid, tail, timestamps, follow).len() - 22 ==>
            #[trigger] logs_path(eid, cid, tail, timestamps, follow)[i] == logs_path(eid, cid, tail, ts2, follow2)[i],
{
    reveal_strlit("&timestamps=");
    reveal_strlit("&follow=");
    reveal_strlit("1");
    reveal_strlit("0");
    let head = "/logs?stdout=1&stderr=1&tail="@ + dec(tail as nat);
    let q = container_path(eid, cid, head);
    let d1 = if timestamps { "1"@ } else { "0"@ };
    let d2 = if follow { "1"@ } else { "0"@ };
    let e1 = if ts2 { "1"@ } else { "0"@ };
    let e2 = if follow2 { "1"@ } else { "0"@ };
    let suffix = "&timestamps="@ + d1 + "&follow="@ + d2;
    let suffix2 = "&timestamps="@ + e1 + "&follow="@ + e2;
    let p1 = logs_path(eid, cid, tail, timestamps, follow);
    let p2 = logs_path(eid, cid, tail, ts2, follow2);
    assert(p1 =~= q + suffix);
    assert(p2 =~= q + suffix2);
    assert(suffix.len() == 22);
    assert(suffix2.len() == 22);
    assert(p1.subrange(q.len() as int, p1.len() as int) =~= suffix);
    assert(p1.last() == suffix[21]);
    assert(p1[p1.len() - 10] == suffix[12]);
    assert(suffix[21] == d2[0]);
    assert(suffix[12] == d1[0]);
    assert forall|i: int| 0 <= i < p1.len() - 22 implies #[trigger] p1[i] == p2[i] by {
        assert(p1[i] == q[i]);
        assert(p2[i] == q[i]);
    }
}

/// Builds the path that fetches a container's logs.
pub fn logs_path_exec(eid: u32, cid: &str, tail: u32, timestamps: bool, follow: bool) -> (r: String)
    ensures
        r@ == logs_path(eid, cid@, tail, timestamps, follow),
{
    let mut t = labelled_number("/logs?stdout=1&stderr=1&tail=", tail as u64);
    t.append("&timestamps=");
    t.append(if timestamps { "1" } else { "0" });
    t.append("&follow=");
    t.append(if follow { "1" } else { "0" });
    container_path_exec(eid, cid, t.as_str())
}

/// The name of a container in a listing: the first of its `Names` without
/// its leading slashes (`(unknown)` when it has none).
pub open spec fn listed_name(c: Json) -> Seq<char> {
    let first = match c.at("Names"@).array_of() {
        Some(names) => if names.len() > 0 {
            names[0].str_of()
        } else {
            None
        },
        None => None,
    };
    strip_leading(or_else(first, "(unknown)"@), '/')
}

/// The row of a container in `container ls`: restricted to one endpoint it
/// shows no endpoint column; across all endpoints it shows `endpoint`.
pub open spec fn container_row(c: Json, endpoint: Option<Seq<char>>) -> Seq<char> {
    let id = prefix(or_else(c.at("Id"@).str_of(), ""@), 12);
    let state = text_or_unknown(c.at("State"@));
    let image = text_or_unknown(c.at("Image"@));
    match endpoint {
        Some(ep) => row(seq![id, listed_name(c), state, ep, image], seq![16nat, 25nat, 12nat, 12nat]),
        None => row(seq![id, listed_name(c), state, image], seq![16nat, 35nat, 12nat]),
    }
}

/// The rows of `container ls` for the answer to `GET .../containers/json`
/// (an answer that is no list has none).
pub open spec fn container_rows(data: Json, endpoint: Option<Seq<char>>) -> Seq<Seq<char>> {
    items_or_empty(data).map_values(|c: Json| container_row(c, endpoint))
}

/// The header of `container ls`, with or without the endpoint column.
pub open spec fn container_header(with_endpoint: bool) -> Seq<Seq<char>> {
    if with_endpoint {
        seq![
            row(seq!["ID"@, "NAME"@, "STATE"@, "ENDPOINT"@, "IMAGE"@], seq![16nat, 25nat, 12nat, 12nat]),
            repeat('-', 90),
        ]
    } else {
        seq![row(seq!["ID"@, "NAME"@, "STATE"@, "IMAGE"@], seq![16nat, 35nat, 12nat]), repeat('-', 80)]
    }
}

fn widths_of(a: usize, b: usize, c: usize, d: Option<usize>) -> (r: Vec<usize>)
    ensures
        d is None ==> r@.len() == 3,
        d is Some ==> r@.len() == 4,
        d is None ==> r@.map_values(|w: usize| w as nat) == seq![a as nat, b as nat, c as nat],
        d is Some ==> r@.map_values(|w: usize| w as nat) == seq![a as nat, b as nat, c as nat, d->0 as nat],
{
    let mut w = Vec::new();
    w.push(a);
    w.push(b);
    w.push(c);
    match d {
        Some(x) => w.push(x),
        None => {},
    }
    proof {
        if d is Some {
            assert(w@.map_values(|w: usize| w as nat) =~= seq![a as nat, b as nat, c as nat, d->0 as nat]);
        } else {
            assert(w@.map_values(|w: usize| w as nat) =~= seq![a as nat, b as nat, c as nat]);
        }
    }
    w
}

fn row_of(cells: Vec<String>, widths: Vec<usize>) -> (r: String)
    requires
        widths@.len() + 1 >= cells@.len(),
    ensures
        r@ == row(views(cells@), widths@.map_values(|w: usize| w as nat)),
{
    row_exec(&cells, &widths)
}

/// Formats the header of `container ls`.
pub fn container_header_lines(with_endpoint: bool) -> (r: Vec<String>)
    ensures
        views(r@) == container_header(with_endpoint),
{
    let mut cells: Vec<String> = Vec::new();
    push_line(&mut cells, copy_str("ID"));
    push_line(&mut cells, copy_str("NAME"));
    push_line(&mut cells, copy_str("STATE"));
    if with_endpoint {
        push_line(&mut cells, copy_str("ENDPOINT"));
    }
    push_line(&mut cells, copy_str("IMAGE"));
    let widths = if with_endpoint { widths_of(16, 25, 12, Some(12)) } else { widths_of(16, 35, 12, None) };
    let ghost cv = views(cells@);
    proof {
        if with_endpoint {
            assert(cv =~= seq!["ID"@, "NAME"@, "STATE"@, "ENDPOINT"@, "IMAGE"@]);
        } else {
            assert(cv =~= seq!["ID"@, "NAME"@, "STATE"@, "IMAGE"@]);
        }
        assert(cells@.len() == cv.len());
    }
    let mut lines: Vec<String> = Vec::new();
    push_line(&mut lines, row_of(cells, widths));
    push_line(&mut lines, rule(if with_endpoint { 90 } else { 80 }));
    proof {
        assert(views(lines@) =~= container_header(with_endpoint));
    }
    lines
}

/// The name of a container as listed.
fn listed_name_exec(c: &Json) -> (r: String)
    ensures
        r@ == listed_name(*c),
{
    let first = match array_in(c.get("Names")) {
        Some(names) => if names.len() > 0 {
            str_in(Some(&names[0]))
        } else {
            None
        },
        None => None,
    };
    let name = match first {
        Some(n) => copy_str(n.as_str()),
        None => copy_str("(unknown)"),
    };
    trim_start_char(name.as_str(), '/')
}

/// Formats the rows of `container ls` for the answer to
/// `GET .../containers/json`; there are as many as the answer lists.
pub fn container_rows_exec(data: &Json, endpoint: Option<&str>) -> (r: Vec<String>)
    ensures
        views(r@) == container_rows(*data, match endpoint {
            Some(e) => Some(e@),
            None => None,
        }),
        r@.len() == items_or_empty(*data).len(),
{
    let ghost ep = match endpoint {
        Some(e) => Some(e@),
        None => None::<Seq<char>>,
    };
    let empty: Vec<Json> = Vec::new();
    let items = match data {
        Json::Array(items) => items,
        _ => &empty,
    };
    let mut out: Vec<String> = Vec::new();
    let mut i: usize = 0;
    while i < items.len()
        invariant
            i <= items@.len(),
            items@ == items_or_empty(*data),
            ep == match endpoint {
                Some(e) => Some(e@),
                None => None,
            },
            views(out@) == items@.take(i as int).map_values(|c: Json| container_row(c, ep)),
        decreases items.len() - i,
    {
        let c = &items[i];
        let id = take_chars(text_or(c.get("Id"), "").as_str(), 12);
        let mut cells: Vec<String> = Vec::new();
        push_line(&mut cells, id);
        push_line(&mut cells, listed_name_exec(c));
        push_line(&mut cells, text_or(c.get("State"), "(unknown)"));
        let widths = match endpoint {
            Some(e) => {
                push_line(&mut cells, copy_str(e));
                widths_of(16, 25, 12, Some(12))
            },
            None => widths_of(16, 35, 12, None),
        };
        push_line(&mut cells, text_or(c.get("Image"), "(unknown)"));
        proof {
            let id_v = prefix(or_else(c.at("Id"@).str_of(), ""@), 12);
            match endpoint {
                Some(e) => {
                    assert(views(cells@) =~= seq![id_v, listed_name(*c), text_or_unknown(c.at("State"@)), e@, text_or_unknown(c.at("Image"@))]);
                },
                None => {
                    assert(views(cells@) =~= seq![id_v, listed_name(*c), text_or_unknown(c.at("State"@)), text_or_unknown(c.at("Image"@))]);
                },
            }
        }
        push_line(&mut out, row_of(cells, widths));
        proof {
            assert(items@.take(i + 1).map_values(|c: Json| container_row(c, ep))
                =~= items@.take(i as int).map_values(|c: Json| container_row(c, ep)).push(container_row(items@[i as int], ep)));
        }
        i = i + 1;
    }
    proof {
        assert(items@.take(items@.len() as int) =~= items@);
    }
    out
}

/// The warning printed when the containers of an endpoint cannot be listed.
pub fn list_warning(endpoint: Option<&str>, err: &str) -> (r: String)
    ensures
        r@ == "Warning: failed to list containers for "@ + (match endpoint {
            Some(e) => e@,
            None => "endpoint"@,
        }) + ": "@ + err@,
{
    let mut t = copy_str("Warning: failed to list containers for ");
    match endpoint {
        Some(e) => t.append(e),
        None => t.append("endpoint"),
    }
    t.append(": ");
    t.append(err);
    t
}

/// `a - b`, or `0` when `b` is larger (`saturating_sub`).
pub open spec fn sat_sub(a: u64, b: u64) -> u64 {
    if a >= b {
        (a - b) as u64
    } else {
        0
    }
}

/// The sum of a number field over the values of an object's members.
pub open spec fn sum_members(entries: Seq<(String, Json)>, key: Seq<char>) -> nat
    decreases entries.len(),
{
    if entries.len() == 0 {
        0
    } else {
        sum_members(entries.drop_last(), key) + num_or_zero(entries.last().1.at(key)) as nat
    }
}

/// The bytes of the block I/O entries whose `op` is `op`.
pub open spec fn sum_op(entries: Seq<Json>, op: Seq<char>) -> nat
    decreases entries.len(),
{
    if entries.len() == 0 {
        0
    } else {
        let e = entries.last();
        sum_op(entries.drop_last(), op) + if or_else(e.at("op"@).str_of(), ""@) == op {
            num_or_zero(e.at("value"@)) as nat
        } else {
            0
        }
    }
}

/// The network bytes received (`rx_bytes`) or sent (`tx_bytes`) over all
/// interfaces of a stats answer.
pub open spec fn net_total(d: Json, key: Seq<char>) -> nat {
    match d.at("networks"@).object_of() {
        Some(entries) => sum_members(entries, key),
        None => 0,
    }
}

/// The block I/O bytes read (`Read`) or written (`Write`) in a stats answer.
pub open spec fn blk_total(d: Json, op: Seq<char>) -> nat {
    match d.at("blkio_stats"@).at("io_service_bytes_recursive"@).array_of() {
        Some(entries) => sum_op(entries, op),
        None => 0,
    }
}

/// The page cache counted in a container's memory use: `cache`, else
/// `inactive_file`, else `0`.
pub open spec fn mem_cache(d: Json) -> u64 {
    let stats = d.at("memory_stats"@).at("stats"@);
    match stats.at("cache"@).u64_of() {
        Some(n) => n,
        None => num_or_zero(stats.at("inactive_file"@)),
    }
}

/// The integer figures of `container stats`.
pub struct Stats {
    /// CPU time used since the previous sample.
    pub cpu_delta: u64,
    /// System CPU time passed since the previous sample.
    pub system_delta: u64,
    /// Online CPUs (`1` when not reported).
    pub online_cpus: u64,
    /// Memory in use, less the page cache.
    pub mem_used: u64,
    /// The memory limit.
    pub mem_limit: u64,
    pub net_rx: u64,
    pub net_tx: u64,
    pub blk_read: u64,
    pub blk_write: u64,
}

/// Whether `s` holds the figures of the stats answer `d`.
pub open spec fn stats_of(s: Stats, d: Json) -> bool {
    let cpu = d.at("cpu_stats"@);
    let pre = d.at("precpu_stats"@);
    &&& s.cpu_delta == sat_sub(num_or_zero(cpu.at("cpu_usage"@).at("total_usage"@)), num_or_zero(pre.at("cpu_usage"@).at("total_usage"@)))
    &&& s.system_delta == sat_sub(num_or_zero(cpu.at("system_cpu_usage"@)), num_or_zero(pre.at("system_cpu_usage"@)))
    &&& s.online_cpus == match cpu.at("online_cpus"@).u64_of() {
        Some(n) => n,
        None => 1,
    }
    &&& s.mem_used == sat_sub(num_or_zero(d.at("memory_stats"@).at("usage"@)), mem_cache(d))
    &&& s.mem_limit == num_or_zero(d.at("memory_stats"@).at("limit"@))
    &&& s.net_rx == net_total(d, "rx_bytes"@)
    &&& s.net_tx == net_total(d, "tx_bytes"@)
    &&& s.blk_read == blk_total(d, "Read"@)
    &&& s.blk_write == blk_total(d, "Write"@)
}

/// Whether every total of a stats answer fits a `u64`.
pub open spec fn stats_fit(d: Json) -> bool {
    &&& net_total(d, "rx_bytes"@) <= u64::MAX
    &&& net_total(d, "tx_bytes"@) <= u64::MAX
    &&& blk_total(d, "Read"@) <= u64::MAX
    &&& blk_total(d, "Write"@) <= u64::MAX
}

proof fn lemma_sum_members_prefix(entries: Seq<(String, Json)>, key: Seq<char>, i: int)
    requires
        0 <= i <= entries.len(),
    ensures
        sum_members(entries.take(i), key) <= sum_members(entries, key),
    decreases entries.len() - i,
{
    if i < entries.len() {
        lemma_sum_members_prefix(entries, key, i + 1);
        assert(entries.take(i + 1).drop_last() =~= entries.take(i));
    } else {
        assert(entries.take(i) =~= entries);
    }
}

proof fn lemma_sum_op_prefix(entries: Seq<Json>, op: Seq<char>, i: int)
    requires
        0 <= i <= entries.len(),
    ensures
        sum_op(entries.take(i), op) <= sum_op(entries, op),
    decreases entries.len() - i,
{
    if i < entries.len() {
        lemma_sum_op_prefix(entries, op, i + 1);
        assert(entries.take(i + 1).drop_last() =~= entries.take(i));
    } else {
        assert(entries.take(i) =~= entries);
    }
}

/// Sums a number field over the values of an object's members; `None`
/// when the sum does not fit a `u64`.
fn sum_members_exec(entries: &Vec<(String, Json)>, key: &str) -> (r: Option<u64>)
    ensures
        match r {
            Some(n) => n == sum_members(entries@, key@),
            None => sum_members(entries@, key@) > u64::MAX,
        },
{
    let mut total: u64 = 0;
    let mut i: usize = 0;
    while i < entries.len()
        invariant
            i <= entries@.len(),
            total == sum_members(entries@.take(i as int), key@),
        decreases entries.len() - i,
    {
        proof {
            assert(entries@.take(i + 1).drop_last() =~= entries@.take(i as int));
            assert(entries@.take(i + 1).last() == entries@[i as int]);
        }
        let v = u64_or_zero(entries[i].1.get(key));
        if v > u64::MAX - total {
            proof {
                lemma_sum_members_prefix(entries@, key@, i + 1);
            }
            return None;
        }
        total = total + v;
        i = i + 1;
    }
    proof {
        assert(entries@.take(entries@.len() as int) =~= entries@);
    }
    Some(total)
}

/// Sums the bytes of the block I/O entries whose `op` is `op`; `None` when
/// the sum does not fit a `u64`.
fn sum_op_exec(entries: &Vec<Json>, op: &str) -> (r: Option<u64>)
    ensures
        match r {
            Some(n) => n == sum_op(entries@, op@),
            None => sum_op(entries@, op@) > u64::MAX,
        },
{
    let mut total: u64 = 0;
    let mut i: usize = 0;
    while i < entries.len()
        invariant
            i <= entries@.len(),
            total == sum_op(entries@.take(i as int), op@),
        decreases entries.len() - i,
    {
        proof {
            assert(entries@.take(i + 1).drop_last() =~= entries@.take(i as int));
            assert(entries@.take(i + 1).last() == entries@[i as int]);
        }
        let e = &entries[i];
        let this_op = text_or(e.get("op"), "");
        let v = if str_eq(this_op.as_str(), op) {
            u64_or_zero(e.get("value"))
        } else {
            0
        };
        if v > u64::MAX - total {
            proof {
                lemma_sum_op_prefix(entries@, op@, i + 1);
            }
            return None;
        }
        total = total + v;
        i = i + 1;
    }
    proof {
        assert(entries@.take(entries@.len() as int) =~= entries@);
    }
    Some(total)
}

fn net_total_exec(d: &Json, key: &str) -> (r: Option<u64>)
    ensures
        match r {
            Some(n) => n == net_total(*d, key@),
            None => net_total(*d, key@) > u64::MAX,
        },
{
    match object_in(d.get("networks")) {
        Some(entries) => sum_members_exec(entries, key),
        None => Some(0),
    }
}

fn blk_total_exec(d: &Json, op: &str) -> (r: Option<u64>)
    ensures
        match r {
            Some(n) => n == blk_total(*d, op@),
            None => blk_total(*d, op@) > u64::MAX,
        },
{
    match array_in(get_in(d.get("blkio_stats"), "io_service_bytes_recursive")) {
        Some(entries) => sum_op_exec(entries, op),
        None => Some(0),
    }
}

fn sat_sub_exec(a: u64, b: u64) -> (r: u64)
    ensures
        r == sat_sub(a, b),
{
    if a >= b {
        a - b
    } else {
        0
    }
}

/// The integer figures of `container stats` from the answer to
/// `GET .../stats?stream=false`; `None` when one of the network or block
/// I/O totals does not fit a `u64`.
pub fn stats_summary(d: &Json) -> (r: Option<Stats>)
    ensures
        r is Some <==> stats_fit(*d),
        r is Some ==> stats_of(r->0, *d),
{
    let cpu = d.get("cpu_stats");
    let pre = d.get("precpu_stats");
    let cpu_delta = sat_sub_exec(
        u64_or_zero(get_in(get_in(cpu, "cpu_usage"), "total_usage")),
        u64_or_zero(get_in(get_in(pre, "cpu_usage"), "total_usage")),
    );
    let system_delta = sat_sub_exec(
        u64_or_zero(get_in(cpu, "system_cpu_usage")),
        u64_or_zero(get_in(pre, "system_cpu_usage")),
    );
    let online_cpus = match u64_in(get_in(cpu, "online_cpus")) {
        Some(n) => n,
        None => 1,
    };
    let mem = d.get("memory_stats");
    let stats = get_in(mem, "stats");
    let cache = match u64_in(get_in(stats, "cache")) {
        Some(n) => n,
        None => u64_or_zero(get_in(stats, "inactive_file")),
    };
    let mem_used = sat_sub_exec(u64_or_zero(get_in(mem, "usage")), cache);
    let mem_limit = u64_or_zero(get_in(mem, "limit"));
    let net_rx = net_total_exec(d, "rx_bytes");
    let net_tx = net_total_exec(d, "tx_bytes");
    let blk_read = blk_total_exec(d, "Read");
    let blk_write = blk_total_exec(d, "Write");
    match (net_rx, net_tx, blk_read, blk_write) {
        (Some(net_rx), Some(net_tx), Some(blk_read), Some(blk_write)) => Some(
            Stats { cpu_delta, system_delta, online_cpus, mem_used, mem_limit, net_rx, net_tx, blk_read, blk_write },
        ),
        _ => None,
    }
}

/// The I/O lines of `container stats`.
pub fn stats_io_lines(s: &Stats) -> (r: Vec<String>)
    ensures
        views(r@) == seq![
            "Net I/O: "@ + bytes_text(s.net_rx as nat) + " rx / "@ + bytes_text(s.net_tx as nat) + " tx"@,
            "Blk I/O: "@ + bytes_text(s.blk_read as nat) + " read / "@ + bytes_text(s.blk_write as nat) + " write"@,
        ],
{
    let mut lines: Vec<String> = Vec::new();
    let mut net = labelled("Net I/O: ", fmt_bytes(s.net_rx).as_str());
    net.append(" rx / ");
    net.append(fmt_bytes(s.net_tx).as_str());
    net.append(" tx");
    push_line(&mut lines, net);
    let mut blk = labelled("Blk I/O: ", fmt_bytes(s.blk_read).as_str());
    blk.append(" read / ");
    blk.append(fmt_bytes(s.blk_write).as_str());
    blk.append(" write");
    push_line(&mut lines, blk);
    proof {
        assert(views(lines@) =~= seq![
            "Net I/O: "@ + bytes_text(s.net_rx as nat) + " rx / "@ + bytes_text(s.net_tx as nat) + " tx"@,
            "Blk I/O: "@ + bytes_text(s.blk_read as nat) + " read / "@ + bytes_text(s.blk_write as nat) + " write"@,
        ]);
    }
    lines
}

/// The first `HostPort` among the bindings of a port, if one is text.
pub open spec fn first_host_port(bs: Seq<Json>) -> Option<Seq<char>>
    decreases bs.len(),
{
    if bs.len() == 0 {
        None
    } else {
        match bs[0].at("HostPort"@).str_of() {
            Some(h) => Some(h),
            None => first_host_port(bs.drop_first()),
        }
    }
}

/// The published ports of a container, as `host:container`, one for each
/// port that has a binding with a host port, in the order of the ports.
pub open spec fn port_bindings(ports: Seq<(String, Json)>) -> Seq<Seq<char>>
    decreases ports.len(),
{
    if ports.len() == 0 {
        Seq::empty()
    } else {
        let prev = port_bindings(ports.drop_last());
        let (port, bindings) = ports.last();
        match bindings.array_of() {
            Some(bs) => match first_host_port(bs) {
                Some(h) => prev.push(h + ":"@ + port@),
                None => prev,
            },
            None => prev,
        }
    }
}

/// What `container inspect` prints for the answer to `GET .../json`.
pub open spec fn container_details(d: Json) -> Seq<Seq<char>> {
    let head = seq![
        "ID:       "@ + prefix(text_or_unknown(d.at("Id"@)), 12),
        "Name:     "@ + strip_leading(text_or_unknown(d.at("Name"@)), '/'),
        "Image:    "@ + text_or_unknown(d.at("Config"@).at("Image"@)),
        "State:    "@ + text_or_unknown(d.at("State"@).at("Status"@)),
        "Created:  "@ + text_or_unknown(d.at("Created"@)),
        "Started:  "@ + text_or_unknown(d.at("State"@).at("StartedAt"@)),
    ];
    let ports = match d.at("NetworkSettings"@).at("Ports"@).object_of() {
        Some(entries) => {
            let b = port_bindings(entries);
            if b.len() > 0 {
                seq!["Ports:    "@ + join(b, ", "@)]
            } else {
                Seq::empty()
            }
        },
        None => Seq::empty(),
    };
    let env = match d.at("Config"@).at("Env"@).array_of() {
        Some(envs) => block("Env:"@, texts(envs)),
        None => Seq::empty(),
    };
    head + ports + env
}

fn first_host_port_exec(bs: &Vec<Json>) -> (r: Option<String>)
    ensures
        match r {
            Some(h) => first_host_port(bs@) == Some(h@),
            None => first_host_port(bs@) is None,
        },
{
    let mut i: usize = 0;
    assert(bs@.skip(0) =~= bs@);
    while i < bs.len()
        invariant
            i <= bs@.len(),
            first_host_port(bs@) == first_host_port(bs@.skip(i as int)),
        decreases bs.len() - i,
    {
        proof {
            assert(bs@.skip(i as int).drop_first() =~= bs@.skip(i + 1));
            assert(bs@.skip(i as int)[0] == bs@[i as int]);
        }
        match str_in(bs[i].get("HostPort")) {
            Some(h) => {
                return Some(copy_str(h.as_str()));
            },
            None => {},
        }
        i = i + 1;
    }
    None
}

fn port_bindings_exec(ports: &Vec<(String, Json)>) -> (r: Vec<String>)
    ensures
        views(r@) == port_bindings(ports@),
{
    let mut out: Vec<String> = Vec::new();
    let mut i: usize = 0;
    while i < ports.len()
        invariant
            i <= ports@.len(),
            views(out@) == port_bindings(ports@.take(i as int)),
        decreases ports.len() - i,
    {
        proof {
            assert(ports@.take(i + 1).drop_last() =~= ports@.take(i as int));
            assert(ports@.take(i + 1).last() == ports@[i as int]);
        }
        match array_in(Some(&ports[i].1)) {
            Some(bs) => match first_host_port_exec(bs) {
                Some(h) => {
                    let mut t = h;
                    t.append(":");
                    t.append(ports[i].0.as_str());
                    push_line(&mut out, t);
                },
                None => {},
            },
            None => {},
        }
        i = i + 1;
    }
    proof {
        assert(ports@.take(ports@.len() as int) =~= ports@);
    }
    out
}

/// Formats `container inspect`.
pub fn container_details_lines(d: &Json) -> (r: Vec<String>)
    ensures
        views(r@) == container_details(*d),
{
    let mut lines: Vec<String> = Vec::new();
    push_line(&mut lines, labelled("ID:       ", take_chars(text_or(d.get("Id"), "(unknown)").as_str(), 12).as_str()));
    push_line(&mut lines, labelled("Name:     ", trim_start_char(text_or(d.get("Name"), "(unknown)").as_str(), '/').as_str()));
    let config = d.get("Config");
    let state = d.get("State");
    push_line(&mut lines, labelled("Image:    ", text_or(get_in(config, "Image"), "(unknown)").as_str()));
    push_line(&mut lines, labelled("State:    ", text_or(get_in(state, "Status"), "(unknown)").as_str()));
    push_line(&mut lines, labelled("Created:  ", text_or(d.get("Created"), "(unknown)").as_str()));
    push_line(&mut lines, labelled("Started:  ", text_or(get_in(state, "StartedAt"), "(unknown)").as_str()));
    let ghost head = views(lines@);
    match object_in(get_in(d.get("NetworkSettings"), "Ports")) {
        Some(entries) => {
            let b = port_bindings_exec(entries);
            if b.len() > 0 {
                push_line(&mut lines, labelled("Ports:    ", join_strings(&b, ", ").as_str()));
            }
        },
        None => {},
    }
    let ghost with_ports = views(lines@);
    match array_in(get_in(config, "Env")) {
        Some(envs) => {
            let entries = texts_exec(envs);
            push_block(&mut lines, "Env:", &entries);
        },
        None => {},
    }
    proof {
        assert(views(lines@) =~= container_details(*d));
    }
    lines
}

/// The body that creates an exec instance running `cmd`, with its output
/// attached and no terminal.
pub fn exec_create_body(cmd: &Vec<String>) -> (r: Json)
    ensures
        member_keys(r) == seq!["AttachStdin"@, "AttachStdout"@, "AttachStderr"@, "Tty"@, "Cmd"@],
        r.at("AttachStdin"@) == Json::Bool(false),
        r.at("AttachStdout"@) == Json::Bool(true),
        r.at("AttachStderr"@) == Json::Bool(true),
        r.at("Tty"@) == Json::Bool(false),
        r.at("Cmd"@).array_of() is Some,
        texts(r.at("Cmd"@).array_of()->0) == views(cmd@),
        r.at("Cmd"@).array_of()->0.len() == cmd@.len(),
{
    let mut items: Vec<Json> = Vec::new();
    let mut i: usize = 0;
    while i < cmd.len()
        invariant
            i <= cmd@.len(),
            items@.len() == i,
            texts(items@) == views(cmd@).take(i as int),
        decreases cmd.len() - i,
    {
        let ghost before = items@;
        items.push(text_value(cmd[i].as_str()));
        proof {
            assert(items@.drop_last() =~= before);
            assert(views(cmd@).take(i + 1) =~= views(cmd@).take(i as int).push(cmd@[i as int]@));
        }
        i = i + 1;
    }
    proof {
        assert(views(cmd@).take(cmd@.len() as int) =~= views(cmd@));
    }
    let ghost iv = items@;
    let mut members: Vec<(String, Json)> = Vec::new();
    push_member(&mut members, "AttachStdin", Json::Bool(false));
    push_member(&mut members, "AttachStdout", Json::Bool(true));
    push_member(&mut members, "AttachStderr", Json::Bool(true));
    push_member(&mut members, "Tty", Json::Bool(false));
    push_member(&mut members, "Cmd", Json::Array(items));
    let r = Json::Object(members);
    proof {
        reveal_strlit("AttachStdin");
        reveal_strlit("AttachStdout");
        reveal_strlit("AttachStderr");
        reveal_strlit("Tty");
        reveal_strlit("Cmd");
        assert("AttachStdin"@.len() == 11);
        assert("AttachStdout"@.len() == 12);
        assert("AttachStderr"@.len() == 12);
        assert("Tty"@.len() == 3);
        assert("Cmd"@.len() == 3);
        assert("AttachStdout"@[9] != "AttachStderr"@[9]);
        assert("Tty"@[0] != "Cmd"@[0]);
        assert(member_keys(r) =~= seq!["AttachStdin"@, "AttachStdout"@, "AttachStderr"@, "Tty"@, "Cmd"@]);
        lemma_at_members(r);
        assert(r.at(member_keys(r)[4]) == Json::Array(items));
    }
    r
}

/// The ID of a created exec instance in the answer to its creation.
pub fn exec_id(data: &Json) -> (r: Option<String>)
    ensures
        match r {
            Some(id) => data.at("Id"@).str_of() == Some(id@),
            None => data.at("Id"@).str_of() is None,
        },
{
    match str_in(data.get("Id")) {
        Some(id) => Some(copy_str(id.as_str())),
        None => None,
    }
}

/// The path that starts exec instance `exec_id` on endpoint `eid`.
pub fn exec_start_path(eid: u32, exec_id: &str) -> (r: String)
    ensures
        r@ == docker_path(eid, "exec/"@ + exec_id@ + "/start"@),
{
    let mut rest = copy_str("exec/");
    rest.append(exec_id);
    rest.append("/start");
    docker_path_exec(eid, rest.as_str())
}

/// The body that starts an exec instance attached, with no terminal.
pub fn exec_start_body() -> (r: Json)
    ensures
        member_keys(r) == seq!["Detach"@, "Tty"@],
        r.at("Detach"@) == Json::Bool(false),
        r.at("Tty"@) == Json::Bool(false),
{
    let mut members: Vec<(String, Json)> = Vec::new();
    push_member(&mut members, "Detach", Json::Bool(false));
    push_member(&mut members, "Tty", Json::Bool(false));
    let r = Json::Object(members);
    proof {
        reveal_strlit("Detach");
        reveal_strlit("Tty");
        assert("Detach"@.len() == 6);
        assert("Tty"@.len() == 3);
        assert(member_keys(r) =~= seq!["Detach"@, "Tty"@]);
        assert(member_keys(r)[0] != member_keys(r)[1]);
        lemma_at_members(r);
    }
    r
}

/// The line that `container prune` prints for its answer.
pub fn prune_summary(data: &Json) -> (r: String)
    ensures
        r@ == "Removed "@ + dec(match data.at("ContainersDeleted"@).array_of() {
            Some(a) => a.len(),
            None => 0,
        }) + " container(s), reclaimed "@ + bytes_text(num_or_zero(data.at("SpaceReclaimed"@)) as nat) + "."@,
{
    let count = match array_in(data.get("ContainersDeleted")) {
        Some(a) => a.len(),
        None => 0,
    };
    let mut t = labelled_number("Removed ", count as u64);
    t.append(" container(s), reclaimed ");
    t.append(fmt_bytes(u64_or_zero(data.get("SpaceReclaimed"))).as_str());
    t.append(".");
    t
}

/// The path that sends signal `signal` to a container.
pub fn kill_path(eid: u32, cid: &str, signal: &str) -> (r: String)
    ensures
        r@ == container_path(eid, cid@, "/kill?signal="@ + url_encoded(signal@)),
{
    let mut tail = copy_str("/kill?signal=");
    tail.append(url_encode(signal).as_str());
    container_path_exec(eid, cid, tail.as_str())
}

/// The path that renames a container to `name`.
pub fn rename_path(eid: u32, cid: &str, name: &str) -> (r: String)
    ensures
        r@ == container_path(eid, cid@, "/rename?name="@ + url_encoded(name@)),
{
    let mut tail = copy_str("/rename?name=");
    tail.append(url_encode(name).as_str());
    container_path_exec(eid, cid, tail.as_str())
}

/// The text cells of a list, joined by tabs.
pub open spec fn tab_row(cells: Seq<Json>) -> Seq<char> {
    join(texts(cells), "\t"@)
}

/// What `container top` prints for the answer to `GET .../top`: the
/// `Titles`, then each of the `Processes`, their cells separated by tabs.
pub open spec fn top_lines(d: Json) -> Seq<Seq<char>> {
    let titles = match d.at("Titles"@).array_of() {
        Some(t) => seq![tab_row(t)],
        None => Seq::empty(),
    };
    let procs = match d.at("Processes"@).array_of() {
        Some(ps) => ps.map_values(|p: Json| tab_row(items_or_empty(p))),
        None => Seq::empty(),
    };
    titles + procs
}

fn tab_row_exec(cells: &Vec<Json>) -> (r: String)
    ensures
        r@ == tab_row(cells@),
{
    let t = texts_exec(cells);
    proof {
        assert(t@.map_values(|x: String| x@) =~= views(t@));
    }
    join_strings(&t, "\t")
}

/// Formats `container top`.
pub fn top_lines_exec(d: &Json) -> (r: Vec<String>)
    ensures
        views(r@) == top_lines(*d),
{
    let mut lines: Vec<String> = Vec::new();
    match array_in(d.get("Titles")) {
        Some(t) => push_line(&mut lines, tab_row_exec(t)),
        None => {},
    }
    let ghost head = views(lines@);
    match array_in(d.get("Processes")) {
        Some(ps) => {
            let mut i: usize = 0;
            while i < ps.len()
                invariant
                    i <= ps@.len(),
                    views(lines@) == head + ps@.take(i as int).map_values(|p: Json| tab_row(items_or_empty(p))),
                decreases ps.len() - i,
            {
                let empty: Vec<Json> = Vec::new();
                let cells = match &ps[i] {
                    Json::Array(c) => c,
                    _ => &empty,
                };
                assert(cells@ == items_or_empty(ps@[i as int]));
                let ghost before = views(lines@);
                let row = tab_row_exec(cells);
                assert(row@ == tab_row(items_or_empty(ps@[i as int])));
                push_line(&mut lines, row);
                proof {
                    assert(ps@.take(i + 1).map_values(|p: Json| tab_row(items_or_empty(p)))
                        =~= ps@.take(i as int).map_values(|p: Json| tab_row(items_or_empty(p))).push(
                        tab_row(items_or_empty(ps@[i as int])),
                    ));
                }
                i = i + 1;
            }
            proof {
                assert(ps@.take(ps@.len() as int) =~= ps@);
            }
        },
        None => {},
    }
    proof {
        assert(views(lines@) =~= top_lines(*d));
    }
    lines
}

} // verus!
