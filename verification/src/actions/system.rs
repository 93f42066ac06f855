//! `system prune`: what it asks each endpoint to prune, what it reports per
//! endpoint, and the totals it keeps across endpoints.
use vstd::prelude::*;
use crate::json::{Json, u64_in, array_in};
use crate::render::{labelled, labelled_number, push_line, views};
use crate::text::{append_decimal, dec};
use crate::units::{fmt_size, size_text};

verus! {

/// What `system prune` prunes on an endpoint, in the order it prunes it.
#[derive(PartialEq, Eq, Structural, Clone, Copy, Debug)]
pub enum PruneKind {
    Containers,
    Images,
    Volumes,
    Networks,
}

/// The path that `system prune` posts to, to prune `kind` on endpoint `eid`:
/// images without a filter (the dangling, untagged ones only), volumes with
/// `filters={"all":["true"]}` (named ones too).
pub open spec fn prune_path(kind: PruneKind, eid: u32) -> Seq<char> {
    "endpoints/"@ + dec(eid as nat) + prune_tail(kind)
}

/// The tail of a prune path after the endpoint's ID.
pub open spec fn prune_tail(kind: PruneKind) -> Seq<char> {
    match kind {
        PruneKind::Containers => "/docker/containers/prune"@,
        PruneKind::Images => "/docker/images/prune"@,
        PruneKind::Volumes => "/docker/volumes/prune?filters=%7B%22all%22%3A%5B%22true%22%5D%7D"@,
        PruneKind::Networks => "/docker/networks/prune"@,
    }
}

fn prune_suffix(kind: PruneKind) -> (r: &'static str)
    ensures
        r@ == prune_tail(kind),
{
    match kind {
        PruneKind::Containers => "/docker/containers/prune",
        PruneKind::Images => "/docker/images/prune",
        PruneKind::Volumes => "/docker/volumes/prune?filters=%7B%22all%22%3A%5B%22true%22%5D%7D",
        PruneKind::Networks => "/docker/networks/prune",
    }
}

/// The path to prune `kind` on endpoint `eid`.
pub fn prune_path_exec(kind: PruneKind, eid: u32) -> (r: String)
    ensures
        r@ == prune_path(kind, eid),
{
    let mut t = labelled_number("endpoints/", eid as u64);
    let suffix = prune_suffix(kind);
    t.append(suffix);
    t
}

/// The member of a prune answer that lists what was deleted.
pub open spec fn deleted_key(kind: PruneKind) -> Seq<char> {
    match kind {
        PruneKind::Containers => "ContainersDeleted"@,
        PruneKind::Images => "ImagesDeleted"@,
        PruneKind::Volumes => "VolumesDeleted"@,
        PruneKind::Networks => "NetworksDeleted"@,
    }
}

fn deleted_key_exec(kind: PruneKind) -> (r: &'static str)
    ensures
        r@ == deleted_key(kind),
{
    match kind {
        PruneKind::Containers => "ContainersDeleted",
        PruneKind::Images => "ImagesDeleted",
        PruneKind::Volumes => "VolumesDeleted",
        PruneKind::Networks => "NetworksDeleted",
    }
}

/// How many items a prune answer lists as deleted (`0` when it lists none).
pub open spec fn deleted_count(kind: PruneKind, data: Json) -> nat {
    match data.at(deleted_key(kind)).array_of() {
        Some(items) => items.len(),
        None => 0,
    }
}

/// How many bytes a prune answer reports as reclaimed (`0` when it reports
/// none); network prunes reclaim nothing that is counted.
pub open spec fn reclaimed_of(kind: PruneKind, data: Json) -> nat {
    match kind {
        PruneKind::Networks => 0,
        _ => match data.at("SpaceReclaimed"@).u64_of() {
            Some(n) => n as nat,
            None => 0,
        },
    }
}

/// The number of items a prune answer lists as deleted.
pub fn deleted_count_exec(kind: PruneKind, data: &Json) -> (r: usize)
    ensures
        r == deleted_count(kind, *data),
{
    match array_in(data.get(deleted_key_exec(kind))) {
        Some(items) => items.len(),
        None => 0,
    }
}

fn reclaimed_exec(kind: PruneKind, data: &Json) -> (r: u64)
    ensures
        r == reclaimed_of(kind, *data),
{
    match kind {
        PruneKind::Networks => 0,
        _ => match u64_in(data.get("SpaceReclaimed")) {
            Some(n) => n,
            None => 0,
        },
    }
}

/// The label of a kind in the report, padded so that the counts line up.
pub open spec fn kind_label(kind: PruneKind) -> Seq<char> {
    match kind {
        PruneKind::Containers => "Containers: "@,
        PruneKind::Images => "Images:     "@,
        PruneKind::Volumes => "Volumes:    "@,
        PruneKind::Networks => "Networks:   "@,
    }
}

fn kind_label_exec(kind: PruneKind) -> (r: &'static str)
    ensures
        r@ == kind_label(kind),
{
    match kind {
        PruneKind::Containers => "Containers: ",
        PruneKind::Images => "Images:     ",
        PruneKind::Volumes => "Volumes:    ",
        PruneKind::Networks => "Networks:   ",
    }
}

/// The line that introduces an endpoint.
pub fn endpoint_heading(name: &str) -> (r: String)
    ensures
        r@ == "Pruning "@ + name@ + "..."@,
{
    let mut t = labelled("Pruning ", name);
    t.append("...");
    t
}

/// The line that reports a failed prune (printed to the error stream).
pub fn failure_line(kind: PruneKind, err: &str) -> (r: String)
    ensures
        r@ == "  "@ + kind_label(kind) + "failed ("@ + err@ + ")"@,
{
    let mut t = labelled("  ", kind_label_exec(kind));
    t.append("failed (");
    t.append(err);
    t.append(")");
    t
}

/// The totals that `system prune` keeps across endpoints.
pub struct PruneTotals {
    pub containers: usize,
    pub images: usize,
    pub volumes: usize,
    pub networks: usize,
    pub reclaimed: u64,
}

impl PruneTotals {
    /// The count kept for `kind`.
    pub open spec fn count(self, kind: PruneKind) -> nat {
        match kind {
            PruneKind::Containers => self.containers as nat,
            PruneKind::Images => self.images as nat,
            PruneKind::Volumes => self.volumes as nat,
            PruneKind::Networks => self.networks as nat,
        }
    }

    /// Whether the totals can take in a prune answer without overflowing.
    pub open spec fn fits(self, kind: PruneKind, data: Json) -> bool {
        &&& self.count(kind) + deleted_count(kind, data) <= usize::MAX
        &&& self.reclaimed + reclaimed_of(kind, data) <= u64::MAX
    }

    /// The totals before any endpoint.
    pub fn new() -> (r: PruneTotals)
        ensures
            r.containers == 0 && r.images == 0 && r.volumes == 0 && r.networks == 0 && r.reclaimed == 0,
    {
        PruneTotals { containers: 0, images: 0, volumes: 0, networks: 0, reclaimed: 0 }
    }

    /// Whether the totals can take in a prune answer.
    pub fn can_record(&self, kind: PruneKind, data: &Json) -> (r: bool)
        ensures
            r == self.fits(kind, *data),
    {
        let n = deleted_count_exec(kind, data);
        let c = match kind {
            PruneKind::Containers => self.containers,
            PruneKind::Images => self.images,
            PruneKind::Volumes => self.volumes,
            PruneKind::Networks => self.networks,
        };
        let b = reclaimed_exec(kind, data);
        n <= usize::MAX - c && b <= u64::MAX - self.reclaimed
    }

    /// Takes in a successful prune answer for `kind`: its count goes to that
    /// kind's total, the bytes it reclaimed to the reclaimed total; returns
    /// the line that reports it.
    pub fn record(&mut self, kind: PruneKind, data: &Json) -> (line: String)
        requires
            old(self).fits(kind, *data),
        ensures
            final(self).count(kind) == old(self).count(kind) + deleted_count(kind, *data),
            final(self).reclaimed == old(self).reclaimed + reclaimed_of(kind, *data),
            forall|k: PruneKind| k != kind ==> final(self).count(k) == old(self).count(k),
            line@ == "  "@ + kind_label(kind) + dec(deleted_count(kind, *data)) + " removed"@,
    {
        let n = deleted_count_exec(kind, data);
        let b = reclaimed_exec(kind, data);
        match kind {
            PruneKind::Containers => self.containers = self.containers + n,
            PruneKind::Images => self.images = self.images + n,
            PruneKind::Volumes => self.volumes = self.volumes + n,
            PruneKind::Networks => self.networks = self.networks + n,
        }
        self.reclaimed = self.reclaimed + b;
        let mut t = labelled("  ", kind_label_exec(kind));
        append_decimal(&mut t, n as u64);
        t.append(" removed");
        t
    }

    /// The closing lines: an empty line, the counts, the bytes reclaimed.
    pub fn summary_lines(&self) -> (r: Vec<String>)
        ensures
            views(r@) == seq![
                Seq::<char>::empty(),
                "Total removed: "@ + dec(self.containers as nat) + " container(s), "@ + dec(self.images as nat)
                    + " image(s), "@ + dec(self.volumes as nat) + " volume(s), "@ + dec(self.networks as nat)
                    + " network(s)"@,
                "Total reclaimed: "@ + size_text(self.reclaimed as nat),
            ],
    {
        let mut lines: Vec<String> = Vec::new();
        push_line(&mut lines, String::new());
        let mut t = labelled_number("Total removed: ", self.containers as u64);
        t.append(" container(s), ");
        append_decimal(&mut t, self.images as u64);
        t.append(" image(s), ");
        append_decimal(&mut t, self.volumes as u64);
        t.append(" volume(s), ");
        append_decimal(&mut t, self.networks as u64);
        t.append(" network(s)");
        push_line(&mut lines, t);
        push_line(&mut lines, labelled("Total reclaimed: ", fmt_size(self.reclaimed).as_str()));
        proof {
            assert(views(lines@) =~= seq![
                Seq::<char>::empty(),
                "Total removed: "@ + dec(self.containers as nat) + " container(s), "@ + dec(self.images as nat)
                    + " image(s), "@ + dec(self.volumes as nat) + " volume(s), "@ + dec(self.networks as nat)
                    + " network(s)"@,
                "Total reclaimed: "@ + size_text(self.reclaimed as nat),
            ]);
        }
        lines
    }
}

} // verus!
