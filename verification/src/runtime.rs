//! Workload runtimes of a host: what is decided about ports, images, containers
//! and jobs. A Linux host runs tenant containers with GPU passthrough; an Apple
//! host runs jobs of its own making, to which the tenant gives only parameters.

use std::collections::BTreeSet;
use vstd::prelude::*;

use crate::model::RentalKind;
use crate::text::{
    chars_of, contains, decimal, decimal_text, numbers_read_back, opt_text, parse_int, read_int,
    text_of,
};

verus! {

/// What to launch.
#[derive(Debug, Clone, PartialEq, Eq)]
pub struct RentalSpec {
    pub rental_id: i64,
    pub image: String,
    /// Put into the container's `authorized_keys`.
    pub ssh_pubkey: String,
}

/// Result of a successful launch.
#[derive(Debug, Clone, PartialEq, Eq)]
pub struct Started {
    pub container_id: String,
    /// Host-side port: SSH for containers, HTTP for jobs.
    pub ssh_port: i32,
    pub kind: RentalKind,
}

/// A workload that runs on this host.
#[derive(Debug, Clone, PartialEq, Eq)]
pub struct RunningRental {
    pub rental_id: i64,
    pub container_id: String,
    pub ssh_port: i32,
}

/// What [`RunningRental`] holds, with its texts as character sequences.
#[verifier::ext_equal]
pub struct RunningRentalView {
    pub rental_id: i64,
    pub container_id: Seq<char>,
    pub ssh_port: i32,
}

impl View for RunningRental {
    type V = RunningRentalView;

    open spec fn view(&self) -> RunningRentalView {
        RunningRentalView {
            rental_id: self.rental_id,
            container_id: self.container_id@,
            ssh_port: self.ssh_port,
        }
    }
}

/// The workloads of a list, each by its view.
pub open spec fn running_views(s: Seq<RunningRental>) -> Seq<RunningRentalView> {
    s.map_values(|r: RunningRental| r@)
}

// Ports.

/// The refusal of a port range that runs backwards.
pub open spec fn range_refusal(start: i32, end: i32) -> Seq<char> {
    "port_start ("@ + decimal(start as int) + ") must be <= port_end ("@ + decimal(end as int) + ")"@
}

/// Checks a host's port range.
pub fn check_port_range(port_start: i32, port_end: i32) -> (r: Result<(), String>)
    ensures
        match r {
            Ok(_) => port_start <= port_end,
            Err(e) => port_start > port_end && e@ == range_refusal(port_start, port_end),
        },
{
    if port_start <= port_end {
        return Ok(());
    }
    let mut e = "port_start (".to_owned();
    e.push_str(decimal_text(port_start as i64).as_str());
    e.push_str(") must be <= port_end (");
    e.push_str(decimal_text(port_end as i64).as_str());
    e.push_str(")");
    Err(e)
}

fn is_used(used: &BTreeSet<i32>, port: i32) -> (r: bool)
    ensures
        r == used@.contains(port),
{
    broadcast use vstd::laws_cmp::group_laws_cmp;
    broadcast use vstd::std_specs::btree::group_btree_axioms;

    used.contains(&port)
}

fn mark_used(used: &mut BTreeSet<i32>, port: i32)
    ensures
        final(used)@ == old(used)@.insert(port),
{
    broadcast use vstd::laws_cmp::group_laws_cmp;
    broadcast use vstd::std_specs::btree::group_btree_axioms;

    used.insert(port);
}

/// First free port of `start..=end` that is not in `used`.
pub fn pick_free_port(start: i32, end: i32, used: &BTreeSet<i32>) -> (r: Option<i32>)
    ensures
        match r {
            Some(p) => start <= p <= end && !used@.contains(p) && forall|q: i32|
                start <= q < p ==> #[trigger] used@.contains(q),
            None => forall|q: i32| start <= q <= end ==> #[trigger] used@.contains(q),
        },
{
    if start > end {
        return None;
    }
    let mut p: i32 = start;
    while p < end
        invariant
            start <= p <= end,
            forall|q: i32| start <= q < p ==> #[trigger] used@.contains(q),
        decreases end - p,
    {
        if !is_used(used, p) {
            return Some(p);
        }
        p += 1;
    }
    if !is_used(used, p) {
        Some(p)
    } else {
        None
    }
}

/// The ports of `start..=end` that are not in `used`, in rising order.
pub fn free_ports(start: i32, end: i32, used: &BTreeSet<i32>) -> (r: Vec<i32>)
    ensures
        forall|i: int, j: int| 0 <= i < j < r@.len() ==> r@[i] < r@[j],
        forall|q: i32| #[trigger]
            r@.contains(q) <==> start <= q <= end && !used@.contains(q),
{
    let mut out: Vec<i32> = Vec::new();
    let mut p: i64 = start as i64;
    while p <= end as i64
        invariant
            start <= p,
            p <= end + 1 || p == start,
            forall|i: int| 0 <= i < out@.len() ==> #[trigger] out@[i] < p,
            forall|i: int, j: int| 0 <= i < j < out@.len() ==> out@[i] < out@[j],
            forall|q: i32| #[trigger]
                out@.contains(q) <==> start <= q < p && q <= end && !used@.contains(q),
        decreases end + 1 - p,
    {
        let port: i32 = p as i32;
        let ghost before = out@;
        if !is_used(used, port) {
            out.push(port);
            proof {
                assert(out@[out@.len() - 1] == port);
                assert forall|q: i32| #[trigger] out@.contains(q) <==> start <= q < p + 1 && q <= end
                    && !used@.contains(q) by {
                    if before.contains(q) {
                        let i = before.index_of(q);
                        assert(out@[i] == q);
                    }
                    if out@.contains(q) && q != port {
                        let i = out@.index_of(q);
                        assert(before[i] == q);
                    }
                }
            }
        }
        p += 1;
    }
    out
}

/// The ports that running workloads hold.
pub fn used_ports(running: &Vec<RunningRental>) -> (r: BTreeSet<i32>)
    ensures
        forall|q: i32| #[trigger]
            r@.contains(q) <==> exists|i: int|
                0 <= i < running@.len() && (#[trigger] running@[i]).ssh_port == q,
{
    let mut used: BTreeSet<i32> = BTreeSet::new();
    let mut k: usize = 0;
    while k < running.len()
        invariant
            k <= running@.len(),
            forall|q: i32| #[trigger]
                used@.contains(q) <==> exists|i: int|
                    0 <= i < k && (#[trigger] running@[i]).ssh_port == q,
        decreases running@.len() - k,
    {
        let ghost before = used@;
        mark_used(&mut used, running[k].ssh_port);
        proof {
            assert forall|q: i32| #[trigger] used@.contains(q) <==> exists|i: int|
                0 <= i < k + 1 && (#[trigger] running@[i]).ssh_port == q by {
                if before.contains(q) {
                    let i = choose|i: int| 0 <= i < k && (#[trigger] running@[i]).ssh_port == q;
                    assert(0 <= i < k + 1 && running@[i].ssh_port == q);
                }
                if q == running@[k as int].ssh_port {
                    assert(running@[k as int].ssh_port == q);
                }
            }
        }
        k += 1;
    }
    used
}

// Images.

/// The position of the last `c`.
pub open spec fn last_of(s: Seq<char>, c: char) -> Option<int>
    decreases s.len(),
{
    if s.len() == 0 {
        None
    } else if s.last() == c {
        Some(s.len() - 1)
    } else {
        last_of(s.drop_last(), c)
    }
}

/// The position of the first `c`.
pub open spec fn first_of(s: Seq<char>, c: char) -> Option<int>
    decreases s.len(),
{
    if s.len() == 0 {
        None
    } else {
        match first_of(s.drop_last(), c) {
            Some(i) => Some(i),
            None => if s.last() == c {
                Some(s.len() - 1)
            } else {
                None
            },
        }
    }
}

/// What the first position means.
pub proof fn lemma_first_of(s: Seq<char>, c: char)
    ensures
        match first_of(s, c) {
            Some(i) => 0 <= i < s.len() && s[i] == c && forall|j: int|
                0 <= j < i ==> #[trigger] s[j] != c,
            None => forall|j: int| 0 <= j < s.len() ==> #[trigger] s[j] != c,
        },
    decreases s.len(),
{
    if s.len() > 0 {
        lemma_first_of(s.drop_last(), c);
        assert forall|j: int| 0 <= j < s.len() - 1 implies s.drop_last()[j] == #[trigger] s[j] by {}
    }
}

/// An image as repository and tag: the tag stands behind the last colon, unless a
/// slash follows it, which makes it the port of a registry. Without a tag it is
/// `latest`.
pub open spec fn image_parts(image: Seq<char>) -> (Seq<char>, Seq<char>) {
    match last_of(image, ':') {
        Some(i) => if image.skip(i + 1).contains('/') {
            (image, "latest"@)
        } else {
            (image.take(i), image.skip(i + 1))
        },
        None => (image, "latest"@),
    }
}

/// Splits `repo[:tag]` into repository and tag.
pub fn split_image_tag(image: &str) -> (r: (String, String))
    ensures
        (r.0@, r.1@) == image_parts(image@),
{
    let chars = chars_of(image);
    let mut i: usize = chars.len();
    let mut slash: bool = false;
    proof {
        assert(image@.take(i as int) =~= image@);
        assert(!image@.skip(i as int).contains('/'));
    }
    while i > 0
        invariant
            chars@ == image@,
            i <= chars@.len(),
            last_of(image@, ':') == last_of(image@.take(i as int), ':'),
            slash == image@.skip(i as int).contains('/'),
        decreases i,
    {
        let c: char = chars[i - 1];
        let ghost head = image@.take(i as int);
        proof {
            assert(head.drop_last() =~= image@.take(i - 1));
            assert(head.last() == c);
        }
        if c == ':' {
            if slash {
                return (image.to_owned(), "latest".to_owned());
            }
            let repo = text_of(&chars, 0, i - 1);
            let tag = text_of(&chars, i, chars.len());
            proof {
                assert(repo@ =~= image@.take(i - 1));
                assert(tag@ =~= image@.skip(i as int));
            }
            return (repo, tag);
        }
        proof {
            let before = image@.skip(i as int);
            let now = image@.skip(i - 1);
            assert(now =~= seq![c] + before);
            if before.contains('/') {
                let k = before.index_of('/');
                assert(now[k + 1] == '/');
            }
            if c == '/' {
                assert(now[0] == '/');
            }
            if now.contains('/') && c != '/' {
                let k = now.index_of('/');
                assert(before[k - 1] == '/');
            }
        }
        if c == '/' {
            slash = true;
        }
        i -= 1;
    }
    (image.to_owned(), "latest".to_owned())
}

/// A tag that was split off joins the repository again to the image it came from.
pub proof fn image_parts_join(image: Seq<char>)
    ensures
        ({
            let (repo, tag) = image_parts(image);
            repo == image && tag == "latest"@ || repo + seq![':'] + tag == image
        }),
{
    lemma_last_of(image, ':');
    match last_of(image, ':') {
        Some(i) => {
            assert(image.take(i) + seq![':'] + image.skip(i + 1) =~= image);
        },
        None => {},
    }
}

/// What the last position means.
pub proof fn lemma_last_of(s: Seq<char>, c: char)
    ensures
        match last_of(s, c) {
            Some(i) => 0 <= i < s.len() && s[i] == c && forall|j: int|
                i < j < s.len() ==> #[trigger] s[j] != c,
            None => forall|j: int| 0 <= j < s.len() ==> #[trigger] s[j] != c,
        },
    decreases s.len(),
{
    if s.len() > 0 && s.last() != c {
        lemma_last_of(s.drop_last(), c);
        assert forall|j: int| 0 <= j < s.len() - 1 implies s.drop_last()[j] == #[trigger] s[j] by {}
    }
}

// Containers.

/// The name of a rental's container.
pub open spec fn container_name_of(rental_id: i64) -> Seq<char> {
    "vgpu-rental-"@ + decimal(rental_id as int)
}

/// The name of a rental's container.
pub fn container_name(rental_id: i64) -> (r: String)
    ensures
        r@ == container_name_of(rental_id),
{
    let mut name = "vgpu-rental-".to_owned();
    name.push_str(decimal_text(rental_id).as_str());
    name
}

/// What [`RentalSpec`] holds, with its texts as character sequences.
#[verifier::ext_equal]
pub struct RentalSpecView {
    pub rental_id: i64,
    pub image: Seq<char>,
    pub ssh_pubkey: Seq<char>,
}

impl View for RentalSpec {
    type V = RentalSpecView;

    open spec fn view(&self) -> RentalSpecView {
        RentalSpecView {
            rental_id: self.rental_id,
            image: self.image@,
            ssh_pubkey: self.ssh_pubkey@,
        }
    }
}

/// What [`Started`] holds, with its texts as character sequences.
#[verifier::ext_equal]
pub struct StartedView {
    pub container_id: Seq<char>,
    pub ssh_port: i32,
    pub kind: RentalKind,
}

impl View for Started {
    type V = StartedView;

    open spec fn view(&self) -> StartedView {
        StartedView { container_id: self.container_id@, ssh_port: self.ssh_port, kind: self.kind }
    }
}

/// A container to create: the labels by which the agent finds it again after a
/// restart, the port by which the tenant logs in, and the GPUs it gets.
#[derive(Debug, Clone, PartialEq, Eq)]
pub struct ContainerPlan {
    pub name: String,
    pub image: String,
    pub env: Vec<String>,
    pub labels: Vec<(String, String)>,
    pub container_port: String,
    pub host_ip: String,
    pub host_port: String,
    pub ssh_port: i32,
    /// Number of GPUs; minus one asks for all.
    pub gpu_count: i64,
    pub gpu_capability: String,
}

/// What [`ContainerPlan`] holds, with its texts as character sequences.
#[verifier::ext_equal]
pub struct ContainerPlanView {
    pub name: Seq<char>,
    pub image: Seq<char>,
    pub env: Seq<Seq<char>>,
    pub labels: Seq<(Seq<char>, Seq<char>)>,
    pub container_port: Seq<char>,
    pub host_ip: Seq<char>,
    pub host_port: Seq<char>,
    pub ssh_port: i32,
    pub gpu_count: i64,
    pub gpu_capability: Seq<char>,
}

impl View for ContainerPlan {
    type V = ContainerPlanView;

    open spec fn view(&self) -> ContainerPlanView {
        ContainerPlanView {
            name: self.name@,
            image: self.image@,
            env: self.env@.map_values(|s: String| s@),
            labels: self.labels@.map_values(|l: (String, String)| (l.0@, l.1@)),
            container_port: self.container_port@,
            host_ip: self.host_ip@,
            host_port: self.host_port@,
            ssh_port: self.ssh_port,
            gpu_count: self.gpu_count,
            gpu_capability: self.gpu_capability@,
        }
    }
}

/// The container of a rental on a port: the tenant's key in its environment, its
/// SSH port reachable on that port of every address, and all GPUs.
pub open spec fn container_plan(spec: RentalSpecView, port: i32) -> ContainerPlanView {
    ContainerPlanView {
        name: container_name_of(spec.rental_id),
        image: spec.image,
        env: seq!["PUBLIC_KEY="@ + spec.ssh_pubkey, "SSH_PUBLIC_KEY="@ + spec.ssh_pubkey],
        labels: seq![
            ("io.vgpu.rental_id"@, decimal(spec.rental_id as int)),
            ("io.vgpu.ssh_port"@, decimal(port as int)),
        ],
        container_port: "22/tcp"@,
        host_ip: "0.0.0.0"@,
        host_port: decimal(port as int),
        ssh_port: port,
        gpu_count: -1i64,
        gpu_capability: "gpu"@,
    }
}

/// True when a running workload holds the port.
pub open spec fn port_taken(running: Seq<RunningRental>, port: i32) -> bool {
    exists|i: int| 0 <= i < running.len() && (#[trigger] running[i]).ssh_port == port
}

/// True for the lowest port of a range that no running workload holds.
pub open spec fn lowest_free(start: i32, end: i32, running: Seq<RunningRental>, port: i32) -> bool {
    &&& start <= port <= end
    &&& !port_taken(running, port)
    &&& forall|q: i32| start <= q < port ==> #[trigger] port_taken(running, q)
}

/// The refusal of a launch on a host whose ports are all taken.
pub open spec fn no_port_text(what: Seq<char>, start: i32, end: i32) -> Seq<char> {
    "no free "@ + what + " in "@ + decimal(start as int) + "..="@ + decimal(end as int)
}

pub fn no_port(what: &str, start: i32, end: i32) -> (r: String)
    ensures
        r@ == no_port_text(what@, start, end),
{
    let mut e = "no free ".to_owned();
    e.push_str(what);
    e.push_str(" in ");
    e.push_str(decimal_text(start as i64).as_str());
    e.push_str("..=");
    e.push_str(decimal_text(end as i64).as_str());
    e
}

/// The lowest port that no running workload holds.
pub fn next_port(start: i32, end: i32, running: &Vec<RunningRental>) -> (r: Option<i32>)
    ensures
        match r {
            Some(p) => lowest_free(start, end, running@, p),
            None => forall|q: i32| start <= q <= end ==> #[trigger] port_taken(running@, q),
        },
{
    let used = used_ports(running);
    proof {
        assert forall|q: i32| #[trigger] port_taken(running@, q) == used@.contains(q) by {}
    }
    pick_free_port(start, end, &used)
}

pub fn prefixed(prefix: &str, text: &str) -> (r: String)
    ensures
        r@ == prefix@ + text@,
{
    let mut s = prefix.to_owned();
    s.push_str(text);
    s
}

/// Plans the container of a rental on the lowest free port of the host's range.
pub fn plan_container(
    port_start: i32,
    port_end: i32,
    running: &Vec<RunningRental>,
    spec: &RentalSpec,
) -> (r: Result<ContainerPlan, String>)
    ensures
        match r {
            Ok(plan) => lowest_free(port_start, port_end, running@, plan.ssh_port) && plan@
                == container_plan(spec@, plan.ssh_port),
            Err(e) => e@ == no_port_text("SSH port"@, port_start, port_end) && forall|q: i32|
                port_start <= q <= port_end ==> #[trigger] port_taken(running@, q),
        },
{
    let port: i32 = match next_port(port_start, port_end, running) {
        Some(p) => p,
        None => {
            return Err(no_port("SSH port", port_start, port_end));
        },
    };
    let key: &str = spec.ssh_pubkey.as_str();
    let env: Vec<String> = vec![prefixed("PUBLIC_KEY=", key), prefixed("SSH_PUBLIC_KEY=", key)];
    let labels: Vec<(String, String)> = vec![
        ("io.vgpu.rental_id".to_owned(), decimal_text(spec.rental_id)),
        ("io.vgpu.ssh_port".to_owned(), decimal_text(port as i64)),
    ];
    let plan = ContainerPlan {
        name: container_name(spec.rental_id),
        image: spec.image.clone(),
        env,
        labels,
        container_port: "22/tcp".to_owned(),
        host_ip: "0.0.0.0".to_owned(),
        host_port: decimal_text(port as i64),
        ssh_port: port,
        gpu_count: -1,
        gpu_capability: "gpu".to_owned(),
    };
    proof {
        assert(plan@.env =~= container_plan(spec@, port).env);
        assert(plan@.labels =~= container_plan(spec@, port).labels);
        assert(plan@ =~= container_plan(spec@, port));
    }
    Ok(plan)
}

/// What the control plane is told of a container that was started.
pub fn started_container(plan: &ContainerPlan, container_id: String) -> (r: Started)
    ensures
        r@ == (StartedView {
            container_id: container_id@,
            ssh_port: plan.ssh_port,
            kind: RentalKind::Ssh,
        }),
{
    Started { container_id, ssh_port: plan.ssh_port, kind: RentalKind::Ssh }
}

/// True for an answer that a container to be removed is not there: it is gone
/// already.
pub fn is_not_found(status_code: u16) -> (r: bool)
    ensures
        r == (status_code == 404),
{
    status_code == 404
}

/// True for an answer that a container to be stopped does not run.
pub fn is_not_modified(status_code: u16) -> (r: bool)
    ensures
        r == (status_code == 304),
{
    status_code == 304
}

/// A running container as it is found: its id and the agent's two labels.
#[derive(Debug, Clone, PartialEq, Eq)]
pub struct FoundContainer {
    pub id: Option<String>,
    pub rental_label: Option<String>,
    pub port_label: Option<String>,
}

/// The workload that a container's labels tell of, if both can be read.
pub open spec fn labelled(c: FoundContainer) -> Option<RunningRentalView> {
    match (c.rental_label, c.port_label) {
        (Some(rid), Some(port)) => match (read_int(rid@, true), read_int(port@, true)) {
            (Some(r), Some(p)) => if i64::MIN <= r <= i64::MAX && i32::MIN <= p <= i32::MAX {
                Some(
                    RunningRentalView {
                        rental_id: r as i64,
                        container_id: match c.id {
                            Some(id) => id@,
                            None => Seq::empty(),
                        },
                        ssh_port: p as i32,
                    },
                )
            } else {
                None
            },
            _ => None,
        },
        _ => None,
    }
}

/// The workloads that some containers' labels tell of.
pub open spec fn labelled_all(cs: Seq<FoundContainer>) -> Seq<RunningRentalView>
    decreases cs.len(),
{
    if cs.len() == 0 {
        Seq::empty()
    } else {
        let head = labelled_all(cs.drop_last());
        match labelled(cs.last()) {
            Some(r) => head.push(r),
            None => head,
        }
    }
}

fn read_labels(c: &FoundContainer) -> (r: Option<RunningRental>)
    ensures
        match r {
            Some(x) => labelled(*c) == Some(x@),
            None => labelled(*c) is None,
        },
{
    match (&c.rental_label, &c.port_label) {
        (Some(rid), Some(port)) => {
            let id: Option<i64> = parse_int(rid.as_str(), true, i64::MIN, i64::MAX);
            let p: Option<i64> = parse_int(port.as_str(), true, i32::MIN as i64, i32::MAX as i64);
            match (id, p) {
                (Some(rental_id), Some(ssh_port)) => {
                    let container_id = match &c.id {
                        Some(s) => s.clone(),
                        None => String::new(),
                    };
                    proof {
                        if c.id is None {
                            assert(container_id@ =~= Seq::empty());
                        }
                    }
                    Some(RunningRental { rental_id, container_id, ssh_port: ssh_port as i32 })
                },
                _ => None,
            }
        },
        _ => None,
    }
}

/// The workloads that run on this host, by the labels of its containers. A
/// container whose labels cannot be read is skipped.
pub fn running_from_labels(found: &Vec<FoundContainer>) -> (r: Vec<RunningRental>)
    ensures
        running_views(r@) == labelled_all(found@),
{
    let mut out: Vec<RunningRental> = Vec::new();
    let mut k: usize = 0;
    proof {
        assert(running_views(out@) =~= labelled_all(found@.take(0)));
    }
    while k < found.len()
        invariant
            k <= found@.len(),
            running_views(out@) == labelled_all(found@.take(k as int)),
        decreases found@.len() - k,
    {
        proof {
            assert(found@.take(k + 1).drop_last() =~= found@.take(k as int));
        }
        if let Some(x) = read_labels(&found[k]) {
            let ghost shown = running_views(out@);
            out.push(x);
            proof {
                assert(running_views(out@) =~= shown.push(x@));
            }
        }
        k += 1;
    }
    proof {
        assert(found@.take(k as int) =~= found@);
    }
    out
}

/// A container is found again by its labels: what the agent stamped on it reads
/// back as the same rental on the same port.
pub proof fn labels_read_back(spec: RentalSpecView, port: i32, c: FoundContainer)
    requires
        opt_text(c.rental_label) == Some(container_plan(spec, port).labels[0].1),
        opt_text(c.port_label) == Some(container_plan(spec, port).labels[1].1),
        c.id is Some,
    ensures
        labelled(c) == Some(
            RunningRentalView {
                rental_id: spec.rental_id,
                container_id: c.id->0@,
                ssh_port: port,
            },
        ),
{
    numbers_read_back(spec.rental_id as int);
    numbers_read_back(port as int);
}

/// Two rentals never share a container name.
pub proof fn container_names_differ(a: i64, b: i64)
    requires
        container_name_of(a) == container_name_of(b),
    ensures
        a == b,
{
    let p = "vgpu-rental-"@;
    assert(container_name_of(a).skip(p.len() as int) =~= decimal(a as int));
    assert(container_name_of(b).skip(p.len() as int) =~= decimal(b as int));
    numbers_read_back(a as int);
    numbers_read_back(b as int);
}

} // verus!
