//! Laws of a host: what it makes of a command, which port and which container or job a
//! rental gets, and what it reports.

use vstd::prelude::*;

use super::lookup::{rentals_are_found, the_bearer_is_the_machine};
use super::texts::{
    only_white_space_trims_to_nothing, trimming_takes_white_space_only, what_begins_a_text,
};
use super::{after, valid, Event};
use crate::agent::{
    action_of, cpu_label, is_scratch, report_of_start, report_of_stop, ActionView, DiskSeen,
};
use crate::api::{CommandView, ReportRequestView};
use crate::db::Market;
use crate::mlx::{
    id_char, job_holds, job_view, launch_of, model_id, named_task,
    task_of, task_refusal, two_parts, without, Job, MlxRuntime, MlxTaskView,
};
use crate::model::{RentalKind, RentalStatus};
use crate::runtime::{
    container_plan, first_of, image_parts, labelled_all, last_of, lemma_first_of,
    lemma_last_of, lowest_free, no_port_text, port_taken, range_refusal, FoundContainer,
    RentalSpecView, RunningRental, RunningRentalView, StartedView,
};
use crate::text::{
    all_digits, behind_sign, decimal, digits, has_infix, has_prefix, is_digit, is_space,
    numbers_read_back, opt_text, read_int,
};

verus! {

// Commands and reports.

/// A command is carried out as it was given: a start with the rental, the image and the
/// whole key that it names, a stop of the rental that it names.
pub proof fn a_command_is_carried_out_as_given(
    rental_id: i64,
    image: Seq<char>,
    ssh_pubkey: Seq<char>,
)
    ensures
        action_of(CommandView::StartRental { rental_id, image, ssh_pubkey }) == ActionView::Start(
            RentalSpecView { rental_id, image, ssh_pubkey },
        ),
        action_of(CommandView::StopRental { rental_id }) == ActionView::Stop(rental_id),
{
}

/// A host reports what became of a command: a start that worked as running, with the
/// way to reach it; a stop that worked as stopped; and what failed as failed, with the
/// reason and nothing else.
pub proof fn outcomes_are_reported(
    rental_id: i64,
    started: StartedView,
    reason: Seq<char>,
)
    ensures
        report_of_start(rental_id, Ok(started)) == (ReportRequestView {
            rental_id,
            status: RentalStatus::Running,
            kind: Some(started.kind),
            ssh_port: Some(started.ssh_port),
            container_id: Some(started.container_id),
            error: None,
        }),
        report_of_stop(rental_id, Ok(())) == (ReportRequestView {
            rental_id,
            status: RentalStatus::Stopped,
            kind: None,
            ssh_port: None,
            container_id: None,
            error: None,
        }),
        report_of_start(rental_id, Err(reason)) == (ReportRequestView {
            rental_id,
            status: RentalStatus::Failed,
            kind: None,
            ssh_port: None,
            container_id: None,
            error: Some(reason),
        }),
        report_of_stop(rental_id, Err(reason)) == (ReportRequestView {
            rental_id,
            status: RentalStatus::Failed,
            kind: None,
            ssh_port: None,
            container_id: None,
            error: Some(reason),
        }),
{
}

/// A tenant reaches what was started: once the machine has reported a start of a live
/// rental, the rental runs and shows the machine's address with the port, the kind and
/// the container of the start.
pub proof fn a_started_rental_can_be_reached(
    m: Market,
    i: int,
    j: int,
    started: StartedView,
    now: i64,
)
    requires
        valid(m),
        0 <= i < m.machines.len(),
        0 <= j < m.rentals.len(),
        m.rentals[j].machine_id == m.machines[i].id,
        m.rentals[j].status == RentalStatus::Provisioning,
    ensures
        ({
            let n = after(
                m,
                Event::Report {
                    authorization: Some("Bearer "@ + m.machines[i].agent_token),
                    report: report_of_start(m.rentals[j].id, Ok(started)),
                    now,
                },
            );
            &&& n.rentals[j].status == RentalStatus::Running
            &&& n.rentals[j].ssh_host == Some(m.machines[i].public_ip)
            &&& n.rentals[j].ssh_port == Some(started.ssh_port as i64)
            &&& n.rentals[j].kind == started.kind
            &&& n.rentals[j].container_id == Some(started.container_id)
            &&& n.rentals[j].error is None
        }),
{
    the_bearer_is_the_machine(m, i);
    rentals_are_found(m, j);
}

// Ports.

/// A rental gets the lowest port of the range that no workload holds: it lies in the
/// range, nobody holds it, and every lower one is held.
pub proof fn the_lowest_free_port_is_taken(
    start: i32,
    end: i32,
    running: Seq<RunningRental>,
    port: i32,
    lower: i32,
)
    requires
        lowest_free(start, end, running, port),
    ensures
        start <= port <= end,
        forall|i: int| 0 <= i < running.len() ==> (#[trigger] running[i]).ssh_port != port,
        start <= lower < port ==> exists|i: int|
            0 <= i < running.len() && (#[trigger] running[i]).ssh_port == lower,
{
    assert(!port_taken(running, port));
    if start <= lower < port {
        assert(port_taken(running, lower));
    }
}

/// A port is free unless a workload holds it.
pub proof fn a_port_is_taken_by_who_holds_it(running: Seq<RunningRental>, port: i32)
    ensures
        port_taken(running, port) <==> exists|i: int|
            0 <= i < running.len() && (#[trigger] running[i]).ssh_port == port,
{
}

/// A range of ports that runs backwards, and one that is used up, are named in the
/// refusal by their ends.
pub proof fn port_refusals_name_the_range(what: Seq<char>, start: i32, end: i32)
    ensures
        range_refusal(start, end) == "port_start ("@ + decimal(start as int)
            + ") must be <= port_end ("@ + decimal(end as int) + ")"@,
        no_port_text(what, start, end) == "no free "@ + what + " in "@ + decimal(start as int)
            + "..="@ + decimal(end as int),
{
}

// Containers.

/// A container is made for its rental: of the tenant's image, with the tenant's whole
/// key in its environment under both names, named and labelled by the rental, its SSH
/// port reachable on the port it got, and with all GPUs.
pub proof fn a_container_is_made_for_its_rental(spec: RentalSpecView, port: i32)
    ensures
        ({
            let c = container_plan(spec, port);
            &&& c.image == spec.image
            &&& c.name == "vgpu-rental-"@ + decimal(spec.rental_id as int)
            &&& c.env == seq![
                "PUBLIC_KEY="@ + spec.ssh_pubkey,
                "SSH_PUBLIC_KEY="@ + spec.ssh_pubkey,
            ]
            &&& c.labels == seq![
                ("io.vgpu.rental_id"@, decimal(spec.rental_id as int)),
                ("io.vgpu.ssh_port"@, decimal(port as int)),
            ]
            &&& c.container_port == "22/tcp"@
            &&& c.host_ip == "0.0.0.0"@
            &&& c.host_port == decimal(port as int)
            &&& c.ssh_port == port
            &&& c.gpu_count == -1
            &&& c.gpu_capability == "gpu"@
        }),
{
}

/// A tag is what stands behind the last colon of an image, unless a slash follows the
/// colon: then it is the port of a registry, and the tag is `latest`, as for an image
/// without a colon.
pub proof fn a_tag_stands_behind_the_last_colon(repo: Seq<char>, tail: Seq<char>)
    requires
        forall|k: int| 0 <= k < tail.len() ==> #[trigger] tail[k] != ':',
    ensures
        (forall|k: int| 0 <= k < tail.len() ==> #[trigger] tail[k] != '/') ==> image_parts(
            repo + seq![':'] + tail,
        ) == (repo, tail),
        (exists|k: int| 0 <= k < tail.len() && #[trigger] tail[k] == '/') ==> image_parts(
            repo + seq![':'] + tail,
        ) == (repo + seq![':'] + tail, "latest"@),
        image_parts(tail) == (tail, "latest"@),
{
    let image = repo + seq![':'] + tail;
    let n = repo.len() as int;
    lemma_last_of(image, ':');
    lemma_last_of(tail, ':');
    assert(image[n] == ':');
    match last_of(image, ':') {
        Some(i) => {
            if i > n {
                assert(image[i] == tail[i - n - 1]);
            } else if i < n {
                assert(image[n] != ':');
            }
        },
        None => {},
    }
    assert(image.take(n) =~= repo);
    assert(image.skip(n + 1) =~= tail);
    if exists|k: int| 0 <= k < tail.len() && #[trigger] tail[k] == '/' {
        let k = choose|k: int| 0 <= k < tail.len() && #[trigger] tail[k] == '/';
        assert(tail.contains('/'));
    }
}

/// Workloads are found container by container: one whose two labels can be read adds
/// the rental and the port they tell of, with its own id, and no other adds anything.
pub proof fn workloads_are_found_by_their_labels(
    cs: Seq<FoundContainer>,
    c: FoundContainer,
    rental_id: i64,
    port: i32,
)
    ensures
        labelled_all(Seq::empty()) == Seq::<RunningRentalView>::empty(),
        opt_text(c.rental_label) == Some(decimal(rental_id as int)) && opt_text(c.port_label)
            == Some(decimal(port as int)) && c.id is Some ==> labelled_all(cs.push(c))
            == labelled_all(cs).push(
            RunningRentalView { rental_id, container_id: c.id->0@, ssh_port: port },
        ),
        c.rental_label is None || c.port_label is None ==> labelled_all(cs.push(c))
            == labelled_all(cs),
{
    numbers_read_back(rental_id as int);
    numbers_read_back(port as int);
    assert(cs.push(c).drop_last() =~= cs);
    assert(cs.push(c).last() == c);
}

// Jobs.

/// The name of a task and its argument are told apart by the first colon behind `mlx:`.
proof fn lemma_task(task: Seq<char>, arg: Seq<char>)
    requires
        forall|k: int| 0 <= k < task.len() ==> #[trigger] task[k] != ':',
    ensures
        ({
            let image = "mlx:"@ + task + ":"@ + arg;
            task_of(image) == named_task(image, task, Some(arg))
        }),
        task_of("mlx:"@ + task) == named_task("mlx:"@ + task, task, None),
{
    reveal_strlit(":");
    let head = "mlx:"@;
    let n = head.len() as int;
    let t = task.len() as int;
    let image = head + task + ":"@ + arg;
    let rest = task + ":"@ + arg;
    assert(image =~= head + rest);
    what_begins_a_text(head, rest, image);
    assert(image.skip(n) =~= rest);
    lemma_first_of(rest, ':');
    assert(rest[t] == ':');
    match first_of(rest, ':') {
        Some(i) => {
            if i < t {
                assert(rest[i] == task[i]);
            } else if i > t {
                assert(rest[t] != ':');
            }
        },
        None => {},
    }
    assert(rest.take(t) =~= task);
    assert(rest.skip(t + 1) =~= arg);
    let short = head + task;
    what_begins_a_text(head, task, short);
    assert(short.skip(n) =~= task);
    lemma_first_of(task, ':');
}

/// The names of the tasks differ and hold no colon.
proof fn lemma_task_names()
    ensures
        "gemm"@ != "generate"@,
        "selftest"@ != "generate"@,
        forall|k: int| 0 <= k < "gemm"@.len() ==> #[trigger] "gemm"@[k] != ':',
        forall|k: int| 0 <= k < "selftest"@.len() ==> #[trigger] "selftest"@[k] != ':',
        forall|k: int| 0 <= k < "generate"@.len() ==> #[trigger] "generate"@[k] != ':',
{
    reveal_strlit("gemm");
    reveal_strlit("selftest");
    reveal_strlit("generate");
    assert("gemm"@[1] == 'e' && "generate"@[1] == 'e');
    assert("gemm"@.len() == 4 && "generate"@.len() == 8);
    assert("selftest"@[0] == 's' && "generate"@[0] == 'g');
    assert forall|k: int| 0 <= k < "gemm"@.len() implies #[trigger] "gemm"@[k] != ':' by {
        assert(k == 0 || k == 1 || k == 2 || k == 3);
    }
    assert forall|k: int| 0 <= k < "selftest"@.len() implies #[trigger] "selftest"@[k] != ':' by {
        assert(k == 0 || k == 1 || k == 2 || k == 3 || k == 4 || k == 5 || k == 6 || k == 7);
    }
    assert forall|k: int| 0 <= k < "generate"@.len() implies #[trigger] "generate"@[k] != ':' by {
        assert(k == 0 || k == 1 || k == 2 || k == 3 || k == 4 || k == 5 || k == 6 || k == 7);
    }
}

/// A matrix job has the size that its image asks for: `mlx:gemm` and `mlx:selftest` run
/// at 2048, and with a number behind another colon at that, from 256 up to 16384. No
/// other size is run.
pub proof fn a_matrix_job_has_the_size_asked_for(n: nat)
    ensures
        task_of("mlx:"@ + "gemm"@) == Ok::<MlxTaskView, Seq<char>>(MlxTaskView::Gemm { n: 2048 }),
        task_of("mlx:"@ + "selftest"@) == Ok::<MlxTaskView, Seq<char>>(
            MlxTaskView::Gemm { n: 2048 },
        ),
        256 <= n <= 16384 ==> task_of("mlx:"@ + "gemm"@ + ":"@ + digits(n)) == Ok::<
            MlxTaskView,
            Seq<char>,
        >(MlxTaskView::Gemm { n: n as u32 }) && task_of("mlx:"@ + "selftest"@ + ":"@ + digits(n))
            == Ok::<MlxTaskView, Seq<char>>(MlxTaskView::Gemm { n: n as u32 }),
        n < 256 || n > 16384 ==> task_of("mlx:"@ + "gemm"@ + ":"@ + digits(n)) is Err && task_of(
            "mlx:"@ + "selftest"@ + ":"@ + digits(n),
        ) is Err,
{
    lemma_task_names();
    lemma_task("gemm"@, digits(n));
    lemma_task("selftest"@, digits(n));
    numbers_read_back(n as int);
    assert(decimal(n as int) == digits(n));
    lemma_unsigned_reads_digits(n);
}

proof fn lemma_unsigned_reads_digits(n: nat)
    ensures
        read_int(digits(n), false) == Some(n as int),
{
    numbers_read_back(n as int);
    let s = digits(n);
    assert(decimal(n as int) == s);
    assert(s.len() > 0);
    if s[0] == '-' {
        lemma_digits_only(n);
        assert(is_digit(s[0]));
    }
    assert(behind_sign(s, false) == behind_sign(s, true));
}

proof fn lemma_digits_only(n: nat)
    ensures
        digits(n).len() > 0,
        all_digits(digits(n)),
    decreases n,
{
    if n >= 10 {
        lemma_digits_only(n / 10);
        assert forall|i: int| 0 <= i < digits(n).len() implies is_digit(#[trigger] digits(n)[i]) by {
            if i < digits(n / 10).len() {
                assert(is_digit(digits(n / 10)[i]));
            }
        }
    }
}

/// A model is served just when its id is an organisation and a name: both made of
/// letters, digits, dots, dashes and underscores, with one slash between them, and no
/// two dots in a row.
pub proof fn which_models_are_served(org: Seq<char>, name: Seq<char>, model: Seq<char>)
    ensures
        ({
            let plain = forall|s: Seq<char>, k: int|
                #![trigger s[k]]
                (s == org || s == name) && 0 <= k < s.len() ==> 'a' <= s[k] <= 'z' || 'A' <= s[k]
                    <= 'Z' || '0' <= s[k] <= '9' || s[k] == '-' || s[k] == '_' || s[k] == '.';
            let id = org + seq!['/'] + name;
            org.len() > 0 && name.len() > 0 && plain && !has_infix(id, ".."@) ==> model_id(id)
                && task_of("mlx:"@ + "generate"@ + ":"@ + id) == Ok::<MlxTaskView, Seq<char>>(
                MlxTaskView::Generate { model: id },
            )
        }),
        model_id(model) ==> !has_infix(model, ".."@) && (exists|k: int|
            0 < k < model.len() - 1 && #[trigger] model[k] == '/') && forall|k: int|
            0 <= k < model.len() ==> 'a' <= #[trigger] model[k] <= 'z' || 'A' <= model[k] <= 'Z'
                || '0' <= model[k] <= '9' || model[k] == '-' || model[k] == '_' || model[k] == '.'
                || model[k] == '/',
        !model_id(model) ==> task_of("mlx:"@ + "generate"@ + ":"@ + model) is Err,
        model_id(model) ==> task_of("mlx:"@ + "generate"@ + ":"@ + model) == Ok::<
            MlxTaskView,
            Seq<char>,
        >(MlxTaskView::Generate { model }),
        task_of("mlx:"@ + "generate"@) is Err,
{
    lemma_task_names();
    let id = org + seq!['/'] + name;
    lemma_task("generate"@, id);
    lemma_task("generate"@, model);
    let plain = forall|s: Seq<char>, k: int|
        #![trigger s[k]]
        (s == org || s == name) && 0 <= k < s.len() ==> 'a' <= s[k] <= 'z' || 'A' <= s[k] <= 'Z'
            || '0' <= s[k] <= '9' || s[k] == '-' || s[k] == '_' || s[k] == '.';
    if org.len() > 0 && name.len() > 0 && plain && !has_infix(id, ".."@) {
        let k = org.len() as int;
        assert(id[k] == '/');
        assert forall|j: int| 0 <= j < id.len() && j != k implies #[trigger] id[j] != '/' by {
            if j < k {
                assert(id[j] == org[j]);
            } else {
                assert(id[j] == name[j - k - 1]);
            }
        }
        assert(two_parts(id, k));
        assert forall|j: int| 0 <= j < id.len() implies id_char(#[trigger] id[j]) by {
            if j < k {
                assert(id[j] == org[j]);
            } else if j > k {
                assert(id[j] == name[j - k - 1]);
            }
        }
    }
    if model_id(model) {
        let k = choose|k: int| #[trigger] two_parts(model, k);
        assert(model[k] == '/');
        assert forall|k: int| 0 <= k < model.len() implies 'a' <= #[trigger] model[k] <= 'z'
            || 'A' <= model[k] <= 'Z' || '0' <= model[k] <= '9' || model[k] == '-' || model[k]
            == '_' || model[k] == '.' || model[k] == '/' by {
            assert(id_char(model[k]));
        }
    }
}

/// Nothing but jobs is run: an image without `mlx:` in front is refused, and so is a
/// task that the host does not know.
pub proof fn nothing_but_jobs_is_run(image: Seq<char>, task: Seq<char>, arg: Seq<char>)
    requires
        !has_prefix(image, "mlx:"@),
        task != "gemm"@,
        task != "selftest"@,
        task != "generate"@,
        forall|k: int| 0 <= k < task.len() ==> #[trigger] task[k] != ':',
    ensures
        task_of(image) is Err,
        task_of("mlx:"@ + task) is Err,
        task_of("mlx:"@ + task + ":"@ + arg) is Err,
{
    lemma_task(task, arg);
}

/// A job is launched as a program of the host's Python with checked arguments: the
/// worker script with size and port for matrix products, the model server with the
/// model and the port for text. It is named by its rental, and the tenant is told how
/// it is reached.
pub proof fn a_job_is_launched_with_its_parameters(
    h: MlxRuntime,
    rental_id: i64,
    n: u32,
    model: Seq<char>,
    port: i32,
)
    ensures
        ({
            let l = launch_of(h, rental_id, MlxTaskView::Gemm { n }, port);
            &&& l.program == h.python@
            &&& l.args == seq![h.script_path@, digits(n as nat), decimal(port as int)]
            &&& l.container_id == "mlx-job-"@ + decimal(rental_id as int)
            &&& l.port == port
            &&& l.kind == RentalKind::HttpStatus
        }),
        ({
            let l = launch_of(h, rental_id, MlxTaskView::Generate { model }, port);
            &&& l.program == h.python@
            &&& l.args == seq![
                "-m"@,
                "mlx_lm.server"@,
                "--model"@,
                model,
                "--host"@,
                "0.0.0.0"@,
                "--port"@,
                decimal(port as int),
            ]
            &&& l.container_id == "mlx-job-"@ + decimal(rental_id as int)
            &&& l.port == port
            &&& l.kind == RentalKind::HttpOpenai
        }),
        task_refusal(h, MlxTaskView::Gemm { n }) is None <==> h.mlx_available,
        task_refusal(h, MlxTaskView::Generate { model }) is None <==> h.mlx_lm_available,
{
}

/// A port is held just by the jobs that serve on it, and a job is shown by its rental
/// and its port.
pub proof fn jobs_hold_their_ports(jobs: Seq<Job>, job: Job, port: i32)
    ensures
        job_holds(jobs, port) <==> exists|i: int|
            0 <= i < jobs.len() && (#[trigger] jobs[i]).port == port,
        job_view(job) == (RunningRentalView {
            rental_id: job.rental_id,
            container_id: "mlx-job-"@ + decimal(job.rental_id as int),
            ssh_port: job.port,
        }),
{
}

/// Stopping is told job by job: those of the rental go, and every other stays.
pub proof fn stopping_takes_only_the_jobs_of_the_rental(jobs: Seq<Job>, job: Job, rental_id: i64)
    ensures
        without(Seq::empty(), rental_id) == Seq::<Job>::empty(),
        job.rental_id == rental_id ==> without(jobs.push(job), rental_id) == without(
            jobs,
            rental_id,
        ),
        job.rental_id != rental_id ==> without(jobs.push(job), rental_id) == without(
            jobs,
            rental_id,
        ).push(job),
{
    reveal(Seq::filter);
    assert(jobs.push(job).drop_last() =~= jobs);
    assert(jobs.push(job).last() == job);
}

// Facts of a host.

/// A processor is shown by its brand, in full but for the white space around it; one
/// without a brand, or with a blank one, is unknown.
pub proof fn a_processor_is_shown_by_its_brand(brand: Seq<char>, from: int, to: int)
    ensures
        cpu_label(None) == "unknown"@,
        (forall|k: int| 0 <= k < brand.len() ==> is_space(#[trigger] brand[k])) ==> cpu_label(
            Some(brand),
        ) == "unknown"@,
        0 <= from < to <= brand.len() && (forall|k: int|
            0 <= k < from ==> is_space(#[trigger] brand[k])) && (forall|k: int|
            to <= k < brand.len() ==> is_space(#[trigger] brand[k])) && !is_space(brand[from])
            && !is_space(brand[to - 1]) ==> cpu_label(Some(brand)) == brand.subrange(from, to),
{
    only_white_space_trims_to_nothing(brand);
    if 0 <= from < to <= brand.len() && (forall|k: int|
        0 <= k < from ==> is_space(#[trigger] brand[k])) && (forall|k: int|
        to <= k < brand.len() ==> is_space(#[trigger] brand[k])) && !is_space(brand[from])
        && !is_space(brand[to - 1]) {
        trimming_takes_white_space_only(brand, from, to);
    }
}

/// The scratch disk is a largest one, and there is just one that is meant.
pub proof fn the_scratch_disk_is_the_largest(disks: Seq<DiskSeen>, i: int, j: int)
    requires
        is_scratch(disks, i),
    ensures
        0 <= i < disks.len(),
        0 <= j < disks.len() ==> disks[j].total_space <= disks[i].total_space,
        is_scratch(disks, j) ==> i == j,
        i < j < disks.len() ==> disks[j].total_space < disks[i].total_space,
{
    if is_scratch(disks, j) && i != j {
        if i < j {
            assert(disks[j].total_space < disks[i].total_space);
        } else {
            assert(disks[i].total_space < disks[j].total_space);
        }
        assert(disks[i].total_space <= disks[j].total_space);
    }
}

} // verus!
